//! The logger builder: a stable name and the dispatches of a logger, kept in the order of their
//! registration.
use vstd::prelude::*;

verus! {

/// The logger that a builder builds: an optional stable name and its dispatches, in the order
/// in which they were registered.
#[derive(Debug)]
pub struct Logger<D> {
    name: Option<&'static str>,
    dispatches: Vec<D>,
}

impl<D> Logger<D> {
    pub closed spec fn spec_name(&self) -> Option<Seq<char>> {
        match self.name {
            Some(n) => Some(n@),
            None => None,
        }
    }

    pub closed spec fn spec_dispatches(&self) -> Seq<D> {
        self.dispatches@
    }

    /// The logger's name, if it has one.
    pub fn name(&self) -> (r: Option<&'static str>)
        ensures
            match r {
                Some(n) => self.spec_name() == Some(n@),
                None => self.spec_name() is None,
            },
    {
        self.name
    }

    /// The dispatches, in the order of registration.
    pub fn dispatches(&self) -> (r: &[D])
        ensures
            r@ == self.spec_dispatches(),
    {
        self.dispatches.as_slice()
    }
}

/// A builder for configuring log dispatching.
#[derive(Debug)]
pub struct LoggerBuilder<D> {
    name: Option<&'static str>,
    dispatches: Vec<D>,
}

/// Create a new empty [`LoggerBuilder`]: no name and no dispatch.
pub fn builder<D>() -> (r: LoggerBuilder<D>)
    ensures
        r.spec_name() is None,
        r.spec_dispatches().len() == 0,
{
    LoggerBuilder { name: None, dispatches: Vec::new() }
}

impl<D> LoggerBuilder<D> {
    pub closed spec fn spec_name(&self) -> Option<Seq<char>> {
        match self.name {
            Some(n) => Some(n@),
            None => None,
        }
    }

    pub closed spec fn spec_dispatches(&self) -> Seq<D> {
        self.dispatches@
    }

    /// Assign a stable name to the logger.
    pub fn name(self, name: &'static str) -> (r: LoggerBuilder<D>)
        ensures
            r.spec_name() == Some(name@),
            r.spec_dispatches() == self.spec_dispatches(),
    {
        LoggerBuilder { name: Some(name), dispatches: self.dispatches }
    }

    /// Register a new dispatch, after those registered before.
    pub fn dispatch(self, dispatch: D) -> (r: LoggerBuilder<D>)
        ensures
            r.spec_name() == self.spec_name(),
            r.spec_dispatches() == self.spec_dispatches().push(dispatch),
    {
        let mut ds = self.dispatches;
        ds.push(dispatch);
        LoggerBuilder { name: self.name, dispatches: ds }
    }

    /// Build the logger.
    pub fn build(self) -> (r: Logger<D>)
        ensures
            r.spec_name() == self.spec_name(),
            r.spec_dispatches() == self.spec_dispatches(),
    {
        Logger { name: self.name, dispatches: self.dispatches }
    }
}

} // verus!
