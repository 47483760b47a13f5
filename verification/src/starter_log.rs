//! Starter configurations for setting up the library with the `log` crate: the dispatches of the
//! default logger, the filter that a starter uses by default, and the outcome of installing the
//! global loggers, which the caller installs.
use vstd::prelude::*;

use crate::error::Error;
use crate::logger::{LoggerBuilder, Logger};
use crate::rustlog::{spec_build, spec_directives, upsert_all, RustLogFilter, RustLogFilterBuilder};

verus! {

/// A builder for setting up the library with the `log` crate.
pub struct LogStarterBuilder<D> {
    builder: LoggerBuilder<D>,
}

/// Create a new empty [`LogStarterBuilder`].
pub fn builder<D>() -> (r: LogStarterBuilder<D>)
    ensures
        r.spec_builder().spec_name() is None,
        r.spec_builder().spec_dispatches().len() == 0,
{
    LogStarterBuilder { builder: crate::logger::builder() }
}

impl<D> LogStarterBuilder<D> {
    pub closed spec fn spec_builder(&self) -> LoggerBuilder<D> {
        self.builder
    }

    /// Register a new dispatch.
    pub fn dispatch(self, dispatch: D) -> (r: LogStarterBuilder<D>)
        ensures
            r.spec_builder().spec_name() == self.spec_builder().spec_name(),
            r.spec_builder().spec_dispatches() == self.spec_builder().spec_dispatches().push(
                dispatch,
            ),
    {
        LogStarterBuilder { builder: self.builder.dispatch(dispatch) }
    }

    /// The logger to install as the default logger.
    pub fn into_logger(self) -> (r: Logger<D>)
        ensures
            r.spec_name() == self.spec_builder().spec_name(),
            r.spec_dispatches() == self.spec_builder().spec_dispatches(),
    {
        self.builder.build()
    }

    /// The outcome of installing the loggers: installing the default logger comes first, and
    /// only where it succeeded is the `log` bridge installed (`bridge_installed` is then its
    /// outcome, and is `None` where it was not tried).
    pub fn try_apply(logger_installed: bool, bridge_installed: Option<bool>) -> (r: Result<(), Error>)
        requires
            logger_installed <==> bridge_installed is Some,
        ensures
            !logger_installed ==> (r matches Err(e) && e.message()
                == "logforth default logger has been already setup"@),
            logger_installed && bridge_installed == Some(false) ==> (r matches Err(e)
                && e.message() == "log global logger has been already setup"@),
            logger_installed && bridge_installed == Some(true) ==> r is Ok,
    {
        if !logger_installed {
            return Err(Error::new("logforth default logger has been already setup".to_string()));
        }
        match bridge_installed {
            Some(true) => Ok(()),
            _ => Err(Error::new("log global logger has been already setup".to_string())),
        }
    }
}

/// The filter of the starters: the directives of the `RUST_LOG` value, where it is set, or
/// else the default directive.
pub fn default_filter(rust_log: Option<&str>) -> (r: RustLogFilter)
    ensures
        r.spec_directives() == spec_build(
            match rust_log {
                Some(s) => upsert_all(seq![], spec_directives(s@)),
                None => Seq::empty(),
            },
        ),
{
    RustLogFilterBuilder::from_env_value(rust_log).build()
}

} // verus!
