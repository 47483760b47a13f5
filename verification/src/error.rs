//! The error type of the library.
use vstd::prelude::*;

use crate::text::{join, push_str};

verus! {

/// Renders an I/O error with its `Display` implementation.
///
/// Trusted: the call only formats; nothing is stated of the text, which the error decides.
#[verifier::external_body]
fn io_error_display(e: &std::io::Error) -> String {
    format!("{e}")
}

/// Renders a formatting error with its `Display` implementation.
///
/// Trusted: the call only formats; nothing is stated of the text.
#[verifier::external_body]
fn fmt_error_display(e: &std::fmt::Error) -> String {
    format!("{e}")
}

/// The error struct of logforth.
///
/// An error has a message, a list of context entries and a list of sources. A source is kept as
/// the text that its `Display` implementation renders.
#[derive(Debug)]
pub struct Error {
    message: String,
    source_texts: Vec<String>,
    context: Vec<(&'static str, String)>,
}

/// The `key: value` rendering of each context entry.
pub open spec fn context_entries(ctx: Seq<(Seq<char>, Seq<char>)>) -> Seq<Seq<char>> {
    Seq::new(ctx.len(), |i: int| ctx[i].0 + ": "@ + ctx[i].1)
}

/// The texts of the sources added by a run of steps, in the order of the steps: a step is the
/// text of a source (`with_source`) or `None` (`with_context`).
pub open spec fn added_sources(steps: Seq<Option<Seq<char>>>) -> Seq<Seq<char>>
    decreases steps.len(),
{
    if steps.len() == 0 {
        seq![]
    } else {
        let rest = added_sources(steps.drop_last());
        match steps.last() {
            Some(t) => rest.push(t),
            None => rest,
        }
    }
}

/// The display text of an error with the given message, context and source texts.
pub open spec fn display_text(
    message: Seq<char>,
    ctx: Seq<(Seq<char>, Seq<char>)>,
    sources: Seq<Seq<char>>,
) -> Seq<char> {
    message + (if ctx.len() == 0 {
        seq![]
    } else {
        ", context: { "@ + join(context_entries(ctx), ", "@) + " }"@
    }) + (if sources.len() == 0 {
        seq![]
    } else {
        ", sources: ["@ + join(sources, ", "@) + "]"@
    })
}

impl Error {
    /// The message of the error.
    pub closed spec fn message(&self) -> Seq<char> {
        self.message@
    }

    /// The context entries of the error, in insertion order.
    pub closed spec fn context(&self) -> Seq<(Seq<char>, Seq<char>)> {
        Seq::new(self.context@.len(), |i: int| (self.context@[i].0@, self.context@[i].1@))
    }

    /// The display text of each source, in insertion order.
    pub closed spec fn source_texts(&self) -> Seq<Seq<char>> {
        Seq::new(self.source_texts@.len(), |i: int| self.source_texts@[i]@)
    }

    /// The display text of the error.
    pub open spec fn spec_display(&self) -> Seq<char> {
        display_text(self.message(), self.context(), self.source_texts())
    }

    /// Create a new Error with the given message.
    pub fn new(message: String) -> (r: Error)
        ensures
            r.message() == message@,
            r.context() == Seq::<(Seq<char>, Seq<char>)>::empty(),
            r.source_texts() == Seq::<Seq<char>>::empty(),
    {
        let r = Error { message, source_texts: Vec::new(), context: Vec::new() };
        assert(r.context() =~= Seq::<(Seq<char>, Seq<char>)>::empty());
        assert(r.source_texts() =~= Seq::<Seq<char>>::empty());
        r
    }

    /// Add one more context in error.
    pub fn with_context(self, key: &'static str, value: String) -> (r: Error)
        ensures
            r.message() == self.message(),
            r.context() == self.context().push((key@, value@)),
            r.source_texts() == self.source_texts(),
    {
        let mut s = self;
        s.context.push((key, value));
        assert(s.context() =~= self.context().push((key@, value@)));
        assert(s.source_texts() =~= self.source_texts());
        s
    }

    /// Add one more source in error, given by its display text.
    pub fn with_source(self, src: String) -> (r: Error)
        ensures
            r.message() == self.message(),
            r.context() == self.context(),
            r.source_texts() == self.source_texts().push(src@),
    {
        let mut s = self;
        s.source_texts.push(src);
        assert(s.context() =~= self.context());
        assert(s.source_texts() =~= self.source_texts().push(src@));
        s
    }

    /// Add another error of this library as one more source.
    pub fn with_error_source(self, src: &Error) -> (r: Error)
        ensures
            r.message() == self.message(),
            r.context() == self.context(),
            r.source_texts() == self.source_texts().push(src.spec_display()),
    {
        let text = src.to_string();
        self.with_source(text)
    }

    /// Return the display texts of all sources of this error.
    pub fn sources(&self) -> (r: &[String])
        ensures
            r@.len() == self.source_texts().len(),
            forall|i: int| 0 <= i < r@.len() ==> #[trigger] r@[i]@ == self.source_texts()[i],
    {
        self.source_texts.as_slice()
    }

    /// The display text of the first source, the one that `std::error::Error::source` gives.
    pub fn first_source(&self) -> (r: Option<&str>)
        ensures
            r is Some <==> self.source_texts().len() > 0,
            r matches Some(t) ==> t@ == self.source_texts()[0],
    {
        if self.source_texts.len() > 0 {
            Some(self.source_texts[0].as_str())
        } else {
            None
        }
    }

    /// Default constructor for [`Error`] from an I/O error.
    pub fn from_io_error(err: std::io::Error) -> (r: Error)
        ensures
            r.message() == "failed to perform io"@,
            r.context().len() == 0,
            r.source_texts().len() == 1,
    {
        Error::new("failed to perform io".to_string()).with_source(io_error_display(&err))
    }

    /// Default constructor for [`Error`] from a formatting error.
    pub fn from_fmt_error(err: std::fmt::Error) -> (r: Error)
        ensures
            r.message() == "failed to perform format"@,
            r.context().len() == 0,
            r.source_texts().len() == 1,
    {
        Error::new("failed to perform format".to_string()).with_source(fmt_error_display(&err))
    }

    /// The display text of the error: its message, then its context and its sources.
    pub fn to_string(&self) -> (r: String)
        ensures
            r@ == self.spec_display(),
    {
        let mut r = self.message.clone();
        let n = self.context.len();
        if n > 0 {
            push_str(&mut r, ", context: { ");
            let ghost start = r@;
            let ghost ctx = self.context();
            let ghost entries = context_entries(ctx);
            for i in 0..n
                invariant
                    n == self.context@.len(),
                    ctx == self.context(),
                    entries == context_entries(ctx),
                    n > 0,
                    r@ == start + join(entries.take(i as int), ", "@),
            {
                let ghost before = r@;
                if i > 0 {
                    push_str(&mut r, ", ");
                }
                push_str(&mut r, self.context[i].0);
                push_str(&mut r, ": ");
                push_str(&mut r, self.context[i].1.as_str());
                proof {
                    let e = entries.take(i + 1);
                    assert(e.drop_last() =~= entries.take(i as int));
                    assert(e.last() == entries[i as int]);
                    let item = self.context@[i as int].0@ + ": "@ + self.context@[i as int].1@;
                    assert(entries[i as int] == item);
                    if i > 0 {
                        assert(r@ =~= before + ", "@ + item);
                        assert(join(e, ", "@) == join(e.drop_last(), ", "@) + ", "@ + e.last());
                        assert(r@ =~= start + join(e, ", "@));
                    } else {
                        assert(r@ =~= before + item);
                        assert(join(e, ", "@) == e[0]);
                        assert(r@ =~= start + join(e, ", "@));
                    }
                }
            }
            assert(entries.take(n as int) =~= entries);
            push_str(&mut r, " }");
        }
        let ghost mid = r@;
        let m = self.source_texts.len();
        if m > 0 {
            push_str(&mut r, ", sources: [");
            let ghost start = r@;
            let ghost texts = self.source_texts();
            for i in 0..m
                invariant
                    m == self.source_texts@.len(),
                    texts == self.source_texts(),
                    m > 0,
                    r@ == start + join(texts.take(i as int), ", "@),
            {
                if i > 0 {
                    push_str(&mut r, ", ");
                }
                push_str(&mut r, self.source_texts[i].as_str());
                proof {
                    let e = texts.take(i + 1);
                    assert(e.drop_last() =~= texts.take(i as int));
                    assert(e.last() == texts[i as int]);
                    if i > 0 {
                        assert(join(e, ", "@) == join(e.drop_last(), ", "@) + ", "@ + e.last());
                        assert(r@ =~= start + join(e, ", "@));
                    } else {
                        assert(join(e, ", "@) == e[0]);
                        assert(r@ =~= start + join(e, ", "@));
                    }
                }
            }
            assert(texts.take(m as int) =~= texts);
            push_str(&mut r, "]");
        }
        proof {
            reveal_strlit(", context: { ");
            reveal_strlit(" }");
            reveal_strlit(", sources: [");
            reveal_strlit("]");
        }
        assert(r@ =~= self.spec_display());
        r
    }
}

/// Sources keep the order of the calls that added them, whatever context entries come between:
/// along a chain of errors, each made from the one before by `with_source` (the step is the
/// source's text) or by `with_context` (the step is `None`), the last error's sources are those
/// of the first followed by the texts added, in the order of the calls.
pub proof fn lemma_sources_in_call_order(chain: Seq<Error>, steps: Seq<Option<Seq<char>>>)
    requires
        chain.len() == steps.len() + 1,
        forall|i: int|
            0 < i < chain.len() ==> (#[trigger] chain[i]).source_texts() == match steps[i - 1] {
                Some(t) => chain[i - 1].source_texts().push(t),
                None => chain[i - 1].source_texts(),
            },
    ensures
        chain.last().source_texts() == chain[0].source_texts() + added_sources(steps),
    decreases steps.len(),
{
    if steps.len() == 0 {
        assert(chain[0].source_texts() + added_sources(steps) =~= chain[0].source_texts());
    } else {
        let c = chain.drop_last();
        let n = steps.len();
        assert forall|i: int| 0 < i < c.len() implies (#[trigger] c[i]).source_texts() == match steps.drop_last()[i - 1] {
            Some(t) => c[i - 1].source_texts().push(t),
            None => c[i - 1].source_texts(),
        } by {
            assert(c[i] == chain[i]);
        }
        lemma_sources_in_call_order(c, steps.drop_last());
        assert(chain[n as int] == chain.last());
        assert(c.last() == chain[n - 1]);
        match steps.last() {
            Some(t) => {
                assert(chain[0].source_texts() + added_sources(steps) =~= (chain[0].source_texts()
                    + added_sources(steps.drop_last())).push(t));
            },
            None => {},
        }
    }
}

} // verus!
