//! Task-local diagnostics: the contexts of the futures that are being polled on the current
//! thread, kept as a stack. The thread-local storage and the futures are the caller's.
use vstd::prelude::*;

verus! {

/// A diagnostic that gives the key-values of the task-local contexts.
#[derive(Debug, Clone, Copy, Default)]
pub struct TaskLocalDiagnostic {}

impl TaskLocalDiagnostic {
    /// The diagnostic.
    pub fn new() -> (r: TaskLocalDiagnostic) {
        TaskLocalDiagnostic {}
    }
}

/// The contexts entered on a thread, the first entered first.
#[derive(Debug)]
pub struct ContextStack<C> {
    contexts: Vec<C>,
}

impl<C> ContextStack<C> {
    pub closed spec fn spec_contexts(&self) -> Seq<C> {
        self.contexts@
    }

    /// An empty stack.
    pub fn new() -> (r: ContextStack<C>)
        ensures
            r.spec_contexts().len() == 0,
    {
        ContextStack { contexts: Vec::new() }
    }

    /// Enters a context while a future is polled.
    pub fn push(&mut self, context: C)
        ensures
            final(self).spec_contexts() == old(self).spec_contexts().push(context),
    {
        self.contexts.push(context);
    }

    /// Leaves after a poll: removes the context entered last, so that the stack is as it was
    /// before that context was entered. An empty stack stays empty.
    pub fn pop(&mut self)
        ensures
            final(self).spec_contexts() == if old(self).spec_contexts().len() == 0 {
                old(self).spec_contexts()
            } else {
                old(self).spec_contexts().drop_last()
            },
    {
        let _ = self.contexts.pop();
    }

    /// The contexts, the first entered first.
    pub fn contexts(&self) -> (r: &[C])
        ensures
            r@ == self.spec_contexts(),
    {
        self.contexts.as_slice()
    }
}

/// The context of a future nested in another: the enclosing context, where there is one,
/// followed by the new key-values.
pub fn extend_context(parent: Option<&Vec<(String, String)>>, kvs: Vec<(String, String)>) -> (r: Vec<
    (String, String),
>)
    ensures
        r@ == (match parent {
            Some(p) => p@,
            None => Seq::empty(),
        }) + kvs@,
{
    let mut context: Vec<(String, String)> = Vec::new();
    match parent {
        Some(p) => {
            let n = p.len();
            for i in 0..n
                invariant
                    n == p@.len(),
                    context@ == p@.take(i as int),
            {
                let (k, v) = &p[i];
                context.push((k.clone(), v.clone()));
                assert(context@ =~= p@.take(i + 1));
            }
            assert(p@.take(n as int) =~= p@);
        },
        None => {},
    }
    let mut kvs = kvs;
    context.append(&mut kvs);
    context
}

} // verus!
