//! Filters decide whether a log record is logged.
use vstd::prelude::*;

verus! {

/// The result of a filter check.
#[derive(Clone, Copy, Debug, PartialEq, Eq, Structural)]
pub enum FilterResult {
    /// The record will be processed without further filtering.
    Accept,
    /// The record should not be processed.
    Reject,
    /// No decision could be made, further filtering should occur.
    Neutral,
}

/// Whether a record passes a chain of filters with these results, in order: the first result
/// that is not `Neutral` decides (`Accept` lets the record through, `Reject` stops it); a record
/// that no filter decides is processed.
pub open spec fn chain_admits(results: Seq<FilterResult>) -> bool
    decreases results.len(),
{
    if results.len() == 0 {
        true
    } else {
        match results[0] {
            FilterResult::Accept => true,
            FilterResult::Reject => false,
            FilterResult::Neutral => chain_admits(results.drop_first()),
        }
    }
}

/// Whether a record passes a chain of filters with these results.
pub fn filters_admit(results: &[FilterResult]) -> (r: bool)
    ensures
        r == chain_admits(results@),
{
    let mut i: usize = 0;
    let n = results.len();
    assert(results@.skip(0) =~= results@);
    while i < n
        invariant
            n == results@.len(),
            i <= n,
            chain_admits(results@) == chain_admits(results@.skip(i as int)),
        decreases n - i,
    {
        assert(results@.skip(i as int)[0] == results@[i as int]);
        match results[i] {
            FilterResult::Accept => return true,
            FilterResult::Reject => return false,
            FilterResult::Neutral => {},
        }
        assert(results@.skip(i as int).drop_first() =~= results@.skip(i + 1));
        i = i + 1;
    }
    true
}

} // verus!
