//! The three-outcome query protocol shared by every combinator.

use vstd::prelude::*;

verus! {

/// The result of one non-blocking query of a sequence: an item was produced,
/// the sequence has ended for good, or nothing is ready yet and the caller
/// should query again once the wake-up mechanism fires.
#[derive(Debug, PartialEq, Eq)]
pub enum QueryOutcome<T> {
    Produced(T),
    Exhausted,
    NotReady,
}

/// What a combinator decides after feeding one upstream outcome into its
/// state: either the upstream must be queried again within the same
/// downstream query, or the downstream query settles on an outcome.
#[derive(Debug, PartialEq, Eq)]
pub enum QueryStep<T> {
    QueryAgain,
    Settled(QueryOutcome<T>),
}

/// Relates a modelled outcome to the outcome an implementation hands out:
/// they carry the same tag, and a produced item may be a clone of the
/// modelled item (combinators that re-emit a remembered item duplicate it).
pub open spec fn outcome_cloned<T: Clone>(model: QueryOutcome<T>, actual: QueryOutcome<T>) -> bool {
    match model {
        QueryOutcome::Produced(x) => actual matches QueryOutcome::Produced(y) && cloned(x, y),
        QueryOutcome::Exhausted => actual is Exhausted,
        QueryOutcome::NotReady => actual is NotReady,
    }
}

/// The items a downstream consumer accumulates from a sequence of query
/// outcomes: produced items are kept in order, not-ready outcomes are
/// queried past, and the first exhaustion ends the collection.
pub open spec fn gathered<T>(outs: Seq<QueryOutcome<T>>) -> Seq<T>
    decreases outs.len(),
{
    if outs.len() == 0 {
        Seq::empty()
    } else {
        match outs[0] {
            QueryOutcome::Produced(x) => seq![x] + gathered(outs.drop_first()),
            QueryOutcome::Exhausted => Seq::empty(),
            QueryOutcome::NotReady => gathered(outs.drop_first()),
        }
    }
}

} // verus!
