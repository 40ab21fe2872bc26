//! Upstream sequences with fully known behaviour: a scripted sequence that
//! replays a fixed list of query outcomes, and a sequence that stays
//! not-ready for a fixed number of queries before producing a single value.
//!
//! The combinators are driven against these when their end-to-end behaviour
//! is exercised; a live upstream feeds the combinators through their step
//! functions instead.

use vstd::prelude::*;

use crate::outcome::QueryOutcome;

verus! {

/// The outcome a script hands out next: its first entry, or exhaustion once
/// the script has run out.
pub open spec fn script_event<T>(evs: Seq<QueryOutcome<T>>) -> QueryOutcome<T> {
    if evs.len() == 0 {
        QueryOutcome::Exhausted
    } else {
        evs[0]
    }
}

/// What remains of a script after one query.
pub open spec fn script_rest<T>(evs: Seq<QueryOutcome<T>>) -> Seq<QueryOutcome<T>> {
    if evs.len() == 0 {
        evs
    } else {
        evs.drop_first()
    }
}

/// A sequence that replays a fixed script of query outcomes, in order, and
/// reports exhaustion forever once the script has run out.
pub struct ScriptedSource<T> {
    events: Vec<QueryOutcome<T>>,
}

impl<T> View for ScriptedSource<T> {
    type V = Seq<QueryOutcome<T>>;

    closed spec fn view(&self) -> Seq<QueryOutcome<T>> {
        self.events@
    }
}

impl<T> ScriptedSource<T> {
    /// Wraps a script; the outcomes are handed out front to back.
    pub fn new(events: Vec<QueryOutcome<T>>) -> (s: Self)
        ensures
            s@ == events@,
    {
        ScriptedSource { events }
    }

    /// One query of the scripted sequence.
    pub fn next_event(&mut self) -> (ev: QueryOutcome<T>)
        ensures
            ev == script_event(old(self)@),
            final(self)@ == script_rest(old(self)@),
    {
        if self.events.len() == 0 {
            QueryOutcome::Exhausted
        } else {
            let ev = self.events.remove(0);
            proof {
                assert(old(self)@.remove(0) =~= old(self)@.drop_first());
            }
            ev
        }
    }
}

/// A sequence that reports not-ready for `polls` queries, then produces
/// `value` once, and is exhausted from then on.
pub struct DelayedSource<V> {
    /// Queries still to be answered with a not-ready outcome.
    pub remaining: usize,
    /// The value still to be produced, if it has not been handed out yet.
    pub value: Option<V>,
}

/// A sequence that stays not-ready for `polls` queries before producing
/// `value`; after the value is produced it is exhausted.
pub fn ready_after_n_polls<V>(value: V, polls: usize) -> (s: DelayedSource<V>)
    ensures
        s.remaining == polls,
        s.value == Some(value),
{
    DelayedSource { remaining: polls, value: Some(value) }
}

impl<V> DelayedSource<V> {
    /// One query of the delayed sequence.
    pub fn query(&mut self) -> (r: QueryOutcome<V>)
        ensures
            old(self).remaining > 0 ==> {
                &&& r is NotReady
                &&& final(self).remaining == old(self).remaining - 1
                &&& final(self).value == old(self).value
            },
            old(self).remaining == 0 ==> match old(self).value {
                Some(v) => {
                    &&& r == QueryOutcome::Produced(v)
                    &&& final(self).remaining == 0
                    &&& final(self).value is None
                },
                None => {
                    &&& r is Exhausted
                    &&& *final(self) == *old(self)
                },
            },
    {
        if self.remaining > 0 {
            self.remaining = self.remaining - 1;
            QueryOutcome::NotReady
        } else {
            let produced = self.value.take();
            match produced {
                Some(v) => QueryOutcome::Produced(v),
                None => QueryOutcome::Exhausted,
            }
        }
    }
}

} // verus!
