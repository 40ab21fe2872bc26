//! `ZipBiased` and `TryZipBiased`: combinators that pair items from two
//! independent sequences with a left bias — the right sequence is only ever
//! queried, exactly once per pair, after a left item is already in hand, so
//! a stalled left producer never causes a spurious query of the right one.

use vstd::prelude::*;

use crate::outcome::{QueryOutcome, QueryStep};
use crate::source::{script_event, script_rest, ScriptedSource};

verus! {

/// The pending-left slot of a biased zip: no left item yet, a left item in
/// hand awaiting a right item, or the left sequence exhausted for good.
#[derive(Debug, PartialEq, Eq)]
pub enum LeftSlot<T> {
    Empty,
    Held(T),
    Finished,
}

/// The outcome of the right-hand phase of one downstream query, once a left
/// item is in hand, over a script of right upstream outcomes: the slot
/// after the query, the outcome told downstream, and the remaining script.
///
/// Right exhaustion ends this query's output but is deliberately not
/// remembered by the raw combinator: the slot is cleared, and a later query
/// consults the left side again.  Only left exhaustion is terminal here;
/// the fallible variant resolves the right-side case by terminating.
pub open spec fn zip_right_phase<L, R>(x: L, revs: Seq<QueryOutcome<R>>) -> (LeftSlot<
    L,
>, QueryOutcome<(L, R)>, Seq<QueryOutcome<R>>) {
    match script_event(revs) {
        QueryOutcome::Produced(y) => (
            LeftSlot::Empty,
            QueryOutcome::Produced((x, y)),
            script_rest(revs),
        ),
        QueryOutcome::Exhausted => (LeftSlot::Empty, QueryOutcome::Exhausted, script_rest(revs)),
        QueryOutcome::NotReady => (LeftSlot::Held(x), QueryOutcome::NotReady, script_rest(revs)),
    }
}

/// The outcome of one downstream query of `ZipBiased` over scripts of left
/// and right upstream outcomes: the slot after the query, the outcome told
/// downstream, and the remaining scripts.  The right script is untouched
/// unless a left item is in hand.
pub open spec fn zip_query<L, R>(
    slot: LeftSlot<L>,
    levs: Seq<QueryOutcome<L>>,
    revs: Seq<QueryOutcome<R>>,
) -> (LeftSlot<L>, QueryOutcome<(L, R)>, Seq<QueryOutcome<L>>, Seq<QueryOutcome<R>>) {
    match slot {
        LeftSlot::Empty => match script_event(levs) {
            QueryOutcome::Produced(x) => {
                let (slot2, out, revs2) = zip_right_phase(x, revs);
                (slot2, out, script_rest(levs), revs2)
            },
            QueryOutcome::Exhausted => (
                LeftSlot::Finished,
                QueryOutcome::Exhausted,
                script_rest(levs),
                revs,
            ),
            QueryOutcome::NotReady => (
                LeftSlot::Empty,
                QueryOutcome::NotReady,
                script_rest(levs),
                revs,
            ),
        },
        LeftSlot::Held(x) => {
            let (slot2, out, revs2) = zip_right_phase(x, revs);
            (slot2, out, levs, revs2)
        },
        LeftSlot::Finished => (LeftSlot::Finished, QueryOutcome::Exhausted, levs, revs),
    }
}

/// The pairs a downstream consumer accumulates from `ZipBiased` over whole
/// left and right scripts: items are paired in order until either side's
/// exhaustion ends the sequence.
pub open spec fn zip_collected<L, R>(
    slot: LeftSlot<L>,
    levs: Seq<QueryOutcome<L>>,
    revs: Seq<QueryOutcome<R>>,
) -> Seq<(L, R)>
    decreases levs.len() + revs.len(),
{
    match slot {
        LeftSlot::Empty => {
            if levs.len() == 0 {
                Seq::empty()
            } else {
                match levs[0] {
                    QueryOutcome::Produced(x) => zip_collected(
                        LeftSlot::Held(x),
                        levs.drop_first(),
                        revs,
                    ),
                    QueryOutcome::Exhausted => Seq::empty(),
                    QueryOutcome::NotReady => zip_collected(
                        LeftSlot::Empty,
                        levs.drop_first(),
                        revs,
                    ),
                }
            }
        },
        LeftSlot::Held(x) => {
            if revs.len() == 0 {
                Seq::empty()
            } else {
                match revs[0] {
                    QueryOutcome::Produced(y) => seq![(x, y)] + zip_collected(
                        LeftSlot::Empty,
                        levs,
                        revs.drop_first(),
                    ),
                    QueryOutcome::Exhausted => Seq::empty(),
                    QueryOutcome::NotReady => zip_collected(
                        LeftSlot::Held(x),
                        levs,
                        revs.drop_first(),
                    ),
                }
            }
        },
        LeftSlot::Finished => Seq::empty(),
    }
}

/// If the left sequence is exhausted from the start, the zipped output is
/// empty whatever the right sequence holds — the right sequence is never
/// even queried.
pub proof fn lemma_zip_left_empty<L, R>(levs: Seq<QueryOutcome<L>>, revs: Seq<QueryOutcome<R>>)
    requires
        levs.len() == 0 || levs[0] is Exhausted,
    ensures
        zip_collected(LeftSlot::Empty, levs, revs) =~= Seq::<(L, R)>::empty(),
        zip_query(LeftSlot::<L>::Empty, levs, revs).3 == revs,
{
}

/// If the right sequence is exhausted from the start, the zipped output is
/// empty: as soon as the left sequence produces its first item, the right
/// sequence reports exhaustion and ends the zip.
pub proof fn lemma_zip_right_empty<L, R>(levs: Seq<QueryOutcome<L>>, revs: Seq<QueryOutcome<R>>)
    requires
        revs.len() == 0 || revs[0] is Exhausted,
    ensures
        zip_collected(LeftSlot::Empty, levs, revs) =~= Seq::<(L, R)>::empty(),
    decreases levs.len(),
{
    if levs.len() > 0 {
        match levs[0] {
            QueryOutcome::Produced(x) => {
                assert(zip_collected(LeftSlot::Held(x), levs.drop_first(), revs) =~= Seq::<(
                    L,
                    R,
                )>::empty());
            },
            QueryOutcome::NotReady => {
                lemma_zip_right_empty::<L, R>(levs.drop_first(), revs);
            },
            QueryOutcome::Exhausted => {},
        }
    }
}

/// The whole-script collection is exactly what a downstream consumer that
/// queries repeatedly accumulates: one query settles on an outcome, a
/// produced pair is kept, and collection goes on from the resulting slot
/// and scripts until exhaustion.
pub proof fn lemma_zip_query_collected<L, R>(
    slot: LeftSlot<L>,
    levs: Seq<QueryOutcome<L>>,
    revs: Seq<QueryOutcome<R>>,
)
    ensures
        zip_collected(slot, levs, revs) =~= {
            let (slot2, out, levs2, revs2) = zip_query(slot, levs, revs);
            match out {
                QueryOutcome::Produced(p) => seq![p] + zip_collected(slot2, levs2, revs2),
                QueryOutcome::Exhausted => Seq::empty(),
                QueryOutcome::NotReady => zip_collected(slot2, levs2, revs2),
            }
        },
{
    match slot {
        LeftSlot::Empty => {
            if levs.len() > 0 {
                match levs[0] {
                    QueryOutcome::Produced(x) => {
                        lemma_zip_right_phase_collected(x, levs.drop_first(), revs);
                    },
                    QueryOutcome::Exhausted => {},
                    QueryOutcome::NotReady => {},
                }
            }
        },
        LeftSlot::Held(x) => {
            lemma_zip_right_phase_collected(x, levs, revs);
        },
        LeftSlot::Finished => {},
    }
}

/// The collection that starts with a left item in hand follows the
/// right-hand phase of one query.
proof fn lemma_zip_right_phase_collected<L, R>(
    x: L,
    levs: Seq<QueryOutcome<L>>,
    revs: Seq<QueryOutcome<R>>,
)
    ensures
        zip_collected(LeftSlot::Held(x), levs, revs) =~= {
            let (slot2, out, revs2) = zip_right_phase(x, revs);
            match out {
                QueryOutcome::Produced(p) => seq![p] + zip_collected(slot2, levs, revs2),
                QueryOutcome::Exhausted => Seq::empty(),
                QueryOutcome::NotReady => zip_collected(slot2, levs, revs2),
            }
        },
{
}

/// While no left item is in hand, a query that settles without a left item
/// being produced leaves the right sequence untouched: the bias never wakes
/// the right producer for nothing.
pub proof fn lemma_zip_right_untouched<L, R>(levs: Seq<QueryOutcome<L>>, revs: Seq<QueryOutcome<R>>)
    requires
        !(script_event(levs) is Produced),
    ensures
        zip_query(LeftSlot::<L>::Empty, levs, revs).3 == revs,
{
}

/// Pairs items from a left and a right sequence, fully committing to a left
/// item before the right sequence is queried at all.
pub struct ZipBiased<L> {
    /// The pending left item, if one is in hand.
    pub slot: LeftSlot<L>,
}

impl<L> ZipBiased<L> {
    /// A fresh combinator with no left item in hand.
    pub fn new() -> (s: Self)
        ensures
            s.slot is Empty,
    {
        ZipBiased { slot: LeftSlot::Empty }
    }

    /// Whether the left sequence was seen exhausted; from then on every
    /// query reports exhaustion and neither upstream is queried again.
    pub fn is_finished(&self) -> (b: bool)
        ensures
            b == (self.slot is Finished),
    {
        match &self.slot {
            LeftSlot::Finished => true,
            _ => false,
        }
    }

    /// Whether a left item is in hand, so the next upstream query of this
    /// downstream query goes to the right sequence.
    pub fn holds_left(&self) -> (b: bool)
        ensures
            b == (self.slot is Held),
    {
        match &self.slot {
            LeftSlot::Held(_) => true,
            _ => false,
        }
    }

    /// Feeds one outcome of the left sequence into a combinator that holds
    /// no left item.  `QueryAgain` means a left item is now in hand and the
    /// right sequence must be queried within the same downstream query.
    pub fn on_left<R>(&mut self, ev: QueryOutcome<L>) -> (step: QueryStep<(L, R)>)
        requires
            old(self).slot is Empty,
        ensures
            match ev {
                QueryOutcome::Produced(x) => final(self).slot == LeftSlot::Held(x) && step
                    == QueryStep::<(L, R)>::QueryAgain,
                QueryOutcome::Exhausted => final(self).slot is Finished && step == QueryStep::<(
                    L,
                    R,
                )>::Settled(QueryOutcome::Exhausted),
                QueryOutcome::NotReady => final(self).slot is Empty && step == QueryStep::<(
                    L,
                    R,
                )>::Settled(QueryOutcome::NotReady),
            },
    {
        match ev {
            QueryOutcome::Produced(x) => {
                self.slot = LeftSlot::Held(x);
                QueryStep::QueryAgain
            },
            QueryOutcome::Exhausted => {
                self.slot = LeftSlot::Finished;
                QueryStep::Settled(QueryOutcome::Exhausted)
            },
            QueryOutcome::NotReady => QueryStep::Settled(QueryOutcome::NotReady),
        }
    }

    /// Feeds one outcome of the right sequence into a combinator that holds
    /// a left item; this always settles the downstream query.  A produced
    /// right item forms the pair and clears the slot; a not-ready right
    /// sequence retains the left item, so the left sequence is not queried
    /// again on the next downstream query.
    pub fn on_right<R>(&mut self, ev: QueryOutcome<R>) -> (r: QueryOutcome<(L, R)>)
        requires
            old(self).slot is Held,
        ensures
            match ev {
                QueryOutcome::Produced(y) => final(self).slot is Empty && r
                    == QueryOutcome::Produced((old(self).slot->Held_0, y)),
                QueryOutcome::Exhausted => final(self).slot is Empty && r is Exhausted,
                QueryOutcome::NotReady => final(self).slot == old(self).slot && r is NotReady,
            },
    {
        let mut held = LeftSlot::Empty;
        core::mem::swap(&mut self.slot, &mut held);
        match held {
            LeftSlot::Held(x) => match ev {
                QueryOutcome::Produced(y) => QueryOutcome::Produced((x, y)),
                QueryOutcome::Exhausted => QueryOutcome::Exhausted,
                QueryOutcome::NotReady => {
                    self.slot = LeftSlot::Held(x);
                    QueryOutcome::NotReady
                },
            },
            _ => QueryOutcome::NotReady,
        }
    }

    /// One downstream query, driven against scripted left and right
    /// upstreams.  The right upstream is untouched unless a left item is in
    /// hand, and once the left upstream was seen exhausted the query
    /// reports exhaustion without touching either upstream.
    pub fn query<R>(
        &mut self,
        left: &mut ScriptedSource<L>,
        right: &mut ScriptedSource<R>,
    ) -> (r: QueryOutcome<(L, R)>)
        ensures
            (final(self).slot, r, final(left)@, final(right)@) == zip_query(
                old(self).slot,
                old(left)@,
                old(right)@,
            ),
    {
        let mut held = LeftSlot::Empty;
        core::mem::swap(&mut self.slot, &mut held);
        let x = match held {
            LeftSlot::Finished => {
                self.slot = LeftSlot::Finished;
                return QueryOutcome::Exhausted;
            },
            LeftSlot::Held(x) => x,
            LeftSlot::Empty => {
                match left.next_event() {
                    QueryOutcome::Produced(x) => x,
                    QueryOutcome::Exhausted => {
                        self.slot = LeftSlot::Finished;
                        return QueryOutcome::Exhausted;
                    },
                    QueryOutcome::NotReady => {
                        return QueryOutcome::NotReady;
                    },
                }
            },
        };
        match right.next_event() {
            QueryOutcome::Produced(y) => QueryOutcome::Produced((x, y)),
            QueryOutcome::Exhausted => QueryOutcome::Exhausted,
            QueryOutcome::NotReady => {
                self.slot = LeftSlot::Held(x);
                QueryOutcome::NotReady
            },
        }
    }
}

/// The right-hand phase of one downstream query of `TryZipBiased`: a failed
/// right item short-circuits, discarding the held left item and terminating
/// the combinator; right exhaustion is also terminal, so once it has been
/// reported, exhaustion sticks and neither upstream is queried again.
pub open spec fn try_zip_right_phase<L, R, E>(x: L, revs: Seq<QueryOutcome<Result<R, E>>>) -> (
    LeftSlot<L>,
    QueryOutcome<Result<(L, R), E>>,
    Seq<QueryOutcome<Result<R, E>>>,
) {
    match script_event(revs) {
        QueryOutcome::Produced(item) => match item {
            Ok(y) => (
                LeftSlot::Empty,
                QueryOutcome::Produced(Result::<(L, R), E>::Ok((x, y))),
                script_rest(revs),
            ),
            Err(e) => (
                LeftSlot::Finished,
                QueryOutcome::Produced(Result::<(L, R), E>::Err(e)),
                script_rest(revs),
            ),
        },
        QueryOutcome::Exhausted => (LeftSlot::Finished, QueryOutcome::Exhausted, script_rest(revs)),
        QueryOutcome::NotReady => (LeftSlot::Held(x), QueryOutcome::NotReady, script_rest(revs)),
    }
}

/// The outcome of one downstream query of `TryZipBiased` over scripts of
/// left and right upstream outcomes.  The first failure from either side is
/// reported at once and puts the combinator into its terminal state.
pub open spec fn try_zip_query<L, R, E>(
    slot: LeftSlot<L>,
    levs: Seq<QueryOutcome<Result<L, E>>>,
    revs: Seq<QueryOutcome<Result<R, E>>>,
) -> (
    LeftSlot<L>,
    QueryOutcome<Result<(L, R), E>>,
    Seq<QueryOutcome<Result<L, E>>>,
    Seq<QueryOutcome<Result<R, E>>>,
) {
    match slot {
        LeftSlot::Empty => match script_event(levs) {
            QueryOutcome::Produced(item) => match item {
                Ok(x) => {
                    let (slot2, out, revs2) = try_zip_right_phase(x, revs);
                    (slot2, out, script_rest(levs), revs2)
                },
                Err(e) => (
                    LeftSlot::Finished,
                    QueryOutcome::Produced(Result::<(L, R), E>::Err(e)),
                    script_rest(levs),
                    revs,
                ),
            },
            QueryOutcome::Exhausted => (
                LeftSlot::Finished,
                QueryOutcome::Exhausted,
                script_rest(levs),
                revs,
            ),
            QueryOutcome::NotReady => (
                LeftSlot::Empty,
                QueryOutcome::NotReady,
                script_rest(levs),
                revs,
            ),
        },
        LeftSlot::Held(x) => {
            let (slot2, out, revs2) = try_zip_right_phase(x, revs);
            (slot2, out, levs, revs2)
        },
        LeftSlot::Finished => (LeftSlot::Finished, QueryOutcome::Exhausted, levs, revs),
    }
}

/// The items a downstream consumer accumulates from `TryZipBiased` over
/// whole left and right scripts: pairs of successful items in order, ended
/// by either side's exhaustion or by the first failure, which is emitted as
/// the last item.
pub open spec fn try_zip_collected<L, R, E>(
    slot: LeftSlot<L>,
    levs: Seq<QueryOutcome<Result<L, E>>>,
    revs: Seq<QueryOutcome<Result<R, E>>>,
) -> Seq<Result<(L, R), E>>
    decreases levs.len() + revs.len(),
{
    match slot {
        LeftSlot::Empty => {
            if levs.len() == 0 {
                Seq::empty()
            } else {
                match levs[0] {
                    QueryOutcome::Produced(item) => match item {
                        Ok(x) => try_zip_collected(LeftSlot::Held(x), levs.drop_first(), revs),
                        Err(e) => seq![Result::<(L, R), E>::Err(e)],
                    },
                    QueryOutcome::Exhausted => Seq::empty(),
                    QueryOutcome::NotReady => try_zip_collected(
                        LeftSlot::Empty,
                        levs.drop_first(),
                        revs,
                    ),
                }
            }
        },
        LeftSlot::Held(x) => {
            if revs.len() == 0 {
                Seq::empty()
            } else {
                match revs[0] {
                    QueryOutcome::Produced(item) => match item {
                        Ok(y) => seq![Result::<(L, R), E>::Ok((x, y))] + try_zip_collected(
                            LeftSlot::Empty,
                            levs,
                            revs.drop_first(),
                        ),
                        Err(e) => seq![Result::<(L, R), E>::Err(e)],
                    },
                    QueryOutcome::Exhausted => Seq::empty(),
                    QueryOutcome::NotReady => try_zip_collected(
                        LeftSlot::Held(x),
                        levs,
                        revs.drop_first(),
                    ),
                }
            }
        },
        LeftSlot::Finished => Seq::empty(),
    }
}

/// The whole-script collection is exactly what a downstream consumer that
/// queries repeatedly accumulates, stopping at exhaustion or at the first
/// failure from either side.
pub proof fn lemma_try_zip_query_collected<L, R, E>(
    slot: LeftSlot<L>,
    levs: Seq<QueryOutcome<Result<L, E>>>,
    revs: Seq<QueryOutcome<Result<R, E>>>,
)
    ensures
        try_zip_collected(slot, levs, revs) =~= {
            let (slot2, out, levs2, revs2) = try_zip_query(slot, levs, revs);
            match out {
                QueryOutcome::Produced(item) => match item {
                    Ok(p) => seq![Result::<(L, R), E>::Ok(p)] + try_zip_collected(
                        slot2,
                        levs2,
                        revs2,
                    ),
                    Err(e) => seq![Result::<(L, R), E>::Err(e)],
                },
                QueryOutcome::Exhausted => Seq::empty(),
                QueryOutcome::NotReady => try_zip_collected(slot2, levs2, revs2),
            }
        },
{
    match slot {
        LeftSlot::Empty => {
            if levs.len() > 0 {
                match levs[0] {
                    QueryOutcome::Produced(item) => match item {
                        Ok(x) => {
                            lemma_try_zip_right_phase_collected::<L, R, E>(
                                x,
                                levs.drop_first(),
                                revs,
                            );
                        },
                        Err(_) => {},
                    },
                    QueryOutcome::Exhausted => {},
                    QueryOutcome::NotReady => {},
                }
            }
        },
        LeftSlot::Held(x) => {
            lemma_try_zip_right_phase_collected::<L, R, E>(x, levs, revs);
        },
        LeftSlot::Finished => {},
    }
}

/// The collection that starts with a left item in hand follows the
/// right-hand phase of one query.
proof fn lemma_try_zip_right_phase_collected<L, R, E>(
    x: L,
    levs: Seq<QueryOutcome<Result<L, E>>>,
    revs: Seq<QueryOutcome<Result<R, E>>>,
)
    ensures
        try_zip_collected(LeftSlot::Held(x), levs, revs) =~= {
            let (slot2, out, revs2) = try_zip_right_phase::<L, R, E>(x, revs);
            match out {
                QueryOutcome::Produced(item) => match item {
                    Ok(p) => seq![Result::<(L, R), E>::Ok(p)] + try_zip_collected(
                        slot2,
                        levs,
                        revs2,
                    ),
                    Err(e) => seq![Result::<(L, R), E>::Err(e)],
                },
                QueryOutcome::Exhausted => Seq::empty(),
                QueryOutcome::NotReady => try_zip_collected(slot2, levs, revs2),
            }
        },
{
}

/// A failure can only ever be the last item `TryZipBiased` emits: every
/// earlier accumulated item is a successfully zipped pair.
pub proof fn lemma_try_zip_failure_is_final<L, R, E>(
    slot: LeftSlot<L>,
    levs: Seq<QueryOutcome<Result<L, E>>>,
    revs: Seq<QueryOutcome<Result<R, E>>>,
)
    ensures
        forall|i: int|
            0 <= i < try_zip_collected(slot, levs, revs).len() - 1 ==> (#[trigger] try_zip_collected(
                slot,
                levs,
                revs,
            )[i]) is Ok,
    decreases levs.len() + revs.len(),
{
    match slot {
        LeftSlot::Empty => {
            if levs.len() > 0 {
                match levs[0] {
                    QueryOutcome::Produced(item) => match item {
                        Ok(x) => {
                            lemma_try_zip_failure_is_final(
                                LeftSlot::Held(x),
                                levs.drop_first(),
                                revs,
                            );
                        },
                        Err(_) => {},
                    },
                    QueryOutcome::Exhausted => {},
                    QueryOutcome::NotReady => {
                        lemma_try_zip_failure_is_final(
                            LeftSlot::<L>::Empty,
                            levs.drop_first(),
                            revs,
                        );
                    },
                }
            }
        },
        LeftSlot::Held(x) => {
            if revs.len() > 0 {
                match revs[0] {
                    QueryOutcome::Produced(item) => match item {
                        Ok(_) => {
                            lemma_try_zip_failure_is_final(
                                LeftSlot::<L>::Empty,
                                levs,
                                revs.drop_first(),
                            );
                        },
                        Err(_) => {},
                    },
                    QueryOutcome::Exhausted => {},
                    QueryOutcome::NotReady => {
                        lemma_try_zip_failure_is_final(
                            LeftSlot::Held(x),
                            levs,
                            revs.drop_first(),
                        );
                    },
                }
            }
        },
        LeftSlot::Finished => {},
    }
}

/// Whenever a query of `TryZipBiased` reports a failure, the combinator is
/// left in its terminal state, so every later query reports exhaustion: a
/// failure is propagated exactly once and never retried.
pub proof fn lemma_try_zip_error_terminates<L, R, E>(
    slot: LeftSlot<L>,
    levs: Seq<QueryOutcome<Result<L, E>>>,
    revs: Seq<QueryOutcome<Result<R, E>>>,
)
    requires
        try_zip_query(slot, levs, revs).1 matches QueryOutcome::Produced(item) && item is Err,
    ensures
        try_zip_query(slot, levs, revs).0 is Finished,
        forall|levs2: Seq<QueryOutcome<Result<L, E>>>, revs2: Seq<QueryOutcome<Result<R, E>>>|
            (#[trigger] try_zip_query(LeftSlot::<L>::Finished, levs2, revs2)).1 is Exhausted,
{
}

/// `ZipBiased` for fallible sequences: the first failure from either side
/// short-circuits, discarding any held left item, and afterwards every
/// query reports exhaustion without either upstream being queried again.
/// Unlike the raw combinator, exhaustion of either side is terminal here.
pub struct TryZipBiased<L> {
    /// The pending left item; `Finished` is the terminal state, reached on
    /// either side's exhaustion or on the first failure from either side.
    pub slot: LeftSlot<L>,
}

impl<L> TryZipBiased<L> {
    /// A fresh combinator with no left item in hand.
    pub fn new() -> (s: Self)
        ensures
            s.slot is Empty,
    {
        TryZipBiased { slot: LeftSlot::Empty }
    }

    /// Whether the combinator has reached its terminal state; from then on
    /// every query reports exhaustion and neither upstream is queried.
    pub fn is_finished(&self) -> (b: bool)
        ensures
            b == (self.slot is Finished),
    {
        match &self.slot {
            LeftSlot::Finished => true,
            _ => false,
        }
    }

    /// Whether a left item is in hand, so the next upstream query of this
    /// downstream query goes to the right sequence.
    pub fn holds_left(&self) -> (b: bool)
        ensures
            b == (self.slot is Held),
    {
        match &self.slot {
            LeftSlot::Held(_) => true,
            _ => false,
        }
    }

    /// Feeds one outcome of the left sequence into a combinator that holds
    /// no left item.  A failed left item is reported at once and terminates
    /// the combinator.
    pub fn on_left<R, E>(&mut self, ev: QueryOutcome<Result<L, E>>) -> (step: QueryStep<
        Result<(L, R), E>,
    >)
        requires
            old(self).slot is Empty,
        ensures
            match ev {
                QueryOutcome::Produced(item) => match item {
                    Ok(x) => final(self).slot == LeftSlot::Held(x) && step == QueryStep::<
                        Result<(L, R), E>,
                    >::QueryAgain,
                    Err(e) => final(self).slot is Finished && step == QueryStep::Settled(
                        QueryOutcome::Produced(Result::<(L, R), E>::Err(e)),
                    ),
                },
                QueryOutcome::Exhausted => final(self).slot is Finished && step == QueryStep::<
                    Result<(L, R), E>,
                >::Settled(QueryOutcome::Exhausted),
                QueryOutcome::NotReady => final(self).slot is Empty && step == QueryStep::<
                    Result<(L, R), E>,
                >::Settled(QueryOutcome::NotReady),
            },
    {
        match ev {
            QueryOutcome::Produced(item) => match item {
                Ok(x) => {
                    self.slot = LeftSlot::Held(x);
                    QueryStep::QueryAgain
                },
                Err(e) => {
                    self.slot = LeftSlot::Finished;
                    QueryStep::Settled(QueryOutcome::Produced(Err(e)))
                },
            },
            QueryOutcome::Exhausted => {
                self.slot = LeftSlot::Finished;
                QueryStep::Settled(QueryOutcome::Exhausted)
            },
            QueryOutcome::NotReady => QueryStep::Settled(QueryOutcome::NotReady),
        }
    }

    /// Feeds one outcome of the right sequence into a combinator that holds
    /// a left item; this always settles the downstream query.  A failed
    /// right item discards the held left item and terminates the
    /// combinator, and right exhaustion terminates it as well.
    pub fn on_right<R, E>(&mut self, ev: QueryOutcome<Result<R, E>>) -> (r: QueryOutcome<
        Result<(L, R), E>,
    >)
        requires
            old(self).slot is Held,
        ensures
            match ev {
                QueryOutcome::Produced(item) => match item {
                    Ok(y) => final(self).slot is Empty && r == QueryOutcome::Produced(
                        Result::<(L, R), E>::Ok((old(self).slot->Held_0, y)),
                    ),
                    Err(e) => final(self).slot is Finished && r == QueryOutcome::Produced(
                        Result::<(L, R), E>::Err(e),
                    ),
                },
                QueryOutcome::Exhausted => final(self).slot is Finished && r is Exhausted,
                QueryOutcome::NotReady => final(self).slot == old(self).slot && r is NotReady,
            },
    {
        let mut held = LeftSlot::Empty;
        core::mem::swap(&mut self.slot, &mut held);
        match held {
            LeftSlot::Held(x) => match ev {
                QueryOutcome::Produced(item) => match item {
                    Ok(y) => QueryOutcome::Produced(Ok((x, y))),
                    Err(e) => {
                        self.slot = LeftSlot::Finished;
                        QueryOutcome::Produced(Err(e))
                    },
                },
                QueryOutcome::Exhausted => {
                    self.slot = LeftSlot::Finished;
                    QueryOutcome::Exhausted
                },
                QueryOutcome::NotReady => {
                    self.slot = LeftSlot::Held(x);
                    QueryOutcome::NotReady
                },
            },
            _ => QueryOutcome::NotReady,
        }
    }

    /// One downstream query, driven against scripted left and right
    /// upstreams.  Once the combinator has reached its terminal state the
    /// query reports exhaustion without touching either upstream.
    pub fn query<R, E>(
        &mut self,
        left: &mut ScriptedSource<Result<L, E>>,
        right: &mut ScriptedSource<Result<R, E>>,
    ) -> (r: QueryOutcome<Result<(L, R), E>>)
        ensures
            (final(self).slot, r, final(left)@, final(right)@) == try_zip_query(
                old(self).slot,
                old(left)@,
                old(right)@,
            ),
    {
        let mut held = LeftSlot::Empty;
        core::mem::swap(&mut self.slot, &mut held);
        let x = match held {
            LeftSlot::Finished => {
                self.slot = LeftSlot::Finished;
                return QueryOutcome::Exhausted;
            },
            LeftSlot::Held(x) => x,
            LeftSlot::Empty => {
                match left.next_event() {
                    QueryOutcome::Produced(item) => match item {
                        Ok(x) => x,
                        Err(e) => {
                            self.slot = LeftSlot::Finished;
                            return QueryOutcome::Produced(Err(e));
                        },
                    },
                    QueryOutcome::Exhausted => {
                        self.slot = LeftSlot::Finished;
                        return QueryOutcome::Exhausted;
                    },
                    QueryOutcome::NotReady => {
                        return QueryOutcome::NotReady;
                    },
                }
            },
        };
        match right.next_event() {
            QueryOutcome::Produced(item) => match item {
                Ok(y) => QueryOutcome::Produced(Ok((x, y))),
                Err(e) => {
                    self.slot = LeftSlot::Finished;
                    QueryOutcome::Produced(Err(e))
                },
            },
            QueryOutcome::Exhausted => {
                self.slot = LeftSlot::Finished;
                QueryOutcome::Exhausted
            },
            QueryOutcome::NotReady => {
                self.slot = LeftSlot::Held(x);
                QueryOutcome::NotReady
            },
        }
    }
}

} // verus!
