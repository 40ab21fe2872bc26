//! `Expand` and `TryExpand`: combinators that trade staleness for never
//! blocking the downstream — whenever the upstream is not ready, the last
//! produced item is re-emitted instead of propagating the not-ready outcome.

use vstd::prelude::*;

use crate::outcome::{gathered, outcome_cloned, QueryOutcome};
use crate::source::{script_event, script_rest, ScriptedSource};

verus! {

/// The single remembered outcome of an expanding combinator: nothing has
/// been produced yet, the last produced item, or a terminal event was seen.
#[derive(Debug, PartialEq, Eq)]
pub enum Remembered<T> {
    Vacant,
    Stored(T),
    Finished,
}

/// How `Expand`'s memory evolves when one upstream outcome is observed.
pub open spec fn expand_next_memory<T>(m: Remembered<T>, ev: QueryOutcome<T>) -> Remembered<T> {
    match ev {
        QueryOutcome::Produced(x) => Remembered::Stored(x),
        QueryOutcome::Exhausted => Remembered::Finished,
        QueryOutcome::NotReady => m,
    }
}

/// What `Expand` emits downstream when one upstream outcome is observed:
/// produced items and exhaustion pass through; a not-ready upstream is
/// papered over with the remembered item when there is one.
pub open spec fn expand_output<T>(m: Remembered<T>, ev: QueryOutcome<T>) -> QueryOutcome<T> {
    match ev {
        QueryOutcome::Produced(x) => QueryOutcome::Produced(x),
        QueryOutcome::Exhausted => QueryOutcome::Exhausted,
        QueryOutcome::NotReady => match m {
            Remembered::Vacant => QueryOutcome::NotReady,
            Remembered::Stored(x) => QueryOutcome::Produced(x),
            Remembered::Finished => QueryOutcome::Exhausted,
        },
    }
}

/// The memory after a whole sequence of upstream outcomes has been observed.
pub open spec fn expand_memory_after<T>(m: Remembered<T>, evs: Seq<QueryOutcome<T>>) -> Remembered<
    T,
>
    decreases evs.len(),
{
    if evs.len() == 0 {
        m
    } else {
        expand_memory_after(expand_next_memory(m, evs[0]), evs.drop_first())
    }
}

/// The downstream outcomes emitted for a whole sequence of upstream
/// outcomes; `Expand` consumes exactly one upstream outcome per query.
pub open spec fn expand_outputs<T>(m: Remembered<T>, evs: Seq<QueryOutcome<T>>) -> Seq<
    QueryOutcome<T>,
>
    decreases evs.len(),
{
    if evs.len() == 0 {
        Seq::empty()
    } else {
        seq![expand_output(m, evs[0])] + expand_outputs(
            expand_next_memory(m, evs[0]),
            evs.drop_first(),
        )
    }
}

/// Splitting a sequence of upstream outcomes splits the emitted outcomes
/// accordingly, with the memory carried across the split.
pub proof fn lemma_expand_outputs_concat<T>(
    m: Remembered<T>,
    a: Seq<QueryOutcome<T>>,
    b: Seq<QueryOutcome<T>>,
)
    ensures
        expand_outputs(m, a + b) =~= expand_outputs(m, a) + expand_outputs(
            expand_memory_after(m, a),
            b,
        ),
        expand_memory_after(m, a + b) == expand_memory_after(expand_memory_after(m, a), b),
    decreases a.len(),
{
    if a.len() == 0 {
        assert(a + b =~= b);
    } else {
        let m2 = expand_next_memory(m, a[0]);
        lemma_expand_outputs_concat(m2, a.drop_first(), b);
        assert((a + b).drop_first() =~= a.drop_first() + b);
    }
}

/// `Expand` is a no-op on an upstream that never reports not ready: every
/// upstream outcome is passed through unchanged.
pub proof fn lemma_expand_identity<T>(m: Remembered<T>, evs: Seq<QueryOutcome<T>>)
    requires
        forall|i: int| 0 <= i < evs.len() ==> !(evs[i] is NotReady),
    ensures
        expand_outputs(m, evs) =~= evs,
    decreases evs.len(),
{
    if evs.len() > 0 {
        lemma_expand_identity(expand_next_memory(m, evs[0]), evs.drop_first());
    }
}

/// After a run of produced items the memory holds the most recent of them.
pub proof fn lemma_expand_memory_after_produced<T>(m: Remembered<T>, evs: Seq<QueryOutcome<T>>)
    requires
        evs.len() > 0,
        forall|i: int| 0 <= i < evs.len() ==> evs[i] is Produced,
    ensures
        expand_memory_after(m, evs) == Remembered::Stored(evs.last()->Produced_0),
    decreases evs.len(),
{
    if evs.len() > 1 {
        lemma_expand_memory_after_produced(expand_next_memory(m, evs[0]), evs.drop_first());
        assert(evs.drop_first().last() == evs.last());
    } else {
        assert(evs.last() == evs[0]);
        assert(expand_memory_after(expand_next_memory(m, evs[0]), evs.drop_first())
            == expand_next_memory(m, evs[0]));
    }
}

/// While the upstream stays not ready, a remembered item is re-emitted on
/// every query and the memory never changes.
pub proof fn lemma_expand_repeats_while_not_ready<T>(x: T, evs: Seq<QueryOutcome<T>>)
    requires
        forall|i: int| 0 <= i < evs.len() ==> evs[i] is NotReady,
    ensures
        expand_outputs(Remembered::Stored(x), evs) =~= Seq::new(
            evs.len(),
            |i: int| QueryOutcome::Produced(x),
        ),
        expand_memory_after(Remembered::Stored(x), evs) == Remembered::Stored(x),
    decreases evs.len(),
{
    if evs.len() > 0 {
        lemma_expand_repeats_while_not_ready(x, evs.drop_first());
    }
}

/// For an upstream that produces some items and then stays not ready, the
/// downstream sees those items followed by the last one over and over: the
/// combinator trades staleness for never blocking.
pub proof fn lemma_expand_repeats_last<T>(items: Seq<T>, n: nat)
    requires
        items.len() > 0,
    ensures
        expand_outputs(
            Remembered::Vacant,
            items.map_values(|x: T| QueryOutcome::Produced(x)) + Seq::new(
                n,
                |i: int| QueryOutcome::NotReady,
            ),
        ) =~= items.map_values(|x: T| QueryOutcome::Produced(x)) + Seq::new(
            n,
            |i: int| QueryOutcome::Produced(items.last()),
        ),
{
    let produced = items.map_values(|x: T| QueryOutcome::Produced(x));
    let gaps = Seq::new(n, |i: int| QueryOutcome::<T>::NotReady);
    lemma_expand_outputs_concat(Remembered::Vacant, produced, gaps);
    lemma_expand_identity(Remembered::Vacant, produced);
    lemma_expand_memory_after_produced(Remembered::Vacant, produced);
    assert(produced.last() == QueryOutcome::Produced(items.last()));
    lemma_expand_repeats_while_not_ready(items.last(), gaps);
}

/// Once any item has ever been produced (or the upstream has ended),
/// `Expand` never answers a query with a not-ready outcome again, whatever
/// the upstream reports.
pub proof fn lemma_expand_never_not_ready_after_item<T>(m: Remembered<T>, ev: QueryOutcome<T>)
    requires
        !(m is Vacant),
    ensures
        !(expand_output(m, ev) is NotReady),
{
}

/// An upstream that is exhausted from the start yields an empty sequence:
/// nothing is ever emitted downstream.
pub proof fn lemma_expand_empty_upstream<T>(evs: Seq<QueryOutcome<T>>)
    requires
        evs.len() == 0 || evs[0] is Exhausted,
    ensures
        gathered(expand_outputs(Remembered::Vacant, evs)) =~= Seq::<T>::empty(),
{
    if evs.len() > 0 {
        let outs = expand_outputs(Remembered::Vacant, evs);
        assert(outs[0] is Exhausted);
    }
}

/// Once `Expand` has seen its upstream exhausted, it keeps reporting
/// exhaustion as long as the upstream does not produce again (a well-behaved
/// exhausted upstream never does).
pub proof fn lemma_expand_exhausted_sticky<T>(evs: Seq<QueryOutcome<T>>)
    requires
        forall|i: int| 0 <= i < evs.len() ==> !(evs[i] is Produced),
    ensures
        expand_outputs(Remembered::Finished, evs) =~= Seq::new(
            evs.len(),
            |i: int| QueryOutcome::Exhausted,
        ),
        expand_memory_after(Remembered::Finished, evs) == Remembered::<T>::Finished,
    decreases evs.len(),
{
    if evs.len() > 0 {
        lemma_expand_exhausted_sticky::<T>(evs.drop_first());
    }
}

/// The whole-script collection is exactly what a downstream consumer that
/// queries repeatedly accumulates: one query consumes one upstream outcome
/// (none once terminated), the emitted item is kept, and collection goes on
/// with the evolved memory until exhaustion.
pub proof fn lemma_try_expand_query_collected<T, E>(
    m: Remembered<T>,
    evs: Seq<QueryOutcome<Result<T, E>>>,
)
    requires
        !(m is Finished),
    ensures
        try_expand_collected(m, evs) =~= match try_expand_output(m, script_event(evs)) {
            QueryOutcome::Produced(item) => match item {
                Ok(x) => seq![Result::<T, E>::Ok(x)] + try_expand_collected(
                    try_expand_next_memory(m, script_event(evs)),
                    script_rest(evs),
                ),
                Err(e) => seq![Result::<T, E>::Err(e)],
            },
            QueryOutcome::Exhausted => Seq::empty(),
            QueryOutcome::NotReady => try_expand_collected(m, script_rest(evs)),
        },
{
}

/// A failure can only ever be the last item `TryExpand` emits: every
/// earlier accumulated item is a successful one.
pub proof fn lemma_try_expand_failure_is_final<T, E>(
    m: Remembered<T>,
    evs: Seq<QueryOutcome<Result<T, E>>>,
)
    ensures
        forall|i: int|
            0 <= i < try_expand_collected(m, evs).len() - 1 ==> (#[trigger] try_expand_collected(
                m,
                evs,
            )[i]) is Ok,
    decreases evs.len(),
{
    if !(m is Finished) && evs.len() > 0 {
        match evs[0] {
            QueryOutcome::Produced(item) => match item {
                Ok(x) => {
                    lemma_try_expand_failure_is_final(
                        Remembered::Stored(x),
                        evs.drop_first(),
                    );
                },
                Err(_) => {},
            },
            QueryOutcome::Exhausted => {},
            QueryOutcome::NotReady => {
                lemma_try_expand_failure_is_final(m, evs.drop_first());
            },
        }
    }
}

/// `TryExpand` forwards successful items until the first failed item, emits
/// that failure exactly once, and nothing follows it: any further upstream
/// outcomes are irrelevant.
pub proof fn lemma_try_expand_stops_at_error<T, E>(
    m: Remembered<T>,
    evs: Seq<QueryOutcome<Result<T, E>>>,
    k: int,
)
    requires
        !(m is Finished),
        0 <= k < evs.len(),
        evs[k] matches QueryOutcome::Produced(item) && item is Err,
        forall|j: int| 0 <= j < k ==> (#[trigger] evs[j] matches QueryOutcome::Produced(it) && it
            is Ok),
    ensures
        try_expand_collected(m, evs) =~= Seq::new((k + 1) as nat, |i: int| evs[i]->Produced_0),
    decreases k,
{
    if k == 0 {
        assert(try_expand_collected(m, evs) =~= seq![evs[0]->Produced_0]);
    } else {
        let x0 = evs[0]->Produced_0->Ok_0;
        lemma_try_expand_stops_at_error(Remembered::Stored(x0), evs.drop_first(), k - 1);
    }
}

/// Repeats the last produced item of the wrapped sequence whenever that
/// sequence reports not ready.
pub struct Expand<T> {
    /// The last meaningful upstream outcome.
    pub memory: Remembered<T>,
}

impl<T> Expand<T> {
    /// A fresh combinator that has not observed any upstream outcome.
    pub fn new() -> (s: Self)
        ensures
            s.memory is Vacant,
    {
        Expand { memory: Remembered::Vacant }
    }
}

impl<T: Clone> Expand<T> {
    /// Feeds one upstream outcome into the combinator and returns what the
    /// downstream caller is told.  The upstream is queried exactly once per
    /// downstream query, so this one step settles the query.  A re-emitted
    /// or passed-through item is a clone of the remembered one.
    pub fn on_upstream(&mut self, ev: QueryOutcome<T>) -> (r: QueryOutcome<T>)
        ensures
            final(self).memory == expand_next_memory(old(self).memory, ev),
            outcome_cloned(expand_output(old(self).memory, ev), r),
    {
        match ev {
            QueryOutcome::Produced(x) => {
                let emitted = x.clone();
                self.memory = Remembered::Stored(x);
                QueryOutcome::Produced(emitted)
            },
            QueryOutcome::Exhausted => {
                self.memory = Remembered::Finished;
                QueryOutcome::Exhausted
            },
            QueryOutcome::NotReady => match &self.memory {
                Remembered::Vacant => QueryOutcome::NotReady,
                Remembered::Stored(x) => QueryOutcome::Produced(x.clone()),
                Remembered::Finished => QueryOutcome::Exhausted,
            },
        }
    }

    /// One downstream query, driven against a scripted upstream.
    pub fn query(&mut self, upstream: &mut ScriptedSource<T>) -> (r: QueryOutcome<T>)
        ensures
            final(upstream)@ == script_rest(old(upstream)@),
            final(self).memory == expand_next_memory(
                old(self).memory,
                script_event(old(upstream)@),
            ),
            outcome_cloned(expand_output(old(self).memory, script_event(old(upstream)@)), r),
    {
        let ev = upstream.next_event();
        self.on_upstream(ev)
    }
}

/// How `TryExpand`'s memory evolves: a successful item is remembered, and a
/// failed item or exhaustion puts the combinator into its terminal state.
pub open spec fn try_expand_next_memory<T, E>(
    m: Remembered<T>,
    ev: QueryOutcome<Result<T, E>>,
) -> Remembered<T> {
    match ev {
        QueryOutcome::Produced(item) => match item {
            Ok(x) => Remembered::Stored(x),
            Err(_) => Remembered::Finished,
        },
        QueryOutcome::Exhausted => Remembered::Finished,
        QueryOutcome::NotReady => m,
    }
}

/// What `TryExpand` emits when one upstream outcome is observed while it is
/// not yet terminated: items and terminal events pass through, and a
/// not-ready upstream is papered over with the remembered successful item.
pub open spec fn try_expand_output<T, E>(
    m: Remembered<T>,
    ev: QueryOutcome<Result<T, E>>,
) -> QueryOutcome<Result<T, E>> {
    match ev {
        QueryOutcome::Produced(item) => QueryOutcome::Produced(item),
        QueryOutcome::Exhausted => QueryOutcome::Exhausted,
        QueryOutcome::NotReady => match m {
            Remembered::Vacant => QueryOutcome::NotReady,
            Remembered::Stored(x) => QueryOutcome::Produced(Ok(x)),
            Remembered::Finished => QueryOutcome::Exhausted,
        },
    }
}

/// Relates a modelled fallible outcome to an emitted one: successful items
/// may be clones, everything else is passed through verbatim.
pub open spec fn try_outcome_cloned<T: Clone, E>(
    model: QueryOutcome<Result<T, E>>,
    actual: QueryOutcome<Result<T, E>>,
) -> bool {
    match model {
        QueryOutcome::Produced(item) => match item {
            Ok(x) => actual matches QueryOutcome::Produced(a) && a matches Ok(y) && cloned(x, y),
            Err(e) => actual == QueryOutcome::Produced(Result::<T, E>::Err(e)),
        },
        QueryOutcome::Exhausted => actual is Exhausted,
        QueryOutcome::NotReady => actual is NotReady,
    }
}

/// The items a downstream consumer accumulates from `TryExpand` over a
/// whole upstream script: successful items pass through (repeated while the
/// upstream is not ready), and the first failed item or exhaustion ends the
/// sequence for good.
pub open spec fn try_expand_collected<T, E>(
    m: Remembered<T>,
    evs: Seq<QueryOutcome<Result<T, E>>>,
) -> Seq<Result<T, E>>
    decreases evs.len(),
{
    if m is Finished || evs.len() == 0 {
        Seq::empty()
    } else {
        match evs[0] {
            QueryOutcome::Produced(item) => match item {
                Ok(x) => seq![Result::<T, E>::Ok(x)] + try_expand_collected(
                    Remembered::Stored(x),
                    evs.drop_first(),
                ),
                Err(e) => seq![Result::<T, E>::Err(e)],
            },
            QueryOutcome::Exhausted => Seq::empty(),
            QueryOutcome::NotReady => match m {
                Remembered::Vacant => try_expand_collected(m, evs.drop_first()),
                Remembered::Stored(x) => seq![Result::<T, E>::Ok(x)] + try_expand_collected(
                    m,
                    evs.drop_first(),
                ),
                Remembered::Finished => Seq::empty(),
            },
        }
    }
}

/// `Expand` for fallible sequences: once a failed item or exhaustion is
/// observed it is emitted exactly once, and afterwards every query reports
/// exhaustion without the upstream ever being queried again.
pub struct TryExpand<T> {
    /// The last meaningful upstream outcome; `Finished` is the terminal
    /// state and is never left again.
    pub memory: Remembered<T>,
}

impl<T> TryExpand<T> {
    /// A fresh combinator that has not observed any upstream outcome.
    pub fn new() -> (s: Self)
        ensures
            s.memory is Vacant,
    {
        TryExpand { memory: Remembered::Vacant }
    }

    /// Whether a terminal event has already been emitted.  A terminated
    /// combinator answers every query with exhaustion and must not be fed
    /// further upstream outcomes.
    pub fn is_terminated(&self) -> (b: bool)
        ensures
            b == (self.memory is Finished),
    {
        match &self.memory {
            Remembered::Finished => true,
            _ => false,
        }
    }
}

impl<T: Clone> TryExpand<T> {
    /// Feeds one upstream outcome into a combinator that has not yet
    /// terminated and returns what the downstream caller is told.
    pub fn on_upstream<E>(&mut self, ev: QueryOutcome<Result<T, E>>) -> (r: QueryOutcome<
        Result<T, E>,
    >)
        requires
            !(old(self).memory is Finished),
        ensures
            final(self).memory == try_expand_next_memory(old(self).memory, ev),
            try_outcome_cloned(try_expand_output(old(self).memory, ev), r),
    {
        match ev {
            QueryOutcome::Produced(item) => match item {
                Ok(x) => {
                    let emitted = x.clone();
                    self.memory = Remembered::Stored(x);
                    QueryOutcome::Produced(Ok(emitted))
                },
                Err(e) => {
                    self.memory = Remembered::Finished;
                    QueryOutcome::Produced(Err(e))
                },
            },
            QueryOutcome::Exhausted => {
                self.memory = Remembered::Finished;
                QueryOutcome::Exhausted
            },
            QueryOutcome::NotReady => match &self.memory {
                Remembered::Vacant => QueryOutcome::NotReady,
                Remembered::Stored(x) => QueryOutcome::Produced(Ok(x.clone())),
                Remembered::Finished => QueryOutcome::Exhausted,
            },
        }
    }

    /// One downstream query, driven against a scripted upstream.  Once the
    /// combinator has terminated it reports exhaustion without querying the
    /// upstream, so re-querying after a terminal event keeps returning
    /// exhaustion.
    pub fn query<E>(&mut self, upstream: &mut ScriptedSource<Result<T, E>>) -> (r: QueryOutcome<
        Result<T, E>,
    >)
        ensures
            old(self).memory is Finished ==> {
                &&& r is Exhausted
                &&& final(self).memory == old(self).memory
                &&& final(upstream)@ == old(upstream)@
            },
            !(old(self).memory is Finished) ==> {
                &&& final(upstream)@ == script_rest(old(upstream)@)
                &&& final(self).memory == try_expand_next_memory(
                    old(self).memory,
                    script_event(old(upstream)@),
                )
                &&& try_outcome_cloned(
                    try_expand_output(old(self).memory, script_event(old(upstream)@)),
                    r,
                )
            },
    {
        if self.is_terminated() {
            QueryOutcome::Exhausted
        } else {
            let ev = upstream.next_event();
            self.on_upstream(ev)
        }
    }
}

} // verus!
