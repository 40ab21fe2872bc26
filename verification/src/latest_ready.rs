//! `LatestReady` and `TryLatestReady`: combinators that coalesce a burst of
//! immediately ready items into the most recent one.  A downstream query
//! keeps querying the upstream as long as items are ready and only settles
//! once the upstream reports not ready — at which point the single most
//! recent item of the burst is emitted — or a terminal event arrives, which
//! takes priority over anything buffered.

use vstd::prelude::*;

use crate::outcome::{QueryOutcome, QueryStep};
use crate::source::ScriptedSource;

verus! {

/// How `LatestReady`'s burst buffer evolves when one upstream outcome is
/// observed: a produced item replaces whatever was buffered, and anything
/// that settles the downstream query leaves the buffer empty.
pub open spec fn latest_ready_next_buffer<T>(b: Option<T>, ev: QueryOutcome<T>) -> Option<T> {
    match ev {
        QueryOutcome::Produced(x) => Some(x),
        QueryOutcome::Exhausted => None,
        QueryOutcome::NotReady => None,
    }
}

/// What `LatestReady` decides when one upstream outcome is observed: keep
/// draining the burst, settle on exhaustion, or — once the upstream has no
/// more items ready right now — settle on the buffered item if any.
pub open spec fn latest_ready_step<T>(b: Option<T>, ev: QueryOutcome<T>) -> QueryStep<T> {
    match ev {
        QueryOutcome::Produced(_) => QueryStep::QueryAgain,
        QueryOutcome::Exhausted => QueryStep::Settled(QueryOutcome::Exhausted),
        QueryOutcome::NotReady => QueryStep::Settled(
            match b {
                Some(x) => QueryOutcome::Produced(x),
                None => QueryOutcome::NotReady,
            },
        ),
    }
}

/// The outcome of one downstream query over a script of upstream outcomes,
/// together with what remains of the script: the upstream is queried
/// repeatedly while items are ready, and an exhausted script settles the
/// query as an exhausted upstream would.
pub open spec fn latest_ready_query<T>(b: Option<T>, evs: Seq<QueryOutcome<T>>) -> (QueryOutcome<
    T,
>, Seq<QueryOutcome<T>>)
    decreases evs.len(),
{
    if evs.len() == 0 {
        (QueryOutcome::Exhausted, evs)
    } else {
        match evs[0] {
            QueryOutcome::Produced(x) => latest_ready_query(Some(x), evs.drop_first()),
            QueryOutcome::Exhausted => (QueryOutcome::Exhausted, evs.drop_first()),
            QueryOutcome::NotReady => (
                match b {
                    Some(x) => QueryOutcome::Produced(x),
                    None => QueryOutcome::NotReady,
                },
                evs.drop_first(),
            ),
        }
    }
}

/// The items a downstream consumer accumulates from `LatestReady` over a
/// whole upstream script: the most recent item of each burst that is closed
/// by a not-ready outcome, until the upstream is exhausted.
pub open spec fn latest_ready_collected<T>(b: Option<T>, evs: Seq<QueryOutcome<T>>) -> Seq<T>
    decreases evs.len(),
{
    if evs.len() == 0 {
        Seq::empty()
    } else {
        match evs[0] {
            QueryOutcome::Produced(x) => latest_ready_collected(Some(x), evs.drop_first()),
            QueryOutcome::Exhausted => Seq::empty(),
            QueryOutcome::NotReady => match b {
                Some(x) => seq![x] + latest_ready_collected(None, evs.drop_first()),
                None => latest_ready_collected(None, evs.drop_first()),
            },
        }
    }
}

/// An upstream that always has the next item ready — it never reports not
/// ready before it is exhausted — yields an empty output: no burst is ever
/// closed, so nothing is ever emitted.
pub proof fn lemma_latest_ready_all_ready<T>(b: Option<T>, evs: Seq<QueryOutcome<T>>)
    requires
        forall|i: int| 0 <= i < evs.len() ==> !(evs[i] is NotReady),
    ensures
        latest_ready_collected(b, evs) =~= Seq::<T>::empty(),
    decreases evs.len(),
{
    if evs.len() > 0 && evs[0] is Produced {
        lemma_latest_ready_all_ready(Some(evs[0]->Produced_0), evs.drop_first());
    }
}

/// A burst of ready items closed by a not-ready outcome contributes exactly
/// its most recent item to the output, whatever was buffered when the burst
/// began and whatever the upstream does afterwards.
pub proof fn lemma_latest_ready_burst<T>(
    b: Option<T>,
    items: Seq<T>,
    rest: Seq<QueryOutcome<T>>,
)
    requires
        items.len() > 0 || b is Some,
    ensures
        latest_ready_collected(
            b,
            items.map_values(|x: T| QueryOutcome::Produced(x)) + seq![QueryOutcome::NotReady]
                + rest,
        ) =~= seq![if items.len() > 0 {
            items.last()
        } else {
            b->0
        }] + latest_ready_collected(None, rest),
    decreases items.len(),
{
    let evs = items.map_values(|x: T| QueryOutcome::Produced(x)) + seq![QueryOutcome::NotReady]
        + rest;
    if items.len() == 0 {
        assert(evs[0] is NotReady);
        assert(evs.drop_first() =~= rest);
    } else {
        assert(evs[0] == QueryOutcome::Produced(items[0]));
        lemma_latest_ready_burst(Some(items[0]), items.drop_first(), rest);
        assert(evs.drop_first() =~= items.drop_first().map_values(
            |x: T| QueryOutcome::Produced(x),
        ) + seq![QueryOutcome::NotReady] + rest);
        if items.len() > 1 {
            assert(items.drop_first().last() == items.last());
        }
    }
}

/// The whole-script collection is exactly what a downstream consumer that
/// queries repeatedly accumulates: one query settles on an outcome and
/// leaves the rest of the script, the produced item (if any) is kept, and
/// collection goes on from an empty buffer until exhaustion.
pub proof fn lemma_latest_ready_query_collected<T>(b: Option<T>, evs: Seq<QueryOutcome<T>>)
    ensures
        latest_ready_collected(b, evs) =~= match latest_ready_query(b, evs).0 {
            QueryOutcome::Produced(x) => seq![x] + latest_ready_collected(
                None,
                latest_ready_query(b, evs).1,
            ),
            QueryOutcome::Exhausted => Seq::empty(),
            QueryOutcome::NotReady => latest_ready_collected(None, latest_ready_query(b, evs).1),
        },
    decreases evs.len(),
{
    if evs.len() > 0 && evs[0] is Produced {
        lemma_latest_ready_query_collected(Some(evs[0]->Produced_0), evs.drop_first());
    }
}

/// An upstream that keeps reporting exhaustion settles every query with
/// exhaustion and yields nothing.
pub proof fn lemma_latest_ready_exhausted<T>(b: Option<T>, evs: Seq<QueryOutcome<T>>)
    requires
        forall|i: int| 0 <= i < evs.len() ==> evs[i] is Exhausted,
    ensures
        latest_ready_query(b, evs).0 is Exhausted,
        latest_ready_collected(b, evs) =~= Seq::<T>::empty(),
{
}

/// Emits only the most recent item of each burst of immediately ready
/// upstream items, deferring emission until the upstream reports not ready.
pub struct LatestReady<T> {
    /// The most recent item observed during the current burst.
    pub buffer: Option<T>,
}

impl<T> LatestReady<T> {
    /// A fresh combinator with nothing buffered.
    pub fn new() -> (s: Self)
        ensures
            s.buffer is None,
    {
        LatestReady { buffer: None }
    }

    /// Feeds one upstream outcome into the combinator.  `QueryAgain` means
    /// the upstream must be queried again within the same downstream query;
    /// `Settled` carries the outcome the downstream caller is told, and in
    /// that case the buffer is left empty.
    pub fn on_upstream(&mut self, ev: QueryOutcome<T>) -> (step: QueryStep<T>)
        ensures
            final(self).buffer == latest_ready_next_buffer(old(self).buffer, ev),
            step == latest_ready_step(old(self).buffer, ev),
    {
        match ev {
            QueryOutcome::Produced(x) => {
                self.buffer = Some(x);
                QueryStep::QueryAgain
            },
            QueryOutcome::Exhausted => {
                self.buffer = None;
                QueryStep::Settled(QueryOutcome::Exhausted)
            },
            QueryOutcome::NotReady => {
                let buffered = self.buffer.take();
                QueryStep::Settled(
                    match buffered {
                        Some(x) => QueryOutcome::Produced(x),
                        None => QueryOutcome::NotReady,
                    },
                )
            },
        }
    }

    /// One downstream query, driven against a scripted upstream: queries
    /// the upstream until it has no more items ready right now, then emits
    /// the most recent item of the burst, exhaustion, or not ready.
    pub fn query(&mut self, upstream: &mut ScriptedSource<T>) -> (r: QueryOutcome<T>)
        ensures
            (r, final(upstream)@) == latest_ready_query(old(self).buffer, old(upstream)@),
            final(self).buffer is None,
    {
        loop
            invariant
                latest_ready_query(self.buffer, upstream@) == latest_ready_query(
                    old(self).buffer,
                    old(upstream)@,
                ),
            decreases upstream@.len(),
        {
            let ev = upstream.next_event();
            match self.on_upstream(ev) {
                QueryStep::QueryAgain => {},
                QueryStep::Settled(out) => {
                    return out;
                },
            }
        }
    }
}

/// How `TryLatestReady`'s burst buffer evolves: a successful item replaces
/// whatever was buffered, and anything that settles the downstream query
/// leaves the buffer empty.
pub open spec fn try_latest_ready_next_buffer<T, E>(
    b: Option<T>,
    ev: QueryOutcome<Result<T, E>>,
) -> Option<T> {
    match ev {
        QueryOutcome::Produced(item) => match item {
            Ok(x) => Some(x),
            Err(_) => None,
        },
        QueryOutcome::Exhausted => None,
        QueryOutcome::NotReady => None,
    }
}

/// Whether one upstream outcome is a terminal event for `TryLatestReady`:
/// a failed item or exhaustion terminates the combinator for good.
pub open spec fn try_latest_ready_terminal<T, E>(ev: QueryOutcome<Result<T, E>>) -> bool {
    match ev {
        QueryOutcome::Produced(item) => item is Err,
        QueryOutcome::Exhausted => true,
        QueryOutcome::NotReady => false,
    }
}

/// What `TryLatestReady` decides when one upstream outcome is observed: a
/// failed item or exhaustion settles the query at once, overriding any
/// buffered item; otherwise it behaves as `LatestReady` does.
pub open spec fn try_latest_ready_step<T, E>(
    b: Option<T>,
    ev: QueryOutcome<Result<T, E>>,
) -> QueryStep<Result<T, E>> {
    match ev {
        QueryOutcome::Produced(item) => match item {
            Ok(_) => QueryStep::QueryAgain,
            Err(e) => QueryStep::Settled(QueryOutcome::Produced(Result::<T, E>::Err(e))),
        },
        QueryOutcome::Exhausted => QueryStep::Settled(QueryOutcome::Exhausted),
        QueryOutcome::NotReady => QueryStep::Settled(
            match b {
                Some(x) => QueryOutcome::Produced(Result::<T, E>::Ok(x)),
                None => QueryOutcome::NotReady,
            },
        ),
    }
}

/// The outcome of one downstream query of `TryLatestReady` over a script of
/// upstream outcomes, together with what remains of the script.
pub open spec fn try_latest_ready_query<T, E>(
    b: Option<T>,
    evs: Seq<QueryOutcome<Result<T, E>>>,
) -> (QueryOutcome<Result<T, E>>, Seq<QueryOutcome<Result<T, E>>>)
    decreases evs.len(),
{
    if evs.len() == 0 {
        (QueryOutcome::Exhausted, evs)
    } else {
        match evs[0] {
            QueryOutcome::Produced(item) => match item {
                Ok(x) => try_latest_ready_query(Some(x), evs.drop_first()),
                Err(e) => (QueryOutcome::Produced(Result::<T, E>::Err(e)), evs.drop_first()),
            },
            QueryOutcome::Exhausted => (QueryOutcome::Exhausted, evs.drop_first()),
            QueryOutcome::NotReady => (
                match b {
                    Some(x) => QueryOutcome::Produced(Result::<T, E>::Ok(x)),
                    None => QueryOutcome::NotReady,
                },
                evs.drop_first(),
            ),
        }
    }
}

/// The items a downstream consumer accumulates from `TryLatestReady` over a
/// whole upstream script: the most recent successful item of each burst
/// closed by a not-ready outcome, until the first failed item — emitted
/// once, discarding the burst's buffer — or exhaustion.
pub open spec fn try_latest_ready_collected<T, E>(
    b: Option<T>,
    evs: Seq<QueryOutcome<Result<T, E>>>,
) -> Seq<Result<T, E>>
    decreases evs.len(),
{
    if evs.len() == 0 {
        Seq::empty()
    } else {
        match evs[0] {
            QueryOutcome::Produced(item) => match item {
                Ok(x) => try_latest_ready_collected(Some(x), evs.drop_first()),
                Err(e) => seq![Result::<T, E>::Err(e)],
            },
            QueryOutcome::Exhausted => Seq::empty(),
            QueryOutcome::NotReady => match b {
                Some(x) => seq![Result::<T, E>::Ok(x)] + try_latest_ready_collected(
                    None,
                    evs.drop_first(),
                ),
                None => try_latest_ready_collected(None, evs.drop_first()),
            },
        }
    }
}

/// The whole-script collection of the fallible combinator is exactly what a
/// downstream consumer that queries repeatedly accumulates, stopping at the
/// first failure or exhaustion.
pub proof fn lemma_try_latest_ready_query_collected<T, E>(
    b: Option<T>,
    evs: Seq<QueryOutcome<Result<T, E>>>,
)
    ensures
        try_latest_ready_collected(b, evs) =~= match try_latest_ready_query(b, evs).0 {
            QueryOutcome::Produced(item) => match item {
                Ok(x) => seq![Result::<T, E>::Ok(x)] + try_latest_ready_collected(
                    None,
                    try_latest_ready_query(b, evs).1,
                ),
                Err(e) => seq![Result::<T, E>::Err(e)],
            },
            QueryOutcome::Exhausted => Seq::empty(),
            QueryOutcome::NotReady => try_latest_ready_collected(
                None,
                try_latest_ready_query(b, evs).1,
            ),
        },
    decreases evs.len(),
{
    if evs.len() > 0 && (evs[0] matches QueryOutcome::Produced(item) && item is Ok) {
        lemma_try_latest_ready_query_collected(Some(evs[0]->Produced_0->Ok_0), evs.drop_first());
    }
}

/// A failure can only ever be the last item `TryLatestReady` emits: every
/// earlier accumulated item is a successful one.
pub proof fn lemma_try_latest_ready_failure_is_final<T, E>(
    b: Option<T>,
    evs: Seq<QueryOutcome<Result<T, E>>>,
)
    ensures
        forall|i: int|
            0 <= i < try_latest_ready_collected(b, evs).len() - 1 ==> (
            #[trigger] try_latest_ready_collected(b, evs)[i]) is Ok,
    decreases evs.len(),
{
    if evs.len() > 0 {
        match evs[0] {
            QueryOutcome::Produced(item) => match item {
                Ok(x) => {
                    lemma_try_latest_ready_failure_is_final(Some(x), evs.drop_first());
                },
                Err(_) => {},
            },
            QueryOutcome::Exhausted => {},
            QueryOutcome::NotReady => {
                lemma_try_latest_ready_failure_is_final(None::<T>, evs.drop_first());
            },
        }
    }
}

/// A failed item that arrives while every earlier item of the script was
/// immediately ready and successful is the only thing ever emitted: the
/// buffered successes of the unbroken burst are discarded, the failure is
/// reported once, and the combinator terminates.
pub proof fn lemma_try_latest_ready_stops_at_error<T, E>(
    b: Option<T>,
    evs: Seq<QueryOutcome<Result<T, E>>>,
    k: int,
)
    requires
        0 <= k < evs.len(),
        evs[k] matches QueryOutcome::Produced(item) && item is Err,
        forall|j: int| 0 <= j < k ==> (#[trigger] evs[j] matches QueryOutcome::Produced(it) && it
            is Ok),
    ensures
        try_latest_ready_collected(b, evs) =~= seq![evs[k]->Produced_0],
    decreases k,
{
    if k > 0 {
        lemma_try_latest_ready_stops_at_error(
            Some(evs[0]->Produced_0->Ok_0),
            evs.drop_first(),
            k - 1,
        );
    }
}

/// `LatestReady` for fallible sequences: a failed item observed mid-burst
/// short-circuits at once, discarding any buffered successful item, and a
/// terminal event terminates the combinator for good.
pub struct TryLatestReady<T> {
    /// Set once a failed item or exhaustion has been emitted; never unset,
    /// and the upstream is never queried again afterwards.
    pub terminated: bool,
    /// The most recent successful item observed during the current burst.
    pub buffer: Option<T>,
}

impl<T> TryLatestReady<T> {
    /// A fresh combinator with nothing buffered.
    pub fn new() -> (s: Self)
        ensures
            !s.terminated,
            s.buffer is None,
    {
        TryLatestReady { terminated: false, buffer: None }
    }

    /// Whether a terminal event has already been emitted.  A terminated
    /// combinator answers every query with exhaustion and must not be fed
    /// further upstream outcomes.
    pub fn is_terminated(&self) -> (b: bool)
        ensures
            b == self.terminated,
    {
        self.terminated
    }

    /// Feeds one upstream outcome into a combinator that has not yet
    /// terminated.  A failed item or exhaustion settles the query at once,
    /// discarding any buffered item, and terminates the combinator.
    pub fn on_upstream<E>(&mut self, ev: QueryOutcome<Result<T, E>>) -> (step: QueryStep<
        Result<T, E>,
    >)
        requires
            !old(self).terminated,
        ensures
            final(self).buffer == try_latest_ready_next_buffer(old(self).buffer, ev),
            final(self).terminated == try_latest_ready_terminal(ev),
            step == try_latest_ready_step(old(self).buffer, ev),
    {
        match ev {
            QueryOutcome::Produced(item) => match item {
                Ok(x) => {
                    self.buffer = Some(x);
                    QueryStep::QueryAgain
                },
                Err(e) => {
                    self.buffer = None;
                    self.terminated = true;
                    QueryStep::Settled(QueryOutcome::Produced(Err(e)))
                },
            },
            QueryOutcome::Exhausted => {
                self.buffer = None;
                self.terminated = true;
                QueryStep::Settled(QueryOutcome::Exhausted)
            },
            QueryOutcome::NotReady => {
                let buffered = self.buffer.take();
                QueryStep::Settled(
                    match buffered {
                        Some(x) => QueryOutcome::Produced(Ok(x)),
                        None => QueryOutcome::NotReady,
                    },
                )
            },
        }
    }

    /// One downstream query, driven against a scripted upstream.  Once the
    /// combinator has terminated it reports exhaustion without querying the
    /// upstream, so re-querying after a terminal event keeps returning
    /// exhaustion.
    pub fn query<E>(&mut self, upstream: &mut ScriptedSource<Result<T, E>>) -> (r: QueryOutcome<
        Result<T, E>,
    >)
        ensures
            old(self).terminated ==> {
                &&& r is Exhausted
                &&& final(self).terminated
                &&& final(self).buffer == old(self).buffer
                &&& final(upstream)@ == old(upstream)@
            },
            !old(self).terminated ==> {
                &&& (r, final(upstream)@) == try_latest_ready_query(
                    old(self).buffer,
                    old(upstream)@,
                )
                &&& final(self).buffer is None
                &&& final(self).terminated == (r is Exhausted || (r matches QueryOutcome::Produced(
                    item,
                ) && item is Err))
            },
    {
        if self.terminated {
            return QueryOutcome::Exhausted;
        }
        loop
            invariant
                !old(self).terminated,
                !self.terminated,
                try_latest_ready_query(self.buffer, upstream@) == try_latest_ready_query(
                    old(self).buffer,
                    old(upstream)@,
                ),
            decreases upstream@.len(),
        {
            let ev = upstream.next_event();
            match self.on_upstream(ev) {
                QueryStep::QueryAgain => {},
                QueryStep::Settled(out) => {
                    return out;
                },
            }
        }
    }
}

} // verus!
