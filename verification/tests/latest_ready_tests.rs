use stream_combinators::latest_ready::{LatestReady, TryLatestReady};
use stream_combinators::outcome::QueryOutcome;
use stream_combinators::source::ScriptedSource;

/// Drives `LatestReady` against a scripted upstream until it reports
/// exhaustion, collecting the produced items.
fn collect_latest_ready<T>(events: Vec<QueryOutcome<T>>) -> Vec<T> {
    let mut combinator = LatestReady::new();
    let mut upstream = ScriptedSource::new(events);
    let mut taken = Vec::new();
    loop {
        match combinator.query(&mut upstream) {
            QueryOutcome::Produced(x) => taken.push(x),
            QueryOutcome::Exhausted => break,
            QueryOutcome::NotReady => {}
        }
    }
    taken
}

/// Drives `TryLatestReady` the same way.
fn collect_try_latest_ready<T, E>(events: Vec<QueryOutcome<Result<T, E>>>) -> Vec<Result<T, E>> {
    let mut combinator = TryLatestReady::new();
    let mut upstream = ScriptedSource::new(events);
    let mut taken = Vec::new();
    loop {
        match combinator.query(&mut upstream) {
            QueryOutcome::Produced(item) => taken.push(item),
            QueryOutcome::Exhausted => break,
            QueryOutcome::NotReady => {}
        }
    }
    taken
}

/// Four chunks of five items, each chunk preceded by one not-ready query,
/// as a script of upstream outcomes.
fn bursty_script() -> Vec<QueryOutcome<u32>> {
    let mut events = Vec::new();
    for chunk in 0..4u32 {
        events.push(QueryOutcome::NotReady);
        for i in 1..=5u32 {
            events.push(QueryOutcome::Produced(chunk * 5 + i));
        }
    }
    events
}

#[test]
fn empty_stream() {
    assert!(collect_latest_ready::<u32>(vec![]).is_empty());
}

#[test]
fn an_item_is_yielded_only_if_the_upstream_returns_pending() {
    let events = vec![
        QueryOutcome::Produced(1),
        QueryOutcome::Produced(2),
        QueryOutcome::Produced(3),
        QueryOutcome::Produced(4),
        QueryOutcome::Produced(5),
        QueryOutcome::Produced(6),
    ];
    assert!(collect_latest_ready(events).is_empty());
}

#[test]
fn during_the_bursts_only_the_last_ready_element_is_yielded() {
    assert_eq!(collect_latest_ready(bursty_script()), vec![5, 10, 15]);
}

#[test]
fn empty_try_stream() {
    assert!(collect_try_latest_ready::<(), ()>(vec![]).is_empty());
}

#[test]
fn an_item_is_yielded_only_if_the_upstream_returns_pending_try_stream() {
    let events = (1..=6u32)
        .map(|i| QueryOutcome::Produced(Ok::<_, ()>(i)))
        .collect();
    assert!(collect_try_latest_ready(events).is_empty());
}

#[test]
fn during_the_bursts_only_the_last_ready_element_is_yielded_try_stream() {
    let events = bursty_script()
        .into_iter()
        .map(|ev| match ev {
            QueryOutcome::Produced(x) => QueryOutcome::Produced(Ok::<_, ()>(x)),
            QueryOutcome::Exhausted => QueryOutcome::Exhausted,
            QueryOutcome::NotReady => QueryOutcome::NotReady,
        })
        .collect();
    assert_eq!(
        collect_try_latest_ready(events),
        vec![Ok(5), Ok(10), Ok(15)]
    );
}

#[test]
fn early_return() {
    let events = vec![
        QueryOutcome::Produced(Ok(1)),
        QueryOutcome::Produced(Ok(2)),
        QueryOutcome::Produced(Err(())),
        QueryOutcome::Produced(Ok(3)),
        QueryOutcome::Produced(Ok(4)),
        QueryOutcome::Produced(Ok(5)),
    ];
    assert_eq!(collect_try_latest_ready(events), vec![Err(())]);
}

#[test]
fn exhaustion_discards_the_buffered_item() {
    let events = vec![QueryOutcome::Produced(1), QueryOutcome::Produced(2)];
    assert!(collect_latest_ready(events).is_empty());
}

#[test]
fn error_discards_the_buffered_item_mid_burst() {
    let events = vec![
        QueryOutcome::Produced(Ok::<_, &str>(1)),
        QueryOutcome::Produced(Ok(2)),
        QueryOutcome::NotReady,
        QueryOutcome::Produced(Ok(3)),
        QueryOutcome::Produced(Err("boom")),
    ];
    assert_eq!(collect_try_latest_ready(events), vec![Ok(2), Err("boom")]);
}

#[test]
fn try_latest_ready_stays_exhausted_after_error() {
    let mut combinator = TryLatestReady::new();
    let mut upstream = ScriptedSource::new(vec![
        QueryOutcome::Produced(Err::<u32, _>("boom")),
        QueryOutcome::Produced(Ok(1)),
        QueryOutcome::NotReady,
    ]);
    assert_eq!(
        combinator.query(&mut upstream),
        QueryOutcome::Produced(Err("boom"))
    );
    for _ in 0..3 {
        assert_eq!(combinator.query(&mut upstream), QueryOutcome::Exhausted);
    }
}

#[test]
fn not_ready_with_nothing_buffered_is_not_ready() {
    let mut combinator = LatestReady::<u32>::new();
    let mut upstream = ScriptedSource::new(vec![
        QueryOutcome::NotReady,
        QueryOutcome::Produced(8),
        QueryOutcome::NotReady,
    ]);
    assert_eq!(combinator.query(&mut upstream), QueryOutcome::NotReady);
    assert_eq!(combinator.query(&mut upstream), QueryOutcome::Produced(8));
    assert_eq!(combinator.query(&mut upstream), QueryOutcome::Exhausted);
}
