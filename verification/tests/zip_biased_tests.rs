use stream_combinators::outcome::QueryOutcome;
use stream_combinators::source::ScriptedSource;
use stream_combinators::zip_biased::{TryZipBiased, ZipBiased};

/// Drives `ZipBiased` against scripted left and right upstreams until it
/// reports exhaustion, collecting the produced pairs.
fn collect_zip<L, R>(
    left_events: Vec<QueryOutcome<L>>,
    right_events: Vec<QueryOutcome<R>>,
) -> Vec<(L, R)> {
    let mut combinator = ZipBiased::new();
    let mut left = ScriptedSource::new(left_events);
    let mut right = ScriptedSource::new(right_events);
    let mut taken = Vec::new();
    loop {
        match combinator.query(&mut left, &mut right) {
            QueryOutcome::Produced(pair) => taken.push(pair),
            QueryOutcome::Exhausted => break,
            QueryOutcome::NotReady => {}
        }
    }
    taken
}

/// Drives `TryZipBiased` the same way.
fn collect_try_zip<L, R, E>(
    left_events: Vec<QueryOutcome<Result<L, E>>>,
    right_events: Vec<QueryOutcome<Result<R, E>>>,
) -> Vec<Result<(L, R), E>> {
    let mut combinator = TryZipBiased::new();
    let mut left = ScriptedSource::new(left_events);
    let mut right = ScriptedSource::new(right_events);
    let mut taken = Vec::new();
    loop {
        match combinator.query(&mut left, &mut right) {
            QueryOutcome::Produced(item) => taken.push(item),
            QueryOutcome::Exhausted => break,
            QueryOutcome::NotReady => {}
        }
    }
    taken
}

#[test]
fn left_empty() {
    let right = vec![QueryOutcome::Produced(()), QueryOutcome::Produced(())];
    assert!(collect_zip::<(), ()>(vec![], right).is_empty());
}

#[test]
fn right_empty() {
    let left = vec![QueryOutcome::Produced(()), QueryOutcome::Produced(())];
    assert!(collect_zip::<(), ()>(left, vec![]).is_empty());
}

#[test]
fn pairs_in_order_across_gaps() {
    let left = vec![
        QueryOutcome::Produced(1),
        QueryOutcome::NotReady,
        QueryOutcome::Produced(2),
    ];
    let right = vec![
        QueryOutcome::Produced("a"),
        QueryOutcome::Produced("b"),
        QueryOutcome::Produced("c"),
    ];
    assert_eq!(collect_zip(left, right), vec![(1, "a"), (2, "b")]);
}

#[test]
fn not_ready_right_retains_the_left_item() {
    let mut combinator = ZipBiased::new();
    let mut left = ScriptedSource::new(vec![QueryOutcome::Produced(1)]);
    let mut right = ScriptedSource::new(vec![
        QueryOutcome::NotReady,
        QueryOutcome::Produced("a"),
    ]);
    assert_eq!(
        combinator.query(&mut left, &mut right),
        QueryOutcome::NotReady
    );
    assert!(combinator.holds_left());
    assert_eq!(
        combinator.query(&mut left, &mut right),
        QueryOutcome::Produced((1, "a"))
    );
    assert_eq!(
        combinator.query(&mut left, &mut right),
        QueryOutcome::Exhausted
    );
}

#[test]
fn stays_exhausted_after_left_exhaustion() {
    let mut combinator = ZipBiased::<u32>::new();
    let mut left = ScriptedSource::new(vec![]);
    let mut right = ScriptedSource::new(vec![QueryOutcome::Produced("a")]);
    assert_eq!(
        combinator.query(&mut left, &mut right),
        QueryOutcome::Exhausted
    );
    assert!(combinator.is_finished());
    for _ in 0..3 {
        assert_eq!(
            combinator.query(&mut left, &mut right),
            QueryOutcome::Exhausted
        );
    }
}

#[test]
fn try_zip_pairs_successful_items() {
    let left = vec![
        QueryOutcome::Produced(Ok::<_, ()>(1)),
        QueryOutcome::Produced(Ok(2)),
    ];
    let right = vec![
        QueryOutcome::Produced(Ok::<_, ()>(10)),
        QueryOutcome::Produced(Ok(20)),
    ];
    assert_eq!(
        collect_try_zip(left, right),
        vec![Ok((1, 10)), Ok((2, 20))]
    );
}

#[test]
fn try_zip_left_error_short_circuits() {
    let left = vec![QueryOutcome::Produced(Err::<u32, _>("boom"))];
    let right = vec![QueryOutcome::Produced(Ok::<u32, _>(9))];
    assert_eq!(collect_try_zip(left, right), vec![Err("boom")]);
}

#[test]
fn try_zip_right_error_discards_the_held_left_item() {
    let mut combinator = TryZipBiased::new();
    let mut left = ScriptedSource::new(vec![
        QueryOutcome::Produced(Ok::<_, &str>(1)),
        QueryOutcome::Produced(Ok(2)),
    ]);
    let mut right = ScriptedSource::new(vec![QueryOutcome::Produced(Err::<u32, _>("boom"))]);
    assert_eq!(
        combinator.query(&mut left, &mut right),
        QueryOutcome::Produced(Err("boom"))
    );
    assert!(combinator.is_finished());
    for _ in 0..3 {
        assert_eq!(
            combinator.query(&mut left, &mut right),
            QueryOutcome::Exhausted
        );
    }
}

#[test]
fn try_zip_right_exhaustion_is_terminal() {
    let mut combinator = TryZipBiased::new();
    let mut left = ScriptedSource::new(vec![
        QueryOutcome::Produced(Ok::<_, ()>(1)),
        QueryOutcome::Produced(Ok(2)),
        QueryOutcome::Produced(Err(())),
    ]);
    let mut right = ScriptedSource::new(vec![QueryOutcome::Produced(Ok::<_, ()>(10))]);
    assert_eq!(
        combinator.query(&mut left, &mut right),
        QueryOutcome::Produced(Ok((1, 10)))
    );
    assert_eq!(
        combinator.query(&mut left, &mut right),
        QueryOutcome::Exhausted
    );
    assert!(combinator.is_finished());
    // Exhaustion sticks: the pending left error is never polled again.
    for _ in 0..3 {
        assert_eq!(
            combinator.query(&mut left, &mut right),
            QueryOutcome::Exhausted
        );
    }
}
