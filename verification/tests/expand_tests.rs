use stream_combinators::expand::{Expand, TryExpand};
use stream_combinators::outcome::QueryOutcome;
use stream_combinators::source::{ready_after_n_polls, ScriptedSource};

/// Drives `Expand` against a scripted upstream until it reports exhaustion
/// or `limit` items have been taken, collecting the produced items.
fn collect_expand<T: Clone>(events: Vec<QueryOutcome<T>>, limit: usize) -> Vec<T> {
    let mut combinator = Expand::new();
    let mut upstream = ScriptedSource::new(events);
    let mut taken = Vec::new();
    while taken.len() < limit {
        match combinator.query(&mut upstream) {
            QueryOutcome::Produced(x) => taken.push(x),
            QueryOutcome::Exhausted => break,
            QueryOutcome::NotReady => {}
        }
    }
    taken
}

/// Drives `TryExpand` the same way.
fn collect_try_expand<T: Clone, E>(
    events: Vec<QueryOutcome<Result<T, E>>>,
    limit: usize,
) -> Vec<Result<T, E>> {
    let mut combinator = TryExpand::new();
    let mut upstream = ScriptedSource::new(events);
    let mut taken = Vec::new();
    while taken.len() < limit {
        match combinator.query(&mut upstream) {
            QueryOutcome::Produced(item) => taken.push(item),
            QueryOutcome::Exhausted => break,
            QueryOutcome::NotReady => {}
        }
    }
    taken
}

#[test]
fn empty_stream_immediately_ends() {
    assert!(collect_expand::<u32>(vec![], 100).is_empty());
}

#[test]
fn acts_as_normal_stream() {
    let events = vec![
        QueryOutcome::Produced(1),
        QueryOutcome::Produced(2),
        QueryOutcome::Produced(3),
        QueryOutcome::Produced(4),
        QueryOutcome::Produced(5),
    ];
    assert_eq!(collect_expand(events, 100), vec![1, 2, 3, 4, 5]);
}

#[test]
fn repeats_the_last_item_if_not_termiated() {
    let events = vec![
        QueryOutcome::Produced(1),
        QueryOutcome::Produced(2),
        QueryOutcome::Produced(3),
        QueryOutcome::Produced(4),
        QueryOutcome::Produced(5),
        QueryOutcome::NotReady,
        QueryOutcome::NotReady,
    ];
    assert_eq!(collect_expand(events, 7), vec![1, 2, 3, 4, 5, 5, 5]);
}

#[test]
fn repeats_the_last_item_if_poll_is_pending() {
    let mut combinator = Expand::new();
    let mut taken = Vec::new();
    for i in 1..=5 {
        match combinator.on_upstream(QueryOutcome::Produced(i)) {
            QueryOutcome::Produced(x) => taken.push(x),
            _ => panic!("a produced item passes through"),
        }
    }
    let mut tail = ready_after_n_polls(6, 1);
    loop {
        match combinator.on_upstream(tail.query()) {
            QueryOutcome::Produced(x) => taken.push(x),
            QueryOutcome::Exhausted => break,
            QueryOutcome::NotReady => {}
        }
    }
    assert_eq!(taken, vec![1, 2, 3, 4, 5, 5, 6]);
}

#[test]
fn repeats_the_last_item_while_item_is_pending() {
    let mut combinator = Expand::new();
    let mut taken = Vec::new();
    for i in 1..=5 {
        match combinator.on_upstream(QueryOutcome::Produced(i)) {
            QueryOutcome::Produced(x) => taken.push(x),
            _ => panic!("a produced item passes through"),
        }
    }
    let mut tail = ready_after_n_polls(6, 3);
    loop {
        match combinator.on_upstream(tail.query()) {
            QueryOutcome::Produced(x) => taken.push(x),
            QueryOutcome::Exhausted => break,
            QueryOutcome::NotReady => {}
        }
    }
    assert_eq!(taken, vec![1, 2, 3, 4, 5, 5, 5, 5, 6]);
}

#[test]
fn try_stream_normal_termination() {
    let events = vec![
        QueryOutcome::Produced(Ok::<_, ()>(1)),
        QueryOutcome::Produced(Ok(2)),
        QueryOutcome::Produced(Ok(3)),
        QueryOutcome::Produced(Ok(4)),
        QueryOutcome::Produced(Ok(5)),
    ];
    assert_eq!(
        collect_try_expand(events, 100),
        vec![Ok(1), Ok(2), Ok(3), Ok(4), Ok(5)]
    );
}

#[test]
fn try_stream_early_termination() {
    let events = vec![
        QueryOutcome::Produced(Ok::<_, ()>(1)),
        QueryOutcome::Produced(Ok(2)),
        QueryOutcome::Produced(Err(())),
        QueryOutcome::Produced(Ok(4)),
        QueryOutcome::Produced(Ok(5)),
    ];
    assert_eq!(collect_try_expand(events, 100), vec![Ok(1), Ok(2), Err(())]);
}

#[test]
fn expand_repeats_cloned_items() {
    let events = vec![
        QueryOutcome::Produced(String::from("a")),
        QueryOutcome::Produced(String::from("b")),
        QueryOutcome::Produced(String::from("c")),
        QueryOutcome::NotReady,
        QueryOutcome::NotReady,
        QueryOutcome::NotReady,
    ];
    assert_eq!(collect_expand(events, 5), vec!["a", "b", "c", "c", "c"]);
}

#[test]
fn expand_not_ready_before_first_item() {
    let mut combinator = Expand::<u32>::new();
    let mut upstream = ScriptedSource::new(vec![
        QueryOutcome::NotReady,
        QueryOutcome::Produced(7),
    ]);
    assert_eq!(combinator.query(&mut upstream), QueryOutcome::NotReady);
    assert_eq!(combinator.query(&mut upstream), QueryOutcome::Produced(7));
    assert_eq!(combinator.query(&mut upstream), QueryOutcome::Exhausted);
}

#[test]
fn try_expand_stays_exhausted_after_error() {
    let mut combinator = TryExpand::new();
    let mut upstream = ScriptedSource::new(vec![
        QueryOutcome::Produced(Err::<u32, _>("boom")),
        QueryOutcome::Produced(Ok(4)),
    ]);
    assert_eq!(
        combinator.query(&mut upstream),
        QueryOutcome::Produced(Err("boom"))
    );
    assert!(combinator.is_terminated());
    for _ in 0..3 {
        assert_eq!(combinator.query(&mut upstream), QueryOutcome::Exhausted);
    }
}

#[test]
fn try_expand_repeats_last_ok_while_pending() {
    let events = vec![
        QueryOutcome::Produced(Ok::<_, ()>(9)),
        QueryOutcome::NotReady,
        QueryOutcome::NotReady,
    ];
    assert_eq!(collect_try_expand(events, 3), vec![Ok(9), Ok(9), Ok(9)]);
}

#[test]
fn ready_after_n_polls_counts_down() {
    let mut source = ready_after_n_polls(42, 2);
    assert_eq!(source.query(), QueryOutcome::NotReady);
    assert_eq!(source.query(), QueryOutcome::NotReady);
    assert_eq!(source.query(), QueryOutcome::Produced(42));
    assert_eq!(source.query(), QueryOutcome::Exhausted);
    assert_eq!(source.query(), QueryOutcome::Exhausted);
}
