use flow_monitor::collector::Collector;
use flow_monitor::endpoint::create_default_servers;
use flow_monitor::outcome::{FetchError, PollOutcome};
use flow_monitor::scheduler::{Scheduler, TickAction};
use flow_monitor::store::{ServerData, UpdateEffect};

#[test]
fn two_answers_and_a_timeout_make_a_round_without_flow() {
    let mut store: ServerData<f64> = ServerData::new(create_default_servers());
    let mut scheduler = Scheduler::new();
    store.arm();
    assert_eq!(scheduler.on_tick(store.is_collecting()), TickAction::Dispatch);

    let endpoints = store.servers();
    let mut collector = Collector::new(endpoints.len());
    // The fast endpoints report first, the slow one last.
    collector.record(1, PollOutcome::Success("7.25".to_string())).unwrap();
    collector.record(0, PollOutcome::Success("12.5".to_string())).unwrap();
    collector.record(2, PollOutcome::from_result(Err(FetchError::Timeout))).unwrap();
    let round = collector.finish(1_700_000_000).ok().unwrap();

    assert_eq!(round.len(), 3);
    assert_eq!(round.outcomes.iter().filter(|o| o.is_success()).count(), 2);
    assert_eq!(round.outcomes.iter().filter(|o| !o.is_success()).count(), 1);
    assert!(!store.needs_flow(&round));

    // Even a flow that is offered is not attached to such a round.
    assert_eq!(store.update(round, Some(0.123)), Ok(UpdateEffect::Published));
    let snapshot = store.snapshot(20);
    assert_eq!(snapshot.per_endpoint_status, vec![true, true, false]);
    assert_eq!(snapshot.recent_rounds.len(), 1);
    let entry = &snapshot.recent_rounds[0];
    assert_eq!(entry.round.len(), 3);
    assert_eq!(entry.round.timestamp, 0);
    assert_eq!(entry.round.outcomes[0].display_text(), "12.5");
    assert_eq!(entry.round.outcomes[1].display_text(), "7.25");
    assert_eq!(entry.round.outcomes[2].error(), Some(FetchError::Timeout));
    assert_eq!(entry.round.outcomes[2].display_text(), "Response timeout");
    assert!(entry.flow.is_none());
}

#[test]
fn three_numeric_answers_make_a_round_with_flow() {
    let mut store: ServerData<f64> = ServerData::new(create_default_servers());
    store.arm();
    let mut collector = Collector::new(3);
    collector.record(0, PollOutcome::Success("12.5".to_string())).unwrap();
    collector.record(1, PollOutcome::Success("7.25".to_string())).unwrap();
    collector.record(2, PollOutcome::Success("3".to_string())).unwrap();
    let round = collector.finish(50).ok().unwrap();
    assert!(store.needs_flow(&round));
    assert_eq!(store.update(round, Some(0.5)), Ok(UpdateEffect::Published));
    let snapshot = store.snapshot(20);
    assert_eq!(snapshot.per_endpoint_status, vec![true, true, true]);
    assert_eq!(snapshot.recent_rounds[0].flow, Some(0.5));
}
