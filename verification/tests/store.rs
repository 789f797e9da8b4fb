use flow_monitor::endpoint::{create_default_servers, ServerInfo};
use flow_monitor::outcome::{poll_round, FetchError, Round};
use flow_monitor::store::{
    ControlError, ServerData, UpdateEffect, UpdateError, DEFAULT_HISTORY_CAPACITY,
};

fn numeric_round(timestamp: u64, endpoints: usize) -> Round {
    poll_round(timestamp, (0..endpoints).map(|i| Ok(format!("{}.5", i))).collect())
}

fn armed_store(capacity: usize) -> ServerData<u32> {
    let mut store = ServerData::with_capacity(create_default_servers(), capacity);
    assert!(store.arm());
    store
}

#[test]
fn a_new_store_is_idle_and_empty() {
    let store: ServerData<u32> = ServerData::new(create_default_servers());
    assert!(!store.is_collecting());
    assert_eq!(store.server_count(), 3);
    assert_eq!(store.history_len(), 0);
    assert_eq!(store.history_capacity(), DEFAULT_HISTORY_CAPACITY);
    assert_eq!(store.history_capacity(), 20);
    assert_eq!(store.start_time(), None);
    let snapshot = store.snapshot(10);
    assert_eq!(snapshot.per_endpoint_status, vec![false, false, false]);
    assert!(snapshot.recent_rounds.is_empty());
}

#[test]
fn the_server_list_is_copied_out_in_order() {
    let store: ServerData<u32> = ServerData::new(create_default_servers());
    let servers = store.servers();
    assert_eq!(servers.len(), 3);
    assert_eq!(servers[1].name, "m2");
    assert_eq!(
        store.server_addresses(),
        vec!["127.0.0.27:9000", "127.0.0.28:9000", "127.0.0.29:9000"]
    );
}

#[test]
fn an_idle_store_overwrites_liveness_and_publishes_nothing() {
    let mut store: ServerData<u32> = ServerData::new(create_default_servers());
    let round = poll_round(
        100,
        vec![Ok("1".to_string()), Err(FetchError::Timeout), Ok("3".to_string())],
    );
    assert_eq!(store.update(round, Some(5)), Ok(UpdateEffect::StatusOnly));
    assert_eq!(store.snapshot(10).per_endpoint_status, vec![true, false, true]);
    assert_eq!(store.history_len(), 0);
    assert_eq!(store.start_time(), None);
}

#[test]
fn an_armed_store_publishes_with_relative_timestamps() {
    let mut store = armed_store(10);
    assert_eq!(store.update(numeric_round(1000, 3), Some(1)), Ok(UpdateEffect::Published));
    assert_eq!(store.start_time(), Some(1000));
    assert_eq!(store.update(numeric_round(1001, 3), Some(2)), Ok(UpdateEffect::Published));
    assert_eq!(store.update(numeric_round(1005, 3), None), Ok(UpdateEffect::Published));
    assert_eq!(store.start_time(), Some(1000));
    let snapshot = store.snapshot(10);
    let times: Vec<u64> = snapshot.recent_rounds.iter().map(|e| e.round.timestamp).collect();
    assert_eq!(times, vec![0, 1, 5]);
    let flows: Vec<Option<u32>> = snapshot.recent_rounds.iter().map(|e| e.flow).collect();
    assert_eq!(flows, vec![Some(1), Some(2), None]);
    assert_eq!(snapshot.per_endpoint_status, vec![true, true, true]);
}

#[test]
fn a_round_with_the_wrong_number_of_outcomes_is_rejected() {
    let mut store = armed_store(10);
    assert_eq!(store.update(numeric_round(1, 2), None), Err(UpdateError::LengthMismatch));
    assert_eq!(store.update(numeric_round(1, 4), None), Err(UpdateError::LengthMismatch));
    assert_eq!(store.history_len(), 0);
    assert_eq!(store.snapshot(1).per_endpoint_status, vec![false, false, false]);
    assert_eq!(
        store.save_computation_result(numeric_round(1, 2), None),
        Err(UpdateError::LengthMismatch)
    );
    let mut idle: ServerData<u32> = ServerData::new(create_default_servers());
    assert_eq!(idle.update(numeric_round(1, 2), None), Err(UpdateError::LengthMismatch));
}

#[test]
fn a_round_from_before_the_origin_is_rejected() {
    let mut store = armed_store(10);
    assert_eq!(store.update(numeric_round(500, 3), None), Ok(UpdateEffect::Published));
    assert_eq!(store.update(numeric_round(499, 3), None), Err(UpdateError::ClockWentBackwards));
    assert_eq!(
        store.save_computation_result(numeric_round(499, 3), None),
        Err(UpdateError::ClockWentBackwards)
    );
    assert_eq!(store.history_len(), 1);
    assert_eq!(store.update(numeric_round(500, 3), None), Ok(UpdateEffect::Published));
    assert_eq!(store.history_len(), 2);
}

#[test]
fn saving_while_idle_is_refused() {
    let mut store: ServerData<u32> = ServerData::new(create_default_servers());
    assert_eq!(
        store.save_computation_result(numeric_round(1, 3), Some(1)),
        Err(UpdateError::NotCollecting)
    );
    assert_eq!(store.history_len(), 0);
    assert_eq!(store.start_time(), None);
}

#[test]
fn saving_while_armed_appends_one_entry() {
    let mut store = armed_store(10);
    assert_eq!(store.save_computation_result(numeric_round(70, 3), Some(4)), Ok(()));
    assert_eq!(store.save_computation_result(numeric_round(75, 3), Some(5)), Ok(()));
    let snapshot = store.snapshot(10);
    assert_eq!(snapshot.recent_rounds.len(), 2);
    assert_eq!(snapshot.recent_rounds[1].round.timestamp, 5);
    assert_eq!(snapshot.recent_rounds[1].flow, Some(5));
    // Saving alone does not touch liveness.
    assert_eq!(snapshot.per_endpoint_status, vec![false, false, false]);
}

#[test]
fn the_history_of_a_store_never_exceeds_its_capacity() {
    let mut store = armed_store(5);
    for t in 0..30u64 {
        assert_eq!(store.update(numeric_round(t, 3), Some(t as u32)), Ok(UpdateEffect::Published));
        assert!(store.history_len() <= 5);
    }
    let snapshot = store.snapshot(100);
    let times: Vec<u64> = snapshot.recent_rounds.iter().map(|e| e.round.timestamp).collect();
    assert_eq!(times, vec![25, 26, 27, 28, 29]);
}

#[test]
fn every_published_round_has_one_outcome_per_endpoint() {
    let mut store = armed_store(8);
    for t in 0..12u64 {
        let _ = store.update(numeric_round(t, (t % 5) as usize), None);
    }
    let snapshot = store.snapshot(100);
    let times: Vec<u64> = snapshot.recent_rounds.iter().map(|e| e.round.timestamp).collect();
    assert_eq!(times, vec![0, 5]);
    for entry in &snapshot.recent_rounds {
        assert_eq!(entry.round.len(), store.server_count());
        assert_eq!(entry.round.len(), snapshot.per_endpoint_status.len());
    }
}

#[test]
fn a_snapshot_holds_the_newest_requested_rounds() {
    let mut store = armed_store(10);
    for t in 0..7u64 {
        store.update(numeric_round(t, 3), None).unwrap();
    }
    let times = |n: usize| -> Vec<u64> {
        store.snapshot(n).recent_rounds.iter().map(|e| e.round.timestamp).collect()
    };
    assert_eq!(times(0), Vec::<u64>::new());
    assert_eq!(times(2), vec![5, 6]);
    assert_eq!(times(7), vec![0, 1, 2, 3, 4, 5, 6]);
    assert_eq!(times(50), vec![0, 1, 2, 3, 4, 5, 6]);
    assert_eq!(store.history_len(), 7);
}

#[test]
fn disarm_then_arm_resets_history_and_origin() {
    let mut store = armed_store(10);
    for t in 10..15u64 {
        store.update(numeric_round(t, 3), Some(1)).unwrap();
    }
    assert_eq!(store.history_len(), 5);
    assert_eq!(store.start_time(), Some(10));
    assert!(store.disarm());
    assert!(!store.is_collecting());
    assert_eq!(store.history_len(), 0);
    assert_eq!(store.start_time(), None);
    assert!(store.arm());
    assert!(store.is_collecting());
    assert_eq!(store.history_len(), 0);
    assert_eq!(store.start_time(), None);
    store.update(numeric_round(3, 3), None).unwrap();
    assert_eq!(store.start_time(), Some(3));
    assert_eq!(store.snapshot(1).recent_rounds[0].round.timestamp, 0);
}

#[test]
fn arming_an_armed_store_changes_nothing() {
    let mut store = armed_store(10);
    store.update(numeric_round(10, 3), None).unwrap();
    assert!(!store.arm());
    assert_eq!(store.history_len(), 1);
    assert_eq!(store.start_time(), Some(10));
}

#[test]
fn disarming_an_idle_store_reports_that_it_was_idle() {
    let mut store: ServerData<u32> = ServerData::new(create_default_servers());
    assert!(!store.disarm());
    assert!(!store.is_collecting());
}

#[test]
fn the_toggle_flips_between_idle_and_armed() {
    let mut store: ServerData<u32> = ServerData::new(create_default_servers());
    assert!(store.toggle_collection_state());
    assert!(store.is_collecting());
    store.update(numeric_round(10, 3), None).unwrap();
    assert!(!store.toggle_collection_state());
    assert!(!store.is_collecting());
    assert_eq!(store.history_len(), 0);
    assert_eq!(store.start_time(), None);
}

#[test]
fn the_endpoint_list_is_edited_while_idle() {
    let mut store: ServerData<u32> = ServerData::new(create_default_servers());
    assert_eq!(store.add_endpoint("cone", "10.0.0.9:9000"), Ok(()));
    assert_eq!(store.add_new_server(), Ok(()));
    let servers = store.servers();
    assert_eq!(servers.len(), 5);
    assert_eq!(servers[3].name, "cone");
    assert_eq!(servers[3].address, "10.0.0.9:9000");
    assert!(!servers[3].online);
    assert_eq!(servers[4].name, "m5");
    assert_eq!(servers[4].address, "127.0.0.1:9000");

    let removed = store.remove_endpoint(1).unwrap();
    assert_eq!(removed.name, "m2");
    let names: Vec<String> = store.servers().into_iter().map(|s| s.name).collect();
    assert_eq!(names, vec!["m1", "m3", "cone", "m5"]);

    assert_eq!(store.set_address(0, "192.168.0.27:9000"), Ok(()));
    assert_eq!(store.servers()[0].address, "192.168.0.27:9000");
    assert_eq!(store.servers()[0].name, "m1");

    assert_eq!(store.set_name(0, "nozzle"), Ok(()));
    assert_eq!(store.servers()[0].name, "nozzle");
    assert_eq!(store.servers()[0].address, "192.168.0.27:9000");
    assert_eq!(store.servers()[1].name, "m3");
}

#[test]
fn a_default_name_counts_in_decimal() {
    let mut store: ServerData<u32> = ServerData::new(Vec::new());
    for _ in 0..12 {
        store.add_new_server().unwrap();
    }
    let names: Vec<String> = store.servers().into_iter().map(|s| s.name).collect();
    assert_eq!(names[0], "m1");
    assert_eq!(names[8], "m9");
    assert_eq!(names[9], "m10");
    assert_eq!(names[11], "m12");
}

#[test]
fn editing_a_missing_endpoint_is_refused() {
    let mut store: ServerData<u32> = ServerData::new(create_default_servers());
    assert_eq!(store.remove_endpoint(3).err(), Some(ControlError::NoSuchEndpoint));
    assert_eq!(store.set_address(7, "x"), Err(ControlError::NoSuchEndpoint));
    assert_eq!(store.set_name(3, "x"), Err(ControlError::NoSuchEndpoint));
    assert_eq!(store.server_count(), 3);
}

#[test]
fn the_endpoint_list_is_frozen_while_armed() {
    let mut store = armed_store(10);
    assert_eq!(store.add_endpoint("x", "y"), Err(ControlError::Armed));
    assert_eq!(store.add_new_server(), Err(ControlError::Armed));
    assert_eq!(store.remove_endpoint(0).err(), Some(ControlError::Armed));
    assert_eq!(store.remove_endpoint(9).err(), Some(ControlError::Armed));
    assert_eq!(store.set_address(0, "y"), Err(ControlError::Armed));
    assert_eq!(store.set_name(0, "y"), Err(ControlError::Armed));
    assert_eq!(store.server_count(), 3);
    assert_eq!(store.servers()[0].name, "m1");
    assert_eq!(store.servers()[0].address, "127.0.0.27:9000");
}

#[test]
fn the_capacity_is_set_while_idle() {
    let mut store: ServerData<u32> = ServerData::new(create_default_servers());
    assert_eq!(store.set_history_capacity(2), Ok(()));
    assert_eq!(store.history_capacity(), 2);
    store.arm();
    for t in 0..6u64 {
        store.update(numeric_round(t, 3), None).unwrap();
    }
    let times: Vec<u64> =
        store.snapshot(10).recent_rounds.iter().map(|e| e.round.timestamp).collect();
    assert_eq!(times, vec![4, 5]);
}

#[test]
fn the_capacity_is_frozen_while_armed() {
    let mut store = armed_store(10);
    for t in 0..6u64 {
        store.update(numeric_round(t, 3), None).unwrap();
    }
    assert_eq!(store.set_history_capacity(2), Err(ControlError::Armed));
    assert_eq!(store.history_capacity(), 10);
    assert_eq!(store.history_len(), 6);
}

#[test]
fn liveness_is_paired_with_outcomes_by_index() {
    let mut store: ServerData<u32> = ServerData::new(create_default_servers());
    let short = poll_round(1, vec![Ok("1".to_string()), Ok("2".to_string())]);
    store.update_server_statuses(&short);
    assert_eq!(store.snapshot(0).per_endpoint_status, vec![true, true, false]);
    let long = poll_round(
        2,
        vec![
            Err(FetchError::ConnectFailed),
            Ok("2".to_string()),
            Ok("3".to_string()),
            Ok("4".to_string()),
        ],
    );
    store.update_server_statuses(&long);
    assert_eq!(store.snapshot(0).per_endpoint_status, vec![false, true, true]);
    assert_eq!(store.history_len(), 0);
}

#[test]
fn a_flow_is_wanted_only_for_an_armed_store_and_a_numeric_round() {
    let mut store: ServerData<u32> = ServerData::new(create_default_servers());
    assert!(!store.needs_flow(&numeric_round(1, 3)));
    store.arm();
    assert!(store.needs_flow(&numeric_round(1, 3)));
    assert!(!store.needs_flow(&numeric_round(1, 2)));
    let failed = poll_round(
        1,
        vec![Ok("1".to_string()), Ok("2".to_string()), Err(FetchError::Timeout)],
    );
    assert!(!store.needs_flow(&failed));
    let malformed =
        poll_round(1, vec![Ok("1".to_string()), Ok("two".to_string()), Ok("3".to_string())]);
    assert!(!store.needs_flow(&malformed));
}

#[test]
fn a_flow_offered_for_an_unusable_round_is_not_attached() {
    let mut store = armed_store(10);
    let malformed =
        poll_round(1, vec![Ok("1".to_string()), Ok("two".to_string()), Ok("3".to_string())]);
    assert_eq!(store.update(malformed, Some(9)), Ok(UpdateEffect::Published));
    let snapshot = store.snapshot(1);
    assert_eq!(snapshot.recent_rounds[0].flow, None);
    assert_eq!(snapshot.recent_rounds[0].round.outcomes[1].display_text(), "two");
    assert_eq!(snapshot.per_endpoint_status, vec![true, true, true]);
}

#[test]
fn a_store_over_named_servers_keeps_their_names() {
    let store: ServerData<u32> = ServerData::with_capacity(
        vec![ServerInfo::new("NOZ", "127.0.0.27:9000"), ServerInfo::new("CON", "127.0.0.28:9000")],
        10,
    );
    assert_eq!(store.history_capacity(), 10);
    assert_eq!(store.servers()[0].name, "NOZ");
    assert_eq!(store.servers()[1].name, "CON");
}
