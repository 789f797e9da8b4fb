use flow_monitor::scheduler::{RoundAction, Scheduler, TickAction, POLL_INTERVAL_SECS};

#[test]
fn the_poll_interval_is_one_second() {
    assert_eq!(POLL_INTERVAL_SECS, 1);
}

#[test]
fn a_new_scheduler_rests() {
    let scheduler = Scheduler::new();
    assert!(!scheduler.in_flight());
    assert!(!scheduler.tick_pending());
}

#[test]
fn an_idle_tick_starts_nothing() {
    let mut scheduler = Scheduler::new();
    assert_eq!(scheduler.on_tick(false), TickAction::Rest);
    assert!(!scheduler.in_flight());
    assert!(!scheduler.tick_pending());
}

#[test]
fn an_armed_tick_dispatches_one_round() {
    let mut scheduler = Scheduler::new();
    assert_eq!(scheduler.on_tick(true), TickAction::Dispatch);
    assert!(scheduler.in_flight());
    assert_eq!(scheduler.on_round_finished(true), RoundAction::Wait);
    assert!(!scheduler.in_flight());
    assert_eq!(scheduler.on_tick(true), TickAction::Dispatch);
}

#[test]
fn a_tick_during_a_round_is_deferred_to_its_end() {
    let mut scheduler = Scheduler::new();
    assert_eq!(scheduler.on_tick(true), TickAction::Dispatch);
    assert_eq!(scheduler.on_tick(true), TickAction::Defer);
    assert_eq!(scheduler.on_tick(true), TickAction::Defer);
    assert!(scheduler.tick_pending());
    assert_eq!(scheduler.on_round_finished(true), RoundAction::DispatchNow);
    assert!(scheduler.in_flight());
    assert!(!scheduler.tick_pending());
    assert_eq!(scheduler.on_round_finished(true), RoundAction::Wait);
    assert!(!scheduler.in_flight());
}

#[test]
fn disarming_during_a_round_suppresses_the_next_one() {
    let mut scheduler = Scheduler::new();
    assert_eq!(scheduler.on_tick(true), TickAction::Dispatch);
    assert_eq!(scheduler.on_tick(false), TickAction::Defer);
    assert_eq!(scheduler.on_round_finished(false), RoundAction::Wait);
    assert!(!scheduler.in_flight());
    assert!(!scheduler.tick_pending());
    assert_eq!(scheduler.on_tick(false), TickAction::Rest);
}

#[test]
fn a_round_that_was_never_dispatched_changes_nothing() {
    let mut scheduler = Scheduler::new();
    assert_eq!(scheduler.on_round_finished(true), RoundAction::Wait);
    assert!(!scheduler.in_flight());
}

#[test]
fn no_two_rounds_are_in_flight_together() {
    let mut scheduler = Scheduler::new();
    let mut in_flight = 0i32;
    // A fixed, irregular script of ticks (true) and round ends (false).
    let script = [
        true, true, false, true, false, false, true, true, true, false, false, false, true, false,
    ];
    for (step, is_tick) in script.iter().enumerate() {
        let armed = step % 5 != 4;
        if *is_tick {
            if scheduler.on_tick(armed) == TickAction::Dispatch {
                in_flight += 1;
            }
        } else {
            let was_in_flight = scheduler.in_flight();
            let action = scheduler.on_round_finished(armed);
            if was_in_flight {
                in_flight -= 1;
            }
            if action == RoundAction::DispatchNow {
                in_flight += 1;
            }
        }
        assert!(in_flight == 0 || in_flight == 1);
        assert_eq!(scheduler.in_flight(), in_flight == 1);
    }
}
