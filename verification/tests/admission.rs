use runtime::cache::database::{CloseAction, CloseState};
use runtime::cache::strategies::flight::{Admission, FlightState};
use runtime::cache::strategies::refresher::RefresherState;

#[test]
fn flight_same_key_joins_the_running_load() {
    let mut flight = FlightState::new(32);

    assert_eq!(flight.join_or_start("hot"), Admission::Start);
    assert_eq!(flight.join_or_start("hot"), Admission::Join);
    assert_eq!(flight.in_flight(), 1);
}

#[test]
fn flight_distinct_key_over_budget_is_rejected() {
    let mut flight = FlightState::new(1);

    assert_eq!(flight.join_or_start("first"), Admission::Start);
    assert_eq!(flight.join_or_start("second"), Admission::Overloaded);
    assert_eq!(flight.in_flight(), 1);
}

#[test]
fn flight_existing_key_joins_when_budget_is_full() {
    let mut flight = FlightState::new(1);

    assert_eq!(flight.join_or_start("hot"), Admission::Start);
    assert_eq!(flight.join_or_start("hot"), Admission::Join);
}

#[test]
fn flight_finish_releases_the_slot_and_the_key() {
    let mut flight = FlightState::new(1);
    flight.join_or_start("slow");
    flight.finish("slow");

    assert_eq!(flight.in_flight(), 0);
    assert_eq!(flight.join_or_start("next"), Admission::Start);
    assert_eq!(flight.join_or_start("slow"), Admission::Overloaded);
}

#[test]
fn flight_zero_budget_still_admits_one_load() {
    let mut flight = FlightState::new(0);

    assert_eq!(flight.join_or_start("a"), Admission::Start);
    assert_eq!(flight.join_or_start("b"), Admission::Overloaded);
}

#[test]
fn flight_finishing_an_unknown_key_changes_nothing() {
    let mut flight = FlightState::new(2);
    flight.join_or_start("a");
    flight.finish("b");

    assert_eq!(flight.in_flight(), 1);
}

#[test]
fn refresher_full_budget_declines_without_queueing() {
    let mut refresher = RefresherState::new(1);

    assert!(refresher.try_start(true));
    assert!(!refresher.try_start(true));
    assert_eq!(refresher.running(), 1);
}

#[test]
fn refresher_contended_state_declines() {
    let mut refresher = RefresherState::new(4);

    assert!(!refresher.try_start(false));
    assert_eq!(refresher.running(), 0);
}

#[test]
fn refresher_close_stops_future_admission() {
    let mut refresher = RefresherState::new(2);

    assert!(refresher.close());
    assert!(!refresher.try_start(true));
}

#[test]
fn refresher_drain_completes_when_last_task_finishes() {
    let mut refresher = RefresherState::new(2);
    assert!(refresher.try_start(true));
    assert!(refresher.try_start(true));

    assert!(!refresher.close());
    assert!(!refresher.finish());
    assert!(refresher.finish());
    assert_eq!(refresher.running(), 0);
}

#[test]
fn refresher_zero_limit_still_admits_one() {
    let mut refresher = RefresherState::new(0);

    assert!(refresher.try_start(true));
    assert!(!refresher.try_start(true));
}

#[test]
fn close_starts_once_and_later_calls_join() {
    let mut state = CloseState::new();

    assert_eq!(state.begin(), CloseAction::Start);
    assert_eq!(state.begin(), CloseAction::Join);
    assert_eq!(state.begin(), CloseAction::Join);
}

#[test]
fn release_follows_the_drain_and_runs_once() {
    let mut state = CloseState::new();

    assert!(!state.drained());
    assert!(!state.released());
    assert_eq!(state.begin(), CloseAction::Start);
    assert!(!state.released());
    assert!(state.drained());
    assert!(!state.drained());
    assert_eq!(state.begin(), CloseAction::Join);
    assert!(state.released());
    assert!(!state.released());
    assert!(!state.drained());
}
