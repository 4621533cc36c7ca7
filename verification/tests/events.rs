use ranger::events::{
    await_conditions_step, get_event_start_timedelta, is_before, next_condition_status, poll_event,
    polled_machine, polling_outcome, ConditionWait, EventPoll, EventPoller, PollError, Timestamp,
};
use ranger::model::ElementStatus;

fn t(seconds: i64, nanoseconds: u32) -> Timestamp {
    Timestamp { seconds, nanoseconds }
}

#[test]
fn waits_whole_seconds_until_the_event_starts() {
    assert_eq!(get_event_start_timedelta(t(100, 0), t(40, 0)), 60);
    assert_eq!(get_event_start_timedelta(t(100, 0), t(40, 500_000_000)), 59);
    assert_eq!(get_event_start_timedelta(t(100, 900_000_000), t(40, 100_000_000)), 60);
    assert_eq!(get_event_start_timedelta(t(100, 0), t(99, 500_000_000)), 0);
    assert_eq!(get_event_start_timedelta(t(100, 0), t(100, 0)), 0);
    assert_eq!(get_event_start_timedelta(t(100, 0), t(200, 0)), 0);
    assert_eq!(get_event_start_timedelta(t(-5, 0), t(-10, 250_000_000)), 4);
}

#[test]
fn timestamps_compare_by_seconds_then_nanoseconds() {
    assert!(is_before(t(1, 999), t(2, 0)));
    assert!(is_before(t(2, 1), t(2, 2)));
    assert!(!is_before(t(2, 2), t(2, 2)));
    assert!(!is_before(t(3, 0), t(2, 999_999_999)));
}

#[test]
fn an_event_triggers_when_all_its_conditions_succeed() {
    let all = vec![ElementStatus::ConditionSuccess, ElementStatus::ConditionSuccess];
    assert_eq!(poll_event(&all, t(10, 0), t(5, 0)), EventPoll::Triggered);
    let some = vec![ElementStatus::ConditionSuccess, ElementStatus::Ongoing];
    assert_eq!(poll_event(&some, t(10, 0), t(20, 0)), EventPoll::Pending);
    assert_eq!(poll_event(&some, t(30, 0), t(20, 0)), EventPoll::WindowEnded);
    assert_eq!(poll_event(&some, t(20, 0), t(20, 0)), EventPoll::Pending);
    assert_eq!(poll_event(&vec![], t(30, 0), t(20, 0)), EventPoll::Triggered);
}

#[test]
fn polling_outcome_records_the_trigger_time() {
    let (outcome, ok) = polling_outcome(EventPoll::Triggered, t(42, 7)).unwrap();
    assert!(ok && outcome.has_triggered);
    assert_eq!(outcome.triggered_at, t(42, 7));
    let (outcome, ok) = polling_outcome(EventPoll::WindowEnded, t(42, 7)).unwrap();
    assert!(!ok && !outcome.has_triggered);
    assert_eq!(outcome.triggered_at, t(0, 0));
    assert!(polling_outcome(EventPoll::Pending, t(42, 7)).is_none());
    let _poller = EventPoller::new();
}

#[test]
fn waiting_for_conditions_times_out() {
    assert_eq!(await_conditions_step(2, 2, 0, 10), ConditionWait::Deployed);
    assert_eq!(await_conditions_step(1, 2, 9, 10), ConditionWait::Retry);
    assert_eq!(await_conditions_step(1, 2, 10, 10), ConditionWait::TimedOut);
    assert_eq!(await_conditions_step(2, 2, 10, 10), ConditionWait::TimedOut);
    assert_eq!(await_conditions_step(2, 2, 9, 10), ConditionWait::Deployed);
    assert_eq!(await_conditions_step(1, 2, 0, 0), ConditionWait::Retry);
}

#[test]
fn event_conditions_follow_their_last_reading() {
    assert_eq!(next_condition_status(true, true, ElementStatus::Ongoing), Some(ElementStatus::Success));
    assert_eq!(next_condition_status(true, true, ElementStatus::Success), None);
    assert_eq!(next_condition_status(true, false, ElementStatus::Success), Some(ElementStatus::Ongoing));
    assert_eq!(next_condition_status(true, false, ElementStatus::Ongoing), None);
    assert_eq!(next_condition_status(false, true, ElementStatus::Ongoing), None);
    assert_eq!(next_condition_status(true, true, ElementStatus::Failed), None);
}

#[test]
fn polled_machine_reads_the_handler_reference() {
    let handler = "a1a2a3a4-b1b2-c1c2-d1d2-d3d4d5d6d7d8".to_string();
    let (text, id) = polled_machine(&Some(handler.clone())).unwrap();
    assert_eq!(text, handler);
    assert_eq!(id, 0xa1a2a3a4b1b2c1c2d1d2d3d4d5d6d7d8u128);
    assert_eq!(polled_machine(&None).unwrap_err(), PollError::HandlerReferenceNotFound);
    assert_eq!(polled_machine(&Some("not-an-id".to_string())).unwrap_err(), PollError::ParentNodeIdUnreadable);
}
