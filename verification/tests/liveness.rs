use bandwhichd_agent::publisher::{
    is_publish_success, remaining_sleep_ms, PublishAction, PublishLoopState,
    MAXIMUM_NUMBER_OF_CONSECUTIVE_PUBLISH_ERRORS,
};
use bandwhichd_agent::watchdog::watchdog_check;

#[test]
fn publish_success_is_exactly_http_200() {
    assert!(is_publish_success(Some(200)));
    assert!(!is_publish_success(Some(201)));
    assert!(!is_publish_success(Some(404)));
    assert!(!is_publish_success(Some(500)));
    assert!(!is_publish_success(None));
}

#[test]
fn circuit_breaker_aborts_on_failure_after_threshold() {
    // threshold consecutive failures are tolerated; the next one aborts
    let mut state = PublishLoopState::new();
    let mut aborts = 0;
    for k in 1..=(MAXIMUM_NUMBER_OF_CONSECUTIVE_PUBLISH_ERRORS as u32 + 1) {
        let action = state.record_outcome(false);
        if k <= MAXIMUM_NUMBER_OF_CONSECUTIVE_PUBLISH_ERRORS as u32 {
            assert_eq!(action, PublishAction::Continue);
        } else {
            assert_eq!(action, PublishAction::FatalAbort);
            aborts += 1;
        }
    }
    assert_eq!(aborts, 1);
    assert_eq!(state.error_count, MAXIMUM_NUMBER_OF_CONSECUTIVE_PUBLISH_ERRORS + 1);
}

#[test]
fn circuit_breaker_success_clears_the_count() {
    let mut state = PublishLoopState::new();
    assert_eq!(state.record_outcome(false), PublishAction::Continue);
    assert_eq!(state.record_outcome(false), PublishAction::Continue);
    assert_eq!(state.record_outcome(false), PublishAction::Continue);
    assert_eq!(state.record_outcome(true), PublishAction::Continue);
    assert_eq!(state.error_count, 0);
    // the tolerance is restored in full
    assert_eq!(state.record_outcome(false), PublishAction::Continue);
    assert_eq!(state.record_outcome(false), PublishAction::Continue);
    assert_eq!(state.record_outcome(false), PublishAction::Continue);
    assert_eq!(state.record_outcome(false), PublishAction::FatalAbort);
}

#[test]
fn sleep_is_the_rest_of_the_interval_and_never_negative() {
    assert_eq!(remaining_sleep_ms(0, 10_000), 10_000);
    assert_eq!(remaining_sleep_ms(2_500, 10_000), 7_500);
    assert_eq!(remaining_sleep_ms(10_000, 10_000), 0);
    assert_eq!(remaining_sleep_ms(25_000, 10_000), 0);
}

#[test]
fn watchdog_flags_the_stalled_publisher() {
    // configuration interval 600s, utilization interval 10s, margin 2s
    let v = watchdog_check(700_000, 5_000, 600_000, 10_000, 2_000);
    assert!(v.configuration_unresponsive);
    assert!(!v.utilization_unresponsive);
    assert_eq!(v.action, PublishAction::FatalAbort);

    let v = watchdog_check(5_000, 12_001, 600_000, 10_000, 2_000);
    assert!(!v.configuration_unresponsive);
    assert!(v.utilization_unresponsive);
    assert_eq!(v.action, PublishAction::FatalAbort);
}

#[test]
fn watchdog_heartbeats_within_the_margin() {
    let v = watchdog_check(602_000, 12_000, 600_000, 10_000, 2_000);
    assert!(!v.configuration_unresponsive);
    assert!(!v.utilization_unresponsive);
    assert_eq!(v.action, PublishAction::Continue);
}
