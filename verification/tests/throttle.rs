use sakanaa_web::throttle::{RequestThrottle, COOLDOWN_NS, FLOOR_INTERVAL_NS};

const SECOND: u64 = 1_000_000_000;

#[test]
fn first_request_goes_out_at_once() {
    let mut t = RequestThrottle::new();
    assert_eq!(t, RequestThrottle { last_request: None, burst_allowed: true });
    assert_eq!(t.request_throttle(17), 0);
    assert_eq!(t, RequestThrottle { last_request: Some(17), burst_allowed: true });
}

#[test]
fn burst_after_idle_then_floor() {
    // one request, four seconds of rest, then two requests back to back
    let mut t = RequestThrottle::new();
    assert_eq!(t.request_throttle(0), 0);
    assert_eq!(t.request_throttle(4 * SECOND), 0);
    assert_eq!(t.request_throttle(4 * SECOND), SECOND);
}

#[test]
fn request_is_remembered_at_the_time_it_goes_out() {
    let mut t = RequestThrottle { last_request: Some(10 * SECOND), burst_allowed: false };
    assert_eq!(t.request_throttle(10 * SECOND + 400_000_000), 600_000_000);
    assert_eq!(t.last_request, Some(11 * SECOND));
    assert!(!t.burst_allowed);
    // decided on at the time of the last request: a whole interval to wait
    let mut t = RequestThrottle { last_request: Some(0), burst_allowed: false };
    assert_eq!(t.request_throttle(0), SECOND);
    assert_eq!(t.last_request, Some(SECOND));
}

#[test]
fn floor_holds_between_requests_as_they_go_out() {
    let mut t = RequestThrottle { last_request: Some(0), burst_allowed: false };
    // decided on at 0.5 s, goes out at 1.0 s
    assert_eq!(t.request_throttle(500_000_000), 500_000_000);
    assert_eq!(t.last_request, Some(SECOND));
    // decided on at 1.2 s, goes out at 2.0 s
    assert_eq!(t.request_throttle(1_200_000_000), 800_000_000);
    assert_eq!(t.last_request, Some(2 * SECOND));
}

#[test]
fn request_without_wait_is_remembered_at_its_decision() {
    let mut t = RequestThrottle { last_request: Some(0), burst_allowed: true };
    assert_eq!(t.request_throttle(7), 0);
    assert_eq!(t.last_request, Some(7));
    let mut t = RequestThrottle { last_request: Some(0), burst_allowed: false };
    assert_eq!(t.request_throttle(2 * SECOND), 0);
    assert_eq!(t.last_request, Some(2 * SECOND));
}

#[test]
fn time_stops_at_the_end_of_the_clock() {
    let mut t = RequestThrottle { last_request: Some(u64::MAX - 5), burst_allowed: false };
    assert_eq!(t.request_throttle(u64::MAX - 3), SECOND - 2);
    assert_eq!(t.last_request, Some(u64::MAX));
}

#[test]
fn no_wait_once_the_floor_has_passed() {
    let mut t = RequestThrottle { last_request: Some(0), burst_allowed: false };
    assert_eq!(t.request_throttle(FLOOR_INTERVAL_NS), 0);
    assert!(!t.burst_allowed);
    let mut t = RequestThrottle { last_request: Some(0), burst_allowed: false };
    assert_eq!(t.request_throttle(FLOOR_INTERVAL_NS - 1), 1);
}

#[test]
fn burst_comes_back_only_after_more_than_the_cooldown() {
    let mut t = RequestThrottle { last_request: Some(0), burst_allowed: false };
    assert_eq!(t.request_throttle(COOLDOWN_NS), 0);
    assert!(!t.burst_allowed);
    let mut t = RequestThrottle { last_request: Some(0), burst_allowed: false };
    assert_eq!(t.request_throttle(COOLDOWN_NS + 1), 0);
    assert!(t.burst_allowed);
}

#[test]
fn a_burst_is_used_up_by_one_request() {
    let mut t = RequestThrottle { last_request: Some(0), burst_allowed: true };
    assert_eq!(t.request_throttle(1), 0);
    assert!(!t.burst_allowed);
    assert_eq!(t.request_throttle(2), SECOND - 1);
}

#[test]
fn decision_before_the_last_request_went_out_counts_no_time_passed() {
    let mut t = RequestThrottle { last_request: Some(5 * SECOND), burst_allowed: false };
    assert_eq!(t.request_throttle(2 * SECOND), SECOND);
    assert_eq!(t.last_request, Some(3 * SECOND));
}

#[test]
fn the_constants_are_one_and_three_seconds() {
    assert_eq!(FLOOR_INTERVAL_NS, SECOND);
    assert_eq!(COOLDOWN_NS, 3 * SECOND);
}
