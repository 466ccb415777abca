//! The rules on plain records.
use router_middleware::{
    CallLogSummary, CircuitBreakerState, MiddlewareError, RateLimitState, RouteConfig,
};

fn config() -> RouteConfig {
    RouteConfig {
        max_calls_per_window: 2,
        window_seconds: 60,
        enabled: true,
        failure_threshold: 3,
        recovery_window_seconds: 100,
        log_retention: 0,
    }
}

fn limit(calls_in_window: u32, window_start: u64, total_violations: u32) -> RateLimitState {
    RateLimitState { calls_in_window, window_start, total_violations }
}

fn breaker(
    failure_count: u32,
    opened_at: u64,
    is_open: bool,
    is_half_open: bool,
) -> CircuitBreakerState {
    CircuitBreakerState { failure_count, opened_at, is_open, is_half_open }
}

#[test]
fn a_window_lasts_to_its_end() {
    let state = limit(2, 1000, 4);
    assert_eq!(state.current(&config(), 1059), state);
    assert_eq!(state.current(&config(), 1060), limit(0, 1060, 4));
    assert_eq!(state.current(&config(), 90000), limit(0, 90000, 4));
    assert_eq!(RateLimitState::fresh(77), limit(0, 77, 0));
}

#[test]
fn a_window_fits_up_to_the_last_second() {
    assert!(limit(0, u64::MAX - 60, 0).window_fits(&config()));
    assert!(!limit(0, u64::MAX - 59, 0).window_fits(&config()));
}

#[test]
fn calls_use_up_the_limit() {
    assert!(!limit(1, 1000, 0).exhausted(&config(), 1059));
    assert!(limit(2, 1000, 0).exhausted(&config(), 1059));
    assert!(!limit(2, 1000, 0).exhausted(&config(), 1060));
    let unlimited = RouteConfig { max_calls_per_window: 0, ..config() };
    assert!(!limit(u32::MAX, 1000, 0).exhausted(&unlimited, 1000));
}

#[test]
fn calls_and_violations_are_counted() {
    assert_eq!(limit(1, 1000, 4).counted(&config(), 1059), limit(2, 1000, 4));
    assert_eq!(limit(2, 1000, 4).counted(&config(), 1060), limit(1, 1060, 4));
    assert_eq!(limit(2, 1000, 4).violated(&config(), 1059), limit(2, 1000, 5));
}

#[test]
fn an_open_circuit_refuses_until_it_recovers() {
    let open = breaker(3, 1000, true, false);
    assert!(open.refuses(&config(), 1000));
    assert!(open.refuses(&config(), 1099));
    assert!(!open.refuses(&config(), 1100));
    assert!(!CircuitBreakerState::closed().refuses(&config(), 0));
    let forever = RouteConfig { recovery_window_seconds: 0, ..config() };
    assert!(open.refuses(&forever, u64::MAX));
    let without = RouteConfig { failure_threshold: 0, ..config() };
    assert!(!open.refuses(&without, 1000));
}

#[test]
fn an_admitted_call_probes_an_open_circuit() {
    let open = breaker(3, 1000, true, false);
    assert!(open.probes(&config()));
    assert_eq!(open.admitted(&config()), breaker(0, 0, false, true));
    let closed = breaker(2, 0, false, false);
    assert!(!closed.probes(&config()));
    assert_eq!(closed.admitted(&config()), closed);
}

#[test]
fn failures_count_up_to_the_threshold() {
    assert_eq!(
        CircuitBreakerState::closed().failed(&config(), 9),
        (breaker(1, 0, false, false), false)
    );
    let (opened, trips) = breaker(2, 0, false, false).failed(&config(), 9);
    assert_eq!((opened, trips), (breaker(3, 9, true, false), true));
    let (still_open, trips) = opened.failed(&config(), 12);
    assert_eq!((still_open, trips), (breaker(4, 12, true, false), true));
    let (reopened, trips) = breaker(0, 0, false, true).failed(&config(), 9);
    assert_eq!((reopened, trips), (breaker(1, 9, true, false), true));
}

#[test]
fn successes_close_or_clear() {
    assert_eq!(breaker(2, 0, false, false).succeeded(), CircuitBreakerState::closed());
    assert_eq!(breaker(0, 0, false, true).succeeded(), CircuitBreakerState::closed());
    assert_eq!(breaker(3, 9, true, false).succeeded(), breaker(3, 9, true, false));
}

#[test]
fn a_recovery_fits_up_to_the_last_second() {
    assert!(breaker(1, u64::MAX - 100, true, false).recovery_fits(&config()));
    assert!(!breaker(1, u64::MAX - 99, true, false).recovery_fits(&config()));
}

#[test]
fn summaries_count_outcomes() {
    let blank = CallLogSummary::blank();
    assert!(blank.can_count(true) && blank.can_count(false));
    let summary = blank.counted(true, 5).counted(false, 8).counted(false, 7);
    assert_eq!(
        summary,
        CallLogSummary {
            total_calls: 3,
            success_count: 1,
            failure_count: 2,
            last_call_timestamp: 7,
        }
    );
    assert!(!CallLogSummary { total_calls: u32::MAX, ..blank }.can_count(true));
    assert!(!CallLogSummary { failure_count: u32::MAX, ..blank }.can_count(false));
    assert!(CallLogSummary { failure_count: u32::MAX, ..blank }.can_count(true));
}

#[test]
fn errors_have_numbers() {
    let errors = [
        MiddlewareError::AlreadyInitialized,
        MiddlewareError::NotInitialized,
        MiddlewareError::Unauthorized,
        MiddlewareError::RateLimitExceeded,
        MiddlewareError::RouteDisabled,
        MiddlewareError::MiddlewareDisabled,
        MiddlewareError::InvalidConfig,
        MiddlewareError::CircuitOpen,
    ];
    let codes: Vec<u32> = errors.iter().map(|e| e.code()).collect();
    assert_eq!(codes, [1, 2, 3, 4, 5, 6, 7, 8]);
}

#[test]
fn calls_that_no_limit_counts_are_noted() {
    let free = RouteConfig { max_calls_per_window: 0, ..config() };
    assert_eq!(limit(4, 1000, 0).noted(&Some(free), 1059), limit(5, 1000, 0));
    assert_eq!(limit(4, 1000, 0).noted(&Some(free), 1060), limit(1, 1060, 0));
    assert_eq!(limit(4, 1000, 0).noted(&None, 9999), limit(5, 1000, 0));
    assert_eq!(limit(u32::MAX, 1000, 0).noted(&None, 9999), limit(u32::MAX, 1000, 0));
}

#[test]
fn a_window_passes_at_its_end() {
    assert!(!limit(1, 1000, 0).has_passed(&config(), 999));
    assert!(!limit(1, 1000, 0).has_passed(&config(), 1059));
    assert!(limit(1, 1000, 0).has_passed(&config(), 1060));
    let endless = RouteConfig { window_seconds: u64::MAX, ..config() };
    assert!(!limit(1, 1000, 0).has_passed(&endless, u64::MAX));
    assert!(limit(1, 0, 0).has_passed(&endless, u64::MAX));
}
