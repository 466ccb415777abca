//! The rules on single records, in terms of their fields.
use crate::call_log::{entries_view, has_outcome, most_recent};
use crate::host::{address_id, call_log_contents, rate_limit_contents, string_bytes};
use crate::stats::{
    are_stats_of, calls_of, reported_state, reported_state_fits, reported_states, violations_of,
};
use crate::types::{
    CallLogEntry, CallLogEntryView, CallLogState, CallLogSummary, CallLogView,
    CircuitBreakerState, MiddlewareError, RateLimitState, RouteCallState, RouteConfig,
    RouteRateLimitStats,
};
use vstd::prelude::*;

verus! {

// Rate limits

/// A new caller has made no calls and no violations, and its window starts now.
pub proof fn law_new_caller(now: u64)
    ensures
        RateLimitState::spec_fresh(now).calls_in_window == 0,
        RateLimitState::spec_fresh(now).window_start == now,
        RateLimitState::spec_fresh(now).total_violations == 0,
{
}

/// A window lasts as many seconds from its start as the settings say. From then
/// on the caller has no calls in a window that starts now; until then its state is
/// what it was. The violations stay either way.
pub proof fn law_window_lasts_its_seconds(state: RateLimitState, config: RouteConfig, now: u64)
    ensures
        ({
            let current = state.spec_current(config, now);
            &&& state.window_end(config) == state.window_start + config.window_seconds
            &&& now >= state.window_start + config.window_seconds ==> current.calls_in_window == 0
                && current.window_start == now && current.total_violations
                == state.total_violations
            &&& now < state.window_start + config.window_seconds ==> current == state
        }),
{
}

/// A caller is over the limit exactly where there is one, its window has not
/// passed, and its calls in the window are as many as the limit or more.
pub proof fn law_over_the_limit(state: RateLimitState, config: RouteConfig, now: u64)
    ensures
        state.spec_exhausted(config, now) <==> config.max_calls_per_window > 0 && now
            < state.window_start + config.window_seconds && state.calls_in_window
            >= config.max_calls_per_window,
{
}

/// An admitted call is the first of a window that starts now where the caller's
/// has passed, and one more in its window otherwise.
pub proof fn law_call_is_counted(state: RateLimitState, config: RouteConfig, now: u64)
    requires
        now < state.window_start + config.window_seconds ==> state.calls_in_window < u32::MAX,
    ensures
        ({
            let after = state.spec_counted(config, now);
            &&& after.total_violations == state.total_violations
            &&& now >= state.window_start + config.window_seconds ==> after.calls_in_window == 1
                && after.window_start == now
            &&& now < state.window_start + config.window_seconds ==> after.calls_in_window
                == state.calls_in_window + 1 && after.window_start == state.window_start
        }),
{
}

/// A refused call over the limit is one more violation. It changes nothing else of
/// a window that lasts, and a window that has passed starts anew.
pub proof fn law_violation_is_counted(state: RateLimitState, config: RouteConfig, now: u64)
    requires
        state.total_violations < u32::MAX,
    ensures
        ({
            let after = state.spec_violated(config, now);
            &&& after.total_violations == state.total_violations + 1
            &&& now < state.window_start + config.window_seconds ==> after.calls_in_window
                == state.calls_in_window && after.window_start == state.window_start
            &&& now >= state.window_start + config.window_seconds ==> after.calls_in_window == 0
                && after.window_start == now
        }),
{
}

/// A call that no limit counts is noted like one that is counted, or as one more
/// since the first where the route has no settings; the count stops at the
/// largest number.
pub proof fn law_call_without_limit_is_noted(
    state: RateLimitState,
    config: Option<RouteConfig>,
    now: u64,
)
    ensures
        ({
            let after = state.spec_noted(config, now);
            let passed = config is Some && now >= state.window_start
                + config->Some_0.window_seconds;
            &&& after.total_violations == state.total_violations
            &&& passed ==> after.calls_in_window == 1 && after.window_start == now
            &&& !passed ==> after.window_start == state.window_start && after.calls_in_window
                == if state.calls_in_window == u32::MAX {
                u32::MAX as int
            } else {
                state.calls_in_window + 1
            }
        }),
{
}

// Circuit breakers

/// Only an open circuit refuses, on a route with a threshold, and only until as
/// many seconds after it was opened as the recovery window has; without a recovery
/// window for good.
pub proof fn law_only_an_open_circuit_refuses(
    breaker: CircuitBreakerState,
    config: RouteConfig,
    now: u64,
)
    ensures
        breaker.spec_refuses(config, now) <==> config.failure_threshold > 0 && breaker.is_open && (
        config.recovery_window_seconds == 0 || now < breaker.opened_at
            + config.recovery_window_seconds),
        breaker.recovery_time(config) == breaker.opened_at + config.recovery_window_seconds,
{
}

/// A call that is let through makes an open circuit half-open, without failures
/// and without an opening time, and changes no other.
pub proof fn law_let_through_probes(breaker: CircuitBreakerState, config: RouteConfig)
    ensures
        ({
            let after = breaker.spec_admitted(config);
            let probes = config.failure_threshold > 0 && breaker.is_open;
            &&& breaker.spec_probes(config) == probes
            &&& probes ==> after.failure_count == 0 && after.opened_at == 0 && !after.is_open
                && after.is_half_open
            &&& !probes ==> after == breaker
        }),
{
}

/// A failure opens a half-open circuit with one failure on record. It is one more
/// failure of any other circuit, and opens it now where the failures reach the
/// threshold.
pub proof fn law_failure_counts(breaker: CircuitBreakerState, config: RouteConfig, now: u64)
    requires
        breaker.is_half_open || breaker.failure_count < u32::MAX,
    ensures
        ({
            let after = breaker.spec_failed(config, now);
            let count: int = if breaker.is_half_open {
                1
            } else {
                breaker.failure_count + 1
            };
            let opens = breaker.is_half_open || count >= config.failure_threshold;
            &&& breaker.spec_trips(config) == opens
            &&& after.failure_count == count
            &&& opens ==> after.is_open && !after.is_half_open && after.opened_at == now
            &&& !opens ==> after.is_open == breaker.is_open && !after.is_half_open
                && after.opened_at == breaker.opened_at
        }),
{
}

/// A success ends a probe, without failures and without an opening time. It clears
/// the failures of a closed circuit, and changes nothing else.
pub proof fn law_success_clears(breaker: CircuitBreakerState)
    ensures
        ({
            let after = breaker.spec_succeeded();
            &&& after.is_open == breaker.is_open
            &&& !after.is_half_open
            &&& breaker.is_half_open ==> after.failure_count == 0 && after.opened_at == 0
            &&& !breaker.is_half_open ==> after.opened_at == breaker.opened_at
            &&& !breaker.is_half_open && breaker.is_open ==> after.failure_count
                == breaker.failure_count
            &&& !breaker.is_half_open && !breaker.is_open ==> after.failure_count == 0
        }),
{
}

/// A closed circuit is neither open nor half-open and has no failures.
pub proof fn law_closed_circuit()
    ensures
        CircuitBreakerState::spec_closed().failure_count == 0,
        CircuitBreakerState::spec_closed().opened_at == 0,
        !CircuitBreakerState::spec_closed().is_open,
        !CircuitBreakerState::spec_closed().is_half_open,
{
}

// Call logs

/// The most recent elements are the last ones, in their order, and as many as
/// there are and may be.
pub proof fn law_most_recent_are_the_last<T>(all: Seq<T>, capacity: u32, i: int)
    ensures
        ({
            let recent = most_recent(all, capacity);
            &&& recent.len() == if all.len() <= capacity {
                all.len()
            } else {
                capacity as nat
            }
            &&& 0 <= i < recent.len() ==> recent[i] == all[all.len() - recent.len() + i]
        }),
{
}

/// A log is read from its head on, round the ring, each slot once.
pub proof fn law_log_is_read_from_its_head(log: CallLogView, i: int)
    requires
        0 <= i < log.entries.len(),
    ensures
        log.ordered().len() == log.entries.len(),
        log.ordered()[i] == log.entries[(log.head + i) % (log.entries.len() as int)],
        log.head < log.entries.len() ==> log.ordered()[i] == if log.head + i < log.entries.len() {
            log.entries[log.head + i]
        } else {
            log.entries[log.head + i - log.entries.len()]
        },
{
    let len = log.entries.len() as int;
    if log.head >= len {
    } else if log.head + i < len {
        vstd::arithmetic::div_mod::lemma_small_mod((log.head + i) as nat, len as nat);
    } else {
        vstd::arithmetic::div_mod::lemma_mod_sub_multiples_vanish(log.head + i, len);
        vstd::arithmetic::div_mod::lemma_small_mod((log.head + i - len) as nat, len as nat);
    }
}

/// An entry can be added unless the log is full and its head is no slot in use.
pub proof fn law_when_an_entry_can_be_added(log: CallLogView, capacity: u32)
    ensures
        log.can_append(capacity) <==> log.entries.len() < capacity || log.head
            < log.entries.len(),
{
}

/// A log without entries has none.
pub proof fn law_blank_log()
    ensures
        CallLogView::blank().entries.len() == 0,
        CallLogView::blank().head == 0,
        CallLogView::blank().ordered().len() == 0,
{
}

/// The filter goes by the outcome alone.
pub proof fn law_filter_goes_by_outcome(entry: CallLogEntryView, success: bool)
    ensures
        has_outcome(success)(entry) <==> entry.success == success,
{
}

/// A summary starts with nothing counted.
pub proof fn law_blank_summary()
    ensures
        CallLogSummary::spec_blank().total_calls == 0,
        CallLogSummary::spec_blank().success_count == 0,
        CallLogSummary::spec_blank().failure_count == 0,
        CallLogSummary::spec_blank().last_call_timestamp == 0,
{
}

/// A call adds one to the total and one to the count of its outcome, and its time
/// is the last. It can be counted exactly where neither count is at its limit.
pub proof fn law_outcome_is_counted(summary: CallLogSummary, success: bool, now: u64)
    ensures
        summary.spec_can_count(success) <==> summary.total_calls < u32::MAX && (success
            ==> summary.success_count < u32::MAX) && (!success ==> summary.failure_count
            < u32::MAX),
        summary.spec_can_count(success) ==> ({
            let after = summary.spec_counted(success, now);
            &&& after.total_calls == summary.total_calls + 1
            &&& after.success_count == summary.success_count + (if success {
                1int
            } else {
                0
            })
            &&& after.failure_count == summary.failure_count + (if success {
                0int
            } else {
                1
            })
            &&& after.last_call_timestamp == now
        }),
{
}

// Reports

/// What is reported of a caller. One that a limit has counted is reported as on
/// record while its window lasts, or where the route has no settings, and without
/// calls in a window that starts now once it has passed. One that no limit has
/// counted is reported likewise where there is no limit, and without calls in a
/// window that starts now where there is one. Of any other there is no report.
pub proof fn law_report_of_a_caller(
    limits: Map<Seq<char>, RateLimitState>,
    unlimited: Map<Seq<char>, RateLimitState>,
    config: Option<RouteConfig>,
    caller: Seq<char>,
    now: u64,
)
    ensures
        ({
            let report = reported_state(limits, unlimited, config, caller, now);
            let limited = config is Some && config->Some_0.max_calls_per_window > 0;
            let known = limits.contains_key(caller) || (!limited && unlimited.contains_key(caller));
            let kept = if limits.contains_key(caller) {
                limits[caller]
            } else {
                unlimited[caller]
            };
            let passed = config is Some && now >= kept.window_start
                + config->Some_0.window_seconds;
            &&& report is Some <==> limits.contains_key(caller) || unlimited.contains_key(caller)
            &&& known && !passed ==> report == Some(kept)
            &&& known && passed ==> report == Some(
                RateLimitState {
                    calls_in_window: 0,
                    window_start: now,
                    total_violations: kept.total_violations,
                },
            )
            &&& !known && report is Some ==> report == Some(
                RateLimitState { calls_in_window: 0, window_start: now, total_violations: 0 },
            )
        }),
{
}

/// A report needs the end of a counted caller's window to be a point in time, and
/// nothing else.
pub proof fn law_when_a_report_fits(
    limits: Map<Seq<char>, RateLimitState>,
    config: Option<RouteConfig>,
    caller: Seq<char>,
)
    ensures
        reported_state_fits(limits, config, caller) <==> (config is Some && limits.contains_key(
            caller,
        ) ==> limits[caller].window_start + config->Some_0.window_seconds <= u64::MAX),
{
}

/// The reports of a route are those of its callers.
pub proof fn law_reports_of_all_callers(
    limits: Map<Seq<char>, RateLimitState>,
    unlimited: Map<Seq<char>, RateLimitState>,
    config: Option<RouteConfig>,
    caller: Seq<char>,
    now: u64,
)
    ensures
        reported_states(limits, unlimited, config, now).get(caller) == reported_state(
            limits,
            unlimited,
            config,
            caller,
            now,
        ),
{
}

/// There are statistics exactly where there are callers. They hold the calls and
/// the violations of all callers, and a window start that a caller has and none
/// has earlier.
pub proof fn law_stats_of_all_callers(
    states: Map<Seq<char>, RateLimitState>,
    stats: Option<RouteRateLimitStats>,
)
    requires
        are_stats_of(states, stats),
    ensures
        stats is Some <==> exists|caller: Seq<char>| #[trigger] states.contains_key(caller),
        stats matches Some(s) ==> s.total_calls_in_window == calls_of(states),
        stats matches Some(s) ==> s.total_violations == violations_of(states),
        stats matches Some(s) ==> exists|caller: Seq<char>| #[trigger]
            states.contains_key(caller) && states[caller].window_start == s.window_start,
        stats matches Some(s) ==> forall|caller: Seq<char>| #[trigger]
            states.contains_key(caller) ==> s.window_start <= states[caller].window_start,
{
    if stats is None {
        assert forall|caller: Seq<char>| !#[trigger] states.contains_key(caller) by {
            assert(!states.dom().contains(caller));
        }
    }
}

// What values stand for

/// A record stands for its fields.
pub proof fn law_records_stand_for_their_fields(
    entry: CallLogEntry,
    log: CallLogState,
    state: RouteCallState,
)
    ensures
        entry@.caller == address_id(entry.caller),
        entry@.timestamp == entry.timestamp,
        entry@.success == entry.success,
        entry@.route == string_bytes(entry.route),
        log@.entries == call_log_contents(log.entries),
        log@.head == log.head,
        state@.rate_limits == rate_limit_contents(state.rate_limits),
        state@.circuit_breaker == state.circuit_breaker,
{
}

/// A list of entries stands for its entries, in their order.
pub proof fn law_lists_stand_for_their_entries(entries: Seq<CallLogEntry>, i: int)
    ensures
        entries_view(entries).len() == entries.len(),
        0 <= i < entries.len() ==> entries_view(entries)[i] == entries[i]@,
{
}

/// The numbers of the errors.
pub proof fn law_error_numbers(error: MiddlewareError)
    ensures
        error is AlreadyInitialized <==> error.spec_code() == 1,
        error is NotInitialized <==> error.spec_code() == 2,
        error is Unauthorized <==> error.spec_code() == 3,
        error is RateLimitExceeded <==> error.spec_code() == 4,
        error is RouteDisabled <==> error.spec_code() == 5,
        error is MiddlewareDisabled <==> error.spec_code() == 6,
        error is InvalidConfig <==> error.spec_code() == 7,
        error is CircuitOpen <==> error.spec_code() == 8,
{
}

} // verus!
