//! What each request does and answers, in terms of what the storage holds.
use crate::call_log::most_recent;
use crate::host::{instance, published};
use crate::laws::log::law_append_drops_the_oldest;
use crate::ledger::{kinds_match, ledger, DataKey, Event, EventData, Ledger, StoredValue};
use crate::stats::{calls_of, reported_state, reported_states, violations_of};
use crate::types::{
    CallLogEntryView, CallLogSummary, CallLogView, CircuitBreakerState, MiddlewareError,
    RateLimitState, RouteCallStateView, RouteConfig, RouteRateLimitStats, Trap,
};
use soroban_sdk::Env;
use vstd::prelude::*;

verus! {

/// Whether the key holds the value, or is not in use and the value is the one that
/// then goes for it.
pub open spec fn holds(
    ledger: Ledger,
    key: DataKey,
    value: StoredValue,
    by_default: StoredValue,
) -> bool {
    ||| ledger.storage.get(key) == Some(value)
    ||| ledger.storage.get(key) is None && value == by_default
}

/// Whether the route keeps this state. By default it has no callers and a closed
/// circuit without failures.
pub open spec fn holds_state(ledger: Ledger, route: Seq<u8>, state: RouteCallStateView) -> bool {
    holds(
        ledger,
        DataKey::RouteCallState(route),
        StoredValue::CallState(state),
        StoredValue::CallState(
            RouteCallStateView {
                rate_limits: Map::empty(),
                circuit_breaker: CircuitBreakerState {
                    failure_count: 0,
                    opened_at: 0,
                    is_open: false,
                    is_half_open: false,
                },
            },
        ),
    )
}

/// Whether the route keeps this record of its callers without a limit. By default
/// there are none.
pub open spec fn holds_unlimited(
    ledger: Ledger,
    route: Seq<u8>,
    calls: Map<Seq<char>, RateLimitState>,
) -> bool {
    holds(
        ledger,
        DataKey::UnlimitedCalls(route),
        StoredValue::Callers(calls),
        StoredValue::Callers(Map::empty()),
    )
}

/// Whether the route keeps this log. By default it is empty.
pub open spec fn holds_log(ledger: Ledger, route: Seq<u8>, log: CallLogView) -> bool {
    holds(
        ledger,
        DataKey::CallLog(route),
        StoredValue::Log(log),
        StoredValue::Log(CallLogView { entries: Seq::empty(), head: 0 }),
    )
}

/// Whether the route keeps this summary. By default nothing is counted.
pub open spec fn holds_summary(ledger: Ledger, route: Seq<u8>, summary: CallLogSummary) -> bool {
    holds(
        ledger,
        DataKey::CallLogSummary(route),
        StoredValue::Summary(summary),
        StoredValue::Summary(
            CallLogSummary {
                total_calls: 0,
                success_count: 0,
                failure_count: 0,
                last_call_timestamp: 0,
            },
        ),
    )
}

/// Whether the route has these settings, or none.
pub open spec fn holds_config(ledger: Ledger, route: Seq<u8>, config: Option<RouteConfig>) -> bool {
    match config {
        Some(c) => ledger.storage.get(DataKey::RouteConfig(route)) == Some(StoredValue::Config(c)),
        None => ledger.storage.get(DataKey::RouteConfig(route)) is None,
    }
}

/// Whether so many calls are counted. By default none is.
pub open spec fn holds_total(ledger: Ledger, total: u64) -> bool {
    holds(
        ledger,
        DataKey::TotalCalls,
        StoredValue::Counter(total),
        StoredValue::Counter(0),
    )
}

/// Whether these routes are listed. By default none is.
pub open spec fn holds_routes(ledger: Ledger, routes: Seq<Seq<u8>>) -> bool {
    holds(
        ledger,
        DataKey::ConfiguredRoutes,
        StoredValue::Routes(routes),
        StoredValue::Routes(Seq::empty()),
    )
}

// The hook before a call

/// A call is refused, in this order: where the middleware is switched off; where
/// the route is; where the route has a threshold, its circuit is open, and it has
/// no recovery window or that has not passed; and where the route has a limit, the
/// caller's window has not passed, and its calls are as many as the limit. It is
/// admitted otherwise.
pub proof fn law_when_a_call_is_refused(
    ledger: Ledger,
    caller: Seq<char>,
    route: Seq<u8>,
    now: u64,
    config: RouteConfig,
    state: RouteCallStateView,
)
    requires
        holds_config(ledger, route, Some(config)),
        holds_state(ledger, route, state),
    ensures
        ({
            let breaker = state.circuit_breaker;
            let limit = state.rate_limits[caller];
            let answer: Result<(), MiddlewareError> = if ledger.storage.get(DataKey::GlobalEnabled)
                == Some(StoredValue::Flag(false)) {
                Err(MiddlewareError::MiddlewareDisabled)
            } else if !config.enabled {
                Err(MiddlewareError::RouteDisabled)
            } else if config.failure_threshold > 0 && breaker.is_open && (
            config.recovery_window_seconds == 0 || now < breaker.opened_at
                + config.recovery_window_seconds) {
                Err(MiddlewareError::CircuitOpen)
            } else if config.max_calls_per_window > 0 && state.rate_limits.contains_key(caller)
                && now < limit.window_start + config.window_seconds && limit.calls_in_window
                >= config.max_calls_per_window {
                Err(MiddlewareError::RateLimitExceeded)
            } else {
                Ok(())
            };
            &&& ledger.pre_call(caller, route, now).1 == answer
            &&& ledger.verdict(caller, route, now) == answer
        }),
{
}

/// On a route without settings a call is refused only where the middleware is
/// switched off.
pub proof fn law_when_a_call_without_settings_is_refused(
    ledger: Ledger,
    caller: Seq<char>,
    route: Seq<u8>,
    now: u64,
)
    requires
        holds_config(ledger, route, None),
    ensures
        ledger.pre_call(caller, route, now).1 == (if ledger.storage.get(DataKey::GlobalEnabled)
            == Some(StoredValue::Flag(false)) {
            Err::<(), MiddlewareError>(MiddlewareError::MiddlewareDisabled)
        } else {
            Ok(())
        }),
        ledger.verdict(caller, route, now) == ledger.pre_call(caller, route, now).1,
{
}

/// A call is refused for an open circuit only where the stored circuit is open.
/// One that is closed, with however many failures, or half-open refuses none.
pub proof fn law_only_an_open_circuit_is_named(
    ledger: Ledger,
    caller: Seq<char>,
    route: Seq<u8>,
    now: u64,
)
    requires
        ledger.verdict(caller, route, now) == Err::<(), _>(MiddlewareError::CircuitOpen)
            || ledger.pre_call(caller, route, now).1 == Err::<(), _>(MiddlewareError::CircuitOpen),
    ensures
        ledger.storage.get(DataKey::RouteCallState(route)) matches Some(StoredValue::CallState(s))
            && s.circuit_breaker.is_open,
{
}

/// An admitted call on a route with a limit is counted for the caller: as one more
/// where its window lasts, and else as the first of a window that starts now. It
/// probes an open circuit. It is counted in total and announced, and nothing else
/// changes.
pub proof fn law_admitted_call_with_limit(
    ledger: Ledger,
    caller: Seq<char>,
    route: Seq<u8>,
    now: u64,
    config: RouteConfig,
    state: RouteCallStateView,
    total: u64,
)
    requires
        holds_config(ledger, route, Some(config)),
        holds_state(ledger, route, state),
        holds_total(ledger, total),
        total < u64::MAX,
        config.max_calls_per_window > 0,
        ledger.pre_call(caller, route, now).1 is Ok,
    ensures
        ({
            let after = ledger.pre_call(caller, route, now).0;
            let limit = state.rate_limits[caller];
            let known = state.rate_limits.contains_key(caller);
            let lasts = known && now < limit.window_start + config.window_seconds;
            let probes = config.failure_threshold > 0 && state.circuit_breaker.is_open;
            let counted = RateLimitState {
                calls_in_window: if lasts {
                    (limit.calls_in_window + 1) as u32
                } else {
                    1
                },
                window_start: if lasts {
                    limit.window_start
                } else {
                    now
                },
                total_violations: if known {
                    limit.total_violations
                } else {
                    0
                },
            };
            let breaker = if probes {
                CircuitBreakerState {
                    failure_count: 0,
                    opened_at: 0,
                    is_open: false,
                    is_half_open: true,
                }
            } else {
                state.circuit_breaker
            };
            &&& lasts ==> limit.calls_in_window < config.max_calls_per_window
            &&& after.storage == ledger.storage.insert(
                DataKey::RouteCallState(route),
                StoredValue::CallState(
                    RouteCallStateView {
                        rate_limits: state.rate_limits.insert(caller, counted),
                        circuit_breaker: breaker,
                    },
                ),
            ).insert(DataKey::TotalCalls, StoredValue::Counter((total + 1) as u64))
            &&& after.events == ledger.events.push(
                Event { topic: "pre_call"@, data: EventData::Call(caller, route) },
            )
        }),
{
}

/// An admitted call on a route without a limit is put on record for the caller,
/// unless a limit has counted the caller before or the record is full: as one more
/// where its window lasts or the route has no settings, and else as the first of a
/// window that starts now. It probes an open circuit. It is counted in total and
/// announced, and nothing else changes.
pub proof fn law_admitted_call_without_limit(
    ledger: Ledger,
    caller: Seq<char>,
    route: Seq<u8>,
    now: u64,
    config: Option<RouteConfig>,
    state: RouteCallStateView,
    calls: Map<Seq<char>, RateLimitState>,
    total: u64,
)
    requires
        holds_config(ledger, route, config),
        holds_state(ledger, route, state),
        holds_unlimited(ledger, route, calls),
        holds_total(ledger, total),
        total < u64::MAX,
        config is Some ==> config->Some_0.max_calls_per_window == 0,
        ledger.pre_call(caller, route, now).1 is Ok,
    ensures
        ({
            let after = ledger.pre_call(caller, route, now).0;
            let before = calls[caller];
            let known = calls.contains_key(caller);
            let lasts = known && (config is None || now < before.window_start
                + config->Some_0.window_seconds);
            let probes = config is Some && config->Some_0.failure_threshold > 0
                && state.circuit_breaker.is_open;
            let noted = RateLimitState {
                calls_in_window: if lasts && before.calls_in_window < u32::MAX {
                    (before.calls_in_window + 1) as u32
                } else if lasts {
                    u32::MAX
                } else {
                    1
                },
                window_start: if lasts {
                    before.window_start
                } else {
                    now
                },
                total_violations: if known {
                    before.total_violations
                } else {
                    0
                },
            };
            let probed = if probes {
                ledger.storage.insert(
                    DataKey::RouteCallState(route),
                    StoredValue::CallState(
                        RouteCallStateView {
                            rate_limits: state.rate_limits,
                            circuit_breaker: CircuitBreakerState {
                                failure_count: 0,
                                opened_at: 0,
                                is_open: false,
                                is_half_open: true,
                            },
                        },
                    ),
                )
            } else {
                ledger.storage
            };
            let recorded = if !state.rate_limits.contains_key(caller) && (known || calls.len()
                < u32::MAX) {
                probed.insert(
                    DataKey::UnlimitedCalls(route),
                    StoredValue::Callers(calls.insert(caller, noted)),
                )
            } else {
                probed
            };
            &&& after.storage == recorded.insert(
                DataKey::TotalCalls,
                StoredValue::Counter((total + 1) as u64),
            )
            &&& after.events == ledger.events.push(
                Event { topic: "pre_call"@, data: EventData::Call(caller, route) },
            )
        }),
{
}

/// A call over the limit adds one to the caller's violations and changes nothing
/// else.
pub proof fn law_call_over_the_limit(
    ledger: Ledger,
    caller: Seq<char>,
    route: Seq<u8>,
    now: u64,
    state: RouteCallStateView,
)
    requires
        holds_state(ledger, route, state),
        ledger.pre_call_fits(caller, route, now),
        ledger.pre_call(caller, route, now).1 == Err::<(), _>(MiddlewareError::RateLimitExceeded),
    ensures
        ({
            let after = ledger.pre_call(caller, route, now).0;
            let limit = state.rate_limits[caller];
            &&& state.rate_limits.contains_key(caller)
            &&& limit.total_violations < u32::MAX
            &&& after.storage == ledger.storage.insert(
                DataKey::RouteCallState(route),
                StoredValue::CallState(
                    RouteCallStateView {
                        rate_limits: state.rate_limits.insert(
                            caller,
                            RateLimitState {
                                calls_in_window: limit.calls_in_window,
                                window_start: limit.window_start,
                                total_violations: (limit.total_violations + 1) as u32,
                            },
                        ),
                        circuit_breaker: state.circuit_breaker,
                    },
                ),
            )
            &&& after.events == ledger.events
        }),
{
}

/// A call that is refused for another reason changes nothing.
pub proof fn law_refused_call(ledger: Ledger, caller: Seq<char>, route: Seq<u8>, now: u64)
    requires
        ledger.pre_call(caller, route, now).1 is Err,
        ledger.pre_call(caller, route, now).1 != Err::<(), _>(MiddlewareError::RateLimitExceeded),
    ensures
        ledger.pre_call(caller, route, now).0 == ledger,
{
}

/// The hook before a call traps only where a number leaves its type or the record
/// of callers is full: on a route that is switched on, where the open circuit's
/// recovery time does; where the circuit does not refuse and there is a limit,
/// where the end of the caller's window does, or one more violation, or one more
/// caller; and where the call is admitted, where the total does.
pub proof fn law_when_a_call_traps(
    ledger: Ledger,
    caller: Seq<char>,
    route: Seq<u8>,
    now: u64,
    config: RouteConfig,
    state: RouteCallStateView,
    total: u64,
)
    requires
        holds_config(ledger, route, Some(config)),
        holds_state(ledger, route, state),
        holds_total(ledger, total),
    ensures
        ({
            let breaker = state.circuit_breaker;
            let known = state.rate_limits.contains_key(caller);
            let limit = state.rate_limits[caller];
            let on = ledger.storage.get(DataKey::GlobalEnabled) != Some(StoredValue::Flag(false))
                && config.enabled;
            let open = config.failure_threshold > 0 && breaker.is_open;
            let refuses = open && (config.recovery_window_seconds == 0 || now < breaker.opened_at
                + config.recovery_window_seconds);
            let over = known && now < limit.window_start + config.window_seconds
                && limit.calls_in_window >= config.max_calls_per_window;
            let start = if known {
                limit.window_start
            } else {
                now
            };
            let traps = on && {
                ||| open && config.recovery_window_seconds > 0 && breaker.opened_at
                    + config.recovery_window_seconds > u64::MAX
                ||| !refuses && config.max_calls_per_window > 0 && {
                    ||| start + config.window_seconds > u64::MAX
                    ||| over && limit.total_violations == u32::MAX
                    ||| !known && state.rate_limits.len() >= u32::MAX
                }
                ||| !refuses && !(config.max_calls_per_window > 0 && over) && total == u64::MAX
            };
            ledger.pre_call_fits(caller, route, now) <==> !traps
        }),
{
}

/// Without settings the hook before a call traps only where the total is at its
/// limit and the middleware is switched on.
pub proof fn law_when_a_call_without_settings_traps(
    ledger: Ledger,
    caller: Seq<char>,
    route: Seq<u8>,
    now: u64,
    total: u64,
)
    requires
        holds_config(ledger, route, None),
        holds_total(ledger, total),
    ensures
        ledger.pre_call_fits(caller, route, now) <==> ledger.storage.get(DataKey::GlobalEnabled)
            == Some(StoredValue::Flag(false)) || total < u64::MAX,
{
}

/// The hook before a call answers and changes what the call calls for, or traps
/// and changes nothing.
pub proof fn law_call_is_answered_or_traps(
    ledger: Ledger,
    caller: Seq<char>,
    route: Seq<u8>,
    now: u64,
    after: Ledger,
    answer: Result<Result<(), MiddlewareError>, Trap>,
)
    requires
        ledger.answers_pre_call(caller, route, now, after, answer),
    ensures
        answer is Ok <==> ledger.pre_call_fits(caller, route, now),
        answer is Ok ==> after == ledger.pre_call(caller, route, now).0 && answer->Ok_0
            == ledger.pre_call(caller, route, now).1,
        answer is Err ==> after == ledger,
{
}

// The hook after a call

/// What the hook after a call does on a route with settings. It announces the
/// outcome. Where the route keeps a log, it adds the entry, keeps the most recent
/// ones in order, and counts the outcome in the summary. Where the route has a
/// threshold, the circuit breaker learns of the outcome, a failure is noted, and
/// the opening of the circuit is announced. Nothing else changes.
pub proof fn law_outcome_on_a_route(
    ledger: Ledger,
    caller: Seq<char>,
    route: Seq<u8>,
    success: bool,
    now: u64,
    config: RouteConfig,
    state: RouteCallStateView,
    log: CallLogView,
    summary: CallLogSummary,
    key: DataKey,
)
    requires
        holds_config(ledger, route, Some(config)),
        holds_state(ledger, route, state),
        holds_log(ledger, route, log),
        holds_summary(ledger, route, summary),
        ledger.post_call_fits(route, success),
    ensures
        ({
            let after = ledger.post_call(caller, route, success, now);
            let breaker = state.circuit_breaker;
            let logs = config.log_retention > 0;
            let settles = config.failure_threshold > 0;
            let count: int = if breaker.is_half_open {
                1
            } else {
                breaker.failure_count + 1
            };
            let opens = settles && !success && (breaker.is_half_open || count
                >= config.failure_threshold);
            let settled = if success {
                CircuitBreakerState {
                    failure_count: if breaker.is_open && !breaker.is_half_open {
                        breaker.failure_count
                    } else {
                        0
                    },
                    opened_at: if breaker.is_half_open {
                        0
                    } else {
                        breaker.opened_at
                    },
                    is_open: breaker.is_open,
                    is_half_open: false,
                }
            } else {
                CircuitBreakerState {
                    failure_count: count as u32,
                    opened_at: if opens {
                        now
                    } else {
                        breaker.opened_at
                    },
                    is_open: opens || breaker.is_open,
                    is_half_open: false,
                }
            };
            let entry = CallLogEntryView { caller, timestamp: now, success, route };
            let announced = ledger.events.push(
                Event { topic: "post_call"@, data: EventData::Outcome(caller, route, success) },
            );
            &&& logs ==> {
                &&& after.storage.get(DataKey::CallLog(route)) matches Some(StoredValue::Log(next))
                &&& next.ordered() == most_recent(log.ordered().push(entry), config.log_retention)
                &&& next.head == 0 || next.head < next.entries.len()
            }
            &&& logs ==> after.storage.get(DataKey::CallLogSummary(route)) == Some(
                StoredValue::Summary(
                    CallLogSummary {
                        total_calls: (summary.total_calls + 1) as u32,
                        success_count: if success {
                            (summary.success_count + 1) as u32
                        } else {
                            summary.success_count
                        },
                        failure_count: if success {
                            summary.failure_count
                        } else {
                            (summary.failure_count + 1) as u32
                        },
                        last_call_timestamp: now,
                    },
                ),
            )
            &&& settles ==> after.storage.get(DataKey::RouteCallState(route)) == Some(
                StoredValue::CallState(
                    RouteCallStateView {
                        rate_limits: state.rate_limits,
                        circuit_breaker: settled,
                    },
                ),
            )
            &&& settles && !success ==> after.storage.get(DataKey::BreakerRecorded(route)) == Some(
                StoredValue::Flag(true),
            )
            &&& !(logs && key == DataKey::CallLog(route)) && !(logs && key
                == DataKey::CallLogSummary(route)) && !(settles && key == DataKey::RouteCallState(
                route,
            )) && !(settles && !success && key == DataKey::BreakerRecorded(route))
                ==> after.storage.get(key) == ledger.storage.get(key)
            &&& after.events == if opens {
                announced.push(
                    Event {
                        topic: "circuit_opened"@,
                        data: EventData::Count(route, settled.failure_count),
                    },
                )
            } else {
                announced
            }
        }),
{
    if config.log_retention > 0 {
        let entry = CallLogEntryView { caller, timestamp: now, success, route };
        assert(ledger.log_or_blank(route) == log);
        law_append_drops_the_oldest(log, config.log_retention, entry);
    }
}

/// On a route without settings an outcome is announced, and nothing else changes.
pub proof fn law_outcome_without_settings(
    ledger: Ledger,
    caller: Seq<char>,
    route: Seq<u8>,
    success: bool,
    now: u64,
)
    requires
        holds_config(ledger, route, None),
    ensures
        ledger.post_call_fits(route, success),
        ledger.post_call(caller, route, success, now).storage == ledger.storage,
        ledger.post_call(caller, route, success, now).events == ledger.events.push(
            Event { topic: "post_call"@, data: EventData::Outcome(caller, route, success) },
        ),
{
}

/// The hook after a call traps only where a count is at its limit, or a full log's
/// head is no slot in use.
pub proof fn law_when_an_outcome_traps(
    ledger: Ledger,
    route: Seq<u8>,
    success: bool,
    config: RouteConfig,
    state: RouteCallStateView,
    log: CallLogView,
    summary: CallLogSummary,
)
    requires
        holds_config(ledger, route, Some(config)),
        holds_state(ledger, route, state),
        holds_log(ledger, route, log),
        holds_summary(ledger, route, summary),
    ensures
        ({
            let breaker = state.circuit_breaker;
            let traps = {
                ||| config.log_retention > 0 && log.entries.len() >= config.log_retention
                    && log.head >= log.entries.len()
                ||| config.log_retention > 0 && summary.total_calls == u32::MAX
                ||| config.log_retention > 0 && success && summary.success_count == u32::MAX
                ||| config.log_retention > 0 && !success && summary.failure_count == u32::MAX
                ||| config.failure_threshold > 0 && !success && !breaker.is_half_open
                    && breaker.failure_count == u32::MAX
            };
            ledger.post_call_fits(route, success) <==> !traps
        }),
{
}

// Requests of the admin

/// The initialization stores the admin, the switch and the counter where there is
/// no admin, and nothing else; where there is one it is refused.
pub proof fn law_initialization(ledger: Ledger, admin: Seq<char>)
    ensures
        ({
            let (after, answer) = ledger.initialize(admin);
            let free = ledger.storage.get(DataKey::Admin) is None;
            &&& free ==> answer == Ok::<(), MiddlewareError>(()) && after.storage
                == ledger.storage.insert(DataKey::Admin, StoredValue::Address(admin)).insert(
                DataKey::GlobalEnabled,
                StoredValue::Flag(true),
            ).insert(DataKey::TotalCalls, StoredValue::Counter(0)) && after.events == ledger.events
            &&& !free ==> answer == Err::<(), _>(MiddlewareError::AlreadyInitialized) && after
                == ledger
        }),
{
}

/// A request of the admin is refused to all where there is no admin, and to all
/// others where there is one.
pub proof fn law_who_is_authorized(ledger: Ledger, caller: Seq<char>, admin: Seq<char>)
    ensures
        ledger.storage.get(DataKey::Admin) is None ==> ledger.authorize(caller) == Err::<(), _>(
            MiddlewareError::NotInitialized,
        ),
        ledger.storage.get(DataKey::Admin) == Some(StoredValue::Address(admin))
            ==> ledger.authorize(caller) == (if caller == admin {
            Ok(())
        } else {
            Err::<(), _>(MiddlewareError::Unauthorized)
        }),
{
}

/// Each request of the admin is refused exactly as the authorization is, and then
/// changes nothing. Only new settings can be refused for another reason: a limit
/// without a window.
pub proof fn law_admin_requests_are_answered(
    ledger: Ledger,
    caller: Seq<char>,
    route: Seq<u8>,
    config: RouteConfig,
    enabled: bool,
    address: Seq<char>,
)
    ensures
        ({
            let answer = ledger.authorize(caller);
            let invalid = config.max_calls_per_window > 0 && config.window_seconds == 0;
            &&& ledger.set_global_enabled(caller, enabled).1 == answer
            &&& ledger.reset_route_call_log(caller, route).1 == answer
            &&& ledger.reset_rate_limit(caller, route, address).1 == answer
            &&& ledger.reset_circuit_breaker(caller, route).1 == answer
            &&& ledger.transfer_admin(caller, address).1 == answer
            &&& ledger.configure_route(caller, route, config).1 == (if answer is Ok && invalid {
                Err(MiddlewareError::InvalidConfig)
            } else {
                answer
            })
            &&& answer is Err || invalid ==> ledger.configure_route(caller, route, config).0
                == ledger
            &&& answer is Err ==> {
                &&& ledger.set_global_enabled(caller, enabled).0 == ledger
                &&& ledger.reset_route_call_log(caller, route).0 == ledger
                &&& ledger.reset_rate_limit(caller, route, address).0 == ledger
                &&& ledger.reset_circuit_breaker(caller, route).0 == ledger
                &&& ledger.transfer_admin(caller, address).0 == ledger
            }
        }),
{
}

/// New settings are stored for the route, and the route is added at the end of the
/// list where it is not listed. Nothing else changes. It takes a place in the list.
pub proof fn law_new_settings(
    ledger: Ledger,
    caller: Seq<char>,
    route: Seq<u8>,
    config: RouteConfig,
    routes: Seq<Seq<u8>>,
)
    requires
        holds_routes(ledger, routes),
        ledger.configure_route(caller, route, config).1 is Ok,
    ensures
        ({
            let after = ledger.configure_route(caller, route, config).0;
            let stored = ledger.storage.insert(
                DataKey::RouteConfig(route),
                StoredValue::Config(config),
            );
            &&& after.storage == if routes.contains(route) {
                stored
            } else {
                stored.insert(DataKey::ConfiguredRoutes, StoredValue::Routes(routes.push(route)))
            }
            &&& after.events == ledger.events
            &&& ledger.configure_route_fits(caller, route, config) <==> routes.contains(route)
                || routes.len() < u32::MAX
        }),
{
}

/// Settings that are refused do not trap.
pub proof fn law_refused_settings_do_not_trap(
    ledger: Ledger,
    caller: Seq<char>,
    route: Seq<u8>,
    config: RouteConfig,
)
    requires
        ledger.configure_route(caller, route, config).1 is Err,
    ensures
        ledger.configure_route_fits(caller, route, config),
{
}

/// What the admin's other requests do: the switch is set and announced; a log is
/// removed and that announced; a caller is taken out of a route's records; a
/// circuit breaker is closed and noted; the admin is replaced and that announced.
/// Nothing else changes.
pub proof fn law_admin_requests_are_carried_out(
    ledger: Ledger,
    admin: Seq<char>,
    route: Seq<u8>,
    enabled: bool,
    address: Seq<char>,
    state: RouteCallStateView,
    calls: Map<Seq<char>, RateLimitState>,
)
    requires
        ledger.authorize(admin) is Ok,
        holds_state(ledger, route, state),
        holds_unlimited(ledger, route, calls),
    ensures
        ({
            let switched = ledger.set_global_enabled(admin, enabled).0;
            let cleared = ledger.reset_route_call_log(admin, route).0;
            let forgotten = ledger.reset_rate_limit(admin, route, address).0;
            let closed = ledger.reset_circuit_breaker(admin, route).0;
            let handed = ledger.transfer_admin(admin, address).0;
            let without = ledger.storage.insert(
                DataKey::RouteCallState(route),
                StoredValue::CallState(
                    RouteCallStateView {
                        rate_limits: state.rate_limits.remove(address),
                        circuit_breaker: state.circuit_breaker,
                    },
                ),
            );
            &&& switched.storage == ledger.storage.insert(
                DataKey::GlobalEnabled,
                StoredValue::Flag(enabled),
            )
            &&& switched.events == ledger.events.push(
                Event { topic: "middleware_enabled"@, data: EventData::Flag(enabled) },
            )
            &&& cleared.storage == ledger.storage.remove(DataKey::CallLog(route))
            &&& cleared.events == ledger.events.push(
                Event { topic: "call_log_cleared"@, data: EventData::Route(route) },
            )
            &&& forgotten.storage == if calls.contains_key(address) {
                without.insert(
                    DataKey::UnlimitedCalls(route),
                    StoredValue::Callers(calls.remove(address)),
                )
            } else {
                without
            }
            &&& forgotten.events == ledger.events
            &&& closed.storage == ledger.storage.insert(
                DataKey::RouteCallState(route),
                StoredValue::CallState(
                    RouteCallStateView {
                        rate_limits: state.rate_limits,
                        circuit_breaker: CircuitBreakerState {
                            failure_count: 0,
                            opened_at: 0,
                            is_open: false,
                            is_half_open: false,
                        },
                    },
                ),
            ).insert(DataKey::BreakerRecorded(route), StoredValue::Flag(true))
            &&& closed.events == ledger.events
            &&& handed.storage == ledger.storage.insert(
                DataKey::Admin,
                StoredValue::Address(address),
            )
            &&& handed.events == ledger.events.push(
                Event {
                    topic: "admin_transferred"@,
                    data: EventData::Addresses(admin, address),
                },
            )
        }),
{
}

// Queries

/// The admin, the switch, the counter, the list of routes and a route's settings
/// and summary are what is stored. Where nothing is, there is no admin, the switch
/// is on, no call is counted and no route is listed, and the route has no settings
/// and no summary.
pub proof fn law_queries_give_what_is_stored(
    ledger: Ledger,
    route: Seq<u8>,
    admin: Seq<char>,
    total: u64,
    routes: Seq<Seq<u8>>,
    config: Option<RouteConfig>,
    summary: CallLogSummary,
)
    ensures
        ledger.storage.get(DataKey::Admin) is None ==> ledger.admin() is None,
        ledger.storage.get(DataKey::Admin) == Some(StoredValue::Address(admin)) ==> ledger.admin()
            == Some(admin),
        ledger.enabled() <==> ledger.storage.get(DataKey::GlobalEnabled) != Some(
            StoredValue::Flag(false),
        ),
        holds_total(ledger, total) ==> ledger.total_calls() == total,
        holds_routes(ledger, routes) ==> ledger.routes() == routes,
        holds_config(ledger, route, config) ==> ledger.config(route) == config,
        ledger.storage.get(DataKey::CallLogSummary(route)) is None ==> ledger.summary(route) is None,
        ledger.storage.get(DataKey::CallLogSummary(route)) == Some(StoredValue::Summary(summary))
            ==> ledger.summary(route) == Some(summary),
{
}

/// What is reported of a route's circuit breaker is the stored one, in all its
/// fields. It is reported exactly where it was noted or is not closed without
/// failures.
pub proof fn law_reported_breaker_is_the_stored_one(
    ledger: Ledger,
    route: Seq<u8>,
    state: RouteCallStateView,
)
    requires
        holds_state(ledger, route, state),
    ensures
        ledger.breaker(route) matches Some(b) ==> b == state.circuit_breaker && b
            == ledger.call_state_or_blank(route).circuit_breaker,
        ledger.breaker(route) is Some <==> {
            ||| ledger.storage.get(DataKey::BreakerRecorded(route)) == Some(StoredValue::Flag(true))
            ||| state.circuit_breaker.failure_count != 0
            ||| state.circuit_breaker.opened_at != 0
            ||| state.circuit_breaker.is_open
            ||| state.circuit_breaker.is_half_open
        },
{
}

/// What is shown of a route's log are its last entries, in their order: all, or as
/// many as the settings keep.
pub proof fn law_shown_log_is_the_end_of_the_log(
    ledger: Ledger,
    route: Seq<u8>,
    config: RouteConfig,
    log: CallLogView,
    i: int,
)
    requires
        holds_config(ledger, route, Some(config)),
        holds_log(ledger, route, log),
    ensures
        ({
            let shown = ledger.shown_log(route);
            let all = log.ordered();
            &&& shown.len() == if log.entries.len() <= config.log_retention {
                log.entries.len()
            } else {
                config.log_retention as nat
            }
            &&& 0 <= i < shown.len() ==> shown[i] == all[all.len() - shown.len() + i]
        }),
{
    assert(ledger.log_or_blank(route) == log);
}

/// What is shown of the log of a route without settings is all that one of the
/// largest length can hold.
pub proof fn law_shown_log_without_settings(ledger: Ledger, route: Seq<u8>, log: CallLogView)
    requires
        holds_config(ledger, route, None),
        holds_log(ledger, route, log),
        log.entries.len() <= u32::MAX,
    ensures
        ledger.shown_log(route) == log.ordered(),
{
    assert(ledger.log_or_blank(route) == log);
}

/// A caller that a limit has counted is reported, at every time from
/// `window_seconds` after its `window_start` on, without calls in a window that
/// starts now, and an otherwise unhindered call of it is admitted; at every earlier
/// time it is reported as stored.
pub proof fn law_reported_state_follows_the_window(
    ledger: Ledger,
    route: Seq<u8>,
    caller: Seq<char>,
    now: u64,
    config: RouteConfig,
    state: RouteCallStateView,
)
    requires
        holds_config(ledger, route, Some(config)),
        holds_state(ledger, route, state),
        state.rate_limits.contains_key(caller),
    ensures
        ({
            let limit = state.rate_limits[caller];
            let report = ledger.rate_limit_state(route, caller, now);
            let passed = now >= limit.window_start + config.window_seconds;
            let unhindered = ledger.storage.get(DataKey::GlobalEnabled) != Some(
                StoredValue::Flag(false),
            ) && config.enabled && !state.circuit_breaker.is_open;
            &&& passed ==> report == Some(
                RateLimitState {
                    calls_in_window: 0,
                    window_start: now,
                    total_violations: limit.total_violations,
                },
            )
            &&& !passed ==> report == Some(limit)
            &&& passed && unhindered ==> ledger.pre_call(caller, route, now).1 is Ok
            &&& !passed && unhindered && config.max_calls_per_window > 0 ==> (ledger.pre_call(
                caller,
                route,
                now,
            ).1 is Ok <==> limit.calls_in_window < config.max_calls_per_window)
        }),
{
}

/// The reports of a route's callers go by what the route keeps of them and by its
/// settings. A report traps only where the end of a counted caller's window is no
/// point in time.
pub proof fn law_reports_go_by_what_is_stored(
    ledger: Ledger,
    route: Seq<u8>,
    caller: Seq<char>,
    now: u64,
    config: Option<RouteConfig>,
    state: RouteCallStateView,
    calls: Map<Seq<char>, RateLimitState>,
)
    requires
        holds_config(ledger, route, config),
        holds_state(ledger, route, state),
        holds_unlimited(ledger, route, calls),
    ensures
        ledger.rate_limit_state(route, caller, now) == reported_state(
            state.rate_limits,
            calls,
            config,
            caller,
            now,
        ),
        ledger.rate_limit_states(route, now) == reported_states(
            state.rate_limits,
            calls,
            config,
            now,
        ),
        ledger.rate_limit_states(route, now).get(caller) == ledger.rate_limit_state(
            route,
            caller,
            now,
        ),
        ledger.rate_limit_state_fits(route, caller) <==> (config is Some
            && state.rate_limits.contains_key(caller) ==> state.rate_limits[caller].window_start
            + config->Some_0.window_seconds <= u64::MAX),
{
    assert(ledger.call_state_or_blank(route) == state);
    assert(ledger.unlimited(route) == calls);
}

/// The statistics of a route are the calls and violations of all its callers as
/// they are reported, and the earliest of their window starts; there are none
/// without callers.
pub proof fn law_stats_go_by_the_reports(
    ledger: Ledger,
    route: Seq<u8>,
    now: u64,
    stats: Option<RouteRateLimitStats>,
)
    requires
        ledger.has_stats(route, now, stats),
    ensures
        stats is None <==> forall|caller: Seq<char>| #[trigger]
            ledger.rate_limit_state(route, caller, now) is None,
        stats matches Some(s) ==> s.total_calls_in_window == calls_of(
            ledger.rate_limit_states(route, now),
        ) && s.total_violations == violations_of(ledger.rate_limit_states(route, now)),
        stats matches Some(s) ==> forall|caller: Seq<char>|
            (#[trigger] ledger.rate_limit_state(route, caller, now)) is Some ==> s.window_start
                <= ledger.rate_limit_state(route, caller, now)->Some_0.window_start,
        stats matches Some(s) ==> exists|caller: Seq<char>|
            (#[trigger] ledger.rate_limit_state(route, caller, now)) is Some
                && ledger.rate_limit_state(route, caller, now)->Some_0.window_start
                == s.window_start,
{
    let states = ledger.rate_limit_states(route, now);
    assert forall|caller: Seq<char>|
        (#[trigger] ledger.rate_limit_state(route, caller, now)) is Some <==> states.dom().contains(
            caller,
        ) by {
    }
    if let Some(s) = stats {
        let caller = choose|caller: Seq<char>| #[trigger]
            states.contains_key(caller) && states[caller].window_start == s.window_start;
        assert(ledger.rate_limit_state(route, caller, now) is Some);
    } else {
        assert forall|caller: Seq<char>| #[trigger]
            ledger.rate_limit_state(route, caller, now) is None by {
            assert(!states.dom().contains(caller));
        }
    }
}

/// The statistics of a route trap only where a report of one of its callers does,
/// or the sum of the calls or of the violations leaves its type.
pub proof fn law_when_stats_trap(ledger: Ledger, route: Seq<u8>, now: u64)
    ensures
        ledger.stats_fit(route, now) <==> {
            &&& forall|caller: Seq<char>| #[trigger] ledger.rate_limit_state_fits(route, caller)
            &&& calls_of(ledger.rate_limit_states(route, now)) <= u32::MAX
            &&& violations_of(ledger.rate_limit_states(route, now)) <= u32::MAX
        },
{
    let limits = ledger.call_state_or_blank(route).rate_limits;
    if ledger.stats_fit(route, now) {
        assert forall|caller: Seq<char>| #[trigger] ledger.rate_limit_state_fits(route, caller) by {
            assert(crate::stats::reported_state_fits(limits, ledger.config(route), caller));
        }
    }
    if forall|caller: Seq<char>| #[trigger] ledger.rate_limit_state_fits(route, caller) {
        assert forall|caller: Seq<char>| #[trigger]
            crate::stats::reported_state_fits(limits, ledger.config(route), caller) by {
            assert(ledger.rate_limit_state_fits(route, caller));
        }
    }
}

// What the environment holds

/// The ledger of an environment is its storage and its events.
pub proof fn law_ledger_of_an_environment(env: Env)
    ensures
        ledger(env).storage == instance(env),
        ledger(env).events == published(env),
        ledger(env).kinds_match() == kinds_match(instance(env)),
{
}

/// Every storage in which each key in use holds a value of its kind is one that
/// requests can be made on.
pub proof fn law_kinds_of_values(storage: Map<DataKey, StoredValue>)
    ensures
        kinds_match(storage) <==> forall|key: DataKey| #[trigger]
            storage.contains_key(key) ==> match key {
                DataKey::Admin => storage[key] is Address,
                DataKey::RouteCallState(_) => storage[key] is CallState,
                DataKey::RouteConfig(_) => storage[key] is Config,
                DataKey::GlobalEnabled => storage[key] is Flag,
                DataKey::TotalCalls => storage[key] is Counter,
                DataKey::CallLog(_) => storage[key] is Log,
                DataKey::ConfiguredRoutes => storage[key] is Routes,
                DataKey::CallLogSummary(_) => storage[key] is Summary,
                DataKey::BreakerRecorded(_) => storage[key] is Flag,
                DataKey::UnlimitedCalls(_) => storage[key] is Callers,
            },
{
}

} // verus!
