//! The middleware: hooks before and after a routed call, and their settings.
//!
//! Every request acts on the ledger of the environment it is given, and its
//! contract states the ledger after and the answer by the functions of
//! [`crate::ledger::Ledger`]. Requests that depend on the clock come in two forms:
//! one takes the time as an argument, the other takes the environment's.
//! Whether `caller` has authorised a request is settled before it arrives here.
//!
//! A request needs storage in which every key in use holds a value of the kind that
//! it is read at, as that of a new contract does, and leaves it so.
use crate::call_log::{entries_view, has_outcome};
use crate::host;
use crate::host::{
    address_id, call_log_complete, is_ledger_time, rate_limit_contents, rate_limits_complete,
    route_list_contents, routes_complete, string_bytes,
};
use crate::ledger::ledger;
use crate::stats;
use crate::types::{
    CallLogEntry, CallLogState, CallLogSummary, CircuitBreakerState, MiddlewareError,
    RateLimitMap, RateLimitState, RouteCallState, RouteConfig, RouteRateLimitStats, Trap,
};
use soroban_sdk::{Address, Env};
use vstd::prelude::*;

verus! {

/// The middleware.
pub struct RouterMiddleware;

impl RouterMiddleware {
    /// Makes `admin` the admin, switches the middleware on and sets the call
    /// counter to zero. Possible once.
    pub fn initialize(env: &mut Env, admin: Address) -> (r: Result<(), MiddlewareError>)
        requires
            ledger(*old(env)).kinds_match(),
        ensures
            ledger(*final(env)).kinds_match(),
            (ledger(*final(env)), r) == ledger(*old(env)).initialize(address_id(admin)),
    {
        if host::has_admin(env) {
            return Err(MiddlewareError::AlreadyInitialized);
        }
        host::set_admin(env, &admin);
        host::set_global_enabled(env, true);
        host::set_total_calls(env, 0);
        Ok(())
    }

    /// Replaces the settings of a route. A rate limit needs a window.
    pub fn configure_route(
        env: &mut Env,
        caller: Address,
        route: soroban_sdk::String,
        max_calls_per_window: u32,
        window_seconds: u64,
        enabled: bool,
        failure_threshold: u32,
        recovery_window_seconds: u64,
        log_retention: u32,
    ) -> (r: Result<Result<(), MiddlewareError>, Trap>)
        requires
            ledger(*old(env)).kinds_match(),
        ensures
            ledger(*final(env)).kinds_match(),
            ({
                let config = RouteConfig {
                    max_calls_per_window,
                    window_seconds,
                    enabled,
                    failure_threshold,
                    recovery_window_seconds,
                    log_retention,
                };
                let id = address_id(caller);
                let name = string_bytes(route);
                &&& r is Ok == ledger(*old(env)).configure_route_fits(id, name, config)
                &&& r matches Ok(answer) ==> (ledger(*final(env)), answer) == ledger(
                    *old(env),
                ).configure_route(id, name, config)
                &&& r is Err ==> *final(env) == *old(env)
            }),
    {
        if let Err(e) = Self::require_admin(env, &caller) {
            return Ok(Err(e));
        }
        if window_seconds == 0 && max_calls_per_window > 0 {
            return Ok(Err(MiddlewareError::InvalidConfig));
        }
        let mut routes = Self::get_configured_routes(env);
        let listed = host::routes_contain(&routes, &route);
        if !listed && host::routes_len(&routes) == u32::MAX {
            return Err(Trap);
        }
        let config = RouteConfig {
            max_calls_per_window,
            window_seconds,
            enabled,
            failure_threshold,
            recovery_window_seconds,
            log_retention,
        };
        host::set_route_config(env, &route, &config);
        if !listed {
            host::routes_push(&mut routes, &route);
            host::set_routes(env, &routes);
        }
        Ok(Ok(()))
    }

    /// The hook before a call, at `now`: admits the call and counts it, or says
    /// why it is refused. A refused call leaves the ledger as it is, except that
    /// one over the rate limit adds to the caller's violations.
    pub fn pre_call_at(
        env: &mut Env,
        caller: Address,
        route: soroban_sdk::String,
        now: u64,
    ) -> (r: Result<(), MiddlewareError>)
        requires
            ledger(*old(env)).kinds_match(),
            ledger(*old(env)).pre_call_fits(address_id(caller), string_bytes(route), now),
        ensures
            ledger(*final(env)).kinds_match(),
            (ledger(*final(env)), r) == ledger(*old(env)).pre_call(
                address_id(caller),
                string_bytes(route),
                now,
            ),
    {
        if !Self::enabled(env) {
            return Err(MiddlewareError::MiddlewareDisabled);
        }
        let config = host::get_route_config(env, &route);
        let mut limited = false;
        if let Some(config) = config {
            if !config.enabled {
                return Err(MiddlewareError::RouteDisabled);
            }
            let mut state = Self::call_state_or_blank(env, &route);
            let breaker = state.circuit_breaker;
            if breaker.refuses(&config, now) {
                return Err(MiddlewareError::CircuitOpen);
            }
            limited = config.max_calls_per_window > 0;
            if limited {
                let limit = Self::limit_or_fresh(&state, &caller, now);
                if limit.exhausted(&config, now) {
                    let violated = limit.violated(&config, now);
                    host::rate_limit_set(&mut state.rate_limits, &caller, &violated);
                    host::set_route_call_state(env, &route, &state);
                    return Err(MiddlewareError::RateLimitExceeded);
                }
                let counted = limit.counted(&config, now);
                host::rate_limit_set(&mut state.rate_limits, &caller, &counted);
            }
            state.circuit_breaker = breaker.admitted(&config);
            if limited || breaker.probes(&config) {
                host::set_route_call_state(env, &route, &state);
            }
        }
        if !limited {
            Self::note_unlimited(env, &config, &caller, &route, now);
        }
        let total = Self::total_calls(env);
        host::set_total_calls(env, total + 1);
        proof {
            reveal_strlit("pre_call");
        }
        host::publish_call(env, "pre_call", &caller, &route);
        Ok(())
    }

    /// Puts a call that no rate limit counts on record.
    fn note_unlimited(
        env: &mut Env,
        config: &Option<RouteConfig>,
        caller: &Address,
        route: &soroban_sdk::String,
        now: u64,
    )
        requires
            ledger(*old(env)).kinds_match(),
            *config == ledger(*old(env)).config(string_bytes(*route)),
        ensures
            ledger(*final(env)) == ledger(*old(env)).note_unlimited(
                address_id(*caller),
                string_bytes(*route),
                now,
            ),
    {
        let state = Self::call_state_or_blank(env, route);
        if host::rate_limit_get(&state.rate_limits, caller).is_some() {
            return;
        }
        let mut calls = Self::unlimited(env, route);
        let before = match host::rate_limit_get(&calls, caller) {
            Some(before) => before,
            None => {
                if host::rate_limit_len(&calls) == u32::MAX {
                    return;
                }
                RateLimitState::fresh(now)
            },
        };
        host::rate_limit_set(&mut calls, caller, &before.noted(config, now));
        host::set_unlimited_calls(env, route, &calls);
    }

    /// Whether every number that the hook before a call computes fits its type,
    /// and the route's rate limits can take the caller.
    pub fn pre_call_fits(
        env: &Env,
        caller: &Address,
        route: &soroban_sdk::String,
        now: u64,
    ) -> (r: bool)
        requires
            ledger(*env).kinds_match(),
        ensures
            r == ledger(*env).pre_call_fits(address_id(*caller), string_bytes(*route), now),
    {
        if !Self::enabled(env) {
            return true;
        }
        if let Some(config) = host::get_route_config(env, route) {
            if !config.enabled {
                return true;
            }
            let state = Self::call_state_or_blank(env, route);
            let breaker = state.circuit_breaker;
            if breaker.probes(&config) && config.recovery_window_seconds > 0
                && !breaker.recovery_fits(&config) {
                return false;
            }
            if breaker.refuses(&config, now) {
                return true;
            }
            if config.max_calls_per_window > 0 {
                let limit = Self::limit_or_fresh(&state, caller, now);
                if !limit.window_fits(&config) {
                    return false;
                }
                if host::rate_limit_len(&state.rate_limits) == u32::MAX
                    && host::rate_limit_get(&state.rate_limits, caller).is_none() {
                    return false;
                }
                if limit.exhausted(&config, now) {
                    return limit.total_violations < u32::MAX;
                }
            }
        }
        Self::total_calls(env) < u64::MAX
    }

    /// The hook before a call.
    pub fn pre_call(
        env: &mut Env,
        caller: Address,
        route: soroban_sdk::String,
    ) -> (r: Result<Result<(), MiddlewareError>, Trap>)
        requires
            ledger(*old(env)).kinds_match(),
        ensures
            ledger(*final(env)).kinds_match(),
            exists|now: u64|
                is_ledger_time(*old(env), now) && #[trigger] ledger(*old(env)).answers_pre_call(
                    address_id(caller),
                    string_bytes(route),
                    now,
                    ledger(*final(env)),
                    r,
                ),
    {
        let now = host::read_clock(env);
        let ghost id = address_id(caller);
        let ghost name = string_bytes(route);
        let answer = if Self::pre_call_fits(env, &caller, &route, now) {
            Ok(Self::pre_call_at(env, caller, route, now))
        } else {
            Err(Trap)
        };
        assert(ledger(*old(env)).answers_pre_call(id, name, now, ledger(*env), answer));
        answer
    }

    /// The hook after a call, at `now`: puts the outcome on record and lets the
    /// circuit breaker learn of it.
    pub fn post_call_at(
        env: &mut Env,
        caller: Address,
        route: soroban_sdk::String,
        success: bool,
        now: u64,
    )
        requires
            ledger(*old(env)).kinds_match(),
            ledger(*old(env)).post_call_fits(string_bytes(route), success),
        ensures
            ledger(*final(env)).kinds_match(),
            ledger(*final(env)) == ledger(*old(env)).post_call(
                address_id(caller),
                string_bytes(route),
                success,
                now,
            ),
    {
        proof {
            reveal_strlit("post_call");
            reveal_strlit("circuit_opened");
        }
        host::publish_outcome(env, "post_call", &caller, &route, success);
        if let Some(config) = host::get_route_config(env, &route) {
            if config.log_retention > 0 {
                let mut log = Self::log_or_blank(env, &route);
                let summary = Self::summary_or_blank(env, &route);
                let entry = CallLogEntry { caller, timestamp: now, success, route };
                log.append(env, config.log_retention, &entry);
                host::set_call_log(env, &entry.route, &log);
                host::set_call_log_summary(env, &entry.route, &summary.counted(success, now));
                Self::settle(env, &config, &entry.route, success, now);
            } else {
                Self::settle(env, &config, &route, success, now);
            }
        }
    }

    /// Lets a route's circuit breaker learn of an outcome.
    fn settle(
        env: &mut Env,
        config: &RouteConfig,
        route: &soroban_sdk::String,
        success: bool,
        now: u64,
    )
        requires
            ledger(*old(env)).kinds_match(),
            config.failure_threshold > 0 && !success && !ledger(*old(env)).call_state_or_blank(
                string_bytes(*route),
            ).circuit_breaker.is_half_open ==> ledger(*old(env)).call_state_or_blank(
                string_bytes(*route),
            ).circuit_breaker.failure_count < u32::MAX,
        ensures
            ledger(*final(env)).kinds_match(),
            ledger(*final(env)) == ledger(*old(env)).settle(
                *config,
                string_bytes(*route),
                success,
                now,
            ),
    {
        if config.failure_threshold > 0 {
            let mut state = Self::call_state_or_blank(env, route);
            if success {
                state.circuit_breaker = state.circuit_breaker.succeeded();
            } else {
                let (failed, trips) = state.circuit_breaker.failed(config, now);
                state.circuit_breaker = failed;
                host::set_breaker_recorded(env, route, true);
                if trips {
                    proof {
                        reveal_strlit("circuit_opened");
                    }
                    host::publish_count(env, "circuit_opened", route, failed.failure_count);
                }
            }
            host::set_route_call_state(env, route, &state);
        }
    }

    /// Whether every number that the hook after a call computes fits its type,
    /// and a full log has a slot at its head.
    pub fn post_call_fits(env: &Env, route: &soroban_sdk::String, success: bool) -> (r: bool)
        requires
            ledger(*env).kinds_match(),
        ensures
            r == ledger(*env).post_call_fits(string_bytes(*route), success),
    {
        if let Some(config) = host::get_route_config(env, route) {
            if config.log_retention > 0 {
                if !Self::log_or_blank(env, route).can_append(config.log_retention) {
                    return false;
                }
                if !Self::summary_or_blank(env, route).can_count(success) {
                    return false;
                }
            }
            if config.failure_threshold > 0 && !success {
                let breaker = Self::call_state_or_blank(env, route).circuit_breaker;
                return breaker.is_half_open || breaker.failure_count < u32::MAX;
            }
        }
        true
    }

    /// The hook after a call.
    pub fn post_call(
        env: &mut Env,
        caller: Address,
        route: soroban_sdk::String,
        success: bool,
    ) -> (r: Result<(), Trap>)
        requires
            ledger(*old(env)).kinds_match(),
        ensures
            ledger(*final(env)).kinds_match(),
            r is Ok == ledger(*old(env)).post_call_fits(string_bytes(route), success),
            r is Ok ==> exists|now: u64|
                is_ledger_time(*old(env), now) && ledger(*final(env)) == #[trigger] ledger(
                    *old(env),
                ).post_call(
                    address_id(caller),
                    string_bytes(route),
                    success,
                    now,
                ),
            r is Err ==> *final(env) == *old(env),
    {
        let now = host::read_clock(env);
        if Self::post_call_fits(env, &route, success) {
            Self::post_call_at(env, caller, route, success, now);
            Ok(())
        } else {
            Err(Trap)
        }
    }

    /// Switches the middleware on or off for all routes.
    pub fn set_global_enabled(
        env: &mut Env,
        caller: Address,
        enabled: bool,
    ) -> (r: Result<(), MiddlewareError>)
        requires
            ledger(*old(env)).kinds_match(),
        ensures
            ledger(*final(env)).kinds_match(),
            (ledger(*final(env)), r) == ledger(*old(env)).set_global_enabled(
                address_id(caller),
                enabled,
            ),
    {
        if let Err(e) = Self::require_admin(env, &caller) {
            return Err(e);
        }
        host::set_global_enabled(env, enabled);
        proof {
            reveal_strlit("middleware_enabled");
        }
        host::publish_flag(env, "middleware_enabled", enabled);
        Ok(())
    }

    /// How many calls were admitted since the middleware was initialized.
    pub fn total_calls(env: &Env) -> (r: u64)
        requires
            ledger(*env).kinds_match(),
        ensures
            r == ledger(*env).total_calls(),
    {
        match host::get_total_calls(env) {
            Some(total) => total,
            None => 0,
        }
    }

    /// The logged calls of a route, oldest first: the most recent ones, no more
    /// than its settings keep.
    pub fn get_call_log(env: &Env, route: soroban_sdk::String) -> (r: Vec<CallLogEntry>)
        requires
            ledger(*env).kinds_match(),
        ensures
            entries_view(r@) == ledger(*env).shown_log(string_bytes(route)),
    {
        Self::log_or_blank(env, &route).recent(Self::log_limit(env, &route))
    }

    /// Those of a route's logged calls that succeeded, or those that failed, oldest
    /// first.
    pub fn get_call_log_filtered(
        env: &Env,
        route: soroban_sdk::String,
        success_only: bool,
    ) -> (r: Vec<CallLogEntry>)
        requires
            ledger(*env).kinds_match(),
        ensures
            entries_view(r@) == ledger(*env).shown_log(string_bytes(route)).filter(
                has_outcome(success_only),
            ),
    {
        Self::log_or_blank(env, &route).filtered(Self::log_limit(env, &route), success_only)
    }

    /// The number of logged calls of a route.
    pub fn get_call_log_length(env: &Env, route: soroban_sdk::String) -> (r: u32)
        requires
            ledger(*env).kinds_match(),
        ensures
            r == ledger(*env).shown_log(string_bytes(route)).len(),
    {
        let limit = Self::log_limit(env, &route);
        match host::get_call_log(env, &route) {
            Some(log) => {
                let len = host::call_log_len(&log.entries);
                if len > limit {
                    limit
                } else {
                    len
                }
            },
            None => 0,
        }
    }

    /// The running totals of a route's logged calls, if any call was logged.
    pub fn get_call_log_summary(
        env: &Env,
        route: soroban_sdk::String,
    ) -> (r: Option<CallLogSummary>)
        requires
            ledger(*env).kinds_match(),
        ensures
            r == ledger(*env).summary(string_bytes(route)),
    {
        host::get_call_log_summary(env, &route)
    }

    /// Clears the call log of a route. Its summary stays.
    pub fn reset_route_call_log(
        env: &mut Env,
        caller: Address,
        route: soroban_sdk::String,
    ) -> (r: Result<(), MiddlewareError>)
        requires
            ledger(*old(env)).kinds_match(),
        ensures
            ledger(*final(env)).kinds_match(),
            (ledger(*final(env)), r) == ledger(*old(env)).reset_route_call_log(
                address_id(caller),
                string_bytes(route),
            ),
    {
        if let Err(e) = Self::require_admin(env, &caller) {
            return Err(e);
        }
        host::remove_call_log(env, &route);
        proof {
            reveal_strlit("call_log_cleared");
        }
        host::publish_route(env, "call_log_cleared", &route);
        Ok(())
    }

    /// A caller's rate limit state on a route as it counts at `now`, if the
    /// caller has called the route.
    pub fn rate_limit_state_at(
        env: &Env,
        route: soroban_sdk::String,
        caller: Address,
        now: u64,
    ) -> (r: Option<RateLimitState>)
        requires
            ledger(*env).kinds_match(),
            ledger(*env).rate_limit_state_fits(string_bytes(route), address_id(caller)),
        ensures
            r == ledger(*env).rate_limit_state(string_bytes(route), address_id(caller), now),
    {
        let state = Self::call_state_or_blank(env, &route);
        let config = host::get_route_config(env, &route);
        stats::reported(&state.rate_limits, &Self::unlimited(env, &route), &config, &caller, now)
    }

    /// Whether the end of the caller's window is a point in time.
    pub fn rate_limit_state_fits(
        env: &Env,
        route: &soroban_sdk::String,
        caller: &Address,
    ) -> (r: bool)
        requires
            ledger(*env).kinds_match(),
        ensures
            r == ledger(*env).rate_limit_state_fits(string_bytes(*route), address_id(*caller)),
    {
        let state = Self::call_state_or_blank(env, route);
        stats::fits(&state.rate_limits, &host::get_route_config(env, route), caller)
    }

    /// A caller's rate limit state on a route, if the caller has called the route.
    pub fn rate_limit_state(
        env: &Env,
        route: soroban_sdk::String,
        caller: Address,
    ) -> (r: Result<Option<RateLimitState>, Trap>)
        requires
            ledger(*env).kinds_match(),
        ensures
            r is Ok == ledger(*env).rate_limit_state_fits(string_bytes(route), address_id(caller)),
            r matches Ok(state) ==> exists|now: u64|
                is_ledger_time(*env, now) && state == #[trigger] ledger(*env).rate_limit_state(
                    string_bytes(route),
                    address_id(caller),
                    now,
                ),
    {
        let now = host::read_clock(env);
        if Self::rate_limit_state_fits(env, &route, &caller) {
            Ok(Self::rate_limit_state_at(env, route, caller, now))
        } else {
            Err(Trap)
        }
    }

    /// A caller's rate limit state on a route, if the caller has called the route.
    pub fn get_rate_limit_stats(
        env: &Env,
        route: soroban_sdk::String,
        caller: Address,
    ) -> (r: Result<Option<RateLimitState>, Trap>)
        requires
            ledger(*env).kinds_match(),
        ensures
            r is Ok == ledger(*env).rate_limit_state_fits(string_bytes(route), address_id(caller)),
            r matches Ok(state) ==> exists|now: u64|
                is_ledger_time(*env, now) && state == #[trigger] ledger(*env).rate_limit_state(
                    string_bytes(route),
                    address_id(caller),
                    now,
                ),
    {
        Self::rate_limit_state(env, route, caller)
    }

    /// A route's rate limit states over all its callers at `now`, if it has any.
    pub fn get_route_rate_limit_stats_at(
        env: &Env,
        route: soroban_sdk::String,
        now: u64,
    ) -> (r: Result<Option<RouteRateLimitStats>, Trap>)
        requires
            ledger(*env).kinds_match(),
        ensures
            r is Ok == ledger(*env).stats_fit(string_bytes(route), now),
            r matches Ok(stats) ==> ledger(*env).has_stats(string_bytes(route), now, stats),
    {
        let state = Self::call_state_or_blank(env, &route);
        let config = host::get_route_config(env, &route);
        stats::route_stats(&state.rate_limits, &Self::unlimited(env, &route), &config, now)
    }

    /// A route's rate limit states over all its callers, if it has any.
    pub fn get_route_rate_limit_stats(
        env: &Env,
        route: soroban_sdk::String,
    ) -> (r: Result<Option<RouteRateLimitStats>, Trap>)
        requires
            ledger(*env).kinds_match(),
        ensures
            exists|now: u64|
                {
                    &&& is_ledger_time(*env, now)
                    &&& r is Ok == #[trigger] ledger(*env).stats_fit(string_bytes(route), now)
                    &&& r matches Ok(stats) ==> ledger(*env).has_stats(
                        string_bytes(route),
                        now,
                        stats,
                    )
                },
    {
        let now = host::read_clock(env);
        Self::get_route_rate_limit_stats_at(env, route, now)
    }

    /// Forgets a caller's rate limit state on a route.
    pub fn reset_rate_limit(
        env: &mut Env,
        caller: Address,
        route: soroban_sdk::String,
        target_caller: Address,
    ) -> (r: Result<(), MiddlewareError>)
        requires
            ledger(*old(env)).kinds_match(),
        ensures
            ledger(*final(env)).kinds_match(),
            (ledger(*final(env)), r) == ledger(*old(env)).reset_rate_limit(
                address_id(caller),
                string_bytes(route),
                address_id(target_caller),
            ),
    {
        if let Err(e) = Self::require_admin(env, &caller) {
            return Err(e);
        }
        let mut state = Self::call_state_or_blank(env, &route);
        host::rate_limit_remove(&mut state.rate_limits, &target_caller);
        host::set_route_call_state(env, &route, &state);
        let mut calls = Self::unlimited(env, &route);
        if host::rate_limit_get(&calls, &target_caller).is_some() {
            host::rate_limit_remove(&mut calls, &target_caller);
            host::set_unlimited_calls(env, &route, &calls);
        }
        Ok(())
    }

    /// The settings of a route, if it was configured.
    pub fn route_config(env: &Env, route: soroban_sdk::String) -> (r: Option<RouteConfig>)
        requires
            ledger(*env).kinds_match(),
        ensures
            r == ledger(*env).config(string_bytes(route)),
    {
        host::get_route_config(env, &route)
    }

    /// The names of the configured routes, each once.
    pub fn get_configured_routes(env: &Env) -> (r: soroban_sdk::Vec<soroban_sdk::String>)
        requires
            ledger(*env).kinds_match(),
        ensures
            route_list_contents(r) == ledger(*env).routes(),
            routes_complete(r),
    {
        match host::get_routes(env) {
            Some(routes) => routes,
            None => host::new_routes(env),
        }
    }

    /// The circuit breaker of a route, once it has seen a failure or a reset.
    pub fn circuit_breaker_state(
        env: &Env,
        route: soroban_sdk::String,
    ) -> (r: Option<CircuitBreakerState>)
        requires
            ledger(*env).kinds_match(),
        ensures
            r == ledger(*env).breaker(string_bytes(route)),
    {
        let breaker = Self::call_state_or_blank(env, &route).circuit_breaker;
        let recorded = match host::get_breaker_recorded(env, &route) {
            Some(recorded) => recorded,
            None => false,
        };
        if recorded || breaker != CircuitBreakerState::closed() {
            Some(breaker)
        } else {
            None
        }
    }

    /// The admin.
    pub fn admin(env: &Env) -> (r: Result<Address, MiddlewareError>)
        requires
            ledger(*env).kinds_match(),
        ensures
            match ledger(*env).admin() {
                Some(admin) => r is Ok && address_id(r->Ok_0) == admin,
                None => r == Err::<Address, _>(MiddlewareError::NotInitialized),
            },
    {
        match host::get_admin(env) {
            Some(admin) => Ok(admin),
            None => Err(MiddlewareError::NotInitialized),
        }
    }

    /// Closes the circuit breaker of a route.
    pub fn reset_circuit_breaker(
        env: &mut Env,
        caller: Address,
        route: soroban_sdk::String,
    ) -> (r: Result<(), MiddlewareError>)
        requires
            ledger(*old(env)).kinds_match(),
        ensures
            ledger(*final(env)).kinds_match(),
            (ledger(*final(env)), r) == ledger(*old(env)).reset_circuit_breaker(
                address_id(caller),
                string_bytes(route),
            ),
    {
        if let Err(e) = Self::require_admin(env, &caller) {
            return Err(e);
        }
        let mut state = Self::call_state_or_blank(env, &route);
        state.circuit_breaker = CircuitBreakerState::closed();
        host::set_route_call_state(env, &route, &state);
        host::set_breaker_recorded(env, &route, true);
        Ok(())
    }

    /// Hands the admin's rights to another address.
    pub fn transfer_admin(
        env: &mut Env,
        current: Address,
        new_admin: Address,
    ) -> (r: Result<(), MiddlewareError>)
        requires
            ledger(*old(env)).kinds_match(),
        ensures
            ledger(*final(env)).kinds_match(),
            (ledger(*final(env)), r) == ledger(*old(env)).transfer_admin(
                address_id(current),
                address_id(new_admin),
            ),
    {
        if let Err(e) = Self::require_admin(env, &current) {
            return Err(e);
        }
        host::set_admin(env, &new_admin);
        proof {
            reveal_strlit("admin_transferred");
        }
        host::publish_addresses(env, "admin_transferred", &current, &new_admin);
        Ok(())
    }

    /// Whether `caller` is the admin.
    fn require_admin(env: &Env, caller: &Address) -> (r: Result<(), MiddlewareError>)
        requires
            ledger(*env).kinds_match(),
        ensures
            r == ledger(*env).authorize(address_id(*caller)),
    {
        match host::get_admin(env) {
            None => Err(MiddlewareError::NotInitialized),
            Some(admin) => {
                if host::same_address(&admin, caller) {
                    Ok(())
                } else {
                    Err(MiddlewareError::Unauthorized)
                }
            },
        }
    }

    /// The position of the global switch.
    fn enabled(env: &Env) -> (r: bool)
        requires
            ledger(*env).kinds_match(),
        ensures
            r == ledger(*env).enabled(),
    {
        match host::get_global_enabled(env) {
            Some(enabled) => enabled,
            None => true,
        }
    }

    fn call_state_or_blank(env: &Env, route: &soroban_sdk::String) -> (r: RouteCallState)
        requires
            ledger(*env).kinds_match(),
        ensures
            r@ == ledger(*env).call_state_or_blank(string_bytes(*route)),
            rate_limits_complete(r.rate_limits),
    {
        match host::get_route_call_state(env, route) {
            Some(state) => state,
            None => RouteCallState {
                rate_limits: host::new_rate_limits(env),
                circuit_breaker: CircuitBreakerState::closed(),
            },
        }
    }

    fn log_or_blank(env: &Env, route: &soroban_sdk::String) -> (r: CallLogState)
        requires
            ledger(*env).kinds_match(),
        ensures
            r@ == ledger(*env).log_or_blank(string_bytes(*route)),
            call_log_complete(r.entries),
    {
        match host::get_call_log(env, route) {
            Some(log) => log,
            None => CallLogState::blank(env),
        }
    }

    fn summary_or_blank(env: &Env, route: &soroban_sdk::String) -> (r: CallLogSummary)
        requires
            ledger(*env).kinds_match(),
        ensures
            r == ledger(*env).summary_or_blank(string_bytes(*route)),
    {
        match host::get_call_log_summary(env, route) {
            Some(summary) => summary,
            None => CallLogSummary::blank(),
        }
    }

    /// How many of a route's logged calls are shown.
    fn log_limit(env: &Env, route: &soroban_sdk::String) -> (r: u32)
        requires
            ledger(*env).kinds_match(),
        ensures
            r == ledger(*env).log_limit(string_bytes(*route)),
    {
        match host::get_route_config(env, route) {
            Some(config) => config.log_retention,
            None => u32::MAX,
        }
    }

    /// The callers of a route whose calls no rate limit counts.
    fn unlimited(env: &Env, route: &soroban_sdk::String) -> (r: RateLimitMap)
        requires
            ledger(*env).kinds_match(),
        ensures
            rate_limit_contents(r) == ledger(*env).unlimited(string_bytes(*route)),
            rate_limits_complete(r),
    {
        match host::get_unlimited_calls(env, route) {
            Some(calls) => calls,
            None => host::new_rate_limits(env),
        }
    }

    fn limit_or_fresh(state: &RouteCallState, caller: &Address, now: u64) -> (r: RateLimitState)
        requires
            rate_limits_complete(state.rate_limits),
        ensures
            r == state@.limit_of(address_id(*caller), now),
    {
        match host::rate_limit_get(&state.rate_limits, caller) {
            Some(limit) => limit,
            None => RateLimitState::fresh(now),
        }
    }
}

} // verus!
