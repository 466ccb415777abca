//! Refused calls and rate limits.
use crate::laws::state::{law_invariant_always_holds, Request};
use crate::ledger::{DataKey, Ledger};
use crate::stats::{
    are_stats_of, calls_of, lemma_sum_empty, lemma_sum_insert, sum_over, violations_of,
};
use crate::types::{
    MiddlewareError, RateLimitState, RouteConfig, RouteRateLimitStats,
};
use vstd::prelude::*;

verus! {

/// A call that is refused for another reason than the rate limit changes
/// nothing.
pub proof fn law_refusal_changes_nothing(
    ledger: Ledger,
    caller: Seq<char>,
    route: Seq<u8>,
    now: u64,
)
    requires
        ledger.verdict(caller, route, now) is Err,
        ledger.verdict(caller, route, now) != Err::<(), _>(MiddlewareError::RateLimitExceeded),
    ensures
        ledger.pre_call(caller, route, now) == (ledger, ledger.verdict(caller, route, now)),
{
}

/// A call that is refused for exceeding the rate limit adds one to the caller's
/// violations. It is not counted and publishes nothing, it changes neither the
/// caller's window nor another caller's state nor the circuit breaker, and no
/// other key.
pub proof fn law_rate_limited_call(
    ledger: Ledger,
    caller: Seq<char>,
    route: Seq<u8>,
    now: u64,
    other: Seq<char>,
    key: DataKey,
)
    requires
        ledger.pre_call_fits(caller, route, now),
        ledger.verdict(caller, route, now) == Err::<(), _>(MiddlewareError::RateLimitExceeded),
        other != caller,
        key != DataKey::RouteCallState(route),
    ensures
        ({
            let after = ledger.pre_call(caller, route, now).0;
            let before = ledger.call_state_or_blank(route).rate_limits;
            let limits = after.call_state_or_blank(route).rate_limits;
            &&& before.contains_key(caller)
            &&& limits.contains_key(caller)
            &&& limits[caller].total_violations == before[caller].total_violations + 1
            &&& limits[caller].calls_in_window == before[caller].calls_in_window
            &&& limits[caller].window_start == before[caller].window_start
            &&& limits.get(other) == before.get(other)
            &&& after.call_state_or_blank(route).circuit_breaker == ledger.call_state_or_blank(
                route,
            ).circuit_breaker
            &&& after.breaker(route) == ledger.breaker(route)
            &&& after.total_calls() == ledger.total_calls()
            &&& after.events == ledger.events
            &&& after.storage.get(key) == ledger.storage.get(key)
        }),
{
}

/// An admitted call adds one to the call counter and publishes one event; a
/// refused one does neither.
pub proof fn law_admitted_calls_are_counted(
    ledger: Ledger,
    caller: Seq<char>,
    route: Seq<u8>,
    now: u64,
)
    requires
        ledger.pre_call_fits(caller, route, now),
    ensures
        ({
            let (after, answer) = ledger.pre_call(caller, route, now);
            let admitted: nat = if answer is Ok {
                1
            } else {
                0
            };
            &&& after.total_calls() == ledger.total_calls() + admitted
            &&& after.events.len() == ledger.events.len() + admitted
        }),
{
}

/// A route without settings admits every call while the middleware is on, and so
/// does an enabled route without a rate limit and without a circuit breaker.
/// Nothing is kept of such a call but the counts.
pub proof fn law_unlimited_route_admits_all(
    ledger: Ledger,
    caller: Seq<char>,
    route: Seq<u8>,
    now: u64,
)
    requires
        ledger.enabled(),
        ledger.config(route) matches Some(config) ==> config.enabled && config.max_calls_per_window
            == 0 && config.failure_threshold == 0,
    ensures
        ledger.pre_call(caller, route, now).1 is Ok,
        ledger.pre_call(caller, route, now).0.config(route) == ledger.config(route),
        ledger.pre_call(caller, route, now).0.call_state(route) == ledger.call_state(route),
        ledger.pre_call(caller, route, now).0.breaker(route) == ledger.breaker(route),
{
}

/// A disabled route refuses every call while the middleware is on.
pub proof fn law_disabled_route_refuses_all(
    ledger: Ledger,
    caller: Seq<char>,
    route: Seq<u8>,
    now: u64,
)
    requires
        ledger.enabled(),
        ledger.config(route) matches Some(config) && !config.enabled,
    ensures
        ledger.pre_call(caller, route, now) == (
            ledger,
            Err::<(), MiddlewareError>(MiddlewareError::RouteDisabled),
        ),
{
}

/// Whether a request is a call of the caller on the route.
pub open spec fn is_call(request: Request, caller: Seq<char>, route: Seq<u8>) -> bool {
    request matches Request::PreCall { caller: c, route: r, .. } && c == caller && r == route
}

/// Whether a request neither configures the route nor resets the caller's rate
/// limit on it.
pub open spec fn leaves_limit(request: Request, caller: Seq<char>, route: Seq<u8>) -> bool {
    match request {
        Request::ConfigureRoute { route: r, .. } => r != route,
        Request::ResetRateLimit { route: r, target, .. } => r != route || target != caller,
        _ => true,
    }
}

impl Ledger {
    /// How many of the requests are calls of the caller on the route that are
    /// admitted.
    pub open spec fn admitted_of(
        self,
        caller: Seq<char>,
        route: Seq<u8>,
        requests: Seq<Request>,
    ) -> nat
        decreases requests.len(),
    {
        if requests.len() == 0 {
            0
        } else {
            let before = self.run(requests.drop_last());
            let rest = self.admitted_of(caller, route, requests.drop_last());
            if is_call(requests.last(), caller, route) && before.admits(requests.last()) {
                rest + 1
            } else {
                rest
            }
        }
    }
}

/// Only the caller's own calls on the route change what is kept of them.
proof fn lemma_others_leave_limit(
    ledger: Ledger,
    request: Request,
    caller: Seq<char>,
    route: Seq<u8>,
)
    requires
        leaves_limit(request, caller, route),
    ensures
        ledger.step(request).config(route) == ledger.config(route),
        !is_call(request, caller, route) ==> ledger.step(request).call_state_or_blank(
            route,
        ).rate_limits.get(caller) == ledger.call_state_or_blank(route).rate_limits.get(caller),
{
}

/// Within a caller's window the route admits no more of its calls than the limit
/// leaves, whatever else is requested in between.
pub proof fn law_window_admits_at_most_the_limit(
    ledger: Ledger,
    caller: Seq<char>,
    route: Seq<u8>,
    config: RouteConfig,
    requests: Seq<Request>,
)
    requires
        ledger.config(route) == Some(config),
        config.max_calls_per_window > 0,
        ledger.call_state_or_blank(route).rate_limits.contains_key(caller),
        ledger.call_state_or_blank(route).rate_limits[caller].calls_in_window
            <= config.max_calls_per_window,
        forall|i: int|
            0 <= i < requests.len() ==> leaves_limit(#[trigger] requests[i], caller, route),
        forall|i: int|
            0 <= i < requests.len() ==> (is_call(#[trigger] requests[i], caller, route)
                ==> requests[i]->PreCall_now < ledger.call_state_or_blank(
                route,
            ).rate_limits[caller].window_end(config)),
    ensures
        ({
            let before = ledger.call_state_or_blank(route).rate_limits[caller];
            let after = ledger.run(requests);
            let limits = after.call_state_or_blank(route).rate_limits;
            let admitted = ledger.admitted_of(caller, route, requests);
            &&& after.config(route) == Some(config)
            &&& limits.contains_key(caller)
            &&& limits[caller].window_start == before.window_start
            &&& limits[caller].calls_in_window == before.calls_in_window + admitted
            &&& before.calls_in_window + admitted <= config.max_calls_per_window
        }),
    decreases requests.len(),
{
    if requests.len() > 0 {
        let rest = requests.drop_last();
        assert forall|i: int| 0 <= i < rest.len() implies #[trigger] rest[i] == requests[i] by {
        }
        law_window_admits_at_most_the_limit(ledger, caller, route, config, rest);
        let last = requests[requests.len() - 1];
        lemma_others_leave_limit(ledger.run(rest), last, caller, route);
    }
}

/// Of the calls that a new caller makes in less than a window's time, the route
/// admits no more than the limit, whatever else is requested in between.
pub proof fn law_new_caller_gets_at_most_the_limit(
    ledger: Ledger,
    caller: Seq<char>,
    route: Seq<u8>,
    config: RouteConfig,
    requests: Seq<Request>,
    start: u64,
)
    requires
        ledger.config(route) == Some(config),
        config.max_calls_per_window > 0,
        !ledger.call_state_or_blank(route).rate_limits.contains_key(caller),
        forall|i: int|
            0 <= i < requests.len() ==> leaves_limit(#[trigger] requests[i], caller, route),
        forall|i: int|
            0 <= i < requests.len() ==> (is_call(#[trigger] requests[i], caller, route) ==> start
                <= requests[i]->PreCall_now < start + config.window_seconds),
    ensures
        ({
            let after = ledger.run(requests);
            let limits = after.call_state_or_blank(route).rate_limits;
            let admitted = ledger.admitted_of(caller, route, requests);
            &&& after.config(route) == Some(config)
            &&& limits.contains_key(caller) <==> admitted > 0
            &&& admitted > 0 ==> limits[caller].window_start >= start
                && limits[caller].calls_in_window == admitted
            &&& admitted <= config.max_calls_per_window
        }),
    decreases requests.len(),
{
    if requests.len() > 0 {
        let rest = requests.drop_last();
        assert forall|i: int| 0 <= i < rest.len() implies #[trigger] rest[i] == requests[i] by {
        }
        law_new_caller_gets_at_most_the_limit(ledger, caller, route, config, rest, start);
        let last = requests[requests.len() - 1];
        lemma_others_leave_limit(ledger.run(rest), last, caller, route);
    }
}

impl Ledger {
    /// Whether nothing but the rate limit can refuse a call on the route at `now`.
    pub open spec fn leaves_it_to_the_limit(
        self,
        config: RouteConfig,
        route: Seq<u8>,
        now: u64,
    ) -> bool {
        self.enabled() && config.enabled && !self.call_state_or_blank(
            route,
        ).circuit_breaker.spec_refuses(config, now)
    }
}

/// Within a caller's window its calls are admitted, as far as the limit decides,
/// exactly until the limit is used up, whatever else is requested in between: the
/// next call is refused for the limit where the calls counted before and those
/// admitted since make up the limit, and only there.
pub proof fn law_window_admits_up_to_the_limit(
    ledger: Ledger,
    caller: Seq<char>,
    route: Seq<u8>,
    config: RouteConfig,
    requests: Seq<Request>,
    now: u64,
)
    requires
        ledger.config(route) == Some(config),
        config.max_calls_per_window > 0,
        ledger.call_state_or_blank(route).rate_limits.contains_key(caller),
        ledger.call_state_or_blank(route).rate_limits[caller].calls_in_window
            <= config.max_calls_per_window,
        forall|i: int|
            0 <= i < requests.len() ==> leaves_limit(#[trigger] requests[i], caller, route),
        forall|i: int|
            0 <= i < requests.len() ==> (is_call(#[trigger] requests[i], caller, route)
                ==> requests[i]->PreCall_now < ledger.call_state_or_blank(
                route,
            ).rate_limits[caller].window_end(config)),
        now < ledger.call_state_or_blank(route).rate_limits[caller].window_end(config),
    ensures
        ({
            let after = ledger.run(requests);
            let used = ledger.call_state_or_blank(route).rate_limits[caller].calls_in_window
                + ledger.admitted_of(caller, route, requests);
            let verdict = after.verdict(caller, route, now);
            let decides = after.leaves_it_to_the_limit(config, route, now);
            &&& verdict == Err::<(), _>(MiddlewareError::RateLimitExceeded) <==> decides && used
                == config.max_calls_per_window
            &&& verdict is Ok <==> decides && used < config.max_calls_per_window
        }),
{
    law_window_admits_at_most_the_limit(ledger, caller, route, config, requests);
}

/// The calls that a new caller makes in less than a window's time are admitted, as
/// far as the limit decides, exactly until the limit is used up, whatever else is
/// requested in between.
pub proof fn law_new_caller_gets_up_to_the_limit(
    ledger: Ledger,
    caller: Seq<char>,
    route: Seq<u8>,
    config: RouteConfig,
    requests: Seq<Request>,
    start: u64,
    now: u64,
)
    requires
        ledger.config(route) == Some(config),
        config.max_calls_per_window > 0,
        !ledger.call_state_or_blank(route).rate_limits.contains_key(caller),
        forall|i: int|
            0 <= i < requests.len() ==> leaves_limit(#[trigger] requests[i], caller, route),
        forall|i: int|
            0 <= i < requests.len() ==> (is_call(#[trigger] requests[i], caller, route) ==> start
                <= requests[i]->PreCall_now < start + config.window_seconds),
        start <= now < start + config.window_seconds,
    ensures
        ({
            let after = ledger.run(requests);
            let used = ledger.admitted_of(caller, route, requests);
            let verdict = after.verdict(caller, route, now);
            let decides = after.leaves_it_to_the_limit(config, route, now);
            &&& verdict == Err::<(), _>(MiddlewareError::RateLimitExceeded) <==> decides && used
                == config.max_calls_per_window
            &&& verdict is Ok <==> decides && used < config.max_calls_per_window
        }),
{
    law_new_caller_gets_at_most_the_limit(ledger, caller, route, config, requests, start);
}

/// From the end of its window on, a caller's next call starts a new one, however
/// much time has passed. The violations stay on record.
pub proof fn law_window_starts_over(
    ledger: Ledger,
    caller: Seq<char>,
    route: Seq<u8>,
    config: RouteConfig,
    now: u64,
)
    requires
        ledger.enabled(),
        ledger.config(route) == Some(config),
        config.enabled,
        config.max_calls_per_window > 0,
        !ledger.call_state_or_blank(route).circuit_breaker.spec_refuses(config, now),
        ledger.call_state_or_blank(route).rate_limits.contains_key(caller),
        now >= ledger.call_state_or_blank(route).rate_limits[caller].window_end(config),
    ensures
        ({
            let (after, answer) = ledger.pre_call(caller, route, now);
            let before = ledger.call_state_or_blank(route).rate_limits[caller];
            &&& answer is Ok
            &&& after.call_state_or_blank(route).rate_limits[caller] == (RateLimitState {
                calls_in_window: 1,
                window_start: now,
                total_violations: before.total_violations,
            })
        }),
{
}

/// A call changes no other caller's rate limit state.
pub proof fn law_callers_are_independent(
    ledger: Ledger,
    caller: Seq<char>,
    route: Seq<u8>,
    now: u64,
    other: Seq<char>,
)
    requires
        other != caller,
    ensures
        ledger.pre_call(caller, route, now).0.call_state_or_blank(route).rate_limits.get(other)
            == ledger.call_state_or_blank(route).rate_limits.get(other),
        ledger.pre_call(caller, route, now).0.unlimited(route).get(other) == ledger.unlimited(
            route,
        ).get(other),
{
}

/// What a caller is told of its rate limit is what the next call is judged by.
pub proof fn law_reported_state_is_judged(
    ledger: Ledger,
    caller: Seq<char>,
    route: Seq<u8>,
    config: RouteConfig,
    now: u64,
)
    requires
        ledger.enabled(),
        ledger.config(route) == Some(config),
        config.enabled,
        config.max_calls_per_window > 0,
        !ledger.call_state_or_blank(route).circuit_breaker.spec_refuses(config, now),
    ensures
        ledger.verdict(caller, route, now) is Ok <==> match ledger.rate_limit_state(
            route,
            caller,
            now,
        ) {
            Some(state) => state.calls_in_window < config.max_calls_per_window,
            None => true,
        },
        ledger.verdict(caller, route, now) is Err ==> ledger.verdict(caller, route, now) == Err::<
            (),
            _,
        >(MiddlewareError::RateLimitExceeded),
{
}

/// Once a caller's rate limit is reset, nothing is on record of the caller, its
/// next call does not exceed the limit, and no other caller is affected.
pub proof fn law_reset_rate_limit(
    ledger: Ledger,
    admin: Seq<char>,
    route: Seq<u8>,
    target: Seq<char>,
    now: u64,
    other: Seq<char>,
)
    requires
        ledger.admin() == Some(admin),
        other != target,
    ensures
        ({
            let after = ledger.reset_rate_limit(admin, route, target).0;
            &&& after.rate_limit_state(route, target, now) is None
            &&& after.verdict(target, route, now) != Err::<(), _>(
                MiddlewareError::RateLimitExceeded,
            )
            &&& after.call_state_or_blank(route).rate_limits.get(other)
                == ledger.call_state_or_blank(route).rate_limits.get(other)
            &&& after.rate_limit_state(route, other, now) == ledger.rate_limit_state(
                route,
                other,
                now,
            )
            &&& after.call_state_or_blank(route).circuit_breaker == ledger.call_state_or_blank(
                route,
            ).circuit_breaker
        }),
{
}

impl Ledger {
    /// Whether the caller has had a call on the route admitted by the requests
    /// since its rate limit on the route was last reset.
    pub open spec fn has_called(
        self,
        caller: Seq<char>,
        route: Seq<u8>,
        requests: Seq<Request>,
    ) -> bool
        decreases requests.len(),
    {
        if requests.len() == 0 {
            false
        } else {
            let before = self.run(requests.drop_last());
            let last = requests.last();
            if is_call(last, caller, route) && before.accepts(last) {
                true
            } else if !leaves_limit(last, caller, route) && last is ResetRateLimit
                && before.accepts(last) {
                false
            } else {
                self.has_called(caller, route, requests.drop_last())
            }
        }
    }
}

/// A caller has a rate limit state on a route, at any time, exactly where it has
/// called the route and was not reset since, with or without a limit.
pub proof fn law_state_is_reported_once_called(
    caller: Seq<char>,
    route: Seq<u8>,
    requests: Seq<Request>,
    now: u64,
)
    requires
        requests.len() <= u32::MAX,
    ensures
        Ledger::blank().run(requests).unlimited(route).len() <= requests.len(),
        Ledger::blank().run(requests).rate_limit_state(route, caller, now) is Some
            <==> Ledger::blank().has_called(caller, route, requests),
    decreases requests.len(),
{
    if requests.len() == 0 {
        assert(Ledger::blank().unlimited(route).dom() =~= Set::empty());
    } else {
        let rest = requests.drop_last();
        law_state_is_reported_once_called(caller, route, rest, now);
        law_invariant_always_holds(rest);
        assert(Ledger::blank().run(rest).route_well_formed(route));
        lemma_unlimited_grows_by_one(Ledger::blank().run(rest), requests.last(), route);
        lemma_step_reports(Ledger::blank().run(rest), requests.last(), caller, route, now);
    }
}

/// What a request does to whether a caller is on record.
proof fn lemma_step_reports(
    ledger: Ledger,
    request: Request,
    caller: Seq<char>,
    route: Seq<u8>,
    now: u64,
)
    requires
        ledger.unlimited(route).len() < u32::MAX,
    ensures
        ({
            let called = is_call(request, caller, route) && ledger.accepts(request);
            let forgotten = !leaves_limit(request, caller, route) && request is ResetRateLimit
                && ledger.accepts(request);
            ledger.step(request).rate_limit_state(route, caller, now) is Some <==> called || (
            ledger.rate_limit_state(route, caller, now) is Some && !forgotten)
        }),
{
    let after = ledger.step(request);
    let limits = ledger.call_state_or_blank(route).rate_limits;
    let next = after.call_state_or_blank(route).rate_limits;
    match request {
        Request::PreCall { caller: c, route: r, now: t } => {
            if r == route && c == caller {
                if ledger.accepts(request) {
                    assert(next.contains_key(caller) || after.unlimited(route).contains_key(
                        caller,
                    ));
                } else {
                    assert(next.contains_key(caller) == limits.contains_key(caller));
                    assert(after.unlimited(route) == ledger.unlimited(route));
                }
            } else {
                assert(next.get(caller) == limits.get(caller));
                assert(after.unlimited(route).get(caller) == ledger.unlimited(route).get(caller));
            }
        },
        Request::PostCall { caller: c, route: r, success, now: t } => {
            assert(next == limits);
            assert(after.unlimited(route) == ledger.unlimited(route));
        },
        _ => {},
    }
}

/// A request puts one caller without a limit on record at most.
proof fn lemma_unlimited_grows_by_one(ledger: Ledger, request: Request, route: Seq<u8>)
    requires
        ledger.unlimited(route).dom().finite(),
    ensures
        ledger.step(request).unlimited(route).len() <= ledger.unlimited(route).len() + 1,
{
    let before = ledger.unlimited(route);
    let after = ledger.step(request).unlimited(route);
    if request is PreCall && request->PreCall_route == route {
        let caller = request->PreCall_caller;
        assert(after.dom() =~= before.dom() || after.dom() =~= before.dom().insert(caller));
    } else if request is ResetRateLimit && request->ResetRateLimit_route == route {
        let target = request->ResetRateLimit_target;
        assert(after.dom() =~= before.dom() || after.dom() =~= before.dom().remove(target));
    } else {
        assert(after == before);
    }
}

/// A list of states has one set of statistics.
pub proof fn law_stats_are_unique(
    states: Map<Seq<char>, RateLimitState>,
    a: Option<RouteRateLimitStats>,
    b: Option<RouteRateLimitStats>,
)
    requires
        are_stats_of(states, a),
        are_stats_of(states, b),
    ensures
        a == b,
{
}

/// Two sums agree where the summed states do.
proof fn lemma_sum_agrees(
    a: Map<Seq<char>, RateLimitState>,
    b: Map<Seq<char>, RateLimitState>,
    callers: Set<Seq<char>>,
    f: spec_fn(RateLimitState) -> nat,
)
    requires
        callers.finite(),
        forall|caller: Seq<char>| #[trigger] callers.contains(caller) ==> a[caller] == b[caller],
    ensures
        sum_over(a, callers, f) == sum_over(b, callers, f),
    decreases callers.len(),
{
    if callers.is_empty() {
        assert(callers =~= Set::empty());
        lemma_sum_empty(a, f);
        lemma_sum_empty(b, f);
    } else {
        let caller = callers.choose();
        let rest = callers.remove(caller);
        assert(callers =~= rest.insert(caller));
        lemma_sum_agrees(a, b, rest, f);
        lemma_sum_insert(a, rest, caller, f);
        lemma_sum_insert(b, rest, caller, f);
    }
}

/// Without callers nothing is counted, and a new caller adds its own calls and
/// violations to what is counted.
pub proof fn law_stats_add_up(
    states: Map<Seq<char>, RateLimitState>,
    caller: Seq<char>,
    state: RateLimitState,
)
    requires
        states.dom().finite(),
        !states.contains_key(caller),
    ensures
        calls_of(Map::empty()) == 0,
        violations_of(Map::empty()) == 0,
        calls_of(states.insert(caller, state)) == calls_of(states) + state.calls_in_window,
        violations_of(states.insert(caller, state)) == violations_of(states)
            + state.total_violations,
{
    let calls = |s: RateLimitState| s.calls_in_window as nat;
    let violations = |s: RateLimitState| s.total_violations as nat;
    let after = states.insert(caller, state);
    assert(after.dom() =~= states.dom().insert(caller));
    lemma_sum_insert(after, states.dom(), caller, calls);
    lemma_sum_insert(after, states.dom(), caller, violations);
    lemma_sum_agrees(states, after, states.dom(), calls);
    lemma_sum_agrees(states, after, states.dom(), violations);
    let none = Map::<Seq<char>, RateLimitState>::empty();
    assert(none.dom() =~= Set::empty());
    lemma_sum_empty(none, calls);
    lemma_sum_empty(none, violations);
}

/// In a well-formed ledger the statistics of a route are sums over finitely many
/// callers.
pub proof fn law_stats_are_finite(ledger: Ledger, route: Seq<u8>, now: u64)
    requires
        ledger.well_formed(),
    ensures
        ledger.rate_limit_states(route, now).dom().finite(),
{
    let limits = ledger.call_state_or_blank(route).rate_limits;
    let unlimited = ledger.unlimited(route);
    assert(ledger.route_well_formed(route));
    assert(ledger.rate_limit_states(route, now).dom() =~= limits.dom().union(unlimited.dom()));
}

} // verus!
