//! Circuit breakers over several calls.
use crate::laws::state::{law_invariant_always_holds, Request};
use crate::ledger::{Event, EventData, Ledger};
use crate::types::{CircuitBreakerState, MiddlewareError, RouteConfig};
use vstd::prelude::*;

verus! {

/// The outcome of a call on some route.
pub struct Outcome {
    pub success: bool,
    pub now: u64,
}

/// How many failures the outcomes end with.
pub open spec fn trailing_failures(outcomes: Seq<Outcome>) -> nat
    decreases outcomes.len(),
{
    if outcomes.len() == 0 || outcomes.last().success {
        0
    } else {
        trailing_failures(outcomes.drop_last()) + 1
    }
}

/// Whether so many failures follow each other somewhere in the outcomes.
pub open spec fn has_failures_in_a_row(outcomes: Seq<Outcome>, threshold: u32) -> bool {
    exists|n: int|
        0 <= n <= outcomes.len() && trailing_failures(#[trigger] outcomes.take(n)) >= threshold
}

impl Ledger {
    /// The outcomes on the route that the requests report.
    pub open spec fn outcomes_on(self, route: Seq<u8>, requests: Seq<Request>) -> Seq<Outcome>
        decreases requests.len(),
    {
        if requests.len() == 0 {
            Seq::empty()
        } else {
            let rest = self.outcomes_on(route, requests.drop_last());
            let last = requests.last();
            if last is PostCall && last->PostCall_route == route && self.run(
                requests.drop_last(),
            ).accepts(last) {
                rest.push(
                    Outcome { success: last->PostCall_success, now: last->PostCall_now },
                )
            } else {
                rest
            }
        }
    }

    /// Whether a request makes a note of the route's circuit breaker: it reports
    /// a failure on a route that has one, or resets it.
    pub open spec fn records_breaker(self, request: Request, route: Seq<u8>) -> bool {
        match request {
            Request::PostCall { route: r, success, .. } => {
                &&& r == route && !success && self.accepts(request)
                &&& self.config(route) matches Some(config) && config.failure_threshold > 0
            },
            Request::ResetCircuitBreaker { route: r, .. } => r == route && self.accepts(request),
            _ => false,
        }
    }

    /// Whether one of the requests makes a note of the route's circuit breaker.
    pub open spec fn breaker_recorded_in(self, route: Seq<u8>, requests: Seq<Request>) -> bool
        decreases requests.len(),
    {
        requests.len() > 0 && (self.breaker_recorded_in(route, requests.drop_last()) || self.run(
            requests.drop_last(),
        ).records_breaker(requests.last(), route))
    }
}

/// Whether a request neither configures the route nor resets its circuit breaker.
pub open spec fn leaves_breaker(request: Request, route: Seq<u8>) -> bool {
    match request {
        Request::ConfigureRoute { route: r, .. } => r != route,
        Request::ResetCircuitBreaker { route: r, .. } => r != route,
        _ => true,
    }
}

/// A longer list of outcomes has the failures in a row that the shorter has, and
/// those that it ends with.
proof fn lemma_failures_in_a_row(outcomes: Seq<Outcome>, outcome: Outcome, threshold: u32)
    ensures
        has_failures_in_a_row(outcomes.push(outcome), threshold) <==> has_failures_in_a_row(
            outcomes,
            threshold,
        ) || trailing_failures(outcomes.push(outcome)) >= threshold,
        !has_failures_in_a_row(outcomes, threshold) ==> trailing_failures(outcomes) < threshold,
        trailing_failures(outcomes.push(outcome)) == (if outcome.success {
            0
        } else {
            trailing_failures(outcomes) + 1
        }),
{
    let longer = outcomes.push(outcome);
    let len = outcomes.len() as int;
    assert(longer.drop_last() =~= outcomes);
    assert(longer.take(len + 1) =~= longer);
    assert(outcomes.take(len) =~= outcomes);
    assert forall|n: int| 0 <= n <= len implies #[trigger] longer.take(n) == outcomes.take(n) by {
        assert(longer.take(n) =~= outcomes.take(n));
    }
    if has_failures_in_a_row(outcomes, threshold) {
        let n = choose|n: int|
            0 <= n <= len && trailing_failures(#[trigger] outcomes.take(n)) >= threshold;
        assert(trailing_failures(longer.take(n)) >= threshold);
    }
    if has_failures_in_a_row(longer, threshold) {
        let n = choose|n: int|
            0 <= n <= len + 1 && trailing_failures(#[trigger] longer.take(n)) >= threshold;
        if n <= len {
            assert(trailing_failures(outcomes.take(n)) >= threshold);
        }
    }
    if !has_failures_in_a_row(outcomes, threshold) {
        assert(trailing_failures(outcomes.take(len)) < threshold);
    }
}

/// What a request does to the circuit breaker of a route that it leaves alone.
proof fn lemma_step_settles(ledger: Ledger, request: Request, config: RouteConfig, route: Seq<u8>)
    requires
        ledger.config(route) == Some(config),
        config.failure_threshold > 0,
        leaves_breaker(request, route),
    ensures
        ({
            let after = ledger.step(request);
            let before = ledger.call_state_or_blank(route).circuit_breaker;
            let breaker = after.call_state_or_blank(route).circuit_breaker;
            let settles = request is PostCall && request->PostCall_route == route
                && ledger.accepts(request);
            &&& after.config(route) == Some(config)
            &&& settles ==> breaker == (if request->PostCall_success {
                before.spec_succeeded()
            } else {
                before.spec_failed(config, request->PostCall_now)
            })
            &&& settles && !request->PostCall_success && !before.is_half_open
                ==> before.failure_count < u32::MAX
            &&& !settles && (!before.is_open || config.recovery_window_seconds == 0) ==> breaker
                == before
        }),
{
}

/// A closed circuit opens with the outcome that completes as many failures in a
/// row as its threshold, and not before; until then it counts the failures since
/// the last success. Where the route has no recovery window, it then stays open.
/// All this holds whatever else is requested in between.
pub proof fn law_circuit_opens_at_the_threshold(
    ledger: Ledger,
    config: RouteConfig,
    route: Seq<u8>,
    requests: Seq<Request>,
)
    requires
        ledger.config(route) == Some(config),
        config.failure_threshold > 0,
        ledger.call_state_or_blank(route).circuit_breaker == CircuitBreakerState::spec_closed(),
        forall|i: int| 0 <= i < requests.len() ==> leaves_breaker(#[trigger] requests[i], route),
    ensures
        ({
            let after = ledger.run(requests);
            let breaker = after.call_state_or_blank(route).circuit_breaker;
            let outcomes = ledger.outcomes_on(route, requests);
            let threshold = config.failure_threshold;
            &&& after.config(route) == Some(config)
            &&& !has_failures_in_a_row(outcomes, threshold) ==> breaker == (CircuitBreakerState {
                failure_count: trailing_failures(outcomes) as u32,
                opened_at: 0,
                is_open: false,
                is_half_open: false,
            }) && trailing_failures(outcomes) < threshold
            &&& has_failures_in_a_row(outcomes, threshold) && config.recovery_window_seconds == 0
                ==> breaker.is_open && !breaker.is_half_open
            &&& requests.len() > 0 && !has_failures_in_a_row(
                ledger.outcomes_on(route, requests.drop_last()),
                threshold,
            ) && has_failures_in_a_row(outcomes, threshold) ==> breaker
                == CircuitBreakerState::spec_opened(threshold, outcomes.last().now)
        }),
    decreases requests.len(),
{
    let threshold = config.failure_threshold;
    if requests.len() == 0 {
        let none = ledger.outcomes_on(route, requests);
        assert forall|n: int| 0 <= n <= none.len() implies trailing_failures(
            #[trigger] none.take(n),
        ) < threshold by {
        }
    } else {
        let rest = requests.drop_last();
        let last = requests[requests.len() - 1];
        assert forall|i: int| 0 <= i < rest.len() implies #[trigger] rest[i] == requests[i] by {
        }
        law_circuit_opens_at_the_threshold(ledger, config, route, rest);
        lemma_step_settles(ledger.run(rest), last, config, route);
        lemma_failures_in_a_row(
            ledger.outcomes_on(route, rest),
            Outcome { success: last->PostCall_success, now: last->PostCall_now },
            threshold,
        );
    }
}

/// A route's circuit breaker is reported exactly once it has seen a failure or a
/// reset, whatever else is requested.
pub proof fn law_breaker_is_reported_once_recorded(route: Seq<u8>, requests: Seq<Request>)
    ensures
        Ledger::blank().run(requests).breaker_recorded(route)
            == Ledger::blank().breaker_recorded_in(route, requests),
        Ledger::blank().run(requests).breaker(route) is Some
            <==> Ledger::blank().breaker_recorded_in(route, requests),
    decreases requests.len(),
{
    law_invariant_always_holds(requests);
    assert(Ledger::blank().run(requests).route_well_formed(route));
    if requests.len() > 0 {
        law_breaker_is_reported_once_recorded(route, requests.drop_last());
    }
}

/// A call changes no circuit but an open one.
pub proof fn law_calls_leave_a_closed_circuit(
    ledger: Ledger,
    caller: Seq<char>,
    route: Seq<u8>,
    now: u64,
)
    requires
        !ledger.call_state_or_blank(route).circuit_breaker.is_open,
    ensures
        ledger.pre_call(caller, route, now).0.call_state_or_blank(route).circuit_breaker
            == ledger.call_state_or_blank(route).circuit_breaker,
{
}

/// An open circuit refuses every call until its recovery window has passed, or
/// for good where the route has none. Nothing changes.
pub proof fn law_open_circuit_refuses(
    ledger: Ledger,
    config: RouteConfig,
    caller: Seq<char>,
    route: Seq<u8>,
    now: u64,
)
    requires
        ledger.enabled(),
        ledger.config(route) == Some(config),
        config.enabled,
        config.failure_threshold > 0,
        ledger.call_state_or_blank(route).circuit_breaker.is_open,
        config.recovery_window_seconds == 0 || now < ledger.call_state_or_blank(
            route,
        ).circuit_breaker.opened_at + config.recovery_window_seconds,
    ensures
        ledger.pre_call(caller, route, now) == (
            ledger,
            Err::<(), MiddlewareError>(MiddlewareError::CircuitOpen),
        ),
{
}

/// From the end of its recovery window on, an open circuit lets a call through
/// as a probe, and its failures and its opening time are cleared. A call over the
/// rate limit is no probe and leaves the circuit open.
pub proof fn law_circuit_recovers(
    ledger: Ledger,
    config: RouteConfig,
    caller: Seq<char>,
    route: Seq<u8>,
    now: u64,
)
    requires
        ledger.enabled(),
        ledger.config(route) == Some(config),
        config.enabled,
        config.failure_threshold > 0,
        ledger.call_state_or_blank(route).circuit_breaker.is_open,
        config.recovery_window_seconds > 0,
        now >= ledger.call_state_or_blank(route).circuit_breaker.opened_at
            + config.recovery_window_seconds,
    ensures
        ({
            let (after, answer) = ledger.pre_call(caller, route, now);
            &&& answer is Err <==> ledger.call_state_or_blank(route).limit_of(
                caller,
                now,
            ).spec_exhausted(config, now)
            &&& answer is Err ==> answer == Err::<(), _>(MiddlewareError::RateLimitExceeded)
            &&& answer is Ok ==> after.call_state_or_blank(route).circuit_breaker == (
            CircuitBreakerState {
                failure_count: 0,
                opened_at: 0,
                is_open: false,
                is_half_open: true,
            })
            &&& answer is Err ==> after.call_state_or_blank(route).circuit_breaker
                == ledger.call_state_or_blank(route).circuit_breaker
        }),
{
}

/// The outcome of a probe decides: a success closes the circuit, a failure opens
/// it again from that time on, with one failure on record.
pub proof fn law_probe_decides(
    ledger: Ledger,
    config: RouteConfig,
    caller: Seq<char>,
    route: Seq<u8>,
    now: u64,
)
    requires
        ledger.config(route) == Some(config),
        config.failure_threshold > 0,
        ledger.call_state_or_blank(route).circuit_breaker.is_half_open,
        !ledger.call_state_or_blank(route).circuit_breaker.is_open,
    ensures
        ledger.post_call(caller, route, true, now).call_state_or_blank(route).circuit_breaker
            == CircuitBreakerState::spec_closed(),
        ledger.post_call(caller, route, false, now).call_state_or_blank(route).circuit_breaker
            == CircuitBreakerState::spec_opened(1, now),
{
}

/// An open circuit is not closed by a success.
pub proof fn law_open_circuit_survives_success(
    ledger: Ledger,
    caller: Seq<char>,
    route: Seq<u8>,
    now: u64,
)
    requires
        ledger.call_state_or_blank(route).circuit_breaker.is_open,
        !ledger.call_state_or_blank(route).circuit_breaker.is_half_open,
    ensures
        ledger.post_call(caller, route, true, now).call_state_or_blank(route).circuit_breaker
            == ledger.call_state_or_blank(route).circuit_breaker,
{
}

/// Every outcome is announced, and after it the opening of the circuit with the
/// failures on record, if the outcome opened it.
pub proof fn law_outcomes_are_announced(
    ledger: Ledger,
    caller: Seq<char>,
    route: Seq<u8>,
    success: bool,
    now: u64,
)
    ensures
        ({
            let after = ledger.post_call(caller, route, success, now);
            let breaker = after.call_state_or_blank(route).circuit_breaker;
            let announced = ledger.events.push(
                Event { topic: "post_call"@, data: EventData::Outcome(caller, route, success) },
            );
            let opened = ledger.config(route) matches Some(config) && config.failure_threshold > 0
                && !success && ledger.call_state_or_blank(route).circuit_breaker.spec_trips(config);
            &&& opened ==> breaker.is_open && breaker.opened_at == now && after.events
                == announced.push(
                Event {
                    topic: "circuit_opened"@,
                    data: EventData::Count(route, breaker.failure_count),
                },
            )
            &&& !opened ==> after.events == announced && (breaker.is_open
                ==> ledger.call_state_or_blank(route).circuit_breaker.is_open)
        }),
{
}

/// Once its circuit breaker is reset, no call on the route is refused for an
/// open circuit. The callers' rate limits stay.
pub proof fn law_reset_closes_the_circuit(
    ledger: Ledger,
    admin: Seq<char>,
    route: Seq<u8>,
    caller: Seq<char>,
    now: u64,
)
    requires
        ledger.admin() == Some(admin),
    ensures
        ({
            let after = ledger.reset_circuit_breaker(admin, route).0;
            &&& after.breaker(route) == Some(CircuitBreakerState::spec_closed())
            &&& after.call_state_or_blank(route).circuit_breaker
                == CircuitBreakerState::spec_closed()
            &&& after.call_state_or_blank(route).rate_limits == ledger.call_state_or_blank(
                route,
            ).rate_limits
            &&& after.verdict(caller, route, now) != Err::<(), _>(MiddlewareError::CircuitOpen)
        }),
{
}

/// Without a threshold a route has no circuit breaker: outcomes leave its state
/// as it is, and no call is refused for an open circuit.
pub proof fn law_no_breaker_without_threshold(
    ledger: Ledger,
    caller: Seq<char>,
    route: Seq<u8>,
    success: bool,
    now: u64,
)
    requires
        ledger.config(route) matches Some(config) ==> config.failure_threshold == 0,
    ensures
        ledger.post_call(caller, route, success, now).call_state(route) == ledger.call_state(route),
        ledger.verdict(caller, route, now) != Err::<(), _>(MiddlewareError::CircuitOpen),
{
}

} // verus!
