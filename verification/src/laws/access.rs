//! Who may change what, and which routes a request touches.
use crate::laws::state::Request;
use crate::ledger::{DataKey, Ledger};
use crate::types::{MiddlewareError, RouteConfig};
use vstd::prelude::*;

verus! {

/// The middleware is initialized once. That makes the given address the admin,
/// switches the middleware on and sets the call counter to zero; another attempt
/// is refused and changes nothing.
pub proof fn law_initialize_once(ledger: Ledger, admin: Seq<char>, other: Seq<char>)
    requires
        !ledger.storage.contains_key(DataKey::Admin),
    ensures
        ({
            let (after, answer) = ledger.initialize(admin);
            &&& answer is Ok
            &&& after.admin() == Some(admin)
            &&& after.enabled()
            &&& after.total_calls() == 0
            &&& after.initialize(other) == (
                after,
                Err::<(), MiddlewareError>(MiddlewareError::AlreadyInitialized),
            )
        }),
{
}

/// Whoever is not the admin is refused every request that is the admin's, and
/// changes nothing. Before the initialization nobody is.
pub proof fn law_only_the_admin_may(
    ledger: Ledger,
    caller: Seq<char>,
    route: Seq<u8>,
    config: RouteConfig,
    enabled: bool,
    address: Seq<char>,
)
    requires
        ledger.admin() != Some(caller),
    ensures
        ({
            let refusal: (Ledger, Result<(), MiddlewareError>) = (
                ledger,
                Err(
                    if ledger.admin() is None {
                        MiddlewareError::NotInitialized
                    } else {
                        MiddlewareError::Unauthorized
                    },
                ),
            );
            &&& ledger.configure_route(caller, route, config) == refusal
            &&& ledger.set_global_enabled(caller, enabled) == refusal
            &&& ledger.reset_route_call_log(caller, route) == refusal
            &&& ledger.reset_rate_limit(caller, route, address) == refusal
            &&& ledger.reset_circuit_breaker(caller, route) == refusal
            &&& ledger.transfer_admin(caller, address) == refusal
        }),
{
}

/// The admin is refused nothing but settings with a rate limit and no window.
pub proof fn law_the_admin_may(
    ledger: Ledger,
    caller: Seq<char>,
    route: Seq<u8>,
    config: RouteConfig,
    enabled: bool,
    address: Seq<char>,
)
    requires
        ledger.admin() == Some(caller),
    ensures
        ledger.configure_route(caller, route, config).1 == (if config.max_calls_per_window > 0
            && config.window_seconds == 0 {
            Err::<(), MiddlewareError>(MiddlewareError::InvalidConfig)
        } else {
            Ok(())
        }),
        ledger.set_global_enabled(caller, enabled).1 is Ok,
        ledger.reset_route_call_log(caller, route).1 is Ok,
        ledger.reset_rate_limit(caller, route, address).1 is Ok,
        ledger.reset_circuit_breaker(caller, route).1 is Ok,
        ledger.transfer_admin(caller, address).1 is Ok,
{
}

/// Once the admin has handed over, the new admin is the admin, and nobody else.
pub proof fn law_transfer_hands_over(
    ledger: Ledger,
    current: Seq<char>,
    new_admin: Seq<char>,
    other: Seq<char>,
)
    requires
        ledger.admin() == Some(current),
        other != new_admin,
    ensures
        ({
            let after = ledger.transfer_admin(current, new_admin).0;
            &&& after.admin() == Some(new_admin)
            &&& after.authorize(new_admin) is Ok
            &&& after.authorize(other) == Err::<(), _>(MiddlewareError::Unauthorized)
        }),
{
}

/// While the middleware is switched off, every call on every route is refused
/// and changes nothing.
pub proof fn law_switched_off_refuses_all(
    ledger: Ledger,
    admin: Seq<char>,
    caller: Seq<char>,
    route: Seq<u8>,
    now: u64,
)
    requires
        ledger.admin() == Some(admin),
    ensures
        ({
            let off = ledger.set_global_enabled(admin, false).0;
            off.pre_call(caller, route, now) == (
                off,
                Err::<(), MiddlewareError>(MiddlewareError::MiddlewareDisabled),
            )
        }),
{
}

/// Switching the middleware off and on again leaves every key but the switch's and
/// every verdict as they were while it was on.
pub proof fn law_switching_back_on_restores(
    ledger: Ledger,
    admin: Seq<char>,
    caller: Seq<char>,
    route: Seq<u8>,
    now: u64,
    key: DataKey,
)
    requires
        ledger.admin() == Some(admin),
        ledger.enabled(),
    ensures
        ({
            let off = ledger.set_global_enabled(admin, false).0;
            let on = off.set_global_enabled(admin, true).0;
            &&& on.enabled()
            &&& key != DataKey::GlobalEnabled ==> off.storage.get(key) == ledger.storage.get(key)
                && on.storage.get(key) == ledger.storage.get(key)
            &&& on.verdict(caller, route, now) == ledger.verdict(caller, route, now)
        }),
{
    let off = ledger.set_global_enabled(admin, false).0;
    let on = off.set_global_enabled(admin, true).0;
    assert(on.config(route) == ledger.config(route));
    assert(on.call_state(route) == ledger.call_state(route));
}

/// The settings of a route are the ones it was given last. The settings of other
/// routes and what the routes remember stay.
pub proof fn law_configure_reads_back(
    ledger: Ledger,
    admin: Seq<char>,
    route: Seq<u8>,
    config: RouteConfig,
    other: Seq<u8>,
)
    requires
        ledger.configure_route(admin, route, config).1 is Ok,
        other != route,
    ensures
        ({
            let after = ledger.configure_route(admin, route, config).0;
            &&& after.config(route) == Some(config)
            &&& after.config(other) == ledger.config(other)
            &&& after.call_state(route) == ledger.call_state(route)
            &&& after.log(route) == ledger.log(route)
            &&& after.summary(route) == ledger.summary(route)
        }),
{
}

/// A configured route is in the list of routes. The list only grows at its end,
/// and configuring a route again does not change it.
pub proof fn law_configured_routes(
    ledger: Ledger,
    admin: Seq<char>,
    route: Seq<u8>,
    config: RouteConfig,
    again: RouteConfig,
)
    requires
        ledger.configure_route(admin, route, config).1 is Ok,
    ensures
        ({
            let after = ledger.configure_route(admin, route, config).0;
            &&& after.routes().contains(route)
            &&& ledger.routes().is_prefix_of(after.routes())
            &&& after.routes().len() == ledger.routes().len() + (if ledger.routes().contains(
                route,
            ) {
                0int
            } else {
                1
            })
            &&& after.configure_route(admin, route, again).0.routes() == after.routes()
        }),
{
    let after = ledger.configure_route(admin, route, config).0;
    if !ledger.routes().contains(route) {
        assert(after.routes() == ledger.routes().push(route));
        assert(after.routes()[ledger.routes().len() as int] == route);
    }
}

/// A call on one route, its outcome and the resets of one route leave all that is
/// kept of another route as it is, and with it every verdict there.
pub proof fn law_routes_are_independent(
    ledger: Ledger,
    caller: Seq<char>,
    route: Seq<u8>,
    success: bool,
    now: u64,
    other: Seq<u8>,
    later_caller: Seq<char>,
    later: u64,
)
    requires
        other != route,
    ensures
        ({
            let called = ledger.pre_call(caller, route, now).0;
            let settled = ledger.post_call(caller, route, success, now);
            let cleared = ledger.reset_route_call_log(caller, route).0;
            let forgotten = ledger.reset_rate_limit(caller, route, later_caller).0;
            let closed = ledger.reset_circuit_breaker(caller, route).0;
            &&& ledger.same_route(called, other)
            &&& ledger.same_route(settled, other)
            &&& ledger.same_route(cleared, other)
            &&& ledger.same_route(forgotten, other)
            &&& ledger.same_route(closed, other)
            &&& called.verdict(later_caller, other, later) == ledger.verdict(
                later_caller,
                other,
                later,
            )
            &&& settled.verdict(later_caller, other, later) == ledger.verdict(
                later_caller,
                other,
                later,
            )
        }),
{
}

impl Ledger {
    /// The address that the admin's rights were given to last: by a transfer, or
    /// by the initialization.
    pub open spec fn admin_given(self, requests: Seq<Request>) -> Option<Seq<char>>
        decreases requests.len(),
    {
        if requests.len() == 0 {
            self.admin()
        } else {
            let accepted = self.run(requests.drop_last()).accepts(requests.last());
            match requests.last() {
                Request::Initialize { admin } if accepted => Some(admin),
                Request::TransferAdmin { new_admin, .. } if accepted => Some(new_admin),
                _ => self.admin_given(requests.drop_last()),
            }
        }
    }

    /// The routes that the requests have configured, in the order of the requests.
    pub open spec fn configured(self, requests: Seq<Request>) -> Seq<Seq<u8>>
        decreases requests.len(),
    {
        if requests.len() == 0 {
            Seq::empty()
        } else {
            let rest = self.configured(requests.drop_last());
            match requests.last() {
                Request::ConfigureRoute { route, .. } if self.run(requests.drop_last()).accepts(
                    requests.last(),
                ) => rest.push(route),
                _ => rest,
            }
        }
    }
}

/// A sequence without repetitions: of each element the first occurrence.
pub open spec fn first_occurrences<T>(all: Seq<T>) -> Seq<T>
    decreases all.len(),
{
    if all.len() == 0 {
        all
    } else {
        let rest = first_occurrences(all.drop_last());
        if rest.contains(all.last()) {
            rest
        } else {
            rest.push(all.last())
        }
    }
}

/// After any requests the admin is the one that the last transfer named, or the
/// initialization where there was none.
pub proof fn law_admin_is_the_last_given(ledger: Ledger, requests: Seq<Request>)
    ensures
        ledger.run(requests).admin() == ledger.admin_given(requests),
    decreases requests.len(),
{
    if requests.len() > 0 {
        law_admin_is_the_last_given(ledger, requests.drop_last());
    }
}

/// After any requests the list of routes holds each configured route once, in the
/// order in which they were first configured.
pub proof fn law_routes_are_in_order_of_first_configuration(requests: Seq<Request>)
    ensures
        Ledger::blank().run(requests).routes() == first_occurrences(
            Ledger::blank().configured(requests),
        ),
    decreases requests.len(),
{
    if requests.len() > 0 {
        let rest = requests.drop_last();
        law_routes_are_in_order_of_first_configuration(rest);
        let before = Ledger::blank().configured(rest);
        if let Request::ConfigureRoute { route, .. } = requests.last() {
            assert(before.push(route).drop_last() =~= before);
        }
    }
}

impl Ledger {
    /// Whether two ledgers agree in all that is kept of a route.
    pub open spec fn same_route(self, after: Ledger, route: Seq<u8>) -> bool {
        &&& after.config(route) == self.config(route)
        &&& after.call_state(route) == self.call_state(route)
        &&& after.log(route) == self.log(route)
        &&& after.summary(route) == self.summary(route)
        &&& after.breaker(route) == self.breaker(route)
        &&& after.unlimited(route) == self.unlimited(route)
    }
}

} // verus!
