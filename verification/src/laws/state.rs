//! What holds of the ledger at any time, whatever was requested.
use crate::call_log::{has_outcome, most_recent};
use crate::laws::log::law_append_drops_the_oldest;
use crate::ledger::{is_kept_under, DataKey, EventData, Ledger, StoredValue};
use crate::types::{
    CallLogEntryView, CallLogSummary, CallLogView, CircuitBreakerState, RateLimitState,
    RouteCallStateView, RouteConfig,
};
use vstd::prelude::*;

verus! {

impl RouteConfig {
    /// A rate limit has a window.
    pub open spec fn well_formed(self) -> bool {
        self.max_calls_per_window > 0 ==> self.window_seconds > 0
    }
}

impl CircuitBreakerState {
    /// The circuit is closed, open or half-open, and only an open one has an
    /// opening time. It opens with a failure, and a probe starts without any.
    pub open spec fn well_formed(self) -> bool {
        &&& self.is_open ==> !self.is_half_open && self.failure_count > 0
        &&& !self.is_open ==> self.opened_at == 0
        &&& self.is_half_open ==> self.failure_count == 0
    }
}

impl CallLogView {
    /// The head is a slot in use, or the first, and all entries are the
    /// route's own.
    pub open spec fn well_formed(self, route: Seq<u8>) -> bool {
        &&& self.head == 0 || self.head < self.entries.len()
        &&& forall|i: int|
            0 <= i < self.entries.len() ==> (#[trigger] self.entries[i]).route == route
    }
}

impl CallLogSummary {
    /// Every call has an outcome.
    pub open spec fn well_formed(self) -> bool {
        self.total_calls == self.success_count + self.failure_count
    }
}

impl Ledger {
    /// The ledger of a contract that has done nothing yet.
    pub open spec fn blank() -> Ledger {
        Ledger { storage: Map::empty(), events: Seq::empty() }
    }

    /// Whether what is kept of a route's calls is in order.
    pub open spec fn route_well_formed(self, route: Seq<u8>) -> bool {
        let state = self.call_state_or_blank(route);
        &&& self.config(route) matches Some(config) ==> config.well_formed()
        &&& state.rate_limits.dom().finite()
        &&& state.circuit_breaker.well_formed()
        &&& state.circuit_breaker != CircuitBreakerState::spec_closed() ==> self.breaker_recorded(
            route,
        )
        &&& self.unlimited(route).dom().finite()
        &&& self.summary_or_blank(route).well_formed()
        &&& self.log_or_blank(route).well_formed(route)
        &&& self.log(route) is Some ==> self.summary(route) is Some
        &&& self.log_or_blank(route).ordered().filter(has_outcome(true)).len()
            <= self.summary_or_blank(route).success_count
        &&& self.log_or_blank(route).ordered().filter(has_outcome(false)).len()
            <= self.summary_or_blank(route).failure_count
    }

    /// What every request keeps.
    pub open spec fn well_formed(self) -> bool {
        &&& self.kinds_match()
        &&& self.routes().no_duplicates()
        &&& forall|route: Seq<u8>| #[trigger]
            self.config(route) is Some <==> self.routes().contains(route)
        &&& forall|route: Seq<u8>| #[trigger] self.route_well_formed(route)
    }
}

/// A request to the middleware, at the time it is made.
pub enum Request {
    Initialize { admin: Seq<char> },
    ConfigureRoute { caller: Seq<char>, route: Seq<u8>, config: RouteConfig },
    PreCall { caller: Seq<char>, route: Seq<u8>, now: u64 },
    PostCall { caller: Seq<char>, route: Seq<u8>, success: bool, now: u64 },
    SetGlobalEnabled { caller: Seq<char>, enabled: bool },
    ResetRouteCallLog { caller: Seq<char>, route: Seq<u8> },
    ResetRateLimit { caller: Seq<char>, route: Seq<u8>, target: Seq<char> },
    ResetCircuitBreaker { caller: Seq<char>, route: Seq<u8> },
    TransferAdmin { current: Seq<char>, new_admin: Seq<char> },
}

impl Ledger {
    /// The ledger after a request. One that traps changes nothing.
    pub open spec fn step(self, request: Request) -> Ledger {
        match request {
            Request::Initialize { admin } => self.initialize(admin).0,
            Request::ConfigureRoute { caller, route, config } => if self.configure_route_fits(
                caller,
                route,
                config,
            ) {
                self.configure_route(caller, route, config).0
            } else {
                self
            },
            Request::PreCall { caller, route, now } => if self.pre_call_fits(caller, route, now) {
                self.pre_call(caller, route, now).0
            } else {
                self
            },
            Request::PostCall { caller, route, success, now } => if self.post_call_fits(
                route,
                success,
            ) {
                self.post_call(caller, route, success, now)
            } else {
                self
            },
            Request::SetGlobalEnabled { caller, enabled } => self.set_global_enabled(
                caller,
                enabled,
            ).0,
            Request::ResetRouteCallLog { caller, route } => self.reset_route_call_log(
                caller,
                route,
            ).0,
            Request::ResetRateLimit { caller, route, target } => self.reset_rate_limit(
                caller,
                route,
                target,
            ).0,
            Request::ResetCircuitBreaker { caller, route } => self.reset_circuit_breaker(
                caller,
                route,
            ).0,
            Request::TransferAdmin { current, new_admin } => self.transfer_admin(
                current,
                new_admin,
            ).0,
        }
    }

    /// Whether a request is carried out: it neither traps nor is refused.
    pub open spec fn accepts(self, request: Request) -> bool {
        match request {
            Request::Initialize { admin } => self.initialize(admin).1 is Ok,
            Request::ConfigureRoute { caller, route, config } => self.configure_route_fits(
                caller,
                route,
                config,
            ) && self.configure_route(caller, route, config).1 is Ok,
            Request::PreCall { caller, route, now } => self.pre_call_fits(caller, route, now)
                && self.verdict(caller, route, now) is Ok,
            Request::PostCall { caller, route, success, now } => self.post_call_fits(
                route,
                success,
            ),
            Request::SetGlobalEnabled { caller, .. } => self.authorize(caller) is Ok,
            Request::ResetRouteCallLog { caller, .. } => self.authorize(caller) is Ok,
            Request::ResetRateLimit { caller, .. } => self.authorize(caller) is Ok,
            Request::ResetCircuitBreaker { caller, .. } => self.authorize(caller) is Ok,
            Request::TransferAdmin { current, .. } => self.authorize(current) is Ok,
        }
    }

    /// The ledger after a list of requests.
    pub open spec fn run(self, requests: Seq<Request>) -> Ledger
        decreases requests.len(),
    {
        if requests.len() == 0 {
            self
        } else {
            self.run(requests.drop_last()).step(requests.last())
        }
    }
}

/// Storing a value of its key's kind keeps the kinds.
proof fn lemma_put_kind(ledger: Ledger, key: DataKey, value: StoredValue)
    requires
        ledger.kinds_match(),
        is_kept_under(key, value),
    ensures
        ledger.put(key, value).kinds_match(),
{
    let after = ledger.put(key, value);
    assert forall|k: DataKey| #[trigger] after.storage.contains_key(k) implies is_kept_under(
        k,
        after.storage[k],
    ) by {
        if k != key {
            assert(ledger.storage.contains_key(k));
        }
    }
}

/// Where neither settings nor the list of routes change, the routes with settings
/// are still those of the list.
proof fn lemma_configured_kept(ledger: Ledger, after: Ledger)
    requires
        ledger.well_formed(),
        after.routes() == ledger.routes(),
        forall|r: Seq<u8>| #[trigger] after.config(r) == ledger.config(r),
    ensures
        forall|r: Seq<u8>| #[trigger] after.config(r) is Some <==> after.routes().contains(r),
{
    assert forall|r: Seq<u8>|
        #[trigger] after.config(r) is Some <==> after.routes().contains(r) by {
        assert(after.config(r) == ledger.config(r));
    }
}

/// Storing under one of a route's keys leaves what is kept of the others.
proof fn lemma_put_elsewhere(
    ledger: Ledger,
    key: DataKey,
    value: StoredValue,
    route: Seq<u8>,
    other: Seq<u8>,
)
    requires
        key == DataKey::RouteCallState(route) || key == DataKey::BreakerRecorded(route) || key
            == DataKey::UnlimitedCalls(route) || key == DataKey::CallLog(route) || key
            == DataKey::CallLogSummary(route),
        other != route,
    ensures
        ledger.put(key, value).route_well_formed(other) == ledger.route_well_formed(other),
{
}

/// Storing a route's state that is in order keeps the ledger well-formed.
proof fn lemma_put_call_state(ledger: Ledger, route: Seq<u8>, state: RouteCallStateView)
    requires
        ledger.well_formed(),
        state.circuit_breaker.well_formed(),
        state.rate_limits.dom().finite(),
        state.circuit_breaker != CircuitBreakerState::spec_closed() ==> ledger.breaker_recorded(
            route,
        ),
    ensures
        ledger.put_call_state(route, state).well_formed(),
{
    let key = DataKey::RouteCallState(route);
    let value = StoredValue::CallState(state);
    let after = ledger.put_call_state(route, state);
    lemma_put_kind(ledger, key, value);
    assert(after.routes() == ledger.routes());
    lemma_configured_kept(ledger, after);
    assert forall|r: Seq<u8>| #[trigger] after.route_well_formed(r) by {
        assert(ledger.route_well_formed(r));
        if r != route {
            lemma_put_elsewhere(ledger, key, value, route, r);
        }
    }
}

/// Noting a route's circuit breaker keeps the ledger well-formed.
proof fn lemma_put_recorded(ledger: Ledger, route: Seq<u8>)
    requires
        ledger.well_formed(),
    ensures
        ledger.put(DataKey::BreakerRecorded(route), StoredValue::Flag(true)).well_formed(),
{
    let key = DataKey::BreakerRecorded(route);
    let value = StoredValue::Flag(true);
    let after = ledger.put(key, value);
    lemma_put_kind(ledger, key, value);
    assert(after.routes() == ledger.routes());
    lemma_configured_kept(ledger, after);
    assert forall|r: Seq<u8>| #[trigger] after.route_well_formed(r) by {
        assert(ledger.route_well_formed(r));
        if r != route {
            lemma_put_elsewhere(ledger, key, value, route, r);
        }
    }
}

/// Storing a route's calls without a limit keeps the ledger well-formed.
proof fn lemma_put_unlimited(
    ledger: Ledger,
    route: Seq<u8>,
    calls: Map<Seq<char>, RateLimitState>,
)
    requires
        ledger.well_formed(),
        calls.dom().finite(),
    ensures
        ledger.put_unlimited(route, calls).well_formed(),
{
    let key = DataKey::UnlimitedCalls(route);
    let value = StoredValue::Callers(calls);
    let after = ledger.put_unlimited(route, calls);
    lemma_put_kind(ledger, key, value);
    assert(after.routes() == ledger.routes());
    lemma_configured_kept(ledger, after);
    assert forall|r: Seq<u8>| #[trigger] after.route_well_formed(r) by {
        assert(ledger.route_well_formed(r));
        if r != route {
            lemma_put_elsewhere(ledger, key, value, route, r);
        }
    }
}

/// Putting a call without a limit on record keeps the ledger well-formed.
proof fn lemma_note_unlimited(ledger: Ledger, caller: Seq<char>, route: Seq<u8>, now: u64)
    requires
        ledger.well_formed(),
    ensures
        ledger.note_unlimited(caller, route, now).well_formed(),
{
    let calls = ledger.unlimited(route);
    assert(ledger.route_well_formed(route));
    let before = match calls.get(caller) {
        Some(state) => state,
        None => RateLimitState::spec_fresh(now),
    };
    lemma_put_unlimited(
        ledger,
        route,
        calls.insert(caller, before.spec_noted(ledger.config(route), now)),
    );
}

/// Storing the admin, the global switch or the call counter keeps the ledger
/// well-formed.
proof fn lemma_put_global(ledger: Ledger, key: DataKey, value: StoredValue)
    requires
        ledger.well_formed(),
        key is Admin || key is GlobalEnabled || key is TotalCalls,
        is_kept_under(key, value),
    ensures
        ledger.put(key, value).well_formed(),
{
    let after = ledger.put(key, value);
    lemma_put_kind(ledger, key, value);
    assert(after.routes() == ledger.routes());
    lemma_configured_kept(ledger, after);
    assert forall|r: Seq<u8>| #[trigger] after.route_well_formed(r) by {
        assert(ledger.route_well_formed(r));
    }
}

/// Publishing an event keeps the ledger well-formed.
proof fn lemma_emit(ledger: Ledger, topic: Seq<char>, data: EventData)
    requires
        ledger.well_formed(),
    ensures
        ledger.emit(topic, data).well_formed(),
{
    let after = ledger.emit(topic, data);
    assert(after.storage == ledger.storage);
    lemma_configured_kept(ledger, after);
    assert forall|r: Seq<u8>| #[trigger] after.route_well_formed(r) by {
        assert(ledger.route_well_formed(r));
    }
}

/// Configuring a route keeps the ledger well-formed.
proof fn lemma_configure(ledger: Ledger, caller: Seq<char>, route: Seq<u8>, config: RouteConfig)
    requires
        ledger.well_formed(),
    ensures
        ledger.configure_route(caller, route, config).0.well_formed(),
{
    let after = ledger.configure_route(caller, route, config).0;
    if ledger.configure_route(caller, route, config).1 is Ok {
        let configured = ledger.put(DataKey::RouteConfig(route), StoredValue::Config(config));
        let routes = ledger.routes();
        lemma_put_kind(ledger, DataKey::RouteConfig(route), StoredValue::Config(config));
        lemma_put_kind(
            configured,
            DataKey::ConfiguredRoutes,
            StoredValue::Routes(routes.push(route)),
        );
        if routes.contains(route) {
            assert(after.routes() == routes);
        } else {
            assert(after.routes() == routes.push(route));
            assert forall|r: Seq<u8>|
                #[trigger] routes.push(route).contains(r) <==> routes.contains(r) || r == route by {
                if routes.contains(r) {
                    let i = choose|i: int| 0 <= i < routes.len() && routes[i] == r;
                    assert(routes.push(route)[i] == r);
                }
                if r == route {
                    assert(routes.push(route)[routes.len() as int] == r);
                }
            }
        }
        assert forall|r: Seq<u8>|
            #[trigger] after.config(r) is Some <==> after.routes().contains(r) by {
            assert(ledger.config(r) is Some <==> routes.contains(r));
        }
        assert forall|r: Seq<u8>| #[trigger] after.route_well_formed(r) by {
            assert(ledger.route_well_formed(r));
        }
    }
}

/// Clearing a log keeps the ledger well-formed.
proof fn lemma_clear_log(ledger: Ledger, route: Seq<u8>)
    requires
        ledger.well_formed(),
    ensures
        ledger.without(DataKey::CallLog(route)).well_formed(),
{
    let after = ledger.without(DataKey::CallLog(route));
    assert forall|k: DataKey| #[trigger] after.storage.contains_key(k) implies is_kept_under(
        k,
        after.storage[k],
    ) by {
        assert(ledger.storage.contains_key(k));
    }
    assert(after.routes() == ledger.routes());
    lemma_configured_kept(ledger, after);
    assert forall|r: Seq<u8>| #[trigger] after.route_well_formed(r) by {
        assert(ledger.route_well_formed(r));
        if r == route {
            reveal(Seq::filter);
        }
    }
}

/// Of the entries that a log keeps, no more have an outcome than of all.
pub proof fn lemma_most_recent_filter(all: Seq<CallLogEntryView>, capacity: u32, success: bool)
    ensures
        most_recent(all, capacity).filter(has_outcome(success)).len() <= all.filter(
            has_outcome(success),
        ).len(),
{
    if all.len() > capacity {
        let n = all.len() - capacity;
        assert(all =~= all.take(n) + all.skip(n));
        Seq::filter_distributes_over_add(all.take(n), all.skip(n), has_outcome(success));
    }
}

/// A log stays in order as an entry is added, and counts no more than it did and
/// the new entry.
proof fn lemma_append(log: CallLogView, capacity: u32, entry: CallLogEntryView)
    requires
        log.well_formed(entry.route),
        capacity > 0,
    ensures
        log.appended(capacity, entry).well_formed(entry.route),
        forall|success: bool|
            (#[trigger] log.appended(capacity, entry).ordered().filter(has_outcome(success))).len()
                <= log.ordered().filter(has_outcome(success)).len() + (if entry.success == success {
                1int
            } else {
                0
            }),
{
    let after = log.appended(capacity, entry);
    law_append_drops_the_oldest(log, capacity, entry);
    assert forall|i: int| 0 <= i < log.ordered().len() implies (
    #[trigger] log.ordered()[i]).route == entry.route by {
        assert(0 <= (log.head + i) % (log.entries.len() as int) < log.entries.len());
    }
    assert forall|i: int| 0 <= i < after.entries.len() implies (
    #[trigger] after.entries[i]).route == entry.route by {
    }
    assert forall|success: bool|
        (#[trigger] after.ordered().filter(has_outcome(success))).len() <= log.ordered().filter(
            has_outcome(success),
        ).len() + (if entry.success == success {
            1int
        } else {
            0
        }) by {
        lemma_most_recent_filter(log.ordered().push(entry), capacity, success);
        log.ordered().lemma_filter_push(entry, has_outcome(success));
    }
}

/// Logging an outcome keeps the ledger well-formed.
proof fn lemma_record(
    ledger: Ledger,
    config: RouteConfig,
    caller: Seq<char>,
    route: Seq<u8>,
    success: bool,
    now: u64,
)
    requires
        ledger.well_formed(),
        config.log_retention > 0 ==> ledger.summary_or_blank(route).spec_can_count(success),
    ensures
        ledger.record(config, caller, route, success, now).well_formed(),
{
    if config.log_retention > 0 {
        let after = ledger.record(config, caller, route, success, now);
        let entry = CallLogEntryView { caller, timestamp: now, success, route };
        let log = ledger.log_or_blank(route);
        let next = log.appended(config.log_retention, entry);
        let summary = ledger.summary_or_blank(route).spec_counted(success, now);
        let logged = ledger.put(DataKey::CallLog(route), StoredValue::Log(next));
        lemma_put_kind(ledger, DataKey::CallLog(route), StoredValue::Log(next));
        lemma_put_kind(logged, DataKey::CallLogSummary(route), StoredValue::Summary(summary));
        assert(after.routes() == ledger.routes());
        lemma_configured_kept(ledger, after);
        assert(ledger.route_well_formed(route));
        lemma_append(log, config.log_retention, entry);
        assert(next.ordered().filter(has_outcome(true)).len() <= summary.success_count);
        assert(next.ordered().filter(has_outcome(false)).len() <= summary.failure_count);
        assert forall|r: Seq<u8>| #[trigger] after.route_well_formed(r) by {
            assert(ledger.route_well_formed(r));
            if r == route {
                assert(after.log_or_blank(r) == next);
                assert(after.summary_or_blank(r) == summary);
            }
        }
    }
}

/// Letting the circuit breaker learn of an outcome keeps the ledger well-formed.
proof fn lemma_settle(
    ledger: Ledger,
    config: RouteConfig,
    route: Seq<u8>,
    success: bool,
    now: u64,
)
    requires
        ledger.well_formed(),
        config.failure_threshold > 0 && !success && !ledger.call_state_or_blank(
            route,
        ).circuit_breaker.is_half_open ==> ledger.call_state_or_blank(
            route,
        ).circuit_breaker.failure_count < u32::MAX,
    ensures
        ledger.settle(config, route, success, now).well_formed(),
{
    if config.failure_threshold > 0 {
        let state = ledger.call_state_or_blank(route);
        let breaker = state.circuit_breaker;
        assert(ledger.route_well_formed(route));
        if success {
            lemma_put_call_state(ledger, route, state.with_breaker(breaker.spec_succeeded()));
        } else {
            let failed = breaker.spec_failed(config, now);
            let flag = StoredValue::Flag(true);
            let recorded = ledger.put(DataKey::BreakerRecorded(route), flag);
            let settled = ledger.put_call_state(route, state.with_breaker(failed)).put(
                DataKey::BreakerRecorded(route),
                flag,
            );
            lemma_put_recorded(ledger, route);
            lemma_put_call_state(recorded, route, state.with_breaker(failed));
            assert(settled =~= recorded.put_call_state(route, state.with_breaker(failed)));
            lemma_emit(
                settled,
                "circuit_opened"@,
                EventData::Count(route, failed.failure_count),
            );
        }
    }
}

/// The hook before a call keeps the ledger well-formed.
proof fn lemma_pre_call(ledger: Ledger, caller: Seq<char>, route: Seq<u8>, now: u64)
    requires
        ledger.well_formed(),
    ensures
        ledger.pre_call(caller, route, now).0.well_formed(),
{
    assert(ledger.route_well_formed(route));
    lemma_note_unlimited(ledger, caller, route, now);
    if let Some(config) = ledger.config(route) {
        let admitted = ledger.admitted_state(config, caller, route, now);
        lemma_put_call_state(ledger, route, admitted);
        lemma_note_unlimited(ledger.put_call_state(route, admitted), caller, route, now);
        lemma_put_call_state(ledger, route, ledger.violated_state(config, caller, route, now));
    }
    let value = StoredValue::Counter((ledger.total_calls() + 1) as u64);
    if ledger.verdict(caller, route, now) is Ok {
        let admitted = ledger.let_through(caller, route, now);
        lemma_put_global(admitted, DataKey::TotalCalls, value);
        lemma_emit(
            admitted.put(DataKey::TotalCalls, value),
            "pre_call"@,
            EventData::Call(caller, route),
        );
    }
}

/// The hook after a call keeps the ledger well-formed.
proof fn lemma_post_call(
    ledger: Ledger,
    caller: Seq<char>,
    route: Seq<u8>,
    success: bool,
    now: u64,
)
    requires
        ledger.well_formed(),
        ledger.post_call_fits(route, success),
    ensures
        ledger.post_call(caller, route, success, now).well_formed(),
{
    let noted = ledger.emit("post_call"@, EventData::Outcome(caller, route, success));
    lemma_emit(ledger, "post_call"@, EventData::Outcome(caller, route, success));
    if let Some(config) = ledger.config(route) {
        lemma_record(noted, config, caller, route, success, now);
        let recorded = noted.record(config, caller, route, success, now);
        assert(recorded.call_state(route) == ledger.call_state(route));
        lemma_settle(recorded, config, route, success, now);
    }
}

/// A request keeps the ledger well-formed: every key holds a value of its kind;
/// the configured routes are listed once each, and they alone have settings; a
/// rate limit has a window; no circuit is open and half-open at once, and one
/// that is not closed is on record; a log's head lies in the log, its entries are
/// the route's own, and no more of them succeeded or failed than the summary
/// counts; and the summary's counts add up.
pub proof fn law_step_keeps_invariant(ledger: Ledger, request: Request)
    requires
        ledger.well_formed(),
    ensures
        ledger.step(request).well_formed(),
{
    match request {
        Request::Initialize { admin } => {
            let a = StoredValue::Address(admin);
            let e = StoredValue::Flag(true);
            let one = ledger.put(DataKey::Admin, a);
            let two = one.put(DataKey::GlobalEnabled, e);
            lemma_put_global(ledger, DataKey::Admin, a);
            lemma_put_global(one, DataKey::GlobalEnabled, e);
            lemma_put_global(two, DataKey::TotalCalls, StoredValue::Counter(0));
        },
        Request::ConfigureRoute { caller, route, config } => {
            lemma_configure(ledger, caller, route, config);
        },
        Request::PreCall { caller, route, now } => {
            lemma_pre_call(ledger, caller, route, now);
        },
        Request::PostCall { caller, route, success, now } => {
            if ledger.post_call_fits(route, success) {
                lemma_post_call(ledger, caller, route, success, now);
            }
        },
        Request::SetGlobalEnabled { caller, enabled } => {
            let e = StoredValue::Flag(enabled);
            lemma_put_global(ledger, DataKey::GlobalEnabled, e);
            lemma_emit(
                ledger.put(DataKey::GlobalEnabled, e),
                "middleware_enabled"@,
                EventData::Flag(enabled),
            );
        },
        Request::ResetRouteCallLog { caller, route } => {
            lemma_clear_log(ledger, route);
            lemma_emit(
                ledger.without(DataKey::CallLog(route)),
                "call_log_cleared"@,
                EventData::Route(route),
            );
        },
        Request::ResetRateLimit { caller, route, target } => {
            let state = ledger.call_state_or_blank(route);
            let kept = RouteCallStateView {
                rate_limits: state.rate_limits.remove(target),
                ..state
            };
            assert(ledger.route_well_formed(route));
            lemma_put_call_state(ledger, route, kept);
            lemma_put_unlimited(
                ledger.put_call_state(route, kept),
                route,
                ledger.unlimited(route).remove(target),
            );
        },
        Request::ResetCircuitBreaker { caller, route } => {
            let state = ledger.call_state_or_blank(route).with_breaker(
                CircuitBreakerState::spec_closed(),
            );
            assert(ledger.route_well_formed(route));
            lemma_put_call_state(ledger, route, state);
            lemma_put_recorded(ledger.put_call_state(route, state), route);
        },
        Request::TransferAdmin { current, new_admin } => {
            let a = StoredValue::Address(new_admin);
            lemma_put_global(ledger, DataKey::Admin, a);
            lemma_emit(
                ledger.put(DataKey::Admin, a),
                "admin_transferred"@,
                EventData::Addresses(current, new_admin),
            );
        },
    }
}

/// Whatever is requested of a new contract, its ledger is well-formed.
pub proof fn law_invariant_always_holds(requests: Seq<Request>)
    ensures
        Ledger::blank().run(requests).well_formed(),
    decreases requests.len(),
{
    if requests.len() == 0 {
        assert forall|route: Seq<u8>| #[trigger] Ledger::blank().route_well_formed(route) by {
            reveal(Seq::filter);
        }
    } else {
        law_invariant_always_holds(requests.drop_last());
        law_step_keeps_invariant(Ledger::blank().run(requests.drop_last()), requests.last());
    }
}

/// In a well-formed ledger a full log has a slot at its head: only a counter at
/// its limit can make the hook after a call trap.
pub proof fn law_log_can_always_append(ledger: Ledger, route: Seq<u8>, capacity: u32)
    requires
        ledger.well_formed(),
        capacity > 0,
    ensures
        ledger.log_or_blank(route).can_append(capacity),
{
    assert(ledger.route_well_formed(route));
}

/// No request takes back an event.
pub proof fn law_events_are_kept(ledger: Ledger, request: Request)
    ensures
        ledger.events.is_prefix_of(ledger.step(request).events),
{
}

/// Besides initialization, only an admitted call changes the call counter.
pub proof fn law_only_admitted_calls_are_counted(ledger: Ledger, request: Request)
    requires
        !(request is Initialize),
        ledger.step(request).total_calls() != ledger.total_calls(),
    ensures
        request matches Request::PreCall { caller, route, now } && ledger.verdict(
            caller,
            route,
            now,
        ) is Ok && ledger.step(request).total_calls() == ledger.total_calls() + 1,
{
}

impl Ledger {
    /// Whether a request is a call that is admitted.
    pub open spec fn admits(self, request: Request) -> bool {
        request is PreCall && self.accepts(request)
    }

    /// How many of the requests are calls that are admitted.
    pub open spec fn admitted_in(self, requests: Seq<Request>) -> nat
        decreases requests.len(),
    {
        if requests.len() == 0 {
            0
        } else {
            let rest = self.admitted_in(requests.drop_last());
            if self.run(requests.drop_last()).admits(requests.last()) {
                rest + 1
            } else {
                rest
            }
        }
    }
}

/// Once the middleware is initialized, the call counter grows by the number of
/// calls that are admitted, whatever else is requested.
pub proof fn law_total_is_the_number_of_admitted_calls(ledger: Ledger, requests: Seq<Request>)
    requires
        ledger.storage.contains_key(DataKey::Admin),
    ensures
        ledger.run(requests).storage.contains_key(DataKey::Admin),
        ledger.run(requests).total_calls() == ledger.total_calls() + ledger.admitted_in(requests),
    decreases requests.len(),
{
    if requests.len() > 0 {
        law_total_is_the_number_of_admitted_calls(ledger, requests.drop_last());
    }
}

} // verus!
