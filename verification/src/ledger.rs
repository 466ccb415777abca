//! What the middleware does, as functions on what the contract's ledger holds.
//!
//! A [`Ledger`] is the content of the contract's instance storage and the
//! events it has published. Each request is a function from the ledger before
//! to the ledger after and the answer.
use crate::call_log::most_recent;
use crate::host::{address_id, instance, published, rate_limit_contents, route_list_contents};
use crate::stats::{
    all_fit, are_stats_of, calls_of, reported_state, reported_state_fits, reported_states,
    violations_of,
};
use crate::types::{
    CallLogEntry, CallLogEntryView, CallLogState, CallLogSummary, CallLogView, CircuitBreakerState,
    MiddlewareError, RateLimitMap, RateLimitState, RouteCallState, RouteCallStateView, RouteConfig,
    RouteRateLimitStats, Trap,
};
use soroban_sdk::{Address, Env};
use vstd::prelude::*;

verus! {

/// The keys of the instance storage. Routes stand for their names' bytes.
pub enum DataKey {
    Admin,
    RouteCallState(Seq<u8>),
    RouteConfig(Seq<u8>),
    GlobalEnabled,
    TotalCalls,
    CallLog(Seq<u8>),
    ConfiguredRoutes,
    CallLogSummary(Seq<u8>),
    /// Notes that a route's circuit breaker has seen a failure or a reset.
    BreakerRecorded(Seq<u8>),
    /// The callers of a route whose calls no rate limit counts.
    UnlimitedCalls(Seq<u8>),
}

/// The values of the instance storage.
pub enum StoredValue {
    Address(Seq<char>),
    CallState(RouteCallStateView),
    Config(RouteConfig),
    Flag(bool),
    Counter(u64),
    Log(CallLogView),
    Routes(Seq<Seq<u8>>),
    Summary(CallLogSummary),
    Callers(Map<Seq<char>, RateLimitState>),
    /// A value that is none of these.
    Other,
}

/// Whether the value is of the kind that the key is read at.
pub open spec fn is_kept_under(key: DataKey, value: StoredValue) -> bool {
    match key {
        DataKey::Admin => value is Address,
        DataKey::RouteCallState(_) => value is CallState,
        DataKey::RouteConfig(_) => value is Config,
        DataKey::GlobalEnabled => value is Flag,
        DataKey::TotalCalls => value is Counter,
        DataKey::CallLog(_) => value is Log,
        DataKey::ConfiguredRoutes => value is Routes,
        DataKey::CallLogSummary(_) => value is Summary,
        DataKey::BreakerRecorded(_) => value is Flag,
        DataKey::UnlimitedCalls(_) => value is Callers,
    }
}

/// Whether every key in use holds a value of the kind that it is read at.
pub open spec fn kinds_match(storage: Map<DataKey, StoredValue>) -> bool {
    forall|key: DataKey| #[trigger]
        storage.contains_key(key) ==> is_kept_under(key, storage[key])
}

/// An event: one topic, and data.
pub struct Event {
    pub topic: Seq<char>,
    pub data: EventData,
}

/// The data of an event.
pub enum EventData {
    /// A caller and a route.
    Call(Seq<char>, Seq<u8>),
    /// A caller, a route, and whether the call succeeded.
    Outcome(Seq<char>, Seq<u8>, bool),
    /// A route and a number of failures.
    Count(Seq<u8>, u32),
    /// A switch's position.
    Flag(bool),
    /// A route.
    Route(Seq<u8>),
    /// A former and a new address.
    Addresses(Seq<char>, Seq<char>),
}

// What optional values hold

pub open spec fn address_view(address: Option<Address>) -> Option<Seq<char>> {
    match address {
        Some(a) => Some(address_id(a)),
        None => None,
    }
}

pub open spec fn routes_view(
    routes: Option<soroban_sdk::Vec<soroban_sdk::String>>,
) -> Option<Seq<Seq<u8>>> {
    match routes {
        Some(list) => Some(route_list_contents(list)),
        None => None,
    }
}

pub open spec fn call_state_view(state: Option<RouteCallState>) -> Option<RouteCallStateView> {
    match state {
        Some(s) => Some(s@),
        None => None,
    }
}

pub open spec fn log_view(log: Option<CallLogState>) -> Option<CallLogView> {
    match log {
        Some(l) => Some(l@),
        None => None,
    }
}

pub open spec fn entry_view(entry: Option<CallLogEntry>) -> Option<CallLogEntryView> {
    match entry {
        Some(e) => Some(e@),
        None => None,
    }
}

pub open spec fn unlimited_view(
    calls: Option<RateLimitMap>,
) -> Option<Map<Seq<char>, RateLimitState>> {
    match calls {
        Some(c) => Some(rate_limit_contents(c)),
        None => None,
    }
}

/// The identities of a list of callers.
pub open spec fn callers_view(callers: Seq<Address>) -> Seq<Seq<char>> {
    callers.map_values(|caller: Address| address_id(caller))
}

// Reading the storage

pub open spec fn stored_admin(storage: Map<DataKey, StoredValue>) -> Option<Seq<char>> {
    match storage.get(DataKey::Admin) {
        Some(StoredValue::Address(a)) => Some(a),
        _ => None,
    }
}

pub open spec fn stored_enabled(storage: Map<DataKey, StoredValue>) -> Option<bool> {
    match storage.get(DataKey::GlobalEnabled) {
        Some(StoredValue::Flag(b)) => Some(b),
        _ => None,
    }
}

pub open spec fn stored_total(storage: Map<DataKey, StoredValue>) -> Option<u64> {
    match storage.get(DataKey::TotalCalls) {
        Some(StoredValue::Counter(n)) => Some(n),
        _ => None,
    }
}

pub open spec fn stored_routes(storage: Map<DataKey, StoredValue>) -> Option<Seq<Seq<u8>>> {
    match storage.get(DataKey::ConfiguredRoutes) {
        Some(StoredValue::Routes(r)) => Some(r),
        _ => None,
    }
}

pub open spec fn stored_config(
    storage: Map<DataKey, StoredValue>,
    route: Seq<u8>,
) -> Option<RouteConfig> {
    match storage.get(DataKey::RouteConfig(route)) {
        Some(StoredValue::Config(c)) => Some(c),
        _ => None,
    }
}

pub open spec fn stored_call_state(
    storage: Map<DataKey, StoredValue>,
    route: Seq<u8>,
) -> Option<RouteCallStateView> {
    match storage.get(DataKey::RouteCallState(route)) {
        Some(StoredValue::CallState(s)) => Some(s),
        _ => None,
    }
}

pub open spec fn stored_log(
    storage: Map<DataKey, StoredValue>,
    route: Seq<u8>,
) -> Option<CallLogView> {
    match storage.get(DataKey::CallLog(route)) {
        Some(StoredValue::Log(l)) => Some(l),
        _ => None,
    }
}

pub open spec fn stored_summary(
    storage: Map<DataKey, StoredValue>,
    route: Seq<u8>,
) -> Option<CallLogSummary> {
    match storage.get(DataKey::CallLogSummary(route)) {
        Some(StoredValue::Summary(s)) => Some(s),
        _ => None,
    }
}

pub open spec fn stored_breaker_recorded(
    storage: Map<DataKey, StoredValue>,
    route: Seq<u8>,
) -> Option<bool> {
    match storage.get(DataKey::BreakerRecorded(route)) {
        Some(StoredValue::Flag(b)) => Some(b),
        _ => None,
    }
}

pub open spec fn stored_unlimited(
    storage: Map<DataKey, StoredValue>,
    route: Seq<u8>,
) -> Option<Map<Seq<char>, RateLimitState>> {
    match storage.get(DataKey::UnlimitedCalls(route)) {
        Some(StoredValue::Callers(c)) => Some(c),
        _ => None,
    }
}

impl RouteCallStateView {
    /// The state of a route that has none on record.
    pub open spec fn blank() -> RouteCallStateView {
        RouteCallStateView {
            rate_limits: Map::empty(),
            circuit_breaker: CircuitBreakerState::spec_closed(),
        }
    }

    /// The caller's rate limit state at `now`; a caller without one is new.
    pub open spec fn limit_of(self, caller: Seq<char>, now: u64) -> RateLimitState {
        match self.rate_limits.get(caller) {
            Some(state) => state,
            None => RateLimitState::spec_fresh(now),
        }
    }

    /// The state with the caller's rate limit state replaced.
    pub open spec fn with_limit(
        self,
        caller: Seq<char>,
        state: RateLimitState,
    ) -> RouteCallStateView {
        RouteCallStateView { rate_limits: self.rate_limits.insert(caller, state), ..self }
    }

    /// The state with the circuit breaker replaced.
    pub open spec fn with_breaker(self, breaker: CircuitBreakerState) -> RouteCallStateView {
        RouteCallStateView { circuit_breaker: breaker, ..self }
    }
}

/// What the contract's ledger holds.
#[verifier::ext_equal]
pub struct Ledger {
    pub storage: Map<DataKey, StoredValue>,
    pub events: Seq<Event>,
}

/// What the environment's ledger holds.
pub open spec fn ledger(env: Env) -> Ledger {
    Ledger { storage: instance(env), events: published(env) }
}

impl Ledger {
    pub open spec fn put(self, key: DataKey, value: StoredValue) -> Ledger {
        Ledger { storage: self.storage.insert(key, value), ..self }
    }

    pub open spec fn without(self, key: DataKey) -> Ledger {
        Ledger { storage: self.storage.remove(key), ..self }
    }

    pub open spec fn emit(self, topic: Seq<char>, data: EventData) -> Ledger {
        Ledger { events: self.events.push(Event { topic, data }), ..self }
    }

    /// Whether every key in use holds a value of the kind that it is read at.
    pub open spec fn kinds_match(self) -> bool {
        kinds_match(self.storage)
    }

    pub open spec fn put_call_state(self, route: Seq<u8>, state: RouteCallStateView) -> Ledger {
        self.put(DataKey::RouteCallState(route), StoredValue::CallState(state))
    }

    pub open spec fn put_unlimited(
        self,
        route: Seq<u8>,
        calls: Map<Seq<char>, RateLimitState>,
    ) -> Ledger {
        self.put(DataKey::UnlimitedCalls(route), StoredValue::Callers(calls))
    }

    // Queries

    pub open spec fn admin(self) -> Option<Seq<char>> {
        stored_admin(self.storage)
    }

    /// The global switch. It is on unless it was switched off.
    pub open spec fn enabled(self) -> bool {
        match stored_enabled(self.storage) {
            Some(b) => b,
            None => true,
        }
    }

    pub open spec fn total_calls(self) -> u64 {
        match stored_total(self.storage) {
            Some(n) => n,
            None => 0,
        }
    }

    pub open spec fn routes(self) -> Seq<Seq<u8>> {
        match stored_routes(self.storage) {
            Some(r) => r,
            None => Seq::empty(),
        }
    }

    pub open spec fn config(self, route: Seq<u8>) -> Option<RouteConfig> {
        stored_config(self.storage, route)
    }

    pub open spec fn call_state(self, route: Seq<u8>) -> Option<RouteCallStateView> {
        stored_call_state(self.storage, route)
    }

    pub open spec fn call_state_or_blank(self, route: Seq<u8>) -> RouteCallStateView {
        match self.call_state(route) {
            Some(s) => s,
            None => RouteCallStateView::blank(),
        }
    }

    pub open spec fn log(self, route: Seq<u8>) -> Option<CallLogView> {
        stored_log(self.storage, route)
    }

    pub open spec fn log_or_blank(self, route: Seq<u8>) -> CallLogView {
        match self.log(route) {
            Some(l) => l,
            None => CallLogView::blank(),
        }
    }

    /// How many of a route's logged calls are shown.
    pub open spec fn log_limit(self, route: Seq<u8>) -> u32 {
        match self.config(route) {
            Some(config) => config.log_retention,
            None => u32::MAX,
        }
    }

    /// The logged calls of a route, oldest first: the most recent ones, no more
    /// than its settings keep.
    pub open spec fn shown_log(self, route: Seq<u8>) -> Seq<CallLogEntryView> {
        most_recent(self.log_or_blank(route).ordered(), self.log_limit(route))
    }

    pub open spec fn summary(self, route: Seq<u8>) -> Option<CallLogSummary> {
        stored_summary(self.storage, route)
    }

    pub open spec fn summary_or_blank(self, route: Seq<u8>) -> CallLogSummary {
        match self.summary(route) {
            Some(s) => s,
            None => CallLogSummary::spec_blank(),
        }
    }

    /// The route's circuit breaker, once it has seen a failure or a reset.
    pub open spec fn breaker(self, route: Seq<u8>) -> Option<CircuitBreakerState> {
        let breaker = self.call_state_or_blank(route).circuit_breaker;
        if self.breaker_recorded(route) || breaker != CircuitBreakerState::spec_closed() {
            Some(breaker)
        } else {
            None
        }
    }

    pub open spec fn breaker_recorded(self, route: Seq<u8>) -> bool {
        stored_breaker_recorded(self.storage, route) == Some(true)
    }

    /// The callers of the route whose calls no rate limit counts.
    pub open spec fn unlimited(self, route: Seq<u8>) -> Map<Seq<char>, RateLimitState> {
        match stored_unlimited(self.storage, route) {
            Some(calls) => calls,
            None => Map::empty(),
        }
    }

    /// The caller's rate limit state on the route as it counts at `now`, if the
    /// caller has called the route.
    pub open spec fn rate_limit_state(
        self,
        route: Seq<u8>,
        caller: Seq<char>,
        now: u64,
    ) -> Option<RateLimitState> {
        reported_state(
            self.call_state_or_blank(route).rate_limits,
            self.unlimited(route),
            self.config(route),
            caller,
            now,
        )
    }

    /// Whether the end of the caller's window is a point in time.
    pub open spec fn rate_limit_state_fits(self, route: Seq<u8>, caller: Seq<char>) -> bool {
        reported_state_fits(
            self.call_state_or_blank(route).rate_limits,
            self.config(route),
            caller,
        )
    }

    /// The rate limit states of all callers of the route as they count at `now`.
    pub open spec fn rate_limit_states(
        self,
        route: Seq<u8>,
        now: u64,
    ) -> Map<Seq<char>, RateLimitState> {
        reported_states(
            self.call_state_or_blank(route).rate_limits,
            self.unlimited(route),
            self.config(route),
            now,
        )
    }

    /// Whether the route's statistics at `now` fit their types.
    pub open spec fn stats_fit(self, route: Seq<u8>, now: u64) -> bool {
        &&& all_fit(self.call_state_or_blank(route).rate_limits, self.config(route))
        &&& calls_of(self.rate_limit_states(route, now)) <= u32::MAX
        &&& violations_of(self.rate_limit_states(route, now)) <= u32::MAX
    }

    /// Whether `stats` are the route's statistics at `now`.
    pub open spec fn has_stats(
        self,
        route: Seq<u8>,
        now: u64,
        stats: Option<RouteRateLimitStats>,
    ) -> bool {
        are_stats_of(self.rate_limit_states(route, now), stats)
    }

    // Requests of the admin

    /// What a request that only the admin may make answers to `caller` before
    /// it is looked at.
    pub open spec fn authorize(self, caller: Seq<char>) -> Result<(), MiddlewareError> {
        match self.admin() {
            None => Err(MiddlewareError::NotInitialized),
            Some(admin) => if admin == caller {
                Ok(())
            } else {
                Err(MiddlewareError::Unauthorized)
            },
        }
    }

    pub open spec fn initialize(self, admin: Seq<char>) -> (Ledger, Result<(), MiddlewareError>) {
        if self.storage.contains_key(DataKey::Admin) {
            (self, Err(MiddlewareError::AlreadyInitialized))
        } else {
            (
                self.put(DataKey::Admin, StoredValue::Address(admin)).put(
                    DataKey::GlobalEnabled,
                    StoredValue::Flag(true),
                ).put(DataKey::TotalCalls, StoredValue::Counter(0)),
                Ok(()),
            )
        }
    }

    pub open spec fn configure_route(
        self,
        caller: Seq<char>,
        route: Seq<u8>,
        config: RouteConfig,
    ) -> (Ledger, Result<(), MiddlewareError>) {
        if self.authorize(caller) is Err {
            (self, self.authorize(caller))
        } else if config.window_seconds == 0 && config.max_calls_per_window > 0 {
            (self, Err(MiddlewareError::InvalidConfig))
        } else {
            let configured = self.put(DataKey::RouteConfig(route), StoredValue::Config(config));
            if self.routes().contains(route) {
                (configured, Ok(()))
            } else {
                (
                    configured.put(
                        DataKey::ConfiguredRoutes,
                        StoredValue::Routes(self.routes().push(route)),
                    ),
                    Ok(()),
                )
            }
        }
    }

    /// Whether the list of routes can take the route.
    pub open spec fn configure_route_fits(
        self,
        caller: Seq<char>,
        route: Seq<u8>,
        config: RouteConfig,
    ) -> bool {
        self.configure_route(caller, route, config).1 is Ok ==> self.routes().contains(route)
            || self.routes().len() < u32::MAX
    }

    pub open spec fn set_global_enabled(
        self,
        caller: Seq<char>,
        enabled: bool,
    ) -> (Ledger, Result<(), MiddlewareError>) {
        if self.authorize(caller) is Err {
            (self, self.authorize(caller))
        } else {
            (
                self.put(DataKey::GlobalEnabled, StoredValue::Flag(enabled)).emit(
                    "middleware_enabled"@,
                    EventData::Flag(enabled),
                ),
                Ok(()),
            )
        }
    }

    pub open spec fn reset_route_call_log(
        self,
        caller: Seq<char>,
        route: Seq<u8>,
    ) -> (Ledger, Result<(), MiddlewareError>) {
        if self.authorize(caller) is Err {
            (self, self.authorize(caller))
        } else {
            (
                self.without(DataKey::CallLog(route)).emit(
                    "call_log_cleared"@,
                    EventData::Route(route),
                ),
                Ok(()),
            )
        }
    }

    pub open spec fn reset_rate_limit(
        self,
        caller: Seq<char>,
        route: Seq<u8>,
        target: Seq<char>,
    ) -> (Ledger, Result<(), MiddlewareError>) {
        if self.authorize(caller) is Err {
            (self, self.authorize(caller))
        } else {
            let state = self.call_state_or_blank(route);
            let forgotten = self.put_call_state(
                route,
                RouteCallStateView { rate_limits: state.rate_limits.remove(target), ..state },
            );
            if self.unlimited(route).contains_key(target) {
                (forgotten.put_unlimited(route, self.unlimited(route).remove(target)), Ok(()))
            } else {
                (forgotten, Ok(()))
            }
        }
    }

    pub open spec fn reset_circuit_breaker(
        self,
        caller: Seq<char>,
        route: Seq<u8>,
    ) -> (Ledger, Result<(), MiddlewareError>) {
        if self.authorize(caller) is Err {
            (self, self.authorize(caller))
        } else {
            (
                self.put_call_state(
                    route,
                    self.call_state_or_blank(route).with_breaker(
                        CircuitBreakerState::spec_closed(),
                    ),
                ).put(DataKey::BreakerRecorded(route), StoredValue::Flag(true)),
                Ok(()),
            )
        }
    }

    pub open spec fn transfer_admin(
        self,
        current: Seq<char>,
        new_admin: Seq<char>,
    ) -> (Ledger, Result<(), MiddlewareError>) {
        if self.authorize(current) is Err {
            (self, self.authorize(current))
        } else {
            (
                self.put(DataKey::Admin, StoredValue::Address(new_admin)).emit(
                    "admin_transferred"@,
                    EventData::Addresses(current, new_admin),
                ),
                Ok(()),
            )
        }
    }

    // Routed calls

    /// Whether a call may proceed, and if not, why.
    pub open spec fn verdict(
        self,
        caller: Seq<char>,
        route: Seq<u8>,
        now: u64,
    ) -> Result<(), MiddlewareError> {
        if !self.enabled() {
            Err(MiddlewareError::MiddlewareDisabled)
        } else {
            match self.config(route) {
                None => Ok(()),
                Some(config) => {
                    let state = self.call_state_or_blank(route);
                    if !config.enabled {
                        Err(MiddlewareError::RouteDisabled)
                    } else if state.circuit_breaker.spec_refuses(config, now) {
                        Err(MiddlewareError::CircuitOpen)
                    } else if state.limit_of(caller, now).spec_exhausted(config, now) {
                        Err(MiddlewareError::RateLimitExceeded)
                    } else {
                        Ok(())
                    }
                },
            }
        }
    }

    /// The route's state after the caller's call was admitted.
    pub open spec fn admitted_state(
        self,
        config: RouteConfig,
        caller: Seq<char>,
        route: Seq<u8>,
        now: u64,
    ) -> RouteCallStateView {
        let state = self.call_state_or_blank(route);
        let probed = state.with_breaker(state.circuit_breaker.spec_admitted(config));
        if config.max_calls_per_window > 0 {
            probed.with_limit(caller, state.limit_of(caller, now).spec_counted(config, now))
        } else {
            probed
        }
    }

    /// The route's state after the caller's call was refused for exceeding the
    /// rate limit.
    pub open spec fn violated_state(
        self,
        config: RouteConfig,
        caller: Seq<char>,
        route: Seq<u8>,
        now: u64,
    ) -> RouteCallStateView {
        let state = self.call_state_or_blank(route);
        state.with_limit(caller, state.limit_of(caller, now).spec_violated(config, now))
    }

    /// The ledger after a call that no rate limit counts was put on record. A
    /// caller that a rate limit has counted is on record already.
    pub open spec fn note_unlimited(
        self,
        caller: Seq<char>,
        route: Seq<u8>,
        now: u64,
    ) -> Ledger {
        let calls = self.unlimited(route);
        if self.call_state_or_blank(route).rate_limits.contains_key(caller) {
            self
        } else if calls.contains_key(caller) || calls.len() < u32::MAX {
            let before = match calls.get(caller) {
                Some(state) => state,
                None => RateLimitState::spec_fresh(now),
            };
            self.put_unlimited(
                route,
                calls.insert(caller, before.spec_noted(self.config(route), now)),
            )
        } else {
            self
        }
    }

    /// The ledger after a call was admitted and before it is counted.
    pub open spec fn let_through(self, caller: Seq<char>, route: Seq<u8>, now: u64) -> Ledger {
        match self.config(route) {
            None => self.note_unlimited(caller, route, now),
            Some(config) => {
                let admitted = self.put_call_state(
                    route,
                    self.admitted_state(config, caller, route, now),
                );
                let probes = self.call_state_or_blank(route).circuit_breaker.spec_probes(config);
                if config.max_calls_per_window > 0 {
                    admitted
                } else if probes {
                    admitted.note_unlimited(caller, route, now)
                } else {
                    self.note_unlimited(caller, route, now)
                }
            },
        }
    }

    pub open spec fn pre_call(
        self,
        caller: Seq<char>,
        route: Seq<u8>,
        now: u64,
    ) -> (Ledger, Result<(), MiddlewareError>) {
        let verdict = self.verdict(caller, route, now);
        let after = match verdict {
            Ok(_) => self.let_through(caller, route, now).put(
                DataKey::TotalCalls,
                StoredValue::Counter((self.total_calls() + 1) as u64),
            ).emit("pre_call"@, EventData::Call(caller, route)),
            Err(MiddlewareError::RateLimitExceeded) => self.put_call_state(
                route,
                self.violated_state(self.config(route)->Some_0, caller, route, now),
            ),
            Err(_) => self,
        };
        (after, verdict)
    }

    /// Whether every number that `pre_call` computes fits its type, and the
    /// route's rate limits can take the caller.
    pub open spec fn pre_call_fits(self, caller: Seq<char>, route: Seq<u8>, now: u64) -> bool {
        self.enabled() ==> {
            &&& self.config(route) matches Some(config) ==> config.enabled ==> {
                let state = self.call_state_or_blank(route);
                let breaker = state.circuit_breaker;
                let limit = state.limit_of(caller, now);
                &&& breaker.spec_probes(config) && config.recovery_window_seconds > 0
                    ==> breaker.recovery_time(config) <= u64::MAX
                &&& !breaker.spec_refuses(config, now) && config.max_calls_per_window > 0 ==> {
                    &&& limit.window_end(config) <= u64::MAX
                    &&& limit.spec_exhausted(config, now) ==> limit.total_violations < u32::MAX
                    &&& state.rate_limits.contains_key(caller) || state.rate_limits.len() < u32::MAX
                }
            }
            &&& self.verdict(caller, route, now) is Ok ==> self.total_calls() < u64::MAX
        }
    }

    /// Whether `pre_call` at `now` leads to the ledger `after` and the answer:
    /// where a number does not fit, to a trap that changes nothing.
    pub open spec fn answers_pre_call(
        self,
        caller: Seq<char>,
        route: Seq<u8>,
        now: u64,
        after: Ledger,
        answer: Result<Result<(), MiddlewareError>, Trap>,
    ) -> bool {
        if self.pre_call_fits(caller, route, now) {
            answer is Ok && (after, answer->Ok_0) == self.pre_call(caller, route, now)
        } else {
            answer is Err && after == self
        }
    }

    /// The ledger after an outcome was logged.
    pub open spec fn record(
        self,
        config: RouteConfig,
        caller: Seq<char>,
        route: Seq<u8>,
        success: bool,
        now: u64,
    ) -> Ledger {
        if config.log_retention > 0 {
            let entry = CallLogEntryView { caller, timestamp: now, success, route };
            self.put(
                DataKey::CallLog(route),
                StoredValue::Log(self.log_or_blank(route).appended(config.log_retention, entry)),
            ).put(
                DataKey::CallLogSummary(route),
                StoredValue::Summary(self.summary_or_blank(route).spec_counted(success, now)),
            )
        } else {
            self
        }
    }

    /// The ledger after the circuit breaker has learned of an outcome.
    pub open spec fn settle(
        self,
        config: RouteConfig,
        route: Seq<u8>,
        success: bool,
        now: u64,
    ) -> Ledger {
        let state = self.call_state_or_blank(route);
        let breaker = state.circuit_breaker;
        if config.failure_threshold == 0 {
            self
        } else if success {
            self.put_call_state(route, state.with_breaker(breaker.spec_succeeded()))
        } else {
            let failed = breaker.spec_failed(config, now);
            let settled = self.put_call_state(route, state.with_breaker(failed)).put(
                DataKey::BreakerRecorded(route),
                StoredValue::Flag(true),
            );
            if breaker.spec_trips(config) {
                settled.emit("circuit_opened"@, EventData::Count(route, failed.failure_count))
            } else {
                settled
            }
        }
    }

    pub open spec fn post_call(
        self,
        caller: Seq<char>,
        route: Seq<u8>,
        success: bool,
        now: u64,
    ) -> Ledger {
        let noted = self.emit("post_call"@, EventData::Outcome(caller, route, success));
        match self.config(route) {
            None => noted,
            Some(config) => noted.record(config, caller, route, success, now).settle(
                config,
                route,
                success,
                now,
            ),
        }
    }

    /// Whether every number that `post_call` computes fits its type, and a full
    /// log has a slot at its head.
    pub open spec fn post_call_fits(self, route: Seq<u8>, success: bool) -> bool {
        self.config(route) matches Some(config) ==> {
            let breaker = self.call_state_or_blank(route).circuit_breaker;
            &&& config.log_retention > 0 ==> {
                &&& self.log_or_blank(route).can_append(config.log_retention)
                &&& self.summary_or_blank(route).spec_can_count(success)
            }
            &&& config.failure_threshold > 0 && !success && !breaker.is_half_open
                ==> breaker.failure_count < u32::MAX
        }
    }
}

} // verus!
