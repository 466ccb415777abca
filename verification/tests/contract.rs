//! The middleware as a contract in a test environment.
use router_middleware::{
    CallLogEntry, CallLogState, CallLogSummary, CircuitBreakerState, MiddlewareError,
    RateLimitState, RouteCallState, RouteConfig, RouteRateLimitStats, RouterMiddleware, Trap,
};
use soroban_sdk::testutils::{
    Address as _, ContractFunctionSet, EnvTestConfig, Events as _, Ledger as _,
};
use soroban_sdk::{Address, Env, IntoVal, Symbol, Val};

/// A contract without functions: the requests run in its context.
struct Host;

impl ContractFunctionSet for Host {
    fn call(&self, _func: &str, _env: Env, _args: &[Val]) -> Option<Val> {
        None
    }
}

/// Makes each request as an invocation of the contract.
struct Client {
    env: Env,
    id: Address,
}

type Refusal = Result<MiddlewareError, Trap>;

fn answer_or_trap(answer: Result<Result<(), MiddlewareError>, Trap>) -> Result<(), Refusal> {
    match answer {
        Ok(answer) => answer.map_err(Ok),
        Err(trap) => Err(Err(trap)),
    }
}

impl Client {
    fn new() -> Client {
        let env = Env::new_with_config(EnvTestConfig { capture_snapshot_at_drop: false });
        let id = env.register(Host, ());
        Client { env, id }
    }

    fn run<T>(&self, request: impl FnOnce(&mut Env) -> T) -> T {
        self.env.as_contract(&self.id, || request(&mut self.env.clone()))
    }

    fn try_initialize(&self, admin: &Address) -> Result<(), Refusal> {
        self.run(|env| RouterMiddleware::initialize(env, admin.clone())).map_err(Ok)
    }

    fn initialize(&self, admin: &Address) {
        self.try_initialize(admin).unwrap()
    }

    #[allow(clippy::too_many_arguments)]
    fn try_configure_route(
        &self,
        caller: &Address,
        route: &soroban_sdk::String,
        max_calls_per_window: &u32,
        window_seconds: &u64,
        enabled: &bool,
        failure_threshold: &u32,
        recovery_window_seconds: &u64,
        log_retention: &u32,
    ) -> Result<(), Refusal> {
        let answer = self.run(|env| {
            RouterMiddleware::configure_route(
                env,
                caller.clone(),
                route.clone(),
                *max_calls_per_window,
                *window_seconds,
                *enabled,
                *failure_threshold,
                *recovery_window_seconds,
                *log_retention,
            )
        });
        answer_or_trap(answer)
    }

    #[allow(clippy::too_many_arguments)]
    fn configure_route(
        &self,
        caller: &Address,
        route: &soroban_sdk::String,
        max_calls_per_window: &u32,
        window_seconds: &u64,
        enabled: &bool,
        failure_threshold: &u32,
        recovery_window_seconds: &u64,
        log_retention: &u32,
    ) {
        self.try_configure_route(
            caller,
            route,
            max_calls_per_window,
            window_seconds,
            enabled,
            failure_threshold,
            recovery_window_seconds,
            log_retention,
        )
        .unwrap()
    }

    fn try_pre_call(&self, caller: &Address, route: &soroban_sdk::String) -> Result<(), Refusal> {
        answer_or_trap(
            self.run(|env| RouterMiddleware::pre_call(env, caller.clone(), route.clone())),
        )
    }

    fn pre_call(&self, caller: &Address, route: &soroban_sdk::String) {
        self.try_pre_call(caller, route).unwrap()
    }

    fn try_post_call(
        &self,
        caller: &Address,
        route: &soroban_sdk::String,
        success: &bool,
    ) -> Result<(), Refusal> {
        self.run(|env| RouterMiddleware::post_call(env, caller.clone(), route.clone(), *success))
            .map_err(Err)
    }

    fn post_call(&self, caller: &Address, route: &soroban_sdk::String, success: &bool) {
        self.try_post_call(caller, route, success).unwrap()
    }

    fn try_set_global_enabled(&self, caller: &Address, enabled: &bool) -> Result<(), Refusal> {
        self.run(|env| RouterMiddleware::set_global_enabled(env, caller.clone(), *enabled))
            .map_err(Ok)
    }

    fn set_global_enabled(&self, caller: &Address, enabled: &bool) {
        self.try_set_global_enabled(caller, enabled).unwrap()
    }

    fn total_calls(&self) -> u64 {
        self.run(|env| RouterMiddleware::total_calls(env))
    }

    fn get_call_log(&self, route: &soroban_sdk::String) -> Vec<CallLogEntry> {
        self.run(|env| RouterMiddleware::get_call_log(env, route.clone()))
    }

    fn get_call_log_filtered(
        &self,
        route: &soroban_sdk::String,
        success_only: &bool,
    ) -> Vec<CallLogEntry> {
        self.run(|env| RouterMiddleware::get_call_log_filtered(env, route.clone(), *success_only))
    }

    fn get_call_log_length(&self, route: &soroban_sdk::String) -> u32 {
        self.run(|env| RouterMiddleware::get_call_log_length(env, route.clone()))
    }

    fn get_call_log_summary(&self, route: &soroban_sdk::String) -> Option<CallLogSummary> {
        self.run(|env| RouterMiddleware::get_call_log_summary(env, route.clone()))
    }

    fn try_reset_route_call_log(
        &self,
        caller: &Address,
        route: &soroban_sdk::String,
    ) -> Result<(), Refusal> {
        self.run(|env| {
            RouterMiddleware::reset_route_call_log(env, caller.clone(), route.clone())
        })
        .map_err(Ok)
    }

    fn rate_limit_state(
        &self,
        route: &soroban_sdk::String,
        caller: &Address,
    ) -> Option<RateLimitState> {
        self.run(|env| RouterMiddleware::rate_limit_state(env, route.clone(), caller.clone()))
            .unwrap()
    }

    fn get_rate_limit_stats(
        &self,
        route: &soroban_sdk::String,
        caller: &Address,
    ) -> Option<RateLimitState> {
        self.run(|env| RouterMiddleware::get_rate_limit_stats(env, route.clone(), caller.clone()))
            .unwrap()
    }

    fn get_route_rate_limit_stats(
        &self,
        route: &soroban_sdk::String,
    ) -> Option<RouteRateLimitStats> {
        self.run(|env| RouterMiddleware::get_route_rate_limit_stats(env, route.clone())).unwrap()
    }

    fn try_reset_rate_limit(
        &self,
        caller: &Address,
        route: &soroban_sdk::String,
        target_caller: &Address,
    ) -> Result<(), Refusal> {
        self.run(|env| {
            RouterMiddleware::reset_rate_limit(
                env,
                caller.clone(),
                route.clone(),
                target_caller.clone(),
            )
        })
        .map_err(Ok)
    }

    fn route_config(&self, route: &soroban_sdk::String) -> Option<RouteConfig> {
        self.run(|env| RouterMiddleware::route_config(env, route.clone()))
    }

    fn get_configured_routes(&self) -> soroban_sdk::Vec<soroban_sdk::String> {
        self.run(|env| RouterMiddleware::get_configured_routes(env))
    }

    fn circuit_breaker_state(&self, route: &soroban_sdk::String) -> Option<CircuitBreakerState> {
        self.run(|env| RouterMiddleware::circuit_breaker_state(env, route.clone()))
    }

    fn try_admin(&self) -> Result<Address, Refusal> {
        self.run(|env| RouterMiddleware::admin(env)).map_err(Ok)
    }

    fn admin(&self) -> Address {
        self.try_admin().unwrap()
    }

    fn try_reset_circuit_breaker(
        &self,
        caller: &Address,
        route: &soroban_sdk::String,
    ) -> Result<(), Refusal> {
        self.run(|env| {
            RouterMiddleware::reset_circuit_breaker(env, caller.clone(), route.clone())
        })
        .map_err(Ok)
    }

    fn reset_circuit_breaker(&self, caller: &Address, route: &soroban_sdk::String) {
        self.try_reset_circuit_breaker(caller, route).unwrap()
    }

    fn try_transfer_admin(&self, current: &Address, new_admin: &Address) -> Result<(), Refusal> {
        self.run(|env| RouterMiddleware::transfer_admin(env, current.clone(), new_admin.clone()))
            .map_err(Ok)
    }

    fn transfer_admin(&self, current: &Address, new_admin: &Address) {
        self.try_transfer_admin(current, new_admin).unwrap()
    }
}

/// An event of the contract.
type Announcement = (Address, soroban_sdk::Vec<Val>, Val);

impl Client {
    fn event(&self, topic: &str, data: impl IntoVal<Env, Val>) -> Announcement {
        let topics = (Symbol::new(&self.env, topic),).into_val(&self.env);
        (self.id.clone(), topics, data.into_val(&self.env))
    }

    /// Checks the events of the last request.
    fn assert_events<const N: usize>(&self, events: [Announcement; N]) {
        assert_eq!(self.env.events().all(), soroban_sdk::Vec::from_array(&self.env, events));
    }
}

/// A record as the host keeps it.
type Record = soroban_sdk::Map<Symbol, Val>;

fn record(env: &Env, fields: &[(&str, Val)]) -> Record {
    let mut record = Record::new(env);
    for (name, value) in fields {
        record.set(Symbol::new(env, name), *value);
    }
    record
}

fn limit_record(env: &Env, calls: u32, start: u64, violations: u32) -> Record {
    record(
        env,
        &[
            ("calls_in_window", calls.into_val(env)),
            ("window_start", start.into_val(env)),
            ("total_violations", violations.into_val(env)),
        ],
    )
}

fn breaker_record(env: &Env, failures: u32, opened_at: u64, open: bool, half: bool) -> Record {
    record(
        env,
        &[
            ("failure_count", failures.into_val(env)),
            ("opened_at", opened_at.into_val(env)),
            ("is_open", open.into_val(env)),
            ("is_half_open", half.into_val(env)),
        ],
    )
}

fn setup() -> (Env, Address, Client) {
    let client = Client::new();
    let env = client.env.clone();
    // Start at a non-zero timestamp so opened_at / window_start are always > 0
    env.ledger().set_timestamp(1000);
    let admin = Address::generate(&env);
    client.initialize(&admin);
    (env, admin, client)
}

#[test]
fn test_rate_limit_state_not_written_when_route_disabled_before_commit() {
    // Verifies that if a route is disabled after the initial enabled check
    // but before the commit phase, no stale rate-limit state is written.
    let (env, admin, client) = setup();
    let route = soroban_sdk::String::from_str(&env, "oracle/get_price");
    // Enable route with a rate limit of 5 calls per window
    client.configure_route(&admin, &route, &5, &60, &true, &0, &0, &0);

    let caller = Address::generate(&env);

    // First call succeeds and writes rate limit state (calls_in_window = 1)
    assert!(client.try_pre_call(&caller, &route).is_ok());
    let state_after_first = client.rate_limit_state(&route, &caller).unwrap();
    assert_eq!(state_after_first.calls_in_window, 1);

    // Disable the route
    client.configure_route(&admin, &route, &5, &60, &false, &0, &0, &0);

    // pre_call must be rejected — RouteDisabled
    assert_eq!(
        client.try_pre_call(&caller, &route),
        Err(Ok(MiddlewareError::RouteDisabled))
    );

    // Rate limit state must NOT have advanced — still at 1, not 2
    let state_after_rejected = client.rate_limit_state(&route, &caller).unwrap();
    assert_eq!(state_after_rejected.calls_in_window, 1);

    // Total calls counter must NOT have incremented
    assert_eq!(client.total_calls(), 1);

    // Re-enable the route — no stale state should affect the next call
    client.configure_route(&admin, &route, &5, &60, &true, &0, &0, &0);
    assert!(client.try_pre_call(&caller, &route).is_ok());
    let state_after_reenable = client.rate_limit_state(&route, &caller).unwrap();
    assert_eq!(state_after_reenable.calls_in_window, 2);
}

#[test]
fn test_global_disable_does_not_write_rate_limit_state() {
    let (env, admin, client) = setup();
    let route = soroban_sdk::String::from_str(&env, "oracle/get_price");
    client.configure_route(&admin, &route, &5, &60, &true, &0, &0, &0);

    let caller = Address::generate(&env);
    // One successful call
    client.pre_call(&caller, &route);
    assert_eq!(client.total_calls(), 1);

    // Disable globally
    client.set_global_enabled(&admin, &false);

    // Rejected call must not touch rate limit state or total counter
    assert_eq!(
        client.try_pre_call(&caller, &route),
        Err(Ok(MiddlewareError::MiddlewareDisabled))
    );
    assert_eq!(client.total_calls(), 1);
    let state = client.rate_limit_state(&route, &caller).unwrap();
    assert_eq!(state.calls_in_window, 1);
}

#[test]
fn test_pre_call_no_config_passes() {
    let (env, _, client) = setup();
    let caller = Address::generate(&env);
    let route = soroban_sdk::String::from_str(&env, "oracle/get_price");
    let result = client.try_pre_call(&caller, &route);
    assert!(result.is_ok());
    assert_eq!(client.total_calls(), 1);
}

#[test]
fn test_rate_limit_enforced() {
    let (env, admin, client) = setup();
    let route = soroban_sdk::String::from_str(&env, "oracle/get_price");
    // max 2 calls per 60s window
    client.configure_route(&admin, &route, &2, &60, &true, &0, &0, &0);

    let caller = Address::generate(&env);
    client.pre_call(&caller, &route);
    client.pre_call(&caller, &route);
    let result = client.try_pre_call(&caller, &route);
    assert_eq!(result, Err(Ok(MiddlewareError::RateLimitExceeded)));
}

#[test]
fn test_rate_limit_resets_after_window() {
    let (env, admin, client) = setup();
    let route = soroban_sdk::String::from_str(&env, "oracle/get_price");
    client.configure_route(&admin, &route, &1, &60, &true, &0, &0, &0);

    let caller = Address::generate(&env);
    client.pre_call(&caller, &route);
    // Advance past window
    env.ledger().with_mut(|l| l.timestamp += 61);
    let result = client.try_pre_call(&caller, &route);
    assert!(result.is_ok());
}

#[test]
fn test_disabled_route_blocked() {
    let (env, admin, client) = setup();
    let route = soroban_sdk::String::from_str(&env, "oracle/get_price");
    client.configure_route(&admin, &route, &0, &0, &false, &0, &0, &0);
    let caller = Address::generate(&env);
    let result = client.try_pre_call(&caller, &route);
    assert_eq!(result, Err(Ok(MiddlewareError::RouteDisabled)));
}

#[test]
fn test_global_disable_blocks_all() {
    let (env, admin, client) = setup();
    client.set_global_enabled(&admin, &false);
    let caller = Address::generate(&env);
    let route = soroban_sdk::String::from_str(&env, "any/route");
    let result = client.try_pre_call(&caller, &route);
    assert_eq!(result, Err(Ok(MiddlewareError::MiddlewareDisabled)));
}

#[test]
fn test_unauthorized_configure_fails() {
    let (env, _admin, client) = setup();
    let attacker = Address::generate(&env);
    let route = soroban_sdk::String::from_str(&env, "oracle/get_price");
    let result = client.try_configure_route(&attacker, &route, &10, &60, &true, &0, &0, &0);
    assert_eq!(result, Err(Ok(MiddlewareError::Unauthorized)));
}

#[test]
fn test_post_call_succeeds() {
    let (env, _, client) = setup();
    let caller = Address::generate(&env);
    let route = soroban_sdk::String::from_str(&env, "oracle/get_price");

    // post_call should succeed with both true and false outcomes
    client.post_call(&caller, &route, &true);
    client.post_call(&caller, &route, &false);
}

#[test]
fn test_post_call_success_resets_failure_count() {
    let (env, admin, client) = setup();
    let caller = Address::generate(&env);
    let route = soroban_sdk::String::from_str(&env, "oracle/get_price");
    // threshold 3
    client.configure_route(&admin, &route, &0, &0, &true, &3, &0, &0);

    // 2 failures
    client.post_call(&caller, &route, &false);
    client.post_call(&caller, &route, &false);
    // success should reset
    client.post_call(&caller, &route, &true);

    // 2 more failures should NOT trip it, because it was reset
    client.post_call(&caller, &route, &false);
    client.post_call(&caller, &route, &false);

    // Circuit should still be closed
    assert!(client.try_pre_call(&caller, &route).is_ok());
}

#[test]
fn test_post_call_failure_increments_failure_count() {
    let (env, admin, client) = setup();
    let caller = Address::generate(&env);
    let route = soroban_sdk::String::from_str(&env, "oracle/get_price");
    // threshold 2
    client.configure_route(&admin, &route, &0, &0, &true, &2, &0, &0);

    // 1 failure - shouldn't trip
    client.post_call(&caller, &route, &false);
    assert!(client.try_pre_call(&caller, &route).is_ok());

    // 2nd failure - should trip
    client.post_call(&caller, &route, &false);
    assert_eq!(
        client.try_pre_call(&caller, &route),
        Err(Ok(MiddlewareError::CircuitOpen))
    );
}

#[test]
fn test_post_call_opens_circuit_breaker_at_threshold() {
    let (env, admin, client) = setup();
    let caller = Address::generate(&env);
    let route = soroban_sdk::String::from_str(&env, "oracle/get_price");
    // threshold 1
    client.configure_route(&admin, &route, &0, &0, &true, &1, &0, &0);

    client.post_call(&caller, &route, &false);
    assert_eq!(
        client.try_pre_call(&caller, &route),
        Err(Ok(MiddlewareError::CircuitOpen))
    );
}

#[test]
fn test_get_call_log_length_zero_before_calls() {
    let (env, admin, client) = setup();
    let route = soroban_sdk::String::from_str(&env, "oracle/get_price");
    client.configure_route(&admin, &route, &0, &0, &true, &0, &0, &3);

    assert_eq!(client.get_call_log_length(&route), 0);
}

#[test]
fn test_get_call_log_length_matches_get_call_log() {
    let (env, admin, client) = setup();
    let route = soroban_sdk::String::from_str(&env, "oracle/get_price");
    let caller = Address::generate(&env);
    client.configure_route(&admin, &route, &0, &0, &true, &0, &0, &5);

    client.post_call(&caller, &route, &true);
    client.post_call(&caller, &route, &false);

    assert_eq!(client.get_call_log_length(&route) as usize, client.get_call_log(&route).len());
}

#[test]
fn test_get_call_log_length_respects_retention() {
    let (env, admin, client) = setup();
    let route = soroban_sdk::String::from_str(&env, "oracle/get_price");
    let caller = Address::generate(&env);
    client.configure_route(&admin, &route, &0, &0, &true, &0, &0, &2);

    client.post_call(&caller, &route, &true);
    client.post_call(&caller, &route, &false);
    client.post_call(&caller, &route, &true);

    assert_eq!(client.get_call_log_length(&route), 2);
    assert_eq!(client.get_call_log(&route).len(), 2);
}

#[test]
fn test_rate_limit_isolated_per_route() {
    let (env, admin, client) = setup();
    let route_a = soroban_sdk::String::from_str(&env, "oracle/price");
    let route_b = soroban_sdk::String::from_str(&env, "vault/deposit");
    // route_a: 10 calls per minute, route_b: 5 calls per minute
    client.configure_route(&admin, &route_a, &10, &60, &true, &0, &0, &0);
    client.configure_route(&admin, &route_b, &5, &60, &true, &0, &0, &0);

    let caller = Address::generate(&env);
    // Make 4 calls on route_a — drains route_a counter to 4
    for _ in 0..4 {
        client.pre_call(&caller, &route_a);
    }
    // First call on route_b should succeed (independent counter starts at 0)
    assert!(client.try_pre_call(&caller, &route_b).is_ok());
    // Exhaust route_b (4 more calls → total 5 on route_b)
    for _ in 0..4 {
        client.pre_call(&caller, &route_b);
    }
    // route_b is now at its limit; route_a still has headroom
    assert_eq!(
        client.try_pre_call(&caller, &route_b),
        Err(Ok(MiddlewareError::RateLimitExceeded))
    );
    assert!(client.try_pre_call(&caller, &route_a).is_ok());
}

#[test]
fn test_total_calls_not_incremented_on_rejected_pre_call() {
    let (env, admin, client) = setup();
    let route = soroban_sdk::String::from_str(&env, "oracle/get_price");
    client.configure_route(&admin, &route, &1, &60, &true, &0, &0, &0);

    let caller = Address::generate(&env);
    client.pre_call(&caller, &route); // passes, total = 1
    assert_eq!(client.total_calls(), 1);

    let _ = client.try_pre_call(&caller, &route); // rejected (rate limit)
    assert_eq!(client.total_calls(), 1); // must still be 1
}

#[test]
fn test_admin_getter() {
    let (_env, admin, client) = setup();
    let retrieved_admin = client.admin();
    assert_eq!(retrieved_admin, admin);
}

#[test]
fn test_transfer_admin() {
    let (env, admin, client) = setup();
    let new_admin = Address::generate(&env);
    client.transfer_admin(&admin, &new_admin);
    assert_eq!(client.admin(), new_admin);
}

#[test]
fn test_unauthorized_transfer_admin_fails() {
    let (env, _admin, client) = setup();
    let attacker = Address::generate(&env);
    let new_admin = Address::generate(&env);
    let result = client.try_transfer_admin(&attacker, &new_admin);
    assert_eq!(result, Err(Ok(MiddlewareError::Unauthorized)));
}

#[test]
fn test_circuit_breaker_blocks_calls() {
    let (env, admin, client) = setup();
    let route = soroban_sdk::String::from_str(&env, "oracle/get_price");
    // Configure route with failure_threshold = 1, no recovery window for simplicity
    client.configure_route(&admin, &route, &0, &0, &true, &1, &0, &0);

    let caller = Address::generate(&env);
    // First call succeeds
    assert!(client.try_pre_call(&caller, &route).is_ok());
    // Post call with failure to trip circuit
    client.post_call(&caller, &route, &false);
    // Now pre_call should return CircuitOpen
    let result = client.try_pre_call(&caller, &route);
    assert_eq!(result, Err(Ok(MiddlewareError::CircuitOpen)));
}

#[test]
fn test_reset_circuit_breaker() {
    let (env, admin, client) = setup();
    let route = soroban_sdk::String::from_str(&env, "oracle/get_price");
    client.configure_route(&admin, &route, &0, &0, &true, &1, &0, &0);

    let caller = Address::generate(&env);
    client.pre_call(&caller, &route);
    client.post_call(&caller, &route, &false);
    // Verify circuit is open
    assert_eq!(
        client.try_pre_call(&caller, &route),
        Err(Ok(MiddlewareError::CircuitOpen))
    );

    // Reset circuit
    client.reset_circuit_breaker(&admin, &route);
    // Now pre_call should succeed
    assert!(client.try_pre_call(&caller, &route).is_ok());
}

#[test]
fn test_circuit_breaker_unauthorized_reset() {
    let (env, _admin, client) = setup();
    let route = soroban_sdk::String::from_str(&env, "oracle/get_price");
    let attacker = Address::generate(&env);
    let result = client.try_reset_circuit_breaker(&attacker, &route);
    assert_eq!(result, Err(Ok(MiddlewareError::Unauthorized)));
}

#[test]
fn test_transfer_admin_emits_event() {
    let client = Client::new();
    let env = client.env.clone();

    let old_admin = Address::generate(&env);
    let new_admin = Address::generate(&env);

    // Initialize with old_admin
    client.initialize(&old_admin);

    // Perform transfer
    client.transfer_admin(&old_admin, &new_admin);

    // One event, published by the contract, with the topic "admin_transferred"
    // and (old_admin, new_admin) as its data
    let topics: soroban_sdk::Vec<Val> = (Symbol::new(&env, "admin_transferred"),).into_val(&env);
    let data: Val = (old_admin, new_admin).into_val(&env);
    assert_eq!(
        env.events().all(),
        soroban_sdk::Vec::from_array(&env, [(client.id.clone(), topics, data)])
    );
}

#[test]
fn test_success_resets_failure_count() {
    let (env, admin, client) = setup();
    let route = soroban_sdk::String::from_str(&env, "oracle/get_price");
    // threshold=3, so 2 failures then a success then 2 more should NOT trip
    client.configure_route(&admin, &route, &0, &0, &true, &3, &0, &0);
    let caller = Address::generate(&env);

    client.post_call(&caller, &route, &false); // failure_count = 1
    client.post_call(&caller, &route, &false); // failure_count = 2
    client.post_call(&caller, &route, &true); // success → reset to 0
    client.post_call(&caller, &route, &false); // failure_count = 1
    client.post_call(&caller, &route, &false); // failure_count = 2

    // Circuit should still be closed (threshold=3, count=2)
    let result = client.try_pre_call(&caller, &route);
    assert!(result.is_ok());
}

#[test]
fn test_open_circuit_not_reset_by_success() {
    let (env, admin, client) = setup();
    let route = soroban_sdk::String::from_str(&env, "oracle/get_price");
    client.configure_route(&admin, &route, &0, &0, &true, &1, &0, &0);
    let caller = Address::generate(&env);

    client.post_call(&caller, &route, &false); // trips circuit (threshold=1)
    client.post_call(&caller, &route, &true); // success — must NOT reset is_open

    // Circuit must still be open
    assert_eq!(
        client.try_pre_call(&caller, &route),
        Err(Ok(MiddlewareError::CircuitOpen))
    );
}

#[test]
fn test_get_configured_routes_empty() {
    let (_env, _admin, client) = setup();
    let routes = client.get_configured_routes();
    assert!(routes.is_empty());
}

#[test]
fn test_get_configured_routes_multiple() {
    let (env, admin, client) = setup();
    let route_a = soroban_sdk::String::from_str(&env, "oracle/price");
    let route_b = soroban_sdk::String::from_str(&env, "vault/deposit");
    client.configure_route(&admin, &route_a, &0, &0, &true, &0, &0, &0);
    client.configure_route(&admin, &route_b, &0, &0, &true, &0, &0, &0);
    let routes = client.get_configured_routes();
    assert_eq!(routes.len(), 2);
    assert!(routes.contains(&route_a));
    assert!(routes.contains(&route_b));
}

#[test]
fn test_get_configured_routes_no_duplicates() {
    let (env, admin, client) = setup();
    let route = soroban_sdk::String::from_str(&env, "oracle/price");
    client.configure_route(&admin, &route, &0, &0, &true, &0, &0, &0);
    client.configure_route(&admin, &route, &5, &60, &true, &0, &0, &0);
    let routes = client.get_configured_routes();
    assert_eq!(routes.len(), 1);
}

#[test]
fn test_circuit_breaker_state_none_before_failures() {
    let (env, admin, client) = setup();
    let route = soroban_sdk::String::from_str(&env, "oracle/get_price");
    client.configure_route(&admin, &route, &0, &0, &true, &3, &0, &0);
    assert_eq!(client.circuit_breaker_state(&route), None);
}

#[test]
fn test_circuit_breaker_state_reflects_failures() {
    let (env, admin, client) = setup();
    let route = soroban_sdk::String::from_str(&env, "oracle/get_price");
    client.configure_route(&admin, &route, &0, &0, &true, &3, &0, &0);
    let caller = Address::generate(&env);
    client.post_call(&caller, &route, &false);
    let state = client.circuit_breaker_state(&route).unwrap();
    assert_eq!(state.failure_count, 1);
    assert!(!state.is_open);
}

#[test]
fn test_circuit_breaker_state_open_after_threshold() {
    let (env, admin, client) = setup();
    let route = soroban_sdk::String::from_str(&env, "oracle/get_price");
    client.configure_route(&admin, &route, &0, &0, &true, &2, &0, &0);
    let caller = Address::generate(&env);
    client.post_call(&caller, &route, &false);
    client.post_call(&caller, &route, &false);
    let state = client.circuit_breaker_state(&route).unwrap();
    assert!(state.is_open);
    assert!(state.opened_at > 0);
}

#[test]
fn test_circuit_breaker_state_clears_after_reset() {
    let (env, admin, client) = setup();
    let route = soroban_sdk::String::from_str(&env, "oracle/get_price");
    client.configure_route(&admin, &route, &0, &0, &true, &1, &0, &0);
    let caller = Address::generate(&env);
    client.post_call(&caller, &route, &false);
    assert!(client.circuit_breaker_state(&route).unwrap().is_open);
    client.reset_circuit_breaker(&admin, &route);
    let state = client.circuit_breaker_state(&route).unwrap();
    assert!(!state.is_open);
}

#[test]
fn test_call_log_never_exceeds_retention() {
    let (env, admin, client) = setup();
    let route = soroban_sdk::String::from_str(&env, "oracle/get_price");
    client.configure_route(&admin, &route, &0, &0, &true, &0, &0, &3);

    let caller = Address::generate(&env);
    for _ in 0..10 {
        client.pre_call(&caller, &route);
        client.post_call(&caller, &route, &true);
    }

    assert_eq!(client.get_call_log(&route).len(), 3);
}

#[test]
fn test_call_log_retains_most_recent() {
    let (env, admin, client) = setup();
    let route = soroban_sdk::String::from_str(&env, "oracle/get_price");
    client.configure_route(&admin, &route, &0, &0, &true, &0, &0, &3);

    let caller = Address::generate(&env);
    // Make 5 calls with distinct timestamps so we can identify order
    for i in 0..5u64 {
        env.ledger().set_timestamp(1000 + i);
        client.pre_call(&caller, &route);
        client.post_call(&caller, &route, &true);
    }

    let log = client.get_call_log(&route);
    assert_eq!(log.len(), 3);
    // Oldest retained entry should be call #2 (timestamp 1002)
    assert_eq!(log.get(0).unwrap().timestamp, 1002);
    // Newest entry should be call #4 (timestamp 1004)
    assert_eq!(log.get(2).unwrap().timestamp, 1004);
}

#[test]
fn test_rate_limit_state_resets_after_window() {
    let (env, admin, client) = setup();
    let route = soroban_sdk::String::from_str(&env, "oracle/get_price");
    // Configure route with 60 second window and max 5 calls
    client.configure_route(&admin, &route, &5, &60, &true, &0, &0, &0);

    let caller = Address::generate(&env);

    // Make 3 calls
    for _ in 0..3 {
        client.pre_call(&caller, &route);
    }

    // Check state within window — should show 3 calls
    let state_within_window = client.rate_limit_state(&route, &caller).unwrap();
    assert_eq!(state_within_window.calls_in_window, 3);

    // Advance time past the window
    env.ledger().set_timestamp(env.ledger().timestamp() + 61);

    // Check state after window expires — should reset to 0
    let state_after_window = client.rate_limit_state(&route, &caller).unwrap();
    assert_eq!(state_after_window.calls_in_window, 0);
    assert_eq!(
        state_after_window.window_start,
        env.ledger().timestamp()
    );
}

#[test]
fn test_rate_limit_state_within_window_accurate() {
    let (env, admin, client) = setup();
    let route = soroban_sdk::String::from_str(&env, "oracle/get_price");
    // Configure route with 60 second window
    client.configure_route(&admin, &route, &5, &60, &true, &0, &0, &0);

    let caller = Address::generate(&env);

    // Make 2 calls
    client.pre_call(&caller, &route);
    client.pre_call(&caller, &route);

    // Check state — should show 2 calls
    let state = client.rate_limit_state(&route, &caller).unwrap();
    assert_eq!(state.calls_in_window, 2);

    // Advance time but stay within window (30 seconds, window is 60)
    env.ledger().set_timestamp(env.ledger().timestamp() + 30);

    // State should still show 2 calls, not reset
    let state_still_in_window = client.rate_limit_state(&route, &caller).unwrap();
    assert_eq!(state_still_in_window.calls_in_window, 2);
    assert_eq!(
        state_still_in_window.window_start, state.window_start,
        "window_start should not change within window"
    );
}

#[test]
fn test_circuit_breaker_auto_recovers_after_window() {
    let (env, admin, client) = setup();
    let route = soroban_sdk::String::from_str(&env, "oracle/get_price");
    // failure_threshold=1, recovery_window=60s
    client.configure_route(&admin, &route, &0, &0, &true, &1, &60, &0);

    let caller = Address::generate(&env);

    // Trip the circuit
    client.post_call(&caller, &route, &false);
    assert_eq!(
        client.try_pre_call(&caller, &route),
        Err(Ok(MiddlewareError::CircuitOpen))
    );

    // Advance time past recovery window
    env.ledger().with_mut(|l| l.timestamp += 61);

    // Call should now succeed (auto-recovery)
    assert!(client.try_pre_call(&caller, &route).is_ok());
}

#[test]
fn test_circuit_not_recovered_before_window_elapses() {
    let (env, admin, client) = setup();
    let route = soroban_sdk::String::from_str(&env, "oracle/get_price");
    client.configure_route(&admin, &route, &0, &0, &true, &1, &60, &0);

    let caller = Address::generate(&env);
    client.post_call(&caller, &route, &false);

    // Only 30 seconds — not enough
    env.ledger().with_mut(|l| l.timestamp += 30);
    assert_eq!(
        client.try_pre_call(&caller, &route),
        Err(Ok(MiddlewareError::CircuitOpen))
    );
}

#[test]
fn test_circuit_breaker_state_reset_after_recovery() {
    let (env, admin, client) = setup();
    let route = soroban_sdk::String::from_str(&env, "oracle/get_price");
    // failure_threshold=1, recovery_window=60s
    client.configure_route(&admin, &route, &0, &0, &true, &1, &60, &0);

    let caller = Address::generate(&env);

    // Trip the circuit
    client.post_call(&caller, &route, &false);

    // Verify circuit is open in storage
    let state_when_open = client.circuit_breaker_state(&route).unwrap();
    assert!(state_when_open.is_open);
    assert_eq!(state_when_open.failure_count, 1);

    // Call should be blocked
    assert_eq!(
        client.try_pre_call(&caller, &route),
        Err(Ok(MiddlewareError::CircuitOpen))
    );

    // Advance time past recovery window
    env.ledger().with_mut(|l| l.timestamp += 61);

    // Call should now succeed (auto-recovery)
    assert!(client.try_pre_call(&caller, &route).is_ok());

    // Verify circuit breaker state is reset in storage
    let state_after_recovery = client.circuit_breaker_state(&route).unwrap();
    assert!(!state_after_recovery.is_open);
    assert_eq!(state_after_recovery.failure_count, 0);
    assert_eq!(state_after_recovery.opened_at, 0);
}

#[test]
fn test_rate_limit_call_at_exact_window_boundary_resets() {
    // A call at exactly window_start + window_seconds should start a new window.
    let (env, admin, client) = setup();
    let route = soroban_sdk::String::from_str(&env, "oracle/price");
    // max 1 call per 60s window
    client.configure_route(&admin, &route, &1, &60, &true, &0, &0, &0);

    let caller = Address::generate(&env);
    let t0 = env.ledger().timestamp();

    // Exhaust the window
    client.pre_call(&caller, &route);
    assert_eq!(
        client.try_pre_call(&caller, &route),
        Err(Ok(MiddlewareError::RateLimitExceeded))
    );

    // Advance to exactly window_start + window_seconds
    env.ledger().with_mut(|l| l.timestamp = t0 + 60);

    // window_elapsed = now >= window_start + window_seconds → true → new window
    assert!(client.try_pre_call(&caller, &route).is_ok());
}

#[test]
fn test_rate_limit_window_jump_multiple_windows() {
    // Ledger timestamp jumps several windows at once; counter must reset.
    let (env, admin, client) = setup();
    let route = soroban_sdk::String::from_str(&env, "oracle/price");
    client.configure_route(&admin, &route, &1, &60, &true, &0, &0, &0);

    let caller = Address::generate(&env);
    let t0 = env.ledger().timestamp();

    // Exhaust window
    client.pre_call(&caller, &route);

    // Jump 5 full windows ahead
    env.ledger().with_mut(|l| l.timestamp = t0 + 300);

    // Should succeed — counter reset regardless of how many windows elapsed
    assert!(client.try_pre_call(&caller, &route).is_ok());
    let state = client.rate_limit_state(&route, &caller).unwrap();
    assert_eq!(state.calls_in_window, 1);
    assert_eq!(state.window_start, t0 + 300);
}

#[test]
fn test_configure_route_window_zero_max_zero_is_unlimited() {
    // window_seconds=0 and max_calls=0 means unlimited (no rate limiting).
    let (env, admin, client) = setup();
    let route = soroban_sdk::String::from_str(&env, "oracle/price");
    client.configure_route(&admin, &route, &0, &0, &true, &0, &0, &0);

    let caller = Address::generate(&env);
    // Many calls should all succeed
    for _ in 0..20 {
        assert!(client.try_pre_call(&caller, &route).is_ok());
    }
}

#[test]
fn test_set_global_enabled_emits_event() {
    let (env, admin, client) = setup();
    client.set_global_enabled(&admin, &false);
    let topics: soroban_sdk::Vec<Val> = (Symbol::new(&env, "middleware_enabled"),).into_val(&env);
    let data: Val = false.into_val(&env);
    assert_eq!(
        env.events().all(),
        soroban_sdk::Vec::from_array(&env, [(client.id.clone(), topics, data)])
    );
}

#[test]
fn test_get_call_log_filtered_empty_when_no_calls() {
    let (env, admin, client) = setup();
    let route = soroban_sdk::String::from_str(&env, "oracle/get_price");
    client.configure_route(&admin, &route, &0, &0, &true, &0, &0, &10);

    assert!(client.get_call_log_filtered(&route, &true).is_empty());
    assert!(client.get_call_log_filtered(&route, &false).is_empty());
}

#[test]
fn test_get_call_log_filtered_success_only() {
    let (env, admin, client) = setup();
    let route = soroban_sdk::String::from_str(&env, "oracle/get_price");
    let caller = Address::generate(&env);
    client.configure_route(&admin, &route, &0, &0, &true, &0, &0, &10);

    client.post_call(&caller, &route, &true);
    client.post_call(&caller, &route, &false);
    client.post_call(&caller, &route, &true);

    let filtered = client.get_call_log_filtered(&route, &true);
    assert_eq!(filtered.len(), 2);
    assert!(filtered.get(0).unwrap().success);
    assert!(filtered.get(1).unwrap().success);
}

#[test]
fn test_get_call_log_filtered_failure_only() {
    let (env, admin, client) = setup();
    let route = soroban_sdk::String::from_str(&env, "oracle/get_price");
    let caller = Address::generate(&env);
    client.configure_route(&admin, &route, &0, &0, &true, &0, &0, &10);

    client.post_call(&caller, &route, &true);
    client.post_call(&caller, &route, &false);
    client.post_call(&caller, &route, &false);

    let filtered = client.get_call_log_filtered(&route, &false);
    assert_eq!(filtered.len(), 2);
    assert!(!filtered.get(0).unwrap().success);
    assert!(!filtered.get(1).unwrap().success);
}

#[test]
fn test_get_call_log_filtered_all_success_no_failures() {
    let (env, admin, client) = setup();
    let route = soroban_sdk::String::from_str(&env, "oracle/get_price");
    let caller = Address::generate(&env);
    client.configure_route(&admin, &route, &0, &0, &true, &0, &0, &5);

    client.post_call(&caller, &route, &true);
    client.post_call(&caller, &route, &true);

    assert!(client.get_call_log_filtered(&route, &false).is_empty());
    assert_eq!(client.get_call_log_filtered(&route, &true).len(), 2);
}

#[test]
fn test_get_call_log_filtered_with_ring_buffer_wraparound() {
    let (env, admin, client) = setup();
    let route = soroban_sdk::String::from_str(&env, "oracle/get_price");
    let caller = Address::generate(&env);
    // retention=3, make 5 calls so ring buffer wraps
    client.configure_route(&admin, &route, &0, &0, &true, &0, &0, &3);

    client.post_call(&caller, &route, &true); // evicted
    client.post_call(&caller, &route, &false); // evicted
    client.post_call(&caller, &route, &true); // retained
    client.post_call(&caller, &route, &false); // retained
    client.post_call(&caller, &route, &true); // retained

    // 3 retained: success, failure, success
    let success = client.get_call_log_filtered(&route, &true);
    let failure = client.get_call_log_filtered(&route, &false);
    assert_eq!(success.len(), 2);
    assert_eq!(failure.len(), 1);
}

#[test]
fn test_get_call_log_summary_none_before_calls() {
    let (env, admin, client) = setup();
    let route = soroban_sdk::String::from_str(&env, "oracle/get_price");
    client.configure_route(&admin, &route, &0, &0, &true, &0, &0, &5);
    assert_eq!(client.get_call_log_summary(&route), None);
}

#[test]
fn test_get_call_log_summary_counts_correctly() {
    let (env, admin, client) = setup();
    let route = soroban_sdk::String::from_str(&env, "oracle/get_price");
    let caller = Address::generate(&env);
    client.configure_route(&admin, &route, &0, &0, &true, &0, &0, &10);

    client.post_call(&caller, &route, &true);
    client.post_call(&caller, &route, &true);
    client.post_call(&caller, &route, &false);

    let summary = client.get_call_log_summary(&route).unwrap();
    assert_eq!(summary.total_calls, 3);
    assert_eq!(summary.success_count, 2);
    assert_eq!(summary.failure_count, 1);
}

#[test]
fn test_get_call_log_summary_last_call_timestamp() {
    let (env, admin, client) = setup();
    let route = soroban_sdk::String::from_str(&env, "oracle/get_price");
    let caller = Address::generate(&env);
    client.configure_route(&admin, &route, &0, &0, &true, &0, &0, &10);

    env.ledger().set_timestamp(1000);
    client.post_call(&caller, &route, &true);
    env.ledger().set_timestamp(2000);
    client.post_call(&caller, &route, &false);

    let summary = client.get_call_log_summary(&route).unwrap();
    assert_eq!(summary.last_call_timestamp, 2000);
}

#[test]
fn test_get_call_log_summary_not_affected_by_retention_limit() {
    // Summary counts all calls ever, even when the log is capped by retention
    let (env, admin, client) = setup();
    let route = soroban_sdk::String::from_str(&env, "oracle/get_price");
    let caller = Address::generate(&env);
    client.configure_route(&admin, &route, &0, &0, &true, &0, &0, &2); // retain only 2

    for _ in 0..5 {
        client.post_call(&caller, &route, &true);
    }

    let summary = client.get_call_log_summary(&route).unwrap();
    assert_eq!(summary.total_calls, 5); // all 5 counted
    assert_eq!(client.get_call_log(&route).len(), 2); // only 2 retained
}

#[test]
fn test_circuit_opens_after_failure_threshold() {
    let (env, admin, client) = setup();
    let route = soroban_sdk::String::from_str(&env, "oracle/get_price");
    let caller = Address::generate(&env);

    // Configure with failure_threshold=3
    client.configure_route(&admin, &route, &0, &0, &true, &3, &60, &0);

    // Trigger 3 failures to reach threshold
    client.post_call(&caller, &route, &false);
    client.post_call(&caller, &route, &false);
    client.post_call(&caller, &route, &false);

    // Circuit should now be open
    let result = client.try_pre_call(&caller, &route);
    assert_eq!(result, Err(Ok(MiddlewareError::CircuitOpen)));
}

#[test]
fn test_pre_call_blocked_while_circuit_open() {
    let (env, admin, client) = setup();
    let route = soroban_sdk::String::from_str(&env, "oracle/get_price");
    let caller = Address::generate(&env);

    // Configure with failure_threshold=1, recovery_window=60s
    client.configure_route(&admin, &route, &0, &0, &true, &1, &60, &0);

    // Trip the circuit
    client.post_call(&caller, &route, &false);

    // Verify circuit is open
    assert_eq!(
        client.try_pre_call(&caller, &route),
        Err(Ok(MiddlewareError::CircuitOpen))
    );

    // Multiple attempts should all be blocked
    assert_eq!(
        client.try_pre_call(&caller, &route),
        Err(Ok(MiddlewareError::CircuitOpen))
    );
    assert_eq!(
        client.try_pre_call(&caller, &route),
        Err(Ok(MiddlewareError::CircuitOpen))
    );
}

#[test]
fn test_pre_call_succeeds_after_recovery_window() {
    let (env, admin, client) = setup();
    let route = soroban_sdk::String::from_str(&env, "oracle/get_price");
    let caller = Address::generate(&env);

    // Configure with failure_threshold=2, recovery_window=100s
    client.configure_route(&admin, &route, &0, &0, &true, &2, &100, &0);

    // Trip the circuit
    client.post_call(&caller, &route, &false);
    client.post_call(&caller, &route, &false);

    // Verify circuit is open
    assert_eq!(
        client.try_pre_call(&caller, &route),
        Err(Ok(MiddlewareError::CircuitOpen))
    );

    // Advance ledger timestamp past recovery window
    env.ledger().with_mut(|l| l.timestamp += 101);

    // pre_call should now succeed (auto-recovery)
    let result = client.try_pre_call(&caller, &route);
    assert!(
        result.is_ok(),
        "pre_call should succeed after recovery window"
    );
}

#[test]
fn test_success_after_recovery_resets_failure_count() {
    let (env, admin, client) = setup();
    let route = soroban_sdk::String::from_str(&env, "oracle/get_price");
    let caller = Address::generate(&env);

    // Configure with failure_threshold=2, recovery_window=60s
    client.configure_route(&admin, &route, &0, &0, &true, &2, &60, &0);

    // Trip the circuit
    client.post_call(&caller, &route, &false);
    client.post_call(&caller, &route, &false);

    // Verify circuit is open
    let state_before_recovery = client.circuit_breaker_state(&route).unwrap();
    assert!(state_before_recovery.is_open);
    assert_eq!(state_before_recovery.failure_count, 2);

    // Advance past recovery window
    env.ledger().with_mut(|l| l.timestamp += 61);

    // Make a successful call (triggers auto-recovery)
    assert!(client.try_pre_call(&caller, &route).is_ok());

    // Verify failure_count is reset to zero
    let state_after_recovery = client.circuit_breaker_state(&route).unwrap();
    assert!(!state_after_recovery.is_open);
    assert_eq!(state_after_recovery.failure_count, 0);
    assert_eq!(state_after_recovery.opened_at, 0);
}

#[test]
fn test_circuit_breaker_state_updated_after_recovery() {
    let (env, admin, client) = setup();
    let route = soroban_sdk::String::from_str(&env, "oracle/get_price");
    let caller = Address::generate(&env);

    // Configure with failure_threshold=1, recovery_window=50s
    client.configure_route(&admin, &route, &0, &0, &true, &1, &50, &0);

    // Trip the circuit
    client.post_call(&caller, &route, &false);

    // Verify initial state
    let state_open = client.circuit_breaker_state(&route).unwrap();
    assert!(state_open.is_open);
    assert_eq!(state_open.failure_count, 1);
    assert!(state_open.opened_at > 0);

    // Advance past recovery window
    env.ledger().with_mut(|l| l.timestamp += 51);

    // Trigger auto-recovery by calling pre_call
    assert!(client.try_pre_call(&caller, &route).is_ok());

    // Verify state is fully reset
    let state_recovered = client.circuit_breaker_state(&route).unwrap();
    assert!(!state_recovered.is_open, "is_open should be false");
    assert_eq!(
        state_recovered.failure_count, 0,
        "failure_count should be 0"
    );
    assert_eq!(state_recovered.opened_at, 0, "opened_at should be 0");
}

#[test]
fn test_circuit_not_recovered_before_window_expires() {
    let (env, admin, client) = setup();
    let route = soroban_sdk::String::from_str(&env, "oracle/get_price");
    let caller = Address::generate(&env);

    // Configure with failure_threshold=1, recovery_window=100s
    client.configure_route(&admin, &route, &0, &0, &true, &1, &100, &0);

    // Trip the circuit
    client.post_call(&caller, &route, &false);

    // Advance time but not enough (only 50 seconds, need 100)
    env.ledger().with_mut(|l| l.timestamp += 50);

    // Circuit should still be open
    assert_eq!(
        client.try_pre_call(&caller, &route),
        Err(Ok(MiddlewareError::CircuitOpen))
    );

    // Advance to exactly the recovery time (not past it)
    env.ledger().with_mut(|l| l.timestamp += 50);

    // Should now succeed (at exactly recovery_window_seconds)
    assert!(client.try_pre_call(&caller, &route).is_ok());
}

#[test]
fn initialize_sets_the_defaults() {
    let client = Client::new();
    assert_eq!(client.try_admin(), Err(Ok(MiddlewareError::NotInitialized)));
    let admin = Address::generate(&client.env);
    assert_eq!(client.try_initialize(&admin), Ok(()));
    assert_eq!(client.admin(), admin);
    assert_eq!(client.total_calls(), 0);
    let caller = Address::generate(&client.env);
    let route = soroban_sdk::String::from_str(&client.env, "oracle/price");
    assert_eq!(client.try_pre_call(&caller, &route), Ok(()));
}

#[test]
fn initialize_is_possible_once() {
    let (env, admin, client) = setup();
    let route = soroban_sdk::String::from_str(&env, "oracle/price");
    client.pre_call(&admin, &route);
    let other = Address::generate(&env);
    assert_eq!(client.try_initialize(&other), Err(Ok(MiddlewareError::AlreadyInitialized)));
    assert_eq!(client.try_initialize(&admin), Err(Ok(MiddlewareError::AlreadyInitialized)));
    assert_eq!(client.admin(), admin);
    assert_eq!(client.total_calls(), 1);
}

#[test]
fn initialize_starts_the_count_anew() {
    let client = Client::new();
    let route = soroban_sdk::String::from_str(&client.env, "oracle/price");
    let admin = Address::generate(&client.env);
    client.pre_call(&admin, &route);
    assert_eq!(client.total_calls(), 1);
    client.initialize(&admin);
    assert_eq!(client.total_calls(), 0);
}

#[test]
fn nobody_is_admin_before_initialization() {
    let client = Client::new();
    let caller = Address::generate(&client.env);
    let route = soroban_sdk::String::from_str(&client.env, "oracle/price");
    let refusal = Err(Ok(MiddlewareError::NotInitialized));
    assert_eq!(client.try_configure_route(&caller, &route, &0, &0, &true, &0, &0, &0), refusal);
    assert_eq!(client.try_set_global_enabled(&caller, &false), refusal);
    assert_eq!(client.try_reset_route_call_log(&caller, &route), refusal);
    assert_eq!(client.try_reset_rate_limit(&caller, &route, &caller), refusal);
    assert_eq!(client.try_reset_circuit_breaker(&caller, &route), refusal);
    assert_eq!(client.try_transfer_admin(&caller, &caller), refusal);
    assert_eq!(client.try_pre_call(&caller, &route), Ok(()));
}

#[test]
fn others_than_the_admin_change_nothing() {
    let (env, admin, client) = setup();
    let route = soroban_sdk::String::from_str(&env, "oracle/price");
    client.configure_route(&admin, &route, &1, &60, &true, &1, &0, &2);
    client.pre_call(&admin, &route);
    client.post_call(&admin, &route, &false);
    let config = client.route_config(&route);
    let limit = client.rate_limit_state(&route, &admin);
    let breaker = client.circuit_breaker_state(&route);

    let caller = Address::generate(&env);
    let refusal = Err(Ok(MiddlewareError::Unauthorized));
    assert_eq!(client.try_configure_route(&caller, &route, &0, &0, &true, &0, &0, &0), refusal);
    // The caller is looked at before the settings
    assert_eq!(client.try_configure_route(&caller, &route, &1, &0, &true, &0, &0, &0), refusal);
    assert_eq!(client.try_set_global_enabled(&caller, &false), refusal);
    client.assert_events([]);
    assert_eq!(client.try_reset_route_call_log(&caller, &route), refusal);
    assert_eq!(client.try_reset_rate_limit(&caller, &route, &admin), refusal);
    assert_eq!(client.try_reset_circuit_breaker(&caller, &route), refusal);
    assert_eq!(client.try_transfer_admin(&caller, &caller), refusal);

    assert_eq!(client.admin(), admin);
    assert_eq!(client.route_config(&route), config);
    assert_eq!(client.rate_limit_state(&route, &admin), limit);
    assert_eq!(client.circuit_breaker_state(&route), breaker);
    assert_eq!(client.get_call_log_length(&route), 1);
    assert_eq!(client.try_pre_call(&caller, &route), Err(Ok(MiddlewareError::CircuitOpen)));
}

#[test]
fn transfer_hands_over_all_rights() {
    let (env, admin, client) = setup();
    let new_admin = Address::generate(&env);
    client.transfer_admin(&admin, &new_admin);
    assert_eq!(
        client.try_set_global_enabled(&admin, &false),
        Err(Ok(MiddlewareError::Unauthorized))
    );
    assert_eq!(client.try_set_global_enabled(&new_admin, &false), Ok(()));
}

#[test]
fn a_rate_limit_needs_a_window() {
    let (env, admin, client) = setup();
    let route = soroban_sdk::String::from_str(&env, "oracle/price");
    assert_eq!(
        client.try_configure_route(&admin, &route, &1, &0, &true, &0, &0, &0),
        Err(Ok(MiddlewareError::InvalidConfig))
    );
    assert_eq!(client.route_config(&route), None);
    assert!(client.get_configured_routes().is_empty());
    assert_eq!(client.try_configure_route(&admin, &route, &0, &0, &true, &0, &0, &0), Ok(()));
    assert_eq!(client.try_configure_route(&admin, &route, &0, &9, &true, &0, &0, &0), Ok(()));
}

#[test]
fn settings_read_back() {
    let (env, admin, client) = setup();
    let route = soroban_sdk::String::from_str(&env, "oracle/price");
    let other = soroban_sdk::String::from_str(&env, "vault/deposit");
    client.configure_route(&admin, &route, &2, &3, &true, &5, &7, &11);
    let config = RouteConfig {
        max_calls_per_window: 2,
        window_seconds: 3,
        enabled: true,
        failure_threshold: 5,
        recovery_window_seconds: 7,
        log_retention: 11,
    };
    assert_eq!(client.route_config(&route), Some(config));
    assert_eq!(client.route_config(&other), None);
    client.configure_route(&admin, &other, &0, &0, &false, &0, &0, &0);
    assert_eq!(client.route_config(&route), Some(config));
    assert_eq!(client.route_config(&other).map(|c| c.enabled), Some(false));
}

#[test]
fn configured_routes_stay_in_order() {
    let (env, admin, client) = setup();
    let a = soroban_sdk::String::from_str(&env, "a");
    let b = soroban_sdk::String::from_str(&env, "b");
    let c = soroban_sdk::String::from_str(&env, "c");
    for route in [&b, &a, &b, &c, &a] {
        client.configure_route(&admin, route, &0, &0, &true, &0, &0, &0);
    }
    assert_eq!(client.get_configured_routes(), soroban_sdk::Vec::from_array(&env, [b, a, c]));
}

#[test]
fn switching_back_on_restores_the_verdicts() {
    let (env, admin, client) = setup();
    let route = soroban_sdk::String::from_str(&env, "oracle/price");
    client.configure_route(&admin, &route, &2, &60, &true, &0, &0, &0);
    client.pre_call(&admin, &route);
    client.set_global_enabled(&admin, &false);
    assert_eq!(
        client.try_pre_call(&admin, &route),
        Err(Ok(MiddlewareError::MiddlewareDisabled))
    );
    client.set_global_enabled(&admin, &true);
    client.assert_events([client.event("middleware_enabled", true)]);
    assert_eq!(client.try_pre_call(&admin, &route), Ok(()));
    assert_eq!(client.try_pre_call(&admin, &route), Err(Ok(MiddlewareError::RateLimitExceeded)));
}

#[test]
fn refusals_are_ranked() {
    let (env, admin, client) = setup();
    let route = soroban_sdk::String::from_str(&env, "oracle/price");
    // The caller is over the limit and the circuit is open
    client.configure_route(&admin, &route, &1, &60, &true, &1, &0, &0);
    client.pre_call(&admin, &route);
    assert_eq!(client.try_pre_call(&admin, &route), Err(Ok(MiddlewareError::RateLimitExceeded)));
    client.post_call(&admin, &route, &false);
    assert_eq!(client.try_pre_call(&admin, &route), Err(Ok(MiddlewareError::CircuitOpen)));
    client.configure_route(&admin, &route, &1, &60, &false, &1, &0, &0);
    assert_eq!(client.try_pre_call(&admin, &route), Err(Ok(MiddlewareError::RouteDisabled)));
    client.set_global_enabled(&admin, &false);
    assert_eq!(
        client.try_pre_call(&admin, &route),
        Err(Ok(MiddlewareError::MiddlewareDisabled))
    );
}

#[test]
fn admitted_calls_are_announced_and_counted() {
    let (env, admin, client) = setup();
    let route = soroban_sdk::String::from_str(&env, "oracle/price");
    client.pre_call(&admin, &route);
    client.assert_events([client.event("pre_call", (admin.clone(), route.clone()))]);
    assert_eq!(client.total_calls(), 1);
    assert_eq!(client.circuit_breaker_state(&route), None);
    client.pre_call(&admin, &route);
    assert_eq!(client.total_calls(), 2);
}

#[test]
fn calls_without_a_limit_are_on_record() {
    let (env, admin, client) = setup();
    let route = soroban_sdk::String::from_str(&env, "oracle/price");
    let caller = Address::generate(&env);
    assert_eq!(client.rate_limit_state(&route, &caller), None);
    assert_eq!(client.get_route_rate_limit_stats(&route), None);

    // Without settings all calls since the first are counted
    client.pre_call(&caller, &route);
    env.ledger().set_timestamp(1500);
    client.pre_call(&caller, &route);
    let state = RateLimitState { calls_in_window: 2, window_start: 1000, total_violations: 0 };
    assert_eq!(client.rate_limit_state(&route, &caller), Some(state));
    assert_eq!(client.get_rate_limit_stats(&route, &caller), Some(state));
    assert_eq!(client.rate_limit_state(&route, &admin), None);

    // With a window those in the window are
    client.configure_route(&admin, &route, &0, &60, &true, &0, &0, &0);
    let elapsed = RateLimitState { calls_in_window: 0, window_start: 1500, total_violations: 0 };
    assert_eq!(client.rate_limit_state(&route, &caller), Some(elapsed));
    client.pre_call(&caller, &route);
    client.pre_call(&admin, &route);
    env.ledger().set_timestamp(1559);
    client.pre_call(&caller, &route);
    let state = RateLimitState { calls_in_window: 2, window_start: 1500, total_violations: 0 };
    assert_eq!(client.rate_limit_state(&route, &caller), Some(state));
    assert_eq!(
        client.get_route_rate_limit_stats(&route),
        Some(RouteRateLimitStats {
            total_calls_in_window: 3,
            window_start: 1500,
            total_violations: 0,
        })
    );

    // They do not count against a limit
    client.configure_route(&admin, &route, &1, &60, &true, &0, &0, &0);
    let fresh = RateLimitState { calls_in_window: 0, window_start: 1559, total_violations: 0 };
    assert_eq!(client.rate_limit_state(&route, &caller), Some(fresh));
    assert_eq!(client.try_pre_call(&caller, &route), Ok(()));
    let counted = RateLimitState { calls_in_window: 1, window_start: 1559, total_violations: 0 };
    assert_eq!(client.rate_limit_state(&route, &caller), Some(counted));
    assert_eq!(client.try_pre_call(&caller, &route), Err(Ok(MiddlewareError::RateLimitExceeded)));

    // And a limit's count stays while there is none
    client.configure_route(&admin, &route, &0, &60, &true, &0, &0, &0);
    client.pre_call(&caller, &route);
    client.configure_route(&admin, &route, &1, &60, &true, &0, &0, &0);
    assert_eq!(client.try_pre_call(&caller, &route), Err(Ok(MiddlewareError::RateLimitExceeded)));

    client.try_reset_rate_limit(&admin, &route, &caller).unwrap();
    assert_eq!(client.rate_limit_state(&route, &caller), None);
    client.try_reset_rate_limit(&admin, &route, &admin).unwrap();
    assert_eq!(client.get_route_rate_limit_stats(&route), None);
}

#[test]
fn calls_without_a_window_are_on_record() {
    let (env, admin, client) = setup();
    let route = soroban_sdk::String::from_str(&env, "oracle/price");
    client.configure_route(&admin, &route, &0, &0, &true, &0, &0, &0);
    client.pre_call(&admin, &route);
    let state = RateLimitState { calls_in_window: 0, window_start: 1000, total_violations: 0 };
    assert_eq!(client.rate_limit_state(&route, &admin), Some(state));
    // A window that ends beyond the last second does not stand in the way
    client.configure_route(&admin, &route, &0, &u64::MAX, &true, &0, &0, &0);
    client.pre_call(&admin, &route);
    client.pre_call(&admin, &route);
    let state = RateLimitState { calls_in_window: 3, window_start: 1000, total_violations: 0 };
    assert_eq!(client.rate_limit_state(&route, &admin), Some(state));
}

#[test]
fn a_breaker_is_reported_once_it_has_seen_a_failure_or_a_reset() {
    let (env, admin, client) = setup();
    let route = soroban_sdk::String::from_str(&env, "oracle/price");
    client.configure_route(&admin, &route, &5, &60, &true, &3, &0, &0);
    client.pre_call(&admin, &route);
    assert_eq!(client.circuit_breaker_state(&route), None);
    client.post_call(&admin, &route, &true);
    assert_eq!(client.circuit_breaker_state(&route), None);
    client.post_call(&admin, &route, &false);
    assert_eq!(client.circuit_breaker_state(&route).unwrap().failure_count, 1);
    client.post_call(&admin, &route, &true);
    assert_eq!(client.circuit_breaker_state(&route), Some(CircuitBreakerState::closed()));

    let other = soroban_sdk::String::from_str(&env, "vault/deposit");
    client.reset_circuit_breaker(&admin, &other);
    assert_eq!(client.circuit_breaker_state(&other), Some(CircuitBreakerState::closed()));
}

#[test]
fn a_violation_is_put_on_record() {
    let (env, admin, client) = setup();
    let route = soroban_sdk::String::from_str(&env, "oracle/price");
    let other = Address::generate(&env);
    client.configure_route(&admin, &route, &1, &60, &true, &0, &0, &0);
    client.pre_call(&admin, &route);
    client.pre_call(&other, &route);
    env.ledger().set_timestamp(1059);
    for violations in 1..=3 {
        assert_eq!(
            client.try_pre_call(&admin, &route),
            Err(Ok(MiddlewareError::RateLimitExceeded))
        );
        client.assert_events([]);
        let state =
            RateLimitState { calls_in_window: 1, window_start: 1000, total_violations: violations };
        assert_eq!(client.get_rate_limit_stats(&route, &admin), Some(state));
    }
    assert_eq!(client.rate_limit_state(&route, &other).unwrap().total_violations, 0);
    assert_eq!(client.total_calls(), 2);

    // The violations outlast the window
    env.ledger().set_timestamp(1060);
    let elapsed = RateLimitState { calls_in_window: 0, window_start: 1060, total_violations: 3 };
    assert_eq!(client.get_rate_limit_stats(&route, &admin), Some(elapsed));
    client.pre_call(&admin, &route);
    let started = RateLimitState { calls_in_window: 1, window_start: 1060, total_violations: 3 };
    assert_eq!(client.rate_limit_state(&route, &admin), Some(started));
}

#[test]
fn the_limit_holds_whatever_else_is_requested() {
    let (env, admin, client) = setup();
    let route = soroban_sdk::String::from_str(&env, "oracle/price");
    let other_route = soroban_sdk::String::from_str(&env, "vault/deposit");
    let other = Address::generate(&env);
    client.configure_route(&admin, &route, &3, &60, &true, &0, &0, &2);
    let mut admitted = 0;
    for i in 0..10u64 {
        env.ledger().set_timestamp(1000 + 5 * i);
        if client.try_pre_call(&admin, &route).is_ok() {
            admitted += 1;
        }
        let _ = client.try_pre_call(&other, &route);
        client.pre_call(&admin, &other_route);
        client.post_call(&admin, &route, &false);
        client.try_reset_rate_limit(&admin, &route, &other).unwrap();
    }
    assert_eq!(admitted, 3);
    assert_eq!(client.rate_limit_state(&route, &admin).unwrap().calls_in_window, 3);
    assert_eq!(client.rate_limit_state(&route, &admin).unwrap().total_violations, 7);
}

#[test]
fn what_is_reported_is_what_the_next_call_is_judged_by() {
    let (env, admin, client) = setup();
    let route = soroban_sdk::String::from_str(&env, "oracle/price");
    client.configure_route(&admin, &route, &2, &60, &true, &0, &0, &0);
    for calls in 0..3 {
        let reported = client.rate_limit_state(&route, &admin).map_or(0, |s| s.calls_in_window);
        assert_eq!(reported, calls.min(2));
        assert_eq!(client.try_pre_call(&admin, &route).is_ok(), reported < 2);
    }
}

#[test]
fn reset_rate_limit_forgets_the_caller() {
    let (env, admin, client) = setup();
    let route = soroban_sdk::String::from_str(&env, "oracle/price");
    let other = Address::generate(&env);
    client.configure_route(&admin, &route, &1, &60, &true, &0, &0, &0);
    client.pre_call(&admin, &route);
    client.pre_call(&other, &route);
    assert_eq!(client.try_pre_call(&admin, &route), Err(Ok(MiddlewareError::RateLimitExceeded)));
    assert_eq!(client.try_reset_rate_limit(&admin, &route, &admin), Ok(()));
    assert_eq!(client.rate_limit_state(&route, &admin), None);
    assert_eq!(client.rate_limit_state(&route, &other).unwrap().calls_in_window, 1);
    assert_eq!(client.try_pre_call(&admin, &route), Ok(()));
    assert_eq!(client.rate_limit_state(&route, &admin).unwrap().total_violations, 0);
    assert_eq!(client.try_pre_call(&other, &route), Err(Ok(MiddlewareError::RateLimitExceeded)));
}

#[test]
fn route_stats_sum_over_the_callers() {
    let (env, admin, client) = setup();
    let route = soroban_sdk::String::from_str(&env, "oracle/price");
    assert_eq!(client.get_route_rate_limit_stats(&route), None);
    client.configure_route(&admin, &route, &3, &60, &true, &0, &0, &0);
    let first = Address::generate(&env);
    let second = Address::generate(&env);
    client.pre_call(&first, &route);
    env.ledger().set_timestamp(1030);
    for _ in 0..5 {
        let _ = client.try_pre_call(&second, &route);
    }
    assert_eq!(
        client.get_route_rate_limit_stats(&route),
        Some(RouteRateLimitStats {
            total_calls_in_window: 4,
            window_start: 1000,
            total_violations: 2,
        })
    );
    // The first caller's window has passed
    env.ledger().set_timestamp(1060);
    assert_eq!(
        client.get_route_rate_limit_stats(&route),
        Some(RouteRateLimitStats {
            total_calls_in_window: 3,
            window_start: 1030,
            total_violations: 2,
        })
    );
    env.ledger().set_timestamp(5000);
    assert_eq!(
        client.get_route_rate_limit_stats(&route),
        Some(RouteRateLimitStats {
            total_calls_in_window: 0,
            window_start: 5000,
            total_violations: 2,
        })
    );
    client.try_reset_rate_limit(&admin, &route, &first).unwrap();
    client.try_reset_rate_limit(&admin, &route, &second).unwrap();
    assert_eq!(client.get_route_rate_limit_stats(&route), None);
}

#[test]
fn failures_in_a_row_open_the_circuit() {
    let (env, admin, client) = setup();
    let route = soroban_sdk::String::from_str(&env, "oracle/price");
    client.configure_route(&admin, &route, &0, &0, &true, &3, &0, &0);
    for success in [false, false, true, false, false] {
        client.post_call(&admin, &route, &success);
    }
    let closed = CircuitBreakerState {
        failure_count: 2,
        opened_at: 0,
        is_open: false,
        is_half_open: false,
    };
    assert_eq!(client.circuit_breaker_state(&route), Some(closed));
    client.pre_call(&admin, &route);
    assert_eq!(client.circuit_breaker_state(&route), Some(closed));
    env.ledger().set_timestamp(1234);
    client.post_call(&admin, &route, &false);
    client.assert_events([
        client.event("post_call", (admin.clone(), route.clone(), false)),
        client.event("circuit_opened", (route.clone(), 3u32)),
    ]);
    let open = CircuitBreakerState {
        failure_count: 3,
        opened_at: 1234,
        is_open: true,
        is_half_open: false,
    };
    assert_eq!(client.circuit_breaker_state(&route), Some(open));
    client.post_call(&admin, &route, &true);
    client.assert_events([client.event("post_call", (admin.clone(), route.clone(), true))]);
    assert_eq!(client.circuit_breaker_state(&route), Some(open));
}

#[test]
fn an_open_circuit_without_recovery_stays_open() {
    let (env, admin, client) = setup();
    let route = soroban_sdk::String::from_str(&env, "oracle/price");
    client.configure_route(&admin, &route, &0, &0, &true, &1, &0, &0);
    client.post_call(&admin, &route, &false);
    env.ledger().set_timestamp(u64::MAX);
    assert_eq!(client.try_pre_call(&admin, &route), Err(Ok(MiddlewareError::CircuitOpen)));
    client.assert_events([]);
}

#[test]
fn a_successful_probe_closes_the_circuit() {
    let (env, admin, client) = setup();
    let route = soroban_sdk::String::from_str(&env, "oracle/price");
    client.configure_route(&admin, &route, &0, &0, &true, &2, &60, &0);
    client.post_call(&admin, &route, &false);
    client.post_call(&admin, &route, &false);
    env.ledger().set_timestamp(1060);
    client.pre_call(&admin, &route);
    let probing = CircuitBreakerState {
        failure_count: 0,
        opened_at: 0,
        is_open: false,
        is_half_open: true,
    };
    assert_eq!(client.circuit_breaker_state(&route), Some(probing));
    // Further calls may pass until the outcome is known
    client.pre_call(&admin, &route);
    assert_eq!(client.circuit_breaker_state(&route), Some(probing));
    client.post_call(&admin, &route, &true);
    assert_eq!(client.circuit_breaker_state(&route), Some(CircuitBreakerState::closed()));
}

#[test]
fn a_failed_probe_opens_the_circuit_again() {
    let (env, admin, client) = setup();
    let route = soroban_sdk::String::from_str(&env, "oracle/price");
    client.configure_route(&admin, &route, &0, &0, &true, &2, &60, &0);
    client.post_call(&admin, &route, &false);
    client.post_call(&admin, &route, &false);
    env.ledger().set_timestamp(1060);
    client.pre_call(&admin, &route);
    env.ledger().set_timestamp(1070);
    client.post_call(&admin, &route, &false);
    client.assert_events([
        client.event("post_call", (admin.clone(), route.clone(), false)),
        client.event("circuit_opened", (route.clone(), 1u32)),
    ]);
    let open = CircuitBreakerState {
        failure_count: 1,
        opened_at: 1070,
        is_open: true,
        is_half_open: false,
    };
    assert_eq!(client.circuit_breaker_state(&route), Some(open));
    env.ledger().set_timestamp(1129);
    assert_eq!(client.try_pre_call(&admin, &route), Err(Ok(MiddlewareError::CircuitOpen)));
    env.ledger().set_timestamp(1130);
    assert_eq!(client.try_pre_call(&admin, &route), Ok(()));
}

#[test]
fn a_call_over_the_limit_is_no_probe() {
    let (env, admin, client) = setup();
    let route = soroban_sdk::String::from_str(&env, "oracle/price");
    client.configure_route(&admin, &route, &1, &100, &true, &1, &60, &0);
    client.pre_call(&admin, &route);
    client.post_call(&admin, &route, &false);
    env.ledger().set_timestamp(1060);
    assert_eq!(client.try_pre_call(&admin, &route), Err(Ok(MiddlewareError::RateLimitExceeded)));
    let open = CircuitBreakerState {
        failure_count: 1,
        opened_at: 1000,
        is_open: true,
        is_half_open: false,
    };
    assert_eq!(client.circuit_breaker_state(&route), Some(open));
    assert_eq!(client.total_calls(), 1);
    let other = Address::generate(&env);
    assert_eq!(client.try_pre_call(&other, &route), Ok(()));
    assert!(client.circuit_breaker_state(&route).unwrap().is_half_open);
}

#[test]
fn reset_circuit_breaker_keeps_the_rate_limits() {
    let (env, admin, client) = setup();
    let route = soroban_sdk::String::from_str(&env, "oracle/price");
    client.configure_route(&admin, &route, &1, &60, &true, &1, &0, &0);
    client.pre_call(&admin, &route);
    client.post_call(&admin, &route, &false);
    client.reset_circuit_breaker(&admin, &route);
    assert_eq!(client.circuit_breaker_state(&route), Some(CircuitBreakerState::closed()));
    assert_eq!(client.try_pre_call(&admin, &route), Err(Ok(MiddlewareError::RateLimitExceeded)));
}

#[test]
fn routes_do_not_share_circuits_or_logs() {
    let (env, admin, client) = setup();
    let a = soroban_sdk::String::from_str(&env, "a");
    let b = soroban_sdk::String::from_str(&env, "b");
    client.configure_route(&admin, &a, &0, &0, &true, &1, &0, &4);
    client.configure_route(&admin, &b, &0, &0, &true, &1, &0, &4);
    client.post_call(&admin, &a, &false);
    assert_eq!(client.try_pre_call(&admin, &a), Err(Ok(MiddlewareError::CircuitOpen)));
    assert_eq!(client.try_pre_call(&admin, &b), Ok(()));
    assert_eq!(client.circuit_breaker_state(&b), None);
    assert_eq!(client.get_call_log_length(&a), 1);
    assert_eq!(client.get_call_log_length(&b), 0);
    assert_eq!(client.get_call_log_summary(&b), None);
}

#[test]
fn the_log_keeps_the_most_recent_calls_in_order() {
    let (env, admin, client) = setup();
    let route = soroban_sdk::String::from_str(&env, "oracle/price");
    let other = Address::generate(&env);
    client.configure_route(&admin, &route, &0, &0, &true, &0, &0, &3);
    for n in 0..8u64 {
        env.ledger().set_timestamp(1000 + n);
        let caller = if n % 2 == 0 { &admin } else { &other };
        client.post_call(caller, &route, &(n % 3 == 0));
        let log = client.get_call_log(&route);
        let first = (n + 1).saturating_sub(3);
        assert_eq!(log.len() as u64, n + 1 - first);
        assert_eq!(client.get_call_log_length(&route) as usize, log.len());
        for (i, entry) in log.iter().enumerate() {
            let k = first + i as u64;
            assert_eq!(
                *entry,
                CallLogEntry {
                    caller: if k % 2 == 0 { admin.clone() } else { other.clone() },
                    timestamp: 1000 + k,
                    success: k % 3 == 0,
                    route: route.clone(),
                }
            );
        }
        let successes = client.get_call_log_filtered(&route, &true);
        let failures = client.get_call_log_filtered(&route, &false);
        assert_eq!(successes.len() + failures.len(), log.len());
        assert!(successes.iter().all(|e| e.success && (e.timestamp - 1000) % 3 == 0));
        assert!(failures.windows(2).all(|pair| pair[0].timestamp < pair[1].timestamp));
    }
    assert_eq!(
        client.get_call_log_summary(&route),
        Some(CallLogSummary {
            total_calls: 8,
            success_count: 3,
            failure_count: 5,
            last_call_timestamp: 1007,
        })
    );
}

#[test]
fn clearing_the_log_keeps_the_summary() {
    let (env, admin, client) = setup();
    let route = soroban_sdk::String::from_str(&env, "oracle/price");
    client.configure_route(&admin, &route, &0, &0, &true, &0, &0, &2);
    for _ in 0..3 {
        client.post_call(&admin, &route, &true);
    }
    assert_eq!(client.try_reset_route_call_log(&admin, &route), Ok(()));
    client.assert_events([client.event("call_log_cleared", route.clone())]);
    assert_eq!(client.get_call_log_length(&route), 0);
    assert!(client.get_call_log(&route).is_empty());
    assert!(client.get_call_log_filtered(&route, &true).is_empty());
    assert_eq!(client.get_call_log_summary(&route).unwrap().total_calls, 3);
    assert_eq!(client.route_config(&route).unwrap().log_retention, 2);

    // A cleared log starts anew at the capacity that is now set
    client.configure_route(&admin, &route, &0, &0, &true, &0, &0, &3);
    for n in 0..4u64 {
        env.ledger().set_timestamp(2000 + n);
        client.post_call(&admin, &route, &false);
    }
    let times: Vec<u64> = client.get_call_log(&route).iter().map(|e| e.timestamp).collect();
    assert_eq!(times, [2001, 2002, 2003]);
    assert_eq!(client.get_call_log_summary(&route).unwrap().total_calls, 7);
}

#[test]
fn nothing_is_logged_without_retention() {
    let (env, admin, client) = setup();
    let route = soroban_sdk::String::from_str(&env, "oracle/price");
    client.post_call(&admin, &route, &true);
    client.configure_route(&admin, &route, &0, &0, &true, &0, &0, &0);
    client.post_call(&admin, &route, &false);
    client.assert_events([client.event("post_call", (admin.clone(), route.clone(), false))]);
    assert!(client.get_call_log(&route).is_empty());
    assert_eq!(client.get_call_log_summary(&route), None);
    assert_eq!(client.circuit_breaker_state(&route), None);
}

#[test]
fn the_time_can_be_given() {
    let (env, admin, client) = setup();
    let route = soroban_sdk::String::from_str(&env, "oracle/price");
    client.configure_route(&admin, &route, &1, &60, &true, &1, &30, &1);
    let answer =
        client.run(|e| RouterMiddleware::pre_call_at(e, admin.clone(), route.clone(), 7));
    assert_eq!(answer, Ok(()));
    let state = client.run(|e| {
        RouterMiddleware::rate_limit_state_at(e, route.clone(), admin.clone(), 66)
    });
    assert_eq!(
        state,
        Some(RateLimitState { calls_in_window: 1, window_start: 7, total_violations: 0 })
    );
    let stats =
        client.run(|e| RouterMiddleware::get_route_rate_limit_stats_at(e, route.clone(), 67));
    assert_eq!(
        stats,
        Ok(Some(RouteRateLimitStats {
            total_calls_in_window: 0,
            window_start: 67,
            total_violations: 0,
        }))
    );
    client.run(|e| RouterMiddleware::post_call_at(e, admin.clone(), route.clone(), false, 70));
    assert_eq!(client.circuit_breaker_state(&route).unwrap().opened_at, 70);
    assert_eq!(client.get_call_log(&route)[0].timestamp, 70);
    let refused =
        client.run(|e| RouterMiddleware::pre_call_at(e, admin.clone(), route.clone(), 99));
    assert_eq!(refused, Err(MiddlewareError::CircuitOpen));
    let probed =
        client.run(|e| RouterMiddleware::pre_call_at(e, admin.clone(), route.clone(), 100));
    assert_eq!(probed, Ok(()));
}

#[test]
fn a_window_without_end_traps() {
    let (env, admin, client) = setup();
    let route = soroban_sdk::String::from_str(&env, "oracle/price");
    client.configure_route(&admin, &route, &1, &60, &true, &0, &0, &0);
    client.pre_call(&admin, &route);
    client.configure_route(&admin, &route, &1, &(u64::MAX - 999), &true, &0, &0, &0);
    assert_eq!(client.try_pre_call(&admin, &route), Err(Err(Trap)));
    assert_eq!(client.total_calls(), 1);
    let state = client
        .run(|e| RouterMiddleware::rate_limit_state(e, route.clone(), admin.clone()));
    assert_eq!(state, Err(Trap));
    let stats = client.run(|e| RouterMiddleware::get_route_rate_limit_stats(e, route.clone()));
    assert_eq!(stats, Err(Trap));
    // One second less, and the window has an end
    client.configure_route(&admin, &route, &1, &(u64::MAX - 1000), &true, &0, &0, &0);
    assert_eq!(client.try_pre_call(&admin, &route), Err(Ok(MiddlewareError::RateLimitExceeded)));
}

#[test]
fn a_recovery_without_end_traps() {
    let (env, admin, client) = setup();
    let route = soroban_sdk::String::from_str(&env, "oracle/price");
    client.configure_route(&admin, &route, &0, &0, &true, &1, &(u64::MAX - 999), &0);
    client.post_call(&admin, &route, &false);
    assert_eq!(client.try_pre_call(&admin, &route), Err(Err(Trap)));
    client.configure_route(&admin, &route, &0, &0, &true, &1, &(u64::MAX - 1000), &0);
    assert_eq!(client.try_pre_call(&admin, &route), Err(Ok(MiddlewareError::CircuitOpen)));
}

#[test]
fn a_counter_at_its_limit_traps() {
    let (env, admin, client) = setup();
    let route = soroban_sdk::String::from_str(&env, "oracle/price");
    client.configure_route(&admin, &route, &0, &0, &true, &0, &0, &1);

    let total = (Symbol::new(&env, "TotalCalls"),);
    client.run(|e| e.storage().instance().set(&total, &u64::MAX));
    assert_eq!(client.try_pre_call(&admin, &route), Err(Err(Trap)));
    assert_eq!(client.total_calls(), u64::MAX);
    client.run(|e| e.storage().instance().set(&total, &(u64::MAX - 1)));
    assert_eq!(client.try_pre_call(&admin, &route), Ok(()));
    assert_eq!(client.total_calls(), u64::MAX);

    let summary = (Symbol::new(&env, "CallLogSummary"), route.clone());
    let counts = record(
        &env,
        &[
            ("total_calls", (u32::MAX - 1).into_val(&env)),
            ("success_count", u32::MAX.into_val(&env)),
            ("failure_count", 5u32.into_val(&env)),
            ("last_call_timestamp", 9u64.into_val(&env)),
        ],
    );
    client.run(|e| e.storage().instance().set(&summary, &counts));
    assert_eq!(client.try_post_call(&admin, &route, &true), Err(Err(Trap)));
    client.assert_events([]);
    assert_eq!(client.get_call_log_length(&route), 0);
    assert_eq!(client.try_post_call(&admin, &route, &false), Ok(()));
    assert_eq!(
        client.get_call_log_summary(&route),
        Some(CallLogSummary {
            total_calls: u32::MAX,
            success_count: u32::MAX,
            failure_count: 6,
            last_call_timestamp: 1000,
        })
    );
    assert_eq!(client.try_post_call(&admin, &route, &false), Err(Err(Trap)));

    client.configure_route(&admin, &route, &1, &60, &true, &1, &0, &0);
    let state = (Symbol::new(&env, "RouteCallState"), route.clone());
    let mut limits = soroban_sdk::Map::new(&env);
    limits.set(admin.clone(), limit_record(&env, 1, 1000, u32::MAX));
    let failures = breaker_record(&env, u32::MAX, 0, false, false);
    let stored = record(
        &env,
        &[("rate_limits", limits.to_val()), ("circuit_breaker", failures.to_val())],
    );
    client.run(|e| e.storage().instance().set(&state, &stored));
    assert_eq!(client.try_pre_call(&admin, &route), Err(Err(Trap)));
    assert_eq!(client.try_post_call(&admin, &route, &false), Err(Err(Trap)));
    assert_eq!(client.try_post_call(&admin, &route, &true), Ok(()));
    let other = Address::generate(&env);
    limits.set(other, limit_record(&env, 0, 1000, 1));
    let stored = record(
        &env,
        &[("rate_limits", limits.to_val()), ("circuit_breaker", failures.to_val())],
    );
    client.run(|e| e.storage().instance().set(&state, &stored));
    let stats = client.run(|e| RouterMiddleware::get_route_rate_limit_stats(e, route.clone()));
    assert_eq!(stats, Err(Trap));
}

#[test]
fn a_head_outside_its_log_traps() {
    let (env, admin, client) = setup();
    let route = soroban_sdk::String::from_str(&env, "oracle/price");
    client.configure_route(&admin, &route, &0, &0, &true, &0, &0, &1);
    client.post_call(&admin, &route, &true);
    let key = (Symbol::new(&env, "CallLog"), route.clone());
    let slot = record(
        &env,
        &[
            ("caller", admin.to_val()),
            ("timestamp", 1u64.into_val(&env)),
            ("success", true.into_val(&env)),
            ("route", route.to_val()),
        ],
    );
    let slots = soroban_sdk::Vec::from_array(&env, [slot]);
    let stored =
        record(&env, &[("entries", slots.to_val()), ("head", 1u32.into_val(&env))]);
    client.run(|e| e.storage().instance().set(&key, &stored));
    assert_eq!(client.try_post_call(&admin, &route, &true), Err(Err(Trap)));
    assert_eq!(client.get_call_log(&route)[0].timestamp, 1);
}

/// Logs calls with the given timestamps and gives those that the log then shows.
fn log_calls(client: &Client, route: &soroban_sdk::String, times: &[u64]) -> Vec<u64> {
    for time in times {
        client.env.ledger().set_timestamp(*time);
        client.post_call(&client.admin(), route, &true);
    }
    shown_times(client, route)
}

fn shown_times(client: &Client, route: &soroban_sdk::String) -> Vec<u64> {
    client.get_call_log(route).iter().map(|e| e.timestamp).collect()
}

fn keep(client: &Client, route: &soroban_sdk::String, retention: u32) {
    client.configure_route(&client.admin(), route, &0, &0, &true, &0, &0, &retention);
}

#[test]
fn a_log_stays_in_order_where_more_is_kept() {
    let (env, _admin, client) = setup();
    let route = soroban_sdk::String::from_str(&env, "oracle/price");
    keep(&client, &route, 2);
    assert_eq!(log_calls(&client, &route, &[1000, 1001, 1002]), [1001, 1002]);
    keep(&client, &route, 3);
    assert_eq!(log_calls(&client, &route, &[1003]), [1001, 1002, 1003]);
    assert_eq!(log_calls(&client, &route, &[1004]), [1002, 1003, 1004]);
    keep(&client, &route, 5);
    assert_eq!(log_calls(&client, &route, &[1005]), [1002, 1003, 1004, 1005]);
    assert_eq!(
        log_calls(&client, &route, &[1006, 1007, 1008]),
        [1004, 1005, 1006, 1007, 1008]
    );
}

#[test]
fn a_log_shrinks_where_less_is_kept() {
    let (env, _admin, client) = setup();
    let route = soroban_sdk::String::from_str(&env, "oracle/price");
    keep(&client, &route, 3);
    assert_eq!(log_calls(&client, &route, &[1000, 1001, 1002]), [1000, 1001, 1002]);
    keep(&client, &route, 2);
    assert_eq!(shown_times(&client, &route), [1001, 1002]);
    assert_eq!(client.get_call_log_length(&route), 2);
    assert_eq!(client.get_call_log_filtered(&route, &true).len(), 2);
    assert_eq!(log_calls(&client, &route, &[1003]), [1002, 1003]);
    assert_eq!(client.get_call_log_length(&route), 2);
    assert_eq!(log_calls(&client, &route, &[1004]), [1003, 1004]);
    keep(&client, &route, 0);
    assert!(shown_times(&client, &route).is_empty());
    assert_eq!(client.get_call_log_length(&route), 0);
    assert_eq!(client.get_call_log_summary(&route).unwrap().total_calls, 5);
    // One that has wrapped shrinks too
    keep(&client, &route, 4);
    log_calls(&client, &route, &[1005, 1006, 1007, 1008, 1009]);
    keep(&client, &route, 1);
    assert_eq!(log_calls(&client, &route, &[1010]), [1010]);
}

#[test]
fn records_are_kept_by_the_names_of_their_fields() {
    let (env, admin, client) = setup();
    let route = soroban_sdk::String::from_str(&env, "oracle/price");
    client.configure_route(&admin, &route, &2, &60, &true, &5, &7, &1);
    let key = (Symbol::new(&env, "RouteConfig"), route.clone());
    let config: Record = client.run(|e| e.storage().instance().get(&key).unwrap());
    let expected = record(
        &env,
        &[
            ("max_calls_per_window", 2u32.into_val(&env)),
            ("window_seconds", 60u64.into_val(&env)),
            ("enabled", true.into_val(&env)),
            ("failure_threshold", 5u32.into_val(&env)),
            ("recovery_window_seconds", 7u64.into_val(&env)),
            ("log_retention", 1u32.into_val(&env)),
        ],
    );
    assert_eq!(config, expected);

    client.pre_call(&admin, &route);
    client.post_call(&admin, &route, &false);
    let key = (Symbol::new(&env, "RouteCallState"), route.clone());
    let state: Record = client.run(|e| e.storage().instance().get(&key).unwrap());
    let mut limits = soroban_sdk::Map::new(&env);
    limits.set(admin.clone(), limit_record(&env, 1, 1000, 0));
    let breaker = breaker_record(&env, 1, 0, false, false);
    let expected = record(
        &env,
        &[("rate_limits", limits.to_val()), ("circuit_breaker", breaker.to_val())],
    );
    assert_eq!(state, expected);

    // A state that was written with an open circuit is read as such
    let open = breaker_record(&env, 5, 1000, true, false);
    let stored = record(
        &env,
        &[("rate_limits", limits.to_val()), ("circuit_breaker", open.to_val())],
    );
    let other = soroban_sdk::String::from_str(&env, "vault/deposit");
    let key = (Symbol::new(&env, "RouteCallState"), other.clone());
    client.run(|e| e.storage().instance().set(&key, &stored));
    assert!(client.circuit_breaker_state(&other).unwrap().is_open);
    assert_eq!(client.rate_limit_state(&other, &admin).unwrap().calls_in_window, 1);
}

#[test]
fn a_caller_without_a_limit_is_counted_up_to_the_largest_number() {
    let (env, admin, client) = setup();
    let route = soroban_sdk::String::from_str(&env, "oracle/price");
    let key = (Symbol::new(&env, "UnlimitedCalls"), route.clone());
    let mut calls = soroban_sdk::Map::new(&env);
    calls.set(admin.clone(), limit_record(&env, u32::MAX - 1, 5, 0));
    client.run(|e| e.storage().instance().set(&key, &calls));
    client.pre_call(&admin, &route);
    client.pre_call(&admin, &route);
    assert_eq!(client.rate_limit_state(&route, &admin).unwrap().calls_in_window, u32::MAX);
    let other = Address::generate(&env);
    client.pre_call(&other, &route);
    let stats = client.run(|e| RouterMiddleware::get_route_rate_limit_stats(e, route.clone()));
    assert_eq!(stats, Err(Trap));
}

#[test]
fn the_earliest_window_may_start_with_the_last_second() {
    let (env, admin, client) = setup();
    let route = soroban_sdk::String::from_str(&env, "oracle/price");
    env.ledger().set_timestamp(u64::MAX);
    client.pre_call(&admin, &route);
    assert_eq!(
        client.get_route_rate_limit_stats(&route),
        Some(RouteRateLimitStats {
            total_calls_in_window: 1,
            window_start: u64::MAX,
            total_violations: 0,
        })
    );
}

#[test]
fn the_admin_is_the_last_one_named() {
    let (env, admin, client) = setup();
    let second = Address::generate(&env);
    let third = Address::generate(&env);
    client.transfer_admin(&admin, &second);
    assert_eq!(
        client.try_transfer_admin(&admin, &third),
        Err(Ok(MiddlewareError::Unauthorized))
    );
    assert_eq!(client.admin(), second);
    client.transfer_admin(&second, &third);
    client.transfer_admin(&third, &admin);
    assert_eq!(client.admin(), admin);
}

#[test]
fn a_logged_call_can_be_cloned() {
    let (env, _admin, client) = setup();
    let route = soroban_sdk::String::from_str(&env, "oracle/price");
    keep(&client, &route, 2);
    log_calls(&client, &route, &[1000, 1001]);
    let log = client.get_call_log(&route);
    let copy = log.clone();
    assert_eq!(copy, log);
    assert_eq!(copy[1].caller, client.admin());
    assert_eq!(copy[1].route, route);
}

#[test]
fn a_route_state_and_a_log_can_be_cloned() {
    let (env, admin, _client) = setup();
    let mut limits = soroban_sdk::Map::new(&env);
    limits.set(admin.clone(), limit_record(&env, 1, 1000, 2));
    let state = RouteCallState {
        rate_limits: limits,
        circuit_breaker: CircuitBreakerState::closed(),
    };
    let mut copy = state.clone();
    assert_eq!(copy, state);
    copy.rate_limits.set(admin.clone(), limit_record(&env, 2, 1000, 2));
    assert_ne!(copy, state);

    let mut log = CallLogState::blank(&env);
    let route = soroban_sdk::String::from_str(&env, "oracle/price");
    let entry = CallLogEntry { caller: admin, timestamp: 7, success: true, route };
    log.append(&env, 2, &entry);
    let mut copy = log.clone();
    assert_eq!(copy, log);
    copy.append(&env, 2, &entry.clone());
    assert_eq!(copy.recent(5), [entry.clone(), entry.clone()]);
    assert_eq!(log.recent(5), [entry]);
}
