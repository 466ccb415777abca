//! The Soroban SDK as the middleware uses it.
//!
//! Everything that is believed and not proved stands in this module: the SDK's
//! types, names for what their values hold, and one small function per use of
//! an SDK function.
//!
//! The environment is that of a running contract, and all values handed in come
//! from that one environment. Where a read finds a value of another kind than the
//! key is read at, the SDK aborts the invocation: reading asks for
//! [`kinds_match`]. It also does where an element of a collection is not what it is
//! read as: reading one asks for [`rate_limits_complete`] or
//! [`call_log_complete`]. The SDK also aborts where the invocation or the contract's
//! ledger entry outgrows what the network allows; nothing is claimed of an
//! invocation that is aborted.
//!
//! A record is stored as a map from the names of its fields to their values, and
//! a key as a vector of its name and, where it has one, its route.
use crate::ledger::{
    address_view, call_state_view, callers_view, entry_view, kinds_match, log_view, routes_view,
    stored_admin, stored_breaker_recorded, stored_call_state, stored_config, stored_enabled,
    stored_log, stored_routes, stored_summary, stored_total, stored_unlimited, unlimited_view,
    DataKey, Event, EventData, StoredValue,
};
use crate::types::{
    CallLogEntry, CallLogEntryView, CallLogState, CallLogSummary, CallLogVec, CircuitBreakerState,
    RateLimitMap, RateLimitState, Record, RouteCallState, RouteConfig,
};
use soroban_sdk::{Address, Env, IntoVal, Symbol};
use vstd::prelude::*;

verus! {

// Types

/// The environment of the running contract.
#[verifier::external_type_specification]
#[verifier::external_body]
pub struct ExEnv(soroban_sdk::Env);

/// An account or a contract.
#[verifier::external_type_specification]
#[verifier::external_body]
pub struct ExAddress(soroban_sdk::Address);

/// A string of the host.
#[verifier::external_type_specification]
#[verifier::external_body]
pub struct ExString(soroban_sdk::String);

/// A short name of the host.
#[verifier::external_type_specification]
#[verifier::external_body]
pub struct ExSymbol(soroban_sdk::Symbol);

/// Any value of the host.
#[verifier::external_type_specification]
#[verifier::external_body]
pub struct ExVal(soroban_sdk::Val);

/// A vector of the host.
#[verifier::external_type_specification]
#[verifier::external_body]
#[verifier::reject_recursive_types(T)]
pub struct ExVec<T>(soroban_sdk::Vec<T>);

/// An ordered map of the host.
#[verifier::external_type_specification]
#[verifier::external_body]
#[verifier::reject_recursive_types(K)]
#[verifier::reject_recursive_types(V)]
pub struct ExMap<K, V>(soroban_sdk::Map<K, V>);

// What their values hold

/// What the contract's instance storage holds. A value that is no flag, counter,
/// address, list or complete record of the kinds that [`StoredValue`] names is
/// [`StoredValue::Other`].
pub uninterp spec fn instance(env: Env) -> Map<DataKey, StoredValue>;

/// The events that the contract has published, oldest first.
pub uninterp spec fn published(env: Env) -> Seq<Event>;

/// The characters of an address in its strkey form.
pub uninterp spec fn address_id(address: Address) -> Seq<char>;

/// The bytes of a host string.
pub uninterp spec fn string_bytes(string: soroban_sdk::String) -> Seq<u8>;

/// What a map of callers holds, by the callers' [`address_id`].
pub uninterp spec fn rate_limit_contents(map: RateLimitMap) -> Map<Seq<char>, RateLimitState>;

/// What a vector of call log slots holds.
pub uninterp spec fn call_log_contents(entries: CallLogVec) -> Seq<CallLogEntryView>;

/// Whether every entry of a map of callers has an address for its key and a record
/// with the fields of a [`RateLimitState`] for its value.
pub uninterp spec fn rate_limits_complete(map: RateLimitMap) -> bool;

/// Whether every slot of a vector of call log slots holds a record with the fields
/// of a [`CallLogEntry`].
pub uninterp spec fn call_log_complete(entries: CallLogVec) -> bool;

/// What a vector of route names holds, each by its [`string_bytes`].
pub uninterp spec fn route_list_contents(
    routes: soroban_sdk::Vec<soroban_sdk::String>,
) -> Seq<Seq<u8>>;

/// Whether every element of a vector of route names is a string.
pub uninterp spec fn routes_complete(routes: soroban_sdk::Vec<soroban_sdk::String>) -> bool;

// Addresses

/// `Address::eq`: two addresses are equal exactly when they denote the same
/// account or contract.
#[verifier::external_body]
pub(crate) fn same_address(a: &Address, b: &Address) -> (r: bool)
    ensures
        r == (address_id(*a) == address_id(*b)),
{
    a == b
}

/// `Address::clone`: the same account or contract.
#[verifier::external_body]
pub(crate) fn clone_address(address: &Address) -> (r: Address)
    ensures
        address_id(r) == address_id(*address),
{
    address.clone()
}

/// `String::clone`: a string of the same bytes.
#[verifier::external_body]
pub(crate) fn clone_string(string: &soroban_sdk::String) -> (r: soroban_sdk::String)
    ensures
        string_bytes(r) == string_bytes(*string),
{
    string.clone()
}

// Clock

/// `Ledger::timestamp`: the close time of the current ledger. Nothing is
/// claimed of the value.
#[verifier::external_body]
pub(crate) fn ledger_timestamp(env: &Env) -> (r: u64) {
    env.ledger().timestamp()
}

/// Whether `now` is a time that the clock gives in the environment.
pub closed spec fn is_ledger_time(env: Env, now: u64) -> bool {
    call_ensures(ledger_timestamp, (&env,), now)
}

/// The times of an environment are what [`ledger_timestamp`] returns in it, and
/// nothing else.
pub(crate) proof fn law_time_is_what_the_clock_gives(env: Env, now: u64)
    ensures
        is_ledger_time(env, now) <==> call_ensures(ledger_timestamp, (&env,), now),
{
}

/// The time that the clock gives.
pub(crate) fn read_clock(env: &Env) -> (r: u64)
    ensures
        is_ledger_time(*env, r),
{
    let clock = ledger_timestamp;
    clock(env)
}

// Instance storage

/// `Instance::has` under the admin's key: whether the key is in use.
#[verifier::external_body]
pub(crate) fn has_admin(env: &Env) -> (r: bool)
    ensures
        r == instance(*env).contains_key(DataKey::Admin),
{
    env.storage().instance().has(&(Symbol::new(env, "Admin"),))
}

/// `Instance::get` under the admin's key: the stored address, if there is one.
#[verifier::external_body]
pub(crate) fn get_admin(env: &Env) -> (r: Option<Address>)
    requires
        kinds_match(instance(*env)),
    ensures
        address_view(r) == stored_admin(instance(*env)),
{
    env.storage().instance().get(&(Symbol::new(env, "Admin"),))
}

/// `Instance::set` under the admin's key: stores the address and leaves all
/// other keys and the events as they are.
#[verifier::external_body]
pub(crate) fn set_admin(env: &mut Env, admin: &Address)
    ensures
        instance(*final(env)) == instance(*old(env)).insert(
            DataKey::Admin,
            StoredValue::Address(address_id(*admin)),
        ),
        published(*final(env)) == published(*old(env)),
{
    env.storage().instance().set(&(Symbol::new(env, "Admin"),), admin)
}

/// `Instance::get` under the key of the global switch: the stored flag, if
/// there is one.
#[verifier::external_body]
pub(crate) fn get_global_enabled(env: &Env) -> (r: Option<bool>)
    requires
        kinds_match(instance(*env)),
    ensures
        r == stored_enabled(instance(*env)),
{
    env.storage().instance().get(&(Symbol::new(env, "GlobalEnabled"),))
}

/// `Instance::set` under the key of the global switch: stores the flag and
/// leaves all other keys and the events as they are.
#[verifier::external_body]
pub(crate) fn set_global_enabled(env: &mut Env, enabled: bool)
    ensures
        instance(*final(env)) == instance(*old(env)).insert(
            DataKey::GlobalEnabled,
            StoredValue::Flag(enabled),
        ),
        published(*final(env)) == published(*old(env)),
{
    env.storage().instance().set(&(Symbol::new(env, "GlobalEnabled"),), &enabled)
}

/// `Instance::get` under the key of the call counter: the stored number, if
/// there is one.
#[verifier::external_body]
pub(crate) fn get_total_calls(env: &Env) -> (r: Option<u64>)
    requires
        kinds_match(instance(*env)),
    ensures
        r == stored_total(instance(*env)),
{
    env.storage().instance().get(&(Symbol::new(env, "TotalCalls"),))
}

/// `Instance::set` under the key of the call counter: stores the number and
/// leaves all other keys and the events as they are.
#[verifier::external_body]
pub(crate) fn set_total_calls(env: &mut Env, total: u64)
    ensures
        instance(*final(env)) == instance(*old(env)).insert(
            DataKey::TotalCalls,
            StoredValue::Counter(total),
        ),
        published(*final(env)) == published(*old(env)),
{
    env.storage().instance().set(&(Symbol::new(env, "TotalCalls"),), &total)
}

/// `Instance::get` under the key of the route list: the stored list, if there
/// is one.
#[verifier::external_body]
pub(crate) fn get_routes(env: &Env) -> (r: Option<soroban_sdk::Vec<soroban_sdk::String>>)
    requires
        kinds_match(instance(*env)),
    ensures
        routes_view(r) == stored_routes(instance(*env)),
        r matches Some(routes) ==> routes_complete(routes),
{
    env.storage().instance().get(&(Symbol::new(env, "ConfiguredRoutes"),))
}

/// `Instance::set` under the key of the route list: stores the list and leaves
/// all other keys and the events as they are.
#[verifier::external_body]
pub(crate) fn set_routes(env: &mut Env, routes: &soroban_sdk::Vec<soroban_sdk::String>)
    requires
        routes_complete(*routes),
    ensures
        instance(*final(env)) == instance(*old(env)).insert(
            DataKey::ConfiguredRoutes,
            StoredValue::Routes(route_list_contents(*routes)),
        ),
        published(*final(env)) == published(*old(env)),
{
    env.storage().instance().set(&(Symbol::new(env, "ConfiguredRoutes"),), routes)
}

/// `Instance::get` under a route's settings key: the stored settings, if there
/// are any.
#[verifier::external_body]
pub(crate) fn get_route_config(env: &Env, route: &soroban_sdk::String) -> (r: Option<RouteConfig>)
    requires
        kinds_match(instance(*env)),
    ensures
        r == stored_config(instance(*env), string_bytes(*route)),
{
    let stored: Record =
        env.storage().instance().get(&(Symbol::new(env, "RouteConfig"), route.clone()))?;
    Some(RouteConfig {
        enabled: stored.get_unchecked(Symbol::new(env, "enabled")).into_val(env),
        failure_threshold: stored.get_unchecked(Symbol::new(env, "failure_threshold")).into_val(env),
        log_retention: stored.get_unchecked(Symbol::new(env, "log_retention")).into_val(env),
        max_calls_per_window: stored.get_unchecked(Symbol::new(env, "max_calls_per_window")).into_val(env),
        recovery_window_seconds: stored.get_unchecked(Symbol::new(env, "recovery_window_seconds")).into_val(env),
        window_seconds: stored.get_unchecked(Symbol::new(env, "window_seconds")).into_val(env),
    })
}

/// `Instance::set` under a route's settings key: stores the settings and leaves
/// all other keys and the events as they are.
#[verifier::external_body]
pub(crate) fn set_route_config(env: &mut Env, route: &soroban_sdk::String, config: &RouteConfig)
    ensures
        instance(*final(env)) == instance(*old(env)).insert(
            DataKey::RouteConfig(string_bytes(*route)),
            StoredValue::Config(*config),
        ),
        published(*final(env)) == published(*old(env)),
{
    let stored = Record::from_array(env, [
        (Symbol::new(env, "enabled"), config.enabled.into_val(env)),
        (Symbol::new(env, "failure_threshold"), config.failure_threshold.into_val(env)),
        (Symbol::new(env, "log_retention"), config.log_retention.into_val(env)),
        (Symbol::new(env, "max_calls_per_window"), config.max_calls_per_window.into_val(env)),
        (Symbol::new(env, "recovery_window_seconds"), config.recovery_window_seconds.into_val(env)),
        (Symbol::new(env, "window_seconds"), config.window_seconds.into_val(env)),
    ]);
    env.storage().instance().set(&(Symbol::new(env, "RouteConfig"), route.clone()), &stored)
}

/// `Instance::get` under a route's call state key: the stored state, if there is
/// one.
#[verifier::external_body]
pub(crate) fn get_route_call_state(
    env: &Env,
    route: &soroban_sdk::String,
) -> (r: Option<RouteCallState>)
    requires
        kinds_match(instance(*env)),
    ensures
        call_state_view(r) == stored_call_state(instance(*env), string_bytes(*route)),
        r matches Some(state) ==> rate_limits_complete(state.rate_limits),
{
    let stored: Record =
        env.storage().instance().get(&(Symbol::new(env, "RouteCallState"), route.clone()))?;
    let breaker: Record = stored.get_unchecked(Symbol::new(env, "circuit_breaker")).into_val(env);
    Some(RouteCallState {
        rate_limits: stored.get_unchecked(Symbol::new(env, "rate_limits")).into_val(env),
        circuit_breaker: CircuitBreakerState {
            failure_count: breaker.get_unchecked(Symbol::new(env, "failure_count")).into_val(env),
            is_half_open: breaker.get_unchecked(Symbol::new(env, "is_half_open")).into_val(env),
            is_open: breaker.get_unchecked(Symbol::new(env, "is_open")).into_val(env),
            opened_at: breaker.get_unchecked(Symbol::new(env, "opened_at")).into_val(env),
        },
    })
}

/// `Instance::set` under a route's call state key: stores the state and leaves
/// all other keys and the events as they are.
#[verifier::external_body]
pub(crate) fn set_route_call_state(
    env: &mut Env,
    route: &soroban_sdk::String,
    state: &RouteCallState,
)
    requires
        rate_limits_complete(state.rate_limits),
    ensures
        instance(*final(env)) == instance(*old(env)).insert(
            DataKey::RouteCallState(string_bytes(*route)),
            StoredValue::CallState(state@),
        ),
        published(*final(env)) == published(*old(env)),
{
    let breaker = &state.circuit_breaker;
    let breaker = Record::from_array(env, [
        (Symbol::new(env, "failure_count"), breaker.failure_count.into_val(env)),
        (Symbol::new(env, "is_half_open"), breaker.is_half_open.into_val(env)),
        (Symbol::new(env, "is_open"), breaker.is_open.into_val(env)),
        (Symbol::new(env, "opened_at"), breaker.opened_at.into_val(env)),
    ]);
    let stored = Record::from_array(env, [
        (Symbol::new(env, "circuit_breaker"), breaker.into_val(env)),
        (Symbol::new(env, "rate_limits"), state.rate_limits.into_val(env)),
    ]);
    env.storage().instance().set(&(Symbol::new(env, "RouteCallState"), route.clone()), &stored)
}

/// `Instance::get` under the key that notes a route's circuit breaker: the stored
/// flag, if there is one.
#[verifier::external_body]
pub(crate) fn get_breaker_recorded(env: &Env, route: &soroban_sdk::String) -> (r: Option<bool>)
    requires
        kinds_match(instance(*env)),
    ensures
        r == stored_breaker_recorded(instance(*env), string_bytes(*route)),
{
    env.storage().instance().get(&(Symbol::new(env, "BreakerRecorded"), route.clone()))
}

/// `Instance::set` under the key that notes a route's circuit breaker: stores the
/// flag and leaves all other keys and the events as they are.
#[verifier::external_body]
pub(crate) fn set_breaker_recorded(env: &mut Env, route: &soroban_sdk::String, recorded: bool)
    ensures
        instance(*final(env)) == instance(*old(env)).insert(
            DataKey::BreakerRecorded(string_bytes(*route)),
            StoredValue::Flag(recorded),
        ),
        published(*final(env)) == published(*old(env)),
{
    env.storage().instance().set(
        &(Symbol::new(env, "BreakerRecorded"), route.clone()),
        &recorded,
    )
}

/// `Instance::get` under the key of a route's calls without a limit: the stored
/// map, if there is one.
#[verifier::external_body]
pub(crate) fn get_unlimited_calls(
    env: &Env,
    route: &soroban_sdk::String,
) -> (r: Option<RateLimitMap>)
    requires
        kinds_match(instance(*env)),
    ensures
        unlimited_view(r) == stored_unlimited(instance(*env), string_bytes(*route)),
        r matches Some(calls) ==> rate_limits_complete(calls),
{
    env.storage().instance().get(&(Symbol::new(env, "UnlimitedCalls"), route.clone()))
}

/// `Instance::set` under the key of a route's calls without a limit: stores the
/// map and leaves all other keys and the events as they are.
#[verifier::external_body]
pub(crate) fn set_unlimited_calls(
    env: &mut Env,
    route: &soroban_sdk::String,
    calls: &RateLimitMap,
)
    requires
        rate_limits_complete(*calls),
    ensures
        instance(*final(env)) == instance(*old(env)).insert(
            DataKey::UnlimitedCalls(string_bytes(*route)),
            StoredValue::Callers(rate_limit_contents(*calls)),
        ),
        published(*final(env)) == published(*old(env)),
{
    env.storage().instance().set(&(Symbol::new(env, "UnlimitedCalls"), route.clone()), calls)
}

/// `Instance::get` under a route's log key: the stored log, if there is one.
#[verifier::external_body]
pub(crate) fn get_call_log(env: &Env, route: &soroban_sdk::String) -> (r: Option<CallLogState>)
    requires
        kinds_match(instance(*env)),
    ensures
        log_view(r) == stored_log(instance(*env), string_bytes(*route)),
        r matches Some(log) ==> call_log_complete(log.entries),
{
    let stored: Record =
        env.storage().instance().get(&(Symbol::new(env, "CallLog"), route.clone()))?;
    Some(CallLogState {
        entries: stored.get_unchecked(Symbol::new(env, "entries")).into_val(env),
        head: stored.get_unchecked(Symbol::new(env, "head")).into_val(env),
    })
}

/// `Instance::set` under a route's log key: stores the log and leaves all other
/// keys and the events as they are.
#[verifier::external_body]
pub(crate) fn set_call_log(env: &mut Env, route: &soroban_sdk::String, log: &CallLogState)
    requires
        call_log_complete(log.entries),
    ensures
        instance(*final(env)) == instance(*old(env)).insert(
            DataKey::CallLog(string_bytes(*route)),
            StoredValue::Log(log@),
        ),
        published(*final(env)) == published(*old(env)),
{
    let stored = Record::from_array(env, [
        (Symbol::new(env, "entries"), log.entries.into_val(env)),
        (Symbol::new(env, "head"), log.head.into_val(env)),
    ]);
    env.storage().instance().set(&(Symbol::new(env, "CallLog"), route.clone()), &stored)
}

/// `Instance::remove` under a route's log key: the key is no longer in use; all
/// other keys and the events are as they were.
#[verifier::external_body]
pub(crate) fn remove_call_log(env: &mut Env, route: &soroban_sdk::String)
    ensures
        instance(*final(env)) == instance(*old(env)).remove(DataKey::CallLog(string_bytes(*route))),
        published(*final(env)) == published(*old(env)),
{
    env.storage().instance().remove(&(Symbol::new(env, "CallLog"), route.clone()))
}

/// `Instance::get` under a route's summary key: the stored summary, if there is
/// one.
#[verifier::external_body]
pub(crate) fn get_call_log_summary(
    env: &Env,
    route: &soroban_sdk::String,
) -> (r: Option<CallLogSummary>)
    requires
        kinds_match(instance(*env)),
    ensures
        r == stored_summary(instance(*env), string_bytes(*route)),
{
    let stored: Record =
        env.storage().instance().get(&(Symbol::new(env, "CallLogSummary"), route.clone()))?;
    Some(CallLogSummary {
        failure_count: stored.get_unchecked(Symbol::new(env, "failure_count")).into_val(env),
        last_call_timestamp: stored.get_unchecked(Symbol::new(env, "last_call_timestamp")).into_val(env),
        success_count: stored.get_unchecked(Symbol::new(env, "success_count")).into_val(env),
        total_calls: stored.get_unchecked(Symbol::new(env, "total_calls")).into_val(env),
    })
}

/// `Instance::set` under a route's summary key: stores the summary and leaves
/// all other keys and the events as they are.
#[verifier::external_body]
pub(crate) fn set_call_log_summary(
    env: &mut Env,
    route: &soroban_sdk::String,
    summary: &CallLogSummary,
)
    ensures
        instance(*final(env)) == instance(*old(env)).insert(
            DataKey::CallLogSummary(string_bytes(*route)),
            StoredValue::Summary(*summary),
        ),
        published(*final(env)) == published(*old(env)),
{
    let stored = Record::from_array(env, [
        (Symbol::new(env, "failure_count"), summary.failure_count.into_val(env)),
        (Symbol::new(env, "last_call_timestamp"), summary.last_call_timestamp.into_val(env)),
        (Symbol::new(env, "success_count"), summary.success_count.into_val(env)),
        (Symbol::new(env, "total_calls"), summary.total_calls.into_val(env)),
    ]);
    env.storage().instance().set(&(Symbol::new(env, "CallLogSummary"), route.clone()), &stored)
}

// Rate limits

/// `Map::new`: an empty map.
#[verifier::external_body]
pub(crate) fn new_rate_limits(env: &Env) -> (r: RateLimitMap)
    ensures
        (rate_limit_contents(r) == Map::<Seq<char>, RateLimitState>::empty()),
        rate_limits_complete(r),
{
    soroban_sdk::Map::new(env)
}

/// `Map::get`: the caller's entry, if the map has one.
#[verifier::external_body]
pub(crate) fn rate_limit_get(map: &RateLimitMap, caller: &Address) -> (r: Option<RateLimitState>)
    requires
        rate_limits_complete(*map),
    ensures
        r == rate_limit_contents(*map).get(address_id(*caller)),
{
    let env = map.env();
    let stored: Record = map.get(caller.clone())?;
    Some(RateLimitState {
        calls_in_window: stored.get_unchecked(Symbol::new(env, "calls_in_window")).into_val(env),
        total_violations: stored.get_unchecked(Symbol::new(env, "total_violations")).into_val(env),
        window_start: stored.get_unchecked(Symbol::new(env, "window_start")).into_val(env),
    })
}

/// `Map::clone`: a map of the same entries.
#[verifier::external_body]
pub(crate) fn clone_rate_limits(map: &RateLimitMap) -> (r: RateLimitMap)
    ensures
        rate_limit_contents(r) == rate_limit_contents(*map),
        rate_limits_complete(r) == rate_limits_complete(*map),
{
    map.clone()
}

/// `Map::len`: the number of entries.
#[verifier::external_body]
pub(crate) fn rate_limit_len(map: &RateLimitMap) -> (r: u32)
    ensures
        r == rate_limit_contents(*map).len(),
{
    map.len()
}

/// `Map::set`: puts the caller's entry in place and leaves the others. The SDK
/// aborts where the number of entries would pass `u32::MAX`.
#[verifier::external_body]
pub(crate) fn rate_limit_set(map: &mut RateLimitMap, caller: &Address, state: &RateLimitState)
    requires
        rate_limit_contents(*old(map)).contains_key(address_id(*caller)) || rate_limit_contents(
            *old(map),
        ).len() < u32::MAX,
    ensures
        rate_limit_contents(*final(map)) == rate_limit_contents(*old(map)).insert(
            address_id(*caller),
            *state,
        ),
        rate_limits_complete(*old(map)) ==> rate_limits_complete(*final(map)),
{
    let env = map.env().clone();
    let stored = Record::from_array(&env, [
        (Symbol::new(&env, "calls_in_window"), state.calls_in_window.into_val(&env)),
        (Symbol::new(&env, "total_violations"), state.total_violations.into_val(&env)),
        (Symbol::new(&env, "window_start"), state.window_start.into_val(&env)),
    ]);
    map.set(caller.clone(), stored)
}

/// `Map::remove`: takes the caller's entry out, if there is one, and leaves the
/// others.
#[verifier::external_body]
pub(crate) fn rate_limit_remove(map: &mut RateLimitMap, caller: &Address)
    ensures
        rate_limit_contents(*final(map)) == rate_limit_contents(*old(map)).remove(
            address_id(*caller),
        ),
        rate_limits_complete(*old(map)) ==> rate_limits_complete(*final(map)),
{
    let _ = map.remove(caller.clone());
}

/// `Map::keys`: every caller in the map once. Nothing is claimed of the order.
#[verifier::external_body]
pub(crate) fn rate_limit_callers(map: &RateLimitMap) -> (r: Vec<Address>)
    requires
        rate_limits_complete(*map),
    ensures
        callers_view(r@).no_duplicates(),
        callers_view(r@).to_set() == rate_limit_contents(*map).dom(),
{
    map.keys().iter().collect()
}

// Call log slots

/// `Vec::new`: no slots.
#[verifier::external_body]
pub(crate) fn new_call_log(env: &Env) -> (r: CallLogVec)
    ensures
        call_log_contents(r) == Seq::<CallLogEntryView>::empty(),
        call_log_complete(r),
{
    soroban_sdk::Vec::new(env)
}

/// `Vec::clone`: the same slots.
#[verifier::external_body]
pub(crate) fn clone_call_log(entries: &CallLogVec) -> (r: CallLogVec)
    ensures
        call_log_contents(r) == call_log_contents(*entries),
        call_log_complete(r) == call_log_complete(*entries),
{
    entries.clone()
}

/// `Vec::len`: the number of slots.
#[verifier::external_body]
pub(crate) fn call_log_len(entries: &CallLogVec) -> (r: u32)
    ensures
        r == call_log_contents(*entries).len(),
{
    entries.len()
}

/// `Vec::get`: the slot at the position, or nothing past the end.
#[verifier::external_body]
pub(crate) fn call_log_get(entries: &CallLogVec, i: u32) -> (r: Option<CallLogEntry>)
    requires
        call_log_complete(*entries),
    ensures
        entry_view(r) == (if i < call_log_contents(*entries).len() {
            Some(call_log_contents(*entries)[i as int])
        } else {
            None
        }),
{
    let env = entries.env();
    let stored: Record = entries.get(i)?;
    Some(CallLogEntry {
        caller: stored.get_unchecked(Symbol::new(env, "caller")).into_val(env),
        route: stored.get_unchecked(Symbol::new(env, "route")).into_val(env),
        success: stored.get_unchecked(Symbol::new(env, "success")).into_val(env),
        timestamp: stored.get_unchecked(Symbol::new(env, "timestamp")).into_val(env),
    })
}

/// `Vec::push_back`: adds a slot at the end. The SDK aborts where the length
/// would pass `u32::MAX`.
#[verifier::external_body]
pub(crate) fn call_log_push(entries: &mut CallLogVec, entry: &CallLogEntry)
    requires
        call_log_contents(*old(entries)).len() < u32::MAX,
    ensures
        call_log_contents(*final(entries)) == call_log_contents(*old(entries)).push(entry@),
        call_log_complete(*old(entries)) ==> call_log_complete(*final(entries)),
{
    let env = entries.env().clone();
    let stored = Record::from_array(&env, [
        (Symbol::new(&env, "caller"), entry.caller.into_val(&env)),
        (Symbol::new(&env, "route"), entry.route.into_val(&env)),
        (Symbol::new(&env, "success"), entry.success.into_val(&env)),
        (Symbol::new(&env, "timestamp"), entry.timestamp.into_val(&env)),
    ]);
    entries.push_back(stored)
}

/// `Vec::set`: replaces the slot at the position. The SDK aborts past the end.
#[verifier::external_body]
pub(crate) fn call_log_set(entries: &mut CallLogVec, i: u32, entry: &CallLogEntry)
    requires
        i < call_log_contents(*old(entries)).len(),
    ensures
        call_log_contents(*final(entries)) == call_log_contents(*old(entries)).update(
            i as int,
            entry@,
        ),
        call_log_complete(*old(entries)) ==> call_log_complete(*final(entries)),
{
    let env = entries.env().clone();
    let stored = Record::from_array(&env, [
        (Symbol::new(&env, "caller"), entry.caller.into_val(&env)),
        (Symbol::new(&env, "route"), entry.route.into_val(&env)),
        (Symbol::new(&env, "success"), entry.success.into_val(&env)),
        (Symbol::new(&env, "timestamp"), entry.timestamp.into_val(&env)),
    ]);
    entries.set(i, stored)
}

// Route list

/// `Vec::new`: an empty list.
#[verifier::external_body]
pub(crate) fn new_routes(env: &Env) -> (r: soroban_sdk::Vec<soroban_sdk::String>)
    ensures
        route_list_contents(r) == Seq::<Seq<u8>>::empty(),
        routes_complete(r),
{
    soroban_sdk::Vec::new(env)
}

/// `Vec::contains`: whether the list holds the name.
#[verifier::external_body]
pub(crate) fn routes_contain(
    routes: &soroban_sdk::Vec<soroban_sdk::String>,
    route: &soroban_sdk::String,
) -> (r: bool)
    ensures
        r == route_list_contents(*routes).contains(string_bytes(*route)),
{
    routes.contains(route)
}

/// `Vec::len`: the number of names.
#[verifier::external_body]
pub(crate) fn routes_len(routes: &soroban_sdk::Vec<soroban_sdk::String>) -> (r: u32)
    ensures
        r == route_list_contents(*routes).len(),
{
    routes.len()
}

/// `Vec::push_back`: adds the name at the end. The SDK aborts where the length
/// would pass `u32::MAX`.
#[verifier::external_body]
pub(crate) fn routes_push(
    routes: &mut soroban_sdk::Vec<soroban_sdk::String>,
    route: &soroban_sdk::String,
)
    requires
        route_list_contents(*old(routes)).len() < u32::MAX,
    ensures
        route_list_contents(*final(routes)) == route_list_contents(*old(routes)).push(
            string_bytes(*route),
        ),
        routes_complete(*old(routes)) ==> routes_complete(*final(routes)),
{
    routes.push_back(route.clone())
}

// Events

/// The texts that `Symbol::new` accepts: at most 32 letters, digits and
/// underscores.
pub open spec fn is_symbol(text: Seq<char>) -> bool {
    &&& text.len() <= 32
    &&& forall|i: int| 0 <= i < text.len() ==> is_symbol_char(#[trigger] text[i])
}

/// The characters that `Symbol::new` accepts.
pub open spec fn is_symbol_char(c: char) -> bool {
    ||| 'a' <= c <= 'z'
    ||| 'A' <= c <= 'Z'
    ||| '0' <= c <= '9'
    ||| c == '_'
}

/// `Events::publish` of an address and a string: appends the event and leaves
/// the storage as it is.
#[allow(deprecated)]
#[verifier::external_body]
pub(crate) fn publish_call(
    env: &mut Env,
    topic: &str,
    caller: &Address,
    route: &soroban_sdk::String,
)
    requires
        is_symbol(topic@),
    ensures
        published(*final(env)) == published(*old(env)).push(
            (Event {
                topic: topic@,
                data: EventData::Call(address_id(*caller), string_bytes(*route)),
            }),
        ),
        instance(*final(env)) == instance(*old(env)),
{
    env.events().publish((Symbol::new(env, topic),), (caller.clone(), route.clone()))
}

/// `Events::publish` of an address, a string and a flag: appends the event and
/// leaves the storage as it is.
#[allow(deprecated)]
#[verifier::external_body]
pub(crate) fn publish_outcome(
    env: &mut Env,
    topic: &str,
    caller: &Address,
    route: &soroban_sdk::String,
    success: bool,
)
    requires
        is_symbol(topic@),
    ensures
        published(*final(env)) == published(*old(env)).push(
            (Event {
                topic: topic@,
                data: EventData::Outcome(address_id(*caller), string_bytes(*route), success),
            }),
        ),
        instance(*final(env)) == instance(*old(env)),
{
    env.events().publish((Symbol::new(env, topic),), (caller.clone(), route.clone(), success))
}

/// `Events::publish` of a string and a number: appends the event and leaves the
/// storage as it is.
#[allow(deprecated)]
#[verifier::external_body]
pub(crate) fn publish_count(env: &mut Env, topic: &str, route: &soroban_sdk::String, count: u32)
    requires
        is_symbol(topic@),
    ensures
        published(*final(env)) == published(*old(env)).push(
            (Event { topic: topic@, data: EventData::Count(string_bytes(*route), count) }),
        ),
        instance(*final(env)) == instance(*old(env)),
{
    env.events().publish((Symbol::new(env, topic),), (route.clone(), count))
}

/// `Events::publish` of a flag: appends the event and leaves the storage as it
/// is.
#[allow(deprecated)]
#[verifier::external_body]
pub(crate) fn publish_flag(env: &mut Env, topic: &str, flag: bool)
    requires
        is_symbol(topic@),
    ensures
        published(*final(env)) == published(*old(env)).push(
            (Event { topic: topic@, data: EventData::Flag(flag) }),
        ),
        instance(*final(env)) == instance(*old(env)),
{
    env.events().publish((Symbol::new(env, topic),), flag)
}

/// `Events::publish` of a string: appends the event and leaves the storage as
/// it is.
#[allow(deprecated)]
#[verifier::external_body]
pub(crate) fn publish_route(env: &mut Env, topic: &str, route: &soroban_sdk::String)
    requires
        is_symbol(topic@),
    ensures
        published(*final(env)) == published(*old(env)).push(
            (Event { topic: topic@, data: EventData::Route(string_bytes(*route)) }),
        ),
        instance(*final(env)) == instance(*old(env)),
{
    env.events().publish((Symbol::new(env, topic),), route.clone())
}

/// `Events::publish` of two addresses: appends the event and leaves the storage
/// as it is.
#[allow(deprecated)]
#[verifier::external_body]
pub(crate) fn publish_addresses(env: &mut Env, topic: &str, from: &Address, to: &Address)
    requires
        is_symbol(topic@),
    ensures
        published(*final(env)) == published(*old(env)).push(
            (Event {
                topic: topic@,
                data: EventData::Addresses(address_id(*from), address_id(*to)),
            }),
        ),
        instance(*final(env)) == instance(*old(env)),
{
    env.events().publish((Symbol::new(env, topic),), (from.clone(), to.clone()))
}

} // verus!
