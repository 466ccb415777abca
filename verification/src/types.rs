//! The records that the middleware keeps, and what they stand for in contracts.
//!
//! Addresses, route names and the two host collections are values of the
//! Soroban SDK. A contract speaks of them by what they hold: an address by
//! [`address_id`], a route name by [`string_bytes`], the collections by
//! [`rate_limit_contents`] and [`call_log_contents`].
use crate::host::{
    address_id, call_log_complete, call_log_contents, clone_address, clone_call_log,
    clone_rate_limits, clone_string, rate_limit_contents, rate_limits_complete, string_bytes,
};
use soroban_sdk::{Address, Symbol, Val};
use vstd::prelude::*;

verus! {

/// A record as the host keeps it: its fields by their names.
pub type Record = soroban_sdk::Map<Symbol, Val>;

/// Callers of one route: caller to the record of a [`RateLimitState`].
pub type RateLimitMap = soroban_sdk::Map<Address, Record>;

/// Call log slots of one route: records of [`CallLogEntry`].
pub type CallLogVec = soroban_sdk::Vec<Record>;

/// One caller's use of one route.
#[derive(Clone, Copy, Debug, PartialEq, Eq, Structural)]
pub struct RateLimitState {
    /// Number of calls in the current window.
    pub calls_in_window: u32,
    /// Timestamp at which the window started.
    pub window_start: u64,
    /// How often the rate limit was exceeded.
    pub total_violations: u32,
}

/// A route's rate limits over all its callers.
#[derive(Clone, Copy, Debug, PartialEq, Eq, Structural)]
pub struct RouteRateLimitStats {
    /// Calls of all callers in their current windows.
    pub total_calls_in_window: u32,
    /// Earliest window start among all callers.
    pub window_start: u64,
    /// Rate limit violations of all callers.
    pub total_violations: u32,
}

/// Settings of one route.
#[derive(Clone, Copy, Debug, PartialEq, Eq, Structural)]
pub struct RouteConfig {
    /// Calls that one caller may make per window (0 = unlimited).
    pub max_calls_per_window: u32,
    /// Window size in seconds.
    pub window_seconds: u64,
    /// Whether the route is enabled.
    pub enabled: bool,
    /// Failures that open the circuit breaker (0 = no circuit breaker).
    pub failure_threshold: u32,
    /// Seconds after which an open circuit lets a probe call through (0 = never).
    pub recovery_window_seconds: u64,
    /// Call log entries to keep (0 = no log).
    pub log_retention: u32,
}

/// Circuit breaker of one route.
#[derive(Clone, Copy, Debug, PartialEq, Eq, Structural)]
pub struct CircuitBreakerState {
    /// Number of consecutive failures.
    pub failure_count: u32,
    /// Timestamp at which the circuit was opened.
    pub opened_at: u64,
    /// Whether the circuit is open.
    pub is_open: bool,
    /// Whether the circuit waits for the outcome of a probe call.
    pub is_half_open: bool,
}

/// What a route remembers between calls.
#[derive(Debug, PartialEq)]
pub struct RouteCallState {
    /// Rate limit state of each caller.
    pub rate_limits: RateLimitMap,
    /// The route's circuit breaker.
    pub circuit_breaker: CircuitBreakerState,
}

/// [`RouteCallState`] by what it holds.
#[verifier::ext_equal]
pub struct RouteCallStateView {
    pub rate_limits: Map<Seq<char>, RateLimitState>,
    pub circuit_breaker: CircuitBreakerState,
}

impl View for RouteCallState {
    type V = RouteCallStateView;

    open spec fn view(&self) -> RouteCallStateView {
        RouteCallStateView {
            rate_limits: rate_limit_contents(self.rate_limits),
            circuit_breaker: self.circuit_breaker,
        }
    }
}

impl Clone for RouteCallState {
    fn clone(&self) -> (r: Self)
        ensures
            r@ == self@,
            rate_limits_complete(r.rate_limits) == rate_limits_complete(self.rate_limits),
    {
        RouteCallState {
            rate_limits: clone_rate_limits(&self.rate_limits),
            circuit_breaker: self.circuit_breaker,
        }
    }
}

/// One logged call.
#[derive(Debug, PartialEq)]
pub struct CallLogEntry {
    /// The caller's address.
    pub caller: Address,
    /// Timestamp of the call.
    pub timestamp: u64,
    /// Whether the call succeeded.
    pub success: bool,
    /// The route that was called.
    pub route: soroban_sdk::String,
}

/// [`CallLogEntry`] by what it holds.
#[verifier::ext_equal]
pub struct CallLogEntryView {
    pub caller: Seq<char>,
    pub timestamp: u64,
    pub success: bool,
    pub route: Seq<u8>,
}

impl View for CallLogEntry {
    type V = CallLogEntryView;

    open spec fn view(&self) -> CallLogEntryView {
        CallLogEntryView {
            caller: address_id(self.caller),
            timestamp: self.timestamp,
            success: self.success,
            route: string_bytes(self.route),
        }
    }
}

impl Clone for CallLogEntry {
    fn clone(&self) -> (r: Self)
        ensures
            r@ == self@,
    {
        CallLogEntry {
            caller: clone_address(&self.caller),
            timestamp: self.timestamp,
            success: self.success,
            route: clone_string(&self.route),
        }
    }
}

/// A route's call log: a ring buffer.
#[derive(Debug, PartialEq)]
pub struct CallLogState {
    /// The slots in use.
    pub entries: CallLogVec,
    /// Slot of the oldest entry (0 until the log wraps).
    pub head: u32,
}

/// [`CallLogState`] by what it holds.
#[verifier::ext_equal]
pub struct CallLogView {
    pub entries: Seq<CallLogEntryView>,
    pub head: u32,
}

impl View for CallLogState {
    type V = CallLogView;

    open spec fn view(&self) -> CallLogView {
        CallLogView { entries: call_log_contents(self.entries), head: self.head }
    }
}

impl Clone for CallLogState {
    fn clone(&self) -> (r: Self)
        ensures
            r@ == self@,
            call_log_complete(r.entries) == call_log_complete(self.entries),
    {
        CallLogState { entries: clone_call_log(&self.entries), head: self.head }
    }
}

/// Running totals of a route's logged calls. They outlive the entries.
#[derive(Clone, Copy, Debug, PartialEq, Eq, Structural)]
pub struct CallLogSummary {
    pub total_calls: u32,
    pub success_count: u32,
    pub failure_count: u32,
    pub last_call_timestamp: u64,
}

/// Why a request is refused.
#[derive(Clone, Copy, Debug, PartialEq, Eq, Structural)]
pub enum MiddlewareError {
    AlreadyInitialized,
    NotInitialized,
    Unauthorized,
    RateLimitExceeded,
    RouteDisabled,
    MiddlewareDisabled,
    InvalidConfig,
    CircuitOpen,
}

impl MiddlewareError {
    /// The number under which the contract reports the error.
    pub open spec fn spec_code(self) -> u32 {
        match self {
            MiddlewareError::AlreadyInitialized => 1,
            MiddlewareError::NotInitialized => 2,
            MiddlewareError::Unauthorized => 3,
            MiddlewareError::RateLimitExceeded => 4,
            MiddlewareError::RouteDisabled => 5,
            MiddlewareError::MiddlewareDisabled => 6,
            MiddlewareError::InvalidConfig => 7,
            MiddlewareError::CircuitOpen => 8,
        }
    }

    /// The number under which the contract reports the error.
    pub fn code(&self) -> (r: u32)
        ensures
            r == self.spec_code(),
    {
        match self {
            MiddlewareError::AlreadyInitialized => 1,
            MiddlewareError::NotInitialized => 2,
            MiddlewareError::Unauthorized => 3,
            MiddlewareError::RateLimitExceeded => 4,
            MiddlewareError::RouteDisabled => 5,
            MiddlewareError::MiddlewareDisabled => 6,
            MiddlewareError::InvalidConfig => 7,
            MiddlewareError::CircuitOpen => 8,
        }
    }
}

/// A request that cannot be carried out: a counter or a point in time would
/// leave its integer type, a host collection its length, or a stored log's head
/// lies outside the log. Nothing was changed; the invocation is to be aborted.
#[derive(Clone, Copy, Debug, PartialEq, Eq, Structural)]
pub struct Trap;

} // verus!
