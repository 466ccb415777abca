//! Middleware hooks for a router of contract calls.
//!
//! A router asks [`RouterMiddleware::pre_call`] before it passes a call on and
//! tells [`RouterMiddleware::post_call`] how the call went. In between stand a
//! global switch, a switch per route, a rate limit per caller and route, a circuit
//! breaker per route and a log of each route's most recent calls.
//!
//! - [`types`]: the records that are kept.
//! - [`window`], [`breaker`], [`call_log`], [`stats`]: the rules, on plain records.
//! - [`ledger`]: what each request does to what the contract's ledger holds.
//! - [`contract`]: the requests.
//! - [`host`]: the Soroban SDK, and all that is believed of it.
//! - [`laws`]: what holds over several requests.
pub mod breaker;
pub mod call_log;
pub mod contract;
pub mod host;
pub mod laws;
pub mod ledger;
pub mod stats;
pub mod types;
pub mod window;

pub use contract::RouterMiddleware;
pub use ledger::DataKey;
pub use types::{
    CallLogEntry, CallLogState, CallLogSummary, CircuitBreakerState, MiddlewareError,
    RateLimitState, RouteCallState, RouteConfig, RouteRateLimitStats, Trap,
};
