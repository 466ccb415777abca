//! Circuit breakers: closed, open, and half-open while a probe call is out.
use crate::types::{CircuitBreakerState, RouteConfig};
use vstd::prelude::*;

verus! {

impl CircuitBreakerState {
    /// A closed circuit without failures.
    pub open spec fn spec_closed() -> CircuitBreakerState {
        CircuitBreakerState { failure_count: 0, opened_at: 0, is_open: false, is_half_open: false }
    }

    /// A circuit that waits for the outcome of a probe call.
    pub open spec fn spec_probing() -> CircuitBreakerState {
        CircuitBreakerState { failure_count: 0, opened_at: 0, is_open: false, is_half_open: true }
    }

    /// A circuit that was opened at `now`, with `failures` on record.
    pub open spec fn spec_opened(failures: u32, now: u64) -> CircuitBreakerState {
        CircuitBreakerState {
            failure_count: failures,
            opened_at: now,
            is_open: true,
            is_half_open: false,
        }
    }

    /// The point in time from which an open circuit lets a probe call through.
    pub open spec fn recovery_time(self, config: RouteConfig) -> int {
        self.opened_at + config.recovery_window_seconds
    }

    /// Whether the circuit stands in the way of a call at `now`.
    pub open spec fn spec_refuses(self, config: RouteConfig, now: u64) -> bool {
        &&& config.failure_threshold > 0
        &&& self.is_open
        &&& config.recovery_window_seconds == 0 || now < self.recovery_time(config)
    }

    /// Whether a call that the circuit does not refuse is a probe, sent while
    /// the circuit is open.
    pub open spec fn spec_probes(self, config: RouteConfig) -> bool {
        config.failure_threshold > 0 && self.is_open
    }

    /// The circuit after it let a call through.
    pub open spec fn spec_admitted(self, config: RouteConfig) -> CircuitBreakerState {
        if self.spec_probes(config) {
            Self::spec_probing()
        } else {
            self
        }
    }

    /// Whether a failed call opens the circuit.
    pub open spec fn spec_trips(self, config: RouteConfig) -> bool {
        self.is_half_open || self.failure_count + 1 >= config.failure_threshold
    }

    /// The circuit after a call failed at `now`.
    pub open spec fn spec_failed(self, config: RouteConfig, now: u64) -> CircuitBreakerState {
        if self.is_half_open {
            Self::spec_opened(1, now)
        } else if self.spec_trips(config) {
            Self::spec_opened((self.failure_count + 1) as u32, now)
        } else {
            CircuitBreakerState { failure_count: (self.failure_count + 1) as u32, ..self }
        }
    }

    /// The circuit after a call succeeded: a probe closes it, and a closed
    /// circuit forgets its failures. An open circuit stays as it is.
    pub open spec fn spec_succeeded(self) -> CircuitBreakerState {
        if self.is_half_open {
            CircuitBreakerState { is_half_open: false, failure_count: 0, opened_at: 0, ..self }
        } else if self.is_open {
            self
        } else {
            CircuitBreakerState { failure_count: 0, ..self }
        }
    }

    /// A closed circuit without failures.
    pub fn closed() -> (r: CircuitBreakerState)
        ensures
            r == Self::spec_closed(),
    {
        CircuitBreakerState { failure_count: 0, opened_at: 0, is_open: false, is_half_open: false }
    }

    /// Whether the recovery time is a point in time that `u64` can hold.
    pub fn recovery_fits(&self, config: &RouteConfig) -> (r: bool)
        ensures
            r == (self.recovery_time(*config) <= u64::MAX),
    {
        self.opened_at <= u64::MAX - config.recovery_window_seconds
    }

    /// Whether the circuit stands in the way of a call at `now`.
    pub fn refuses(&self, config: &RouteConfig, now: u64) -> (r: bool)
        requires
            self.spec_probes(*config) && config.recovery_window_seconds > 0 ==> self.recovery_time(
                *config,
            ) <= u64::MAX,
        ensures
            r == self.spec_refuses(*config, now),
    {
        if config.failure_threshold > 0 && self.is_open {
            let recovers = config.recovery_window_seconds > 0 && now >= self.opened_at
                + config.recovery_window_seconds;
            !recovers
        } else {
            false
        }
    }

    /// Whether a call that the circuit does not refuse is a probe.
    pub fn probes(&self, config: &RouteConfig) -> (r: bool)
        ensures
            r == self.spec_probes(*config),
    {
        config.failure_threshold > 0 && self.is_open
    }

    /// The circuit after it let a call through.
    pub fn admitted(&self, config: &RouteConfig) -> (r: CircuitBreakerState)
        ensures
            r == self.spec_admitted(*config),
    {
        if self.probes(config) {
            CircuitBreakerState {
                failure_count: 0,
                opened_at: 0,
                is_open: false,
                is_half_open: true,
            }
        } else {
            *self
        }
    }

    /// The circuit after a call failed at `now`, and whether that opened it.
    pub fn failed(&self, config: &RouteConfig, now: u64) -> (r: (CircuitBreakerState, bool))
        requires
            !self.is_half_open ==> self.failure_count < u32::MAX,
        ensures
            r.0 == self.spec_failed(*config, now),
            r.1 == self.spec_trips(*config),
    {
        let mut next = *self;
        if next.is_half_open {
            next.is_half_open = false;
            next.is_open = true;
            next.opened_at = now;
            next.failure_count = 1;
            (next, true)
        } else {
            next.failure_count = next.failure_count + 1;
            if next.failure_count >= config.failure_threshold {
                next.is_open = true;
                next.opened_at = now;
                (next, true)
            } else {
                (next, false)
            }
        }
    }

    /// The circuit after a call succeeded.
    pub fn succeeded(&self) -> (r: CircuitBreakerState)
        ensures
            r == self.spec_succeeded(),
    {
        let mut next = *self;
        if next.is_half_open {
            next.is_half_open = false;
            next.failure_count = 0;
            next.opened_at = 0;
        } else if !next.is_open && next.failure_count > 0 {
            next.failure_count = 0;
        }
        next
    }
}

} // verus!
