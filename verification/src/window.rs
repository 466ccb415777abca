//! Rate limit windows: how one caller's calls to one route are counted.
use crate::types::{RateLimitState, RouteConfig};
use vstd::prelude::*;

verus! {

impl RateLimitState {
    /// The state of a caller that is new at `now`.
    pub open spec fn spec_fresh(now: u64) -> RateLimitState {
        RateLimitState { calls_in_window: 0, window_start: now, total_violations: 0 }
    }

    /// The first point in time past the window.
    pub open spec fn window_end(self, config: RouteConfig) -> int {
        self.window_start + config.window_seconds
    }

    /// The state as it counts at `now`: a window that has passed is replaced by
    /// an empty one that starts at `now`.
    pub open spec fn spec_current(self, config: RouteConfig, now: u64) -> RateLimitState {
        if now >= self.window_end(config) {
            RateLimitState { calls_in_window: 0, window_start: now, ..self }
        } else {
            self
        }
    }

    /// Whether the caller has used up its calls at `now`.
    pub open spec fn spec_exhausted(self, config: RouteConfig, now: u64) -> bool {
        config.max_calls_per_window > 0
            && self.spec_current(config, now).calls_in_window >= config.max_calls_per_window
    }

    /// The state after one more call was admitted at `now`.
    pub open spec fn spec_counted(self, config: RouteConfig, now: u64) -> RateLimitState {
        let current = self.spec_current(config, now);
        RateLimitState { calls_in_window: (current.calls_in_window + 1) as u32, ..current }
    }

    /// The state after a call was refused at `now` for exceeding the limit.
    pub open spec fn spec_violated(self, config: RouteConfig, now: u64) -> RateLimitState {
        let current = self.spec_current(config, now);
        RateLimitState { total_violations: (current.total_violations + 1) as u32, ..current }
    }

    /// The state after one more call at `now` that no rate limit counts. The count
    /// stops at the largest number.
    pub open spec fn spec_noted(self, config: Option<RouteConfig>, now: u64) -> RateLimitState {
        let current = match config {
            Some(c) => self.spec_current(c, now),
            None => self,
        };
        RateLimitState {
            calls_in_window: if current.calls_in_window < u32::MAX {
                (current.calls_in_window + 1) as u32
            } else {
                u32::MAX
            },
            ..current
        }
    }

    /// The state of a caller that is new at `now`.
    pub fn fresh(now: u64) -> (r: RateLimitState)
        ensures
            r == Self::spec_fresh(now),
    {
        RateLimitState { calls_in_window: 0, window_start: now, total_violations: 0 }
    }

    /// Whether the end of the window is a point in time that `u64` can hold.
    pub fn window_fits(&self, config: &RouteConfig) -> (r: bool)
        ensures
            r == (self.window_end(*config) <= u64::MAX),
    {
        self.window_start <= u64::MAX - config.window_seconds
    }

    /// Whether the window has passed at `now`.
    pub fn has_passed(&self, config: &RouteConfig, now: u64) -> (r: bool)
        ensures
            r == (now >= self.window_end(*config)),
    {
        now >= self.window_start && now - self.window_start >= config.window_seconds
    }

    /// The state as it counts at `now`.
    pub fn current(&self, config: &RouteConfig, now: u64) -> (r: RateLimitState)
        ensures
            r == self.spec_current(*config, now),
    {
        if self.has_passed(config, now) {
            RateLimitState {
                calls_in_window: 0,
                window_start: now,
                total_violations: self.total_violations,
            }
        } else {
            *self
        }
    }

    /// Whether the caller has used up its calls at `now`.
    pub fn exhausted(&self, config: &RouteConfig, now: u64) -> (r: bool)
        ensures
            r == self.spec_exhausted(*config, now),
    {
        config.max_calls_per_window > 0
            && self.current(config, now).calls_in_window >= config.max_calls_per_window
    }

    /// The state after one more call was admitted at `now`.
    pub fn counted(&self, config: &RouteConfig, now: u64) -> (r: RateLimitState)
        requires
            config.max_calls_per_window > 0,
            !self.spec_exhausted(*config, now),
        ensures
            r == self.spec_counted(*config, now),
            r.calls_in_window == self.spec_current(*config, now).calls_in_window + 1,
    {
        let current = self.current(config, now);
        RateLimitState {
            calls_in_window: current.calls_in_window + 1,
            window_start: current.window_start,
            total_violations: current.total_violations,
        }
    }

    /// The state after a call was refused at `now` for exceeding the limit.
    pub fn violated(&self, config: &RouteConfig, now: u64) -> (r: RateLimitState)
        requires
            self.total_violations < u32::MAX,
        ensures
            r == self.spec_violated(*config, now),
            r.total_violations == self.total_violations + 1,
    {
        let current = self.current(config, now);
        RateLimitState {
            calls_in_window: current.calls_in_window,
            window_start: current.window_start,
            total_violations: current.total_violations + 1,
        }
    }

    /// The state after one more call at `now` that no rate limit counts.
    pub fn noted(&self, config: &Option<RouteConfig>, now: u64) -> (r: RateLimitState)
        ensures
            r == self.spec_noted(*config, now),
    {
        let current = match config {
            Some(c) => self.current(c, now),
            None => *self,
        };
        RateLimitState {
            calls_in_window: if current.calls_in_window < u32::MAX {
                current.calls_in_window + 1
            } else {
                u32::MAX
            },
            window_start: current.window_start,
            total_violations: current.total_violations,
        }
    }
}

} // verus!
