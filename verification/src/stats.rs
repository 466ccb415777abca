//! What is reported of the callers of a route, one by one and all together.
use crate::host::{
    address_id, rate_limit_callers, rate_limit_contents, rate_limit_get, rate_limits_complete,
};
use crate::ledger::callers_view;
use crate::types::{RateLimitMap, RateLimitState, RouteConfig, RouteRateLimitStats, Trap};
use soroban_sdk::Address;
use vstd::prelude::*;

verus! {

/// A rate limit state as it counts at `now`. Without settings for the route it
/// is the state on record.
pub open spec fn state_at(
    config: Option<RouteConfig>,
    state: RateLimitState,
    now: u64,
) -> RateLimitState {
    match config {
        Some(c) => state.spec_current(c, now),
        None => state,
    }
}

/// Whether the settings limit the rate of calls.
pub open spec fn is_limited(config: Option<RouteConfig>) -> bool {
    config matches Some(c) && c.max_calls_per_window > 0
}

/// What is reported of a caller at `now`, from what the route keeps of the
/// callers that a rate limit has counted and of the others. Of a caller that no
/// rate limit has counted, nothing counts against a limit.
pub open spec fn reported_state(
    limits: Map<Seq<char>, RateLimitState>,
    unlimited: Map<Seq<char>, RateLimitState>,
    config: Option<RouteConfig>,
    caller: Seq<char>,
    now: u64,
) -> Option<RateLimitState> {
    match limits.get(caller) {
        Some(state) => Some(state_at(config, state, now)),
        None => match unlimited.get(caller) {
            Some(state) => if is_limited(config) {
                Some(RateLimitState::spec_fresh(now))
            } else {
                Some(state_at(config, state, now))
            },
            None => None,
        },
    }
}

/// Whether the end of the caller's window is a point in time.
pub open spec fn reported_state_fits(
    limits: Map<Seq<char>, RateLimitState>,
    config: Option<RouteConfig>,
    caller: Seq<char>,
) -> bool {
    match (limits.get(caller), config) {
        (Some(state), Some(c)) => state.window_end(c) <= u64::MAX,
        _ => true,
    }
}

/// Whether the end of every caller's window is a point in time.
pub open spec fn all_fit(
    limits: Map<Seq<char>, RateLimitState>,
    config: Option<RouteConfig>,
) -> bool {
    forall|caller: Seq<char>| #[trigger] reported_state_fits(limits, config, caller)
}

/// What is reported at `now`, by caller.
pub open spec fn reported_states(
    limits: Map<Seq<char>, RateLimitState>,
    unlimited: Map<Seq<char>, RateLimitState>,
    config: Option<RouteConfig>,
    now: u64,
) -> Map<Seq<char>, RateLimitState> {
    Map::new(
        |caller: Seq<char>| reported_state(limits, unlimited, config, caller, now) is Some,
        |caller: Seq<char>| reported_state(limits, unlimited, config, caller, now)->Some_0,
    )
}

/// The sum of `f` over the states of the given callers.
pub open spec fn sum_over(
    limits: Map<Seq<char>, RateLimitState>,
    callers: Set<Seq<char>>,
    f: spec_fn(RateLimitState) -> nat,
) -> nat {
    callers.fold(0nat, |sum: nat, caller: Seq<char>| sum + f(limits[caller]))
}

/// The calls of all callers.
pub open spec fn calls_of(states: Map<Seq<char>, RateLimitState>) -> nat {
    sum_over(states, states.dom(), |state: RateLimitState| state.calls_in_window as nat)
}

/// The violations of all callers.
pub open spec fn violations_of(states: Map<Seq<char>, RateLimitState>) -> nat {
    sum_over(states, states.dom(), |state: RateLimitState| state.total_violations as nat)
}

/// Whether `start` is the earliest window start of a caller.
pub open spec fn is_earliest(states: Map<Seq<char>, RateLimitState>, start: u64) -> bool {
    &&& exists|caller: Seq<char>| #[trigger]
        states.contains_key(caller) && states[caller].window_start == start
    &&& forall|caller: Seq<char>| #[trigger]
        states.contains_key(caller) ==> start <= states[caller].window_start
}

/// Whether `stats` are the statistics of these states.
pub open spec fn are_stats_of(
    states: Map<Seq<char>, RateLimitState>,
    stats: Option<RouteRateLimitStats>,
) -> bool {
    match stats {
        None => states.dom().is_empty(),
        Some(s) => {
            &&& s.total_calls_in_window == calls_of(states)
            &&& s.total_violations == violations_of(states)
            &&& is_earliest(states, s.window_start)
        },
    }
}

/// Adding one caller to the callers adds its share to the sum.
pub proof fn lemma_sum_insert(
    limits: Map<Seq<char>, RateLimitState>,
    callers: Set<Seq<char>>,
    caller: Seq<char>,
    f: spec_fn(RateLimitState) -> nat,
)
    requires
        callers.finite(),
        !callers.contains(caller),
    ensures
        sum_over(limits, callers.insert(caller), f) == sum_over(limits, callers, f) + f(
            limits[caller],
        ),
{
    let g = |sum: nat, c: Seq<char>| sum + f(limits[c]);
    vstd::set::fold::lemma_fold_insert(callers, 0nat, g, caller);
}

/// The sum over no callers is zero.
pub proof fn lemma_sum_empty(
    limits: Map<Seq<char>, RateLimitState>,
    f: spec_fn(RateLimitState) -> nat,
)
    ensures
        sum_over(limits, Set::empty(), f) == 0,
{
    vstd::set::fold::lemma_fold_empty(0nat, |sum: nat, c: Seq<char>| sum + f(limits[c]));
}

/// One more caller of a list without repetitions adds its share to the sum.
proof fn lemma_sum_next(
    limits: Map<Seq<char>, RateLimitState>,
    callers: Seq<Seq<char>>,
    i: int,
    f: spec_fn(RateLimitState) -> nat,
)
    requires
        callers.no_duplicates(),
        0 <= i < callers.len(),
    ensures
        sum_over(limits, callers.take(i + 1).to_set(), f) == sum_over(
            limits,
            callers.take(i).to_set(),
            f,
        ) + f(limits[callers[i]]),
{
    broadcast use vstd::seq_lib::seq_to_set_is_finite;

    assert(callers.take(i + 1) =~= callers.take(i).push(callers[i]));
    callers.take(i).lemma_push_to_set_commute(callers[i]);
    lemma_sum_insert(limits, callers.take(i).to_set(), callers[i], f);
}

/// The sum over the first callers of a list is at most the sum over all.
proof fn lemma_sum_prefix(
    limits: Map<Seq<char>, RateLimitState>,
    callers: Seq<Seq<char>>,
    i: int,
    f: spec_fn(RateLimitState) -> nat,
)
    requires
        callers.no_duplicates(),
        0 <= i <= callers.len(),
    ensures
        sum_over(limits, callers.take(i).to_set(), f) <= sum_over(limits, callers.to_set(), f),
    decreases callers.len() - i,
{
    if i == callers.len() {
        assert(callers.take(i) =~= callers);
    } else {
        lemma_sum_next(limits, callers, i, f);
        lemma_sum_prefix(limits, callers, i + 1, f);
    }
}

/// Whether the end of the caller's window is a point in time.
pub(crate) fn fits(
    limits: &RateLimitMap,
    config: &Option<RouteConfig>,
    caller: &Address,
) -> (r: bool)
    requires
        rate_limits_complete(*limits),
    ensures
        r == reported_state_fits(rate_limit_contents(*limits), *config, address_id(*caller)),
{
    match (rate_limit_get(limits, caller), config) {
        (Some(state), Some(c)) => state.window_fits(c),
        _ => true,
    }
}

/// What is reported of a caller at `now`.
pub(crate) fn reported(
    limits: &RateLimitMap,
    unlimited: &RateLimitMap,
    config: &Option<RouteConfig>,
    caller: &Address,
    now: u64,
) -> (r: Option<RateLimitState>)
    requires
        rate_limits_complete(*limits),
        rate_limits_complete(*unlimited),
    ensures
        r == reported_state(
            rate_limit_contents(*limits),
            rate_limit_contents(*unlimited),
            *config,
            address_id(*caller),
            now,
        ),
{
    match rate_limit_get(limits, caller) {
        Some(state) => match config {
            Some(c) => Some(state.current(c, now)),
            None => Some(state),
        },
        None => match rate_limit_get(unlimited, caller) {
            Some(state) => match config {
                Some(c) => if c.max_calls_per_window > 0 {
                    Some(RateLimitState::fresh(now))
                } else {
                    Some(state.current(c, now))
                },
                None => Some(state),
            },
            None => None,
        },
    }
}

/// Every caller of which something is kept, once.
fn all_callers(limits: &RateLimitMap, unlimited: &RateLimitMap) -> (r: Vec<Address>)
    requires
        rate_limits_complete(*limits),
        rate_limits_complete(*unlimited),
    ensures
        callers_view(r@).no_duplicates(),
        callers_view(r@).to_set() == rate_limit_contents(*limits).dom().union(
            rate_limit_contents(*unlimited).dom(),
        ),
{
    let mut callers = rate_limit_callers(limits);
    let mut others = rate_limit_callers(unlimited);
    let ghost known = rate_limit_contents(*limits).dom();
    let ghost ids = callers_view(others@);
    let ghost all = others@;
    assert(ids.skip(ids.len() as int).to_set() =~= Set::empty());
    assert(known.union(Set::empty()) =~= known);
    while others.len() > 0
        invariant
            rate_limits_complete(*limits),
            known == rate_limit_contents(*limits).dom(),
            ids == callers_view(all),
            ids.no_duplicates(),
            others.len() <= all.len(),
            others@ == all.take(others.len() as int),
            callers_view(callers@).no_duplicates(),
            callers_view(callers@).to_set() == known.union(
                ids.skip(others.len() as int).to_set(),
            ),
        decreases others.len(),
    {
        let ghost n = others.len() as int;
        let ghost before = callers_view(callers@);
        if let Some(caller) = others.pop() {
            let ghost id = address_id(caller);
            proof {
                assert(id == ids[n - 1]);
                assert(ids.skip(n - 1) =~= seq![id] + ids.skip(n));
                assert(others@ =~= all.take(n - 1));
                assert(ids.skip(n - 1).to_set() =~= ids.skip(n).to_set().insert(id)) by {
                    let (long, short) = (ids.skip(n - 1), ids.skip(n));
                    assert forall|c: Seq<char>| #[trigger]
                        long.to_set().contains(c) <==> short.to_set().insert(id).contains(c) by {
                        if long.contains(c) && c != id {
                            let j = choose|j: int| 0 <= j < long.len() && long[j] == c;
                            assert(short[j - 1] == c);
                        }
                        if short.contains(c) {
                            let j = choose|j: int| 0 <= j < short.len() && short[j] == c;
                            assert(long[j + 1] == c);
                        }
                        assert(long[0] == id);
                    }
                }
                assert(!ids.skip(n).contains(id));
            }
            if rate_limit_get(limits, &caller).is_none() {
                proof {
                    assert(callers_view(callers@.push(caller)) =~= before.push(id));
                    assert(!before.to_set().contains(id));
                    assert(!before.contains(id));
                    before.lemma_push_to_set_commute(id);
                    assert(known.union(ids.skip(n - 1).to_set()) =~= known.union(
                        ids.skip(n).to_set(),
                    ).insert(id));
                }
                callers.push(caller);
            } else {
                assert(known.union(ids.skip(n - 1).to_set()) =~= known.union(
                    ids.skip(n).to_set(),
                ));
            }
        }
    }
    assert(ids.skip(0) =~= ids);
    callers
}

/// The statistics of a route at `now`, or a trap where they do not fit their
/// types.
pub(crate) fn route_stats(
    limits: &RateLimitMap,
    unlimited: &RateLimitMap,
    config: &Option<RouteConfig>,
    now: u64,
) -> (r: Result<Option<RouteRateLimitStats>, Trap>)
    requires
        rate_limits_complete(*limits),
        rate_limits_complete(*unlimited),
    ensures
        ({
            let kept = rate_limit_contents(*limits);
            let states = reported_states(kept, rate_limit_contents(*unlimited), *config, now);
            &&& r is Ok <==> {
                &&& all_fit(kept, *config)
                &&& calls_of(states) <= u32::MAX
                &&& violations_of(states) <= u32::MAX
            }
            &&& r matches Ok(stats) ==> are_stats_of(states, stats)
        }),
{
    let ghost kept = rate_limit_contents(*limits);
    let ghost states = reported_states(kept, rate_limit_contents(*unlimited), *config, now);
    let ghost calls = |state: RateLimitState| state.calls_in_window as nat;
    let ghost violations = |state: RateLimitState| state.total_violations as nat;
    let callers = all_callers(limits, unlimited);
    let ghost ids = callers_view(callers@);
    proof {
        assert(states.dom() =~= ids.to_set());
        assert(ids.take(0).to_set() =~= Set::empty());
        lemma_sum_empty(states, calls);
        lemma_sum_empty(states, violations);
        assert forall|i: int| 0 <= i < ids.len() implies states.contains_key(
            #[trigger] ids[i],
        ) by {
            assert(ids.contains(ids[i]));
        }
    }
    if callers.len() == 0 {
        proof {
            assert(ids =~= ids.take(0));
            assert forall|caller: Seq<char>| #[trigger]
                reported_state_fits(kept, *config, caller) by {
                assert(!states.contains_key(caller));
            }
        }
        return Ok(None);
    }
    let mut total_calls_in_window: u32 = 0;
    let mut total_violations: u32 = 0;
    let mut earliest: u64 = u64::MAX;
    let mut i: usize = 0;
    while i < callers.len()
        invariant
            rate_limits_complete(*limits),
            rate_limits_complete(*unlimited),
            i <= callers.len(),
            kept == rate_limit_contents(*limits),
            states == reported_states(kept, rate_limit_contents(*unlimited), *config, now),
            calls == (|state: RateLimitState| state.calls_in_window as nat),
            violations == (|state: RateLimitState| state.total_violations as nat),
            ids == callers_view(callers@),
            ids.no_duplicates(),
            ids.to_set() == states.dom(),
            forall|j: int| 0 <= j < ids.len() ==> states.contains_key(#[trigger] ids[j]),
            total_calls_in_window == sum_over(states, ids.take(i as int).to_set(), calls),
            total_violations == sum_over(states, ids.take(i as int).to_set(), violations),
            forall|j: int| 0 <= j < i ==> reported_state_fits(kept, *config, #[trigger] ids[j]),
            forall|j: int| 0 <= j < i ==> earliest <= states[#[trigger] ids[j]].window_start,
            i == 0 ==> earliest == u64::MAX,
            i > 0 ==> exists|j: int|
                0 <= j < i && states[#[trigger] ids[j]].window_start == earliest,
        decreases callers.len() - i,
    {
        let caller = &callers[i];
        proof {
            assert(ids[i as int] == address_id(*caller));
            assert(states.contains_key(ids[i as int]));
            lemma_sum_next(states, ids, i as int, calls);
            lemma_sum_next(states, ids, i as int, violations);
            lemma_sum_prefix(states, ids, i + 1, calls);
            lemma_sum_prefix(states, ids, i + 1, violations);
        }
        if !fits(limits, config, caller) {
            return Err(Trap);
        }
        if let Some(state) = reported(limits, unlimited, config, caller, now) {
            assert(states[ids[i as int]] == state);
            if total_calls_in_window > u32::MAX - state.calls_in_window {
                return Err(Trap);
            }
            if total_violations > u32::MAX - state.total_violations {
                return Err(Trap);
            }
            total_calls_in_window = total_calls_in_window + state.calls_in_window;
            total_violations = total_violations + state.total_violations;
            if i == 0 || state.window_start < earliest {
                earliest = state.window_start;
                assert(states[ids[i as int]].window_start == earliest);
            }
        }
        i = i + 1;
    }
    proof {
        assert(ids.take(ids.len() as int) =~= ids);
        assert forall|caller: Seq<char>| #[trigger] states.contains_key(caller) implies exists|
            j: int,
        |
            0 <= j < ids.len() && #[trigger] ids[j] == caller by {
            assert(ids.contains(caller));
        }
        assert forall|caller: Seq<char>| #[trigger]
            reported_state_fits(kept, *config, caller) by {
            if kept.contains_key(caller) {
                assert(states.contains_key(caller));
            }
        }
        let j = choose|j: int|
            0 <= j < ids.len() && states[#[trigger] ids[j]].window_start == earliest;
        assert(states.contains_key(ids[j]));
    }
    Ok(
        Some(
            RouteRateLimitStats {
                total_calls_in_window,
                window_start: earliest,
                total_violations,
            },
        ),
    )
}

} // verus!
