//! Call logs over several requests.
use crate::call_log::{has_outcome, most_recent};
use crate::laws::state::{law_step_keeps_invariant, Request};
use crate::ledger::{EventData, Ledger};
use crate::types::{CallLogEntryView, CallLogView, RouteConfig};
use vstd::prelude::*;

verus! {

/// Adding an entry keeps the most recent entries, as many as the capacity says,
/// in their order. The new entry is the last. The capacity may be another than
/// before.
pub proof fn law_append_drops_the_oldest(log: CallLogView, capacity: u32, entry: CallLogEntryView)
    requires
        capacity > 0,
        log.head == 0 || log.head < log.entries.len() || log.entries.len() < capacity,
    ensures
        log.can_append(capacity),
        log.appended(capacity, entry).head == 0 || log.appended(capacity, entry).head
            < log.appended(capacity, entry).entries.len(),
        log.appended(capacity, entry).entries.len() <= capacity,
        log.appended(capacity, entry).ordered() == most_recent(
            log.ordered().push(entry),
            capacity,
        ),
{
    let after = log.appended(capacity, entry);
    let len = log.entries.len() as int;
    let expected = most_recent(log.ordered().push(entry), capacity);
    if len == capacity {
        let head = log.head as int;
        lemma_wrap(head + 1, len);
        assert forall|i: int| 0 <= i < len implies after.ordered()[i] == expected[i] by {
            lemma_wrap(after.head + i, len);
            lemma_wrap(head + i + 1, len);
            if i + 1 < len {
                assert(expected[i] == log.ordered()[i + 1]);
            }
        }
        assert(after.ordered() =~= expected);
    } else {
        if log.head == 0 {
            lemma_unwrapped(log);
        }
        lemma_unwrapped(after);
        assert(after.ordered() =~= expected);
    }
}

/// A remainder by at most one subtraction.
proof fn lemma_wrap(x: int, len: int)
    requires
        0 <= x < 2 * len,
    ensures
        x % len == if x < len {
            x
        } else {
            x - len
        },
{
    if x < len {
        vstd::arithmetic::div_mod::lemma_small_mod(x as nat, len as nat);
    } else {
        vstd::arithmetic::div_mod::lemma_mod_sub_multiples_vanish(x, len);
        vstd::arithmetic::div_mod::lemma_small_mod((x - len) as nat, len as nat);
    }
}

/// A log that starts with its first slot holds its slots in order.
proof fn lemma_unwrapped(log: CallLogView)
    requires
        log.head == 0,
    ensures
        log.ordered() == log.entries,
{
    assert forall|i: int| 0 <= i < log.entries.len() implies log.ordered()[i] == log.entries[i] by {
        lemma_wrap(i, log.entries.len() as int);
    }
    assert(log.ordered() =~= log.entries);
}

/// The entry of an outcome.
pub open spec fn entry_of(request: Request) -> CallLogEntryView
    recommends
        request is PostCall,
{
    CallLogEntryView {
        caller: request->PostCall_caller,
        timestamp: request->PostCall_now,
        success: request->PostCall_success,
        route: request->PostCall_route,
    }
}

impl Ledger {
    /// Whether a request reports an outcome on the route that is logged.
    pub open spec fn logs(self, request: Request, route: Seq<u8>) -> bool {
        &&& request is PostCall
        &&& request->PostCall_route == route
        &&& self.accepts(request)
        &&& self.config(route) matches Some(config) && config.log_retention > 0
    }

    /// Whether a request clears the log of the route.
    pub open spec fn clears(self, request: Request, route: Seq<u8>) -> bool {
        &&& request is ResetRouteCallLog
        &&& request->ResetRouteCallLog_route == route
        &&& self.accepts(request)
    }

    /// The entries that the route's log held, and those that the requests have
    /// logged, since it was last cleared.
    pub open spec fn logged(self, route: Seq<u8>, requests: Seq<Request>) -> Seq<CallLogEntryView>
        decreases requests.len(),
    {
        if requests.len() == 0 {
            self.log_or_blank(route).ordered()
        } else {
            let before = self.run(requests.drop_last());
            let rest = self.logged(route, requests.drop_last());
            if before.logs(requests.last(), route) {
                rest.push(entry_of(requests.last()))
            } else if before.clears(requests.last(), route) {
                Seq::empty()
            } else {
                rest
            }
        }
    }

    /// How many outcomes on the route the requests have logged, of those that
    /// succeeded or of those that failed.
    pub open spec fn logged_count(
        self,
        route: Seq<u8>,
        requests: Seq<Request>,
        success: bool,
    ) -> nat
        decreases requests.len(),
    {
        if requests.len() == 0 {
            0
        } else {
            let rest = self.logged_count(route, requests.drop_last(), success);
            if self.run(requests.drop_last()).logs(requests.last(), route)
                && requests.last()->PostCall_success == success {
                rest + 1
            } else {
                rest
            }
        }
    }

    /// The time of the last outcome on the route that was logged.
    pub open spec fn last_logged(self, route: Seq<u8>, requests: Seq<Request>) -> u64
        decreases requests.len(),
    {
        if requests.len() == 0 {
            self.summary_or_blank(route).last_call_timestamp
        } else if self.run(requests.drop_last()).logs(requests.last(), route) {
            requests.last()->PostCall_now
        } else {
            self.last_logged(route, requests.drop_last())
        }
    }
}

/// What a request does to the log and the summary of a route.
proof fn lemma_step_logs(ledger: Ledger, request: Request, route: Seq<u8>)
    ensures
        ({
            let after = ledger.step(request);
            let entry = entry_of(request);
            &&& ledger.logs(request, route) ==> after.log(route) == Some(
                ledger.log_or_blank(route).appended(
                    ledger.config(route)->Some_0.log_retention,
                    entry,
                ),
            ) && after.summary(route) == Some(
                ledger.summary_or_blank(route).spec_counted(entry.success, entry.timestamp),
            ) && ledger.summary_or_blank(route).spec_can_count(entry.success)
            &&& !ledger.logs(request, route) ==> after.summary(route) == ledger.summary(route)
            &&& ledger.clears(request, route) ==> after.log(route) is None
            &&& !ledger.logs(request, route) && !ledger.clears(request, route) ==> after.log(route)
                == ledger.log(route)
            &&& (request is ConfigureRoute ==> request->ConfigureRoute_route != route)
                ==> after.config(route) == ledger.config(route)
        }),
{
    match request {
        Request::PreCall { caller, route: r, now } => {
            law_pre_call_logs_nothing(ledger, caller, r, route, now);
        },
        Request::PostCall { caller, route: r, success, now } => {
            let noted = ledger.emit("post_call"@, EventData::Outcome(caller, r, success));
            if let Some(config) = ledger.config(r) {
                let recorded = noted.record(config, caller, r, success, now);
                let settled = recorded.settle(config, r, success, now);
                assert(settled.log(route) == recorded.log(route));
                assert(settled.summary(route) == recorded.summary(route));
                assert(settled.config(route) == ledger.config(route));
                if r != route || config.log_retention == 0 {
                    assert(recorded.log(route) == ledger.log(route));
                    assert(recorded.summary(route) == ledger.summary(route));
                }
            }
        },
        _ => {},
    }
}

/// Whatever is requested, the log of a route holds the most recent of the entries
/// that were logged since it was last cleared, oldest first, and what is shown of
/// it is no more than its settings keep.
pub proof fn law_log_holds_the_last_entries(
    ledger: Ledger,
    route: Seq<u8>,
    requests: Seq<Request>,
)
    requires
        ledger.well_formed(),
    ensures
        ({
            let after = ledger.run(requests);
            let all = ledger.logged(route, requests);
            &&& after.well_formed()
            &&& after.log_or_blank(route).ordered().is_suffix_of(all)
            &&& after.shown_log(route).is_suffix_of(all)
            &&& after.config(route) matches Some(config) ==> after.shown_log(route).len()
                <= config.log_retention
        }),
    decreases requests.len(),
{
    if requests.len() > 0 {
        let rest = requests.drop_last();
        let last = requests.last();
        let before = ledger.run(rest);
        law_log_holds_the_last_entries(ledger, route, rest);
        law_step_keeps_invariant(before, last);
        lemma_step_logs(before, last, route);
        assert(before.route_well_formed(route));
        if before.logs(last, route) {
            let capacity = before.config(route)->Some_0.log_retention;
            law_append_drops_the_oldest(before.log_or_blank(route), capacity, entry_of(last));
        }
    }
    let log = ledger.run(requests).log_or_blank(route).ordered();
    let all = ledger.logged(route, requests);
    assert(log.is_suffix_of(all));
    assert(ledger.run(requests).shown_log(route).is_suffix_of(all));
}

/// Where the last elements of two sequences agree, they still do after both have
/// got the same one more.
proof fn lemma_most_recent_push<T>(a: Seq<T>, b: Seq<T>, capacity: u32, x: T)
    requires
        capacity > 0,
        most_recent(a, capacity) == most_recent(b, capacity),
    ensures
        most_recent(a.push(x), capacity) == most_recent(b.push(x), capacity),
{
    let m = most_recent(a, capacity);
    assert(most_recent(a.push(x), capacity) =~= most_recent(m.push(x), capacity));
    assert(most_recent(b.push(x), capacity) =~= most_recent(m.push(x), capacity));
}

/// As long as the settings of a route stay, its log shows exactly the most recent
/// entries, as many as the settings keep, whatever else is requested.
pub proof fn law_log_shows_the_most_recent(
    ledger: Ledger,
    config: RouteConfig,
    route: Seq<u8>,
    requests: Seq<Request>,
)
    requires
        ledger.well_formed(),
        ledger.config(route) == Some(config),
        config.log_retention > 0,
        forall|i: int|
            0 <= i < requests.len() ==> ((#[trigger] requests[i]) is ConfigureRoute
                ==> requests[i]->ConfigureRoute_route != route),
    ensures
        ledger.run(requests).well_formed(),
        ledger.run(requests).config(route) == Some(config),
        ledger.run(requests).shown_log(route) == most_recent(
            ledger.logged(route, requests),
            config.log_retention,
        ),
    decreases requests.len(),
{
    if requests.len() > 0 {
        let rest = requests.drop_last();
        let last = requests[requests.len() - 1];
        let before = ledger.run(rest);
        let capacity = config.log_retention;
        assert forall|i: int| 0 <= i < rest.len() implies #[trigger] rest[i] == requests[i] by {
        }
        law_log_shows_the_most_recent(ledger, config, route, rest);
        law_step_keeps_invariant(before, last);
        lemma_step_logs(before, last, route);
        assert(before.route_well_formed(route));
        if before.logs(last, route) {
            let log = before.log_or_blank(route);
            let entry = entry_of(last);
            law_append_drops_the_oldest(log, capacity, entry);
            lemma_most_recent_push(log.ordered(), ledger.logged(route, rest), capacity, entry);
            let kept = log.appended(capacity, entry).ordered();
            assert(most_recent(kept, capacity) == kept);
        } else if before.clears(last, route) {
            assert(ledger.run(requests).log_or_blank(route).ordered() =~= Seq::empty());
        }
    }
}

/// Where the clock does not go back, a log is in the order of its timestamps,
/// whatever is requested.
pub proof fn law_log_is_chronological(ledger: Ledger, route: Seq<u8>, requests: Seq<Request>)
    requires
        ledger.well_formed(),
        ledger.log(route) is None,
        forall|i: int, j: int|
            0 <= i <= j < requests.len() && (#[trigger] requests[i]) is PostCall && (
            #[trigger] requests[j]) is PostCall ==> requests[i]->PostCall_now
                <= requests[j]->PostCall_now,
    ensures
        ({
            let log = ledger.run(requests).shown_log(route);
            forall|i: int, j: int|
                0 <= i <= j < log.len() ==> (#[trigger] log[i]).timestamp <= (
                #[trigger] log[j]).timestamp
        }),
{
    law_log_holds_the_last_entries(ledger, route, requests);
    lemma_logged_in_order(ledger, route, requests);
    let log = ledger.run(requests).shown_log(route);
    let all = ledger.logged(route, requests);
    let n = all.len() - log.len();
    assert forall|i: int| 0 <= i < log.len() implies #[trigger] log[i] == all[n + i] by {
    }
}

/// What is logged is logged in order, and at the time of an outcome.
proof fn lemma_logged_in_order(ledger: Ledger, route: Seq<u8>, requests: Seq<Request>)
    requires
        ledger.log(route) is None,
        forall|i: int, j: int|
            0 <= i <= j < requests.len() && (#[trigger] requests[i]) is PostCall && (
            #[trigger] requests[j]) is PostCall ==> requests[i]->PostCall_now
                <= requests[j]->PostCall_now,
    ensures
        ({
            let all = ledger.logged(route, requests);
            &&& forall|i: int, j: int|
                0 <= i <= j < all.len() ==> (#[trigger] all[i]).timestamp <= (
                #[trigger] all[j]).timestamp
            &&& forall|i: int|
                0 <= i < all.len() ==> exists|k: int|
                    0 <= k < requests.len() && (#[trigger] requests[k]) is PostCall
                        && requests[k]->PostCall_now == (#[trigger] all[i]).timestamp
        }),
    decreases requests.len(),
{
    if requests.len() > 0 {
        let rest = requests.drop_last();
        let last = requests[requests.len() - 1];
        assert forall|i: int| 0 <= i < rest.len() implies #[trigger] rest[i] == requests[i] by {
        }
        lemma_logged_in_order(ledger, route, rest);
        let earlier = ledger.logged(route, rest);
        let all = ledger.logged(route, requests);
        assert forall|i: int| 0 <= i < all.len() implies exists|k: int|
            0 <= k < requests.len() && (#[trigger] requests[k]) is PostCall
                && requests[k]->PostCall_now == (#[trigger] all[i]).timestamp by {
            if i < earlier.len() {
                assert(all[i] == earlier[i]);
                let k = choose|k: int|
                    0 <= k < rest.len() && (#[trigger] rest[k]) is PostCall
                        && rest[k]->PostCall_now == earlier[i].timestamp;
                assert(requests[k] == rest[k]);
            } else {
                assert(requests[requests.len() - 1] == last);
            }
        }
    }
}

/// The summary of a route exists once an outcome was logged. It counts all that
/// were, also those that the log no longer holds or that were cleared, and names
/// the time of the last.
pub proof fn law_summary_counts_all(ledger: Ledger, route: Seq<u8>, requests: Seq<Request>)
    ensures
        ({
            let before = ledger.summary_or_blank(route);
            let summary = ledger.run(requests).summary_or_blank(route);
            let successes = ledger.logged_count(route, requests, true);
            let failures = ledger.logged_count(route, requests, false);
            &&& ledger.run(requests).summary(route) is Some <==> ledger.summary(route) is Some
                || successes + failures > 0
            &&& summary.total_calls == before.total_calls + successes + failures
            &&& summary.success_count == before.success_count + successes
            &&& summary.failure_count == before.failure_count + failures
            &&& summary.last_call_timestamp == ledger.last_logged(route, requests)
        }),
    decreases requests.len(),
{
    if requests.len() > 0 {
        let rest = requests.drop_last();
        law_summary_counts_all(ledger, route, rest);
        lemma_step_logs(ledger.run(rest), requests.last(), route);
    }
}

/// No more successes or failures are shown than the summary counts.
pub proof fn law_summary_covers_the_log(ledger: Ledger, route: Seq<u8>)
    requires
        ledger.well_formed(),
    ensures
        ledger.shown_log(route).filter(has_outcome(true)).len() <= ledger.summary_or_blank(
            route,
        ).success_count,
        ledger.shown_log(route).filter(has_outcome(false)).len() <= ledger.summary_or_blank(
            route,
        ).failure_count,
{
    let log = ledger.log_or_blank(route).ordered();
    let limit = ledger.log_limit(route);
    assert(ledger.route_well_formed(route));
    crate::laws::state::lemma_most_recent_filter(log, limit, true);
    crate::laws::state::lemma_most_recent_filter(log, limit, false);
}

/// The hook before a call leaves all logs, summaries and settings as they are.
pub proof fn law_pre_call_logs_nothing(
    ledger: Ledger,
    caller: Seq<char>,
    route: Seq<u8>,
    any_route: Seq<u8>,
    now: u64,
)
    ensures
        ledger.pre_call(caller, route, now).0.log(any_route) == ledger.log(any_route),
        ledger.pre_call(caller, route, now).0.summary(any_route) == ledger.summary(any_route),
        ledger.pre_call(caller, route, now).0.config(any_route) == ledger.config(any_route),
{
}

/// A route that keeps no log, or has no settings, has its log and its summary
/// left as they are.
pub proof fn law_no_log_without_retention(
    ledger: Ledger,
    caller: Seq<char>,
    route: Seq<u8>,
    success: bool,
    now: u64,
)
    requires
        ledger.config(route) matches Some(config) ==> config.log_retention == 0,
    ensures
        ledger.post_call(caller, route, success, now).log(route) == ledger.log(route),
        ledger.post_call(caller, route, success, now).summary(route) == ledger.summary(route),
{
}

/// Every entry that is shown is in exactly one of the two filtered forms.
pub proof fn law_filters_share_out_the_log(ledger: Ledger, route: Seq<u8>)
    ensures
        ({
            let log = ledger.shown_log(route);
            &&& log.filter(has_outcome(true)).len() + log.filter(has_outcome(false)).len()
                == log.len()
            &&& forall|success: bool, i: int|
                0 <= i < log.filter(has_outcome(success)).len() ==> (#[trigger] log.filter(
                    has_outcome(success),
                )[i]).success == success
        }),
{
    let log = ledger.shown_log(route);
    lemma_filters(log);
    assert forall|success: bool, i: int|
        0 <= i < log.filter(has_outcome(success)).len() implies (#[trigger] log.filter(
        has_outcome(success),
    )[i]).success == success by {
        log.lemma_filter_pred(has_outcome(success), i);
    }
}

/// Every entry has one outcome.
proof fn lemma_filters(entries: Seq<CallLogEntryView>)
    ensures
        entries.filter(has_outcome(true)).len() + entries.filter(has_outcome(false)).len()
            == entries.len(),
    decreases entries.len(),
{
    reveal(Seq::filter);
    if entries.len() > 0 {
        lemma_filters(entries.drop_last());
    }
}

/// Once its log is cleared, a route has no entries. The summary, the settings and
/// the route's state stay.
pub proof fn law_reset_clears_the_log(ledger: Ledger, admin: Seq<char>, route: Seq<u8>)
    requires
        ledger.admin() == Some(admin),
    ensures
        ({
            let after = ledger.reset_route_call_log(admin, route).0;
            &&& after.log(route) is None
            &&& after.shown_log(route).len() == 0
            &&& after.summary(route) == ledger.summary(route)
            &&& after.config(route) == ledger.config(route)
            &&& after.call_state(route) == ledger.call_state(route)
            &&& after.events.last().data == EventData::Route(route)
        }),
{
}

} // verus!
