//! Call logs: ring buffers of a route's most recent calls, and their summaries.
use crate::host::{
    call_log_complete, call_log_contents, call_log_get, call_log_len, call_log_push, call_log_set,
    new_call_log,
};
use crate::types::{CallLogEntry, CallLogEntryView, CallLogState, CallLogSummary, CallLogView};
use soroban_sdk::Env;
use vstd::prelude::*;

verus! {

/// Holds of the entries whose outcome is `success`.
pub open spec fn has_outcome(success: bool) -> spec_fn(CallLogEntryView) -> bool {
    |entry: CallLogEntryView| entry.success == success
}

/// What a list of entries holds.
pub open spec fn entries_view(entries: Seq<CallLogEntry>) -> Seq<CallLogEntryView> {
    entries.map_values(|entry: CallLogEntry| entry@)
}

/// The last elements of a sequence, `capacity` at most.
pub open spec fn most_recent<T>(all: Seq<T>, capacity: u32) -> Seq<T> {
    if all.len() > capacity {
        all.skip(all.len() - capacity)
    } else {
        all
    }
}

impl CallLogView {
    /// A log without entries.
    pub open spec fn blank() -> CallLogView {
        CallLogView { entries: Seq::empty(), head: 0 }
    }

    /// Whether an entry can be added to a log that keeps `capacity` entries: the
    /// log is not full, or its head is a slot in use.
    pub open spec fn can_append(self, capacity: u32) -> bool {
        self.entries.len() < capacity || self.head < self.entries.len()
    }

    /// The log after an entry was added, where `capacity` entries are kept. A log
    /// that has not wrapped takes a new slot, and a full one overwrites the slot at
    /// its head and moves the head on. A log that was kept at another capacity is
    /// laid out anew.
    pub open spec fn appended(self, capacity: u32, entry: CallLogEntryView) -> CallLogView {
        if self.entries.len() < capacity && self.head == 0 {
            CallLogView { entries: self.entries.push(entry), ..self }
        } else if self.entries.len() == capacity {
            CallLogView {
                entries: self.entries.update(self.head as int, entry),
                head: ((self.head + 1) % (capacity as int)) as u32,
            }
        } else {
            CallLogView { entries: most_recent(self.ordered().push(entry), capacity), head: 0 }
        }
    }

    /// The entries from the head on, round the ring.
    pub open spec fn ordered(self) -> Seq<CallLogEntryView> {
        Seq::new(
            self.entries.len(),
            |i: int| self.entries[(self.head + i) % (self.entries.len() as int)],
        )
    }
}

impl CallLogState {
    /// A log without entries.
    pub fn blank(env: &Env) -> (r: CallLogState)
        ensures
            r@ == CallLogView::blank(),
            call_log_complete(r.entries),
    {
        CallLogState { entries: new_call_log(env), head: 0 }
    }

    /// Whether an entry can be added to a log that keeps `capacity` entries.
    pub fn can_append(&self, capacity: u32) -> (r: bool)
        ensures
            r == self@.can_append(capacity),
    {
        let len = call_log_len(&self.entries);
        len < capacity || self.head < len
    }

    /// Adds an entry to a log that keeps `capacity` entries.
    pub fn append(&mut self, env: &Env, capacity: u32, entry: &CallLogEntry)
        requires
            call_log_complete(old(self).entries),
            capacity > 0,
            old(self)@.can_append(capacity),
        ensures
            final(self)@ == old(self)@.appended(capacity, entry@),
            call_log_complete(final(self).entries),
    {
        let len = call_log_len(&self.entries);
        if len < capacity && self.head == 0 {
            call_log_push(&mut self.entries, entry);
        } else if len == capacity {
            let head = self.head;
            call_log_set(&mut self.entries, head, entry);
            self.head = (head + 1) % capacity;
        } else {
            *self = self.laid_out_anew(env, capacity, entry);
        }
    }

    /// The log in slots from the first on, with one more entry.
    fn laid_out_anew(&self, env: &Env, capacity: u32, entry: &CallLogEntry) -> (r: CallLogState)
        requires
            call_log_complete(self.entries),
            capacity > 0,
        ensures
            r@.entries == most_recent(self@.ordered().push(entry@), capacity),
            r@.head == 0,
            call_log_complete(r.entries),
    {
        let len = call_log_len(&self.entries);
        let first: u32 = if len < capacity {
            0
        } else {
            len - capacity + 1
        };
        let mut entries = new_call_log(env);
        let mut i: u32 = first;
        while i < len
            invariant
                call_log_complete(self.entries),
                call_log_complete(entries),
                first <= i <= len,
                len == self@.entries.len(),
                capacity > 0,
                first == (if len < capacity {
                    0
                } else {
                    len - capacity + 1
                }),
                call_log_contents(entries) == self@.ordered().subrange(first as int, i as int),
            decreases len - i,
        {
            if let Some(kept) = self.nth(i) {
                proof {
                    assert(self@.ordered().subrange(first as int, i + 1)
                        =~= self@.ordered().subrange(first as int, i as int).push(
                        self@.ordered()[i as int],
                    ));
                }
                call_log_push(&mut entries, &kept);
            }
            i = i + 1;
        }
        call_log_push(&mut entries, entry);
        assert(call_log_contents(entries) =~= most_recent(
            self@.ordered().push(entry@),
            capacity,
        ));
        CallLogState { entries, head: 0 }
    }

    /// The place of the first of the last `capacity` entries.
    fn first_shown(&self, capacity: u32) -> (r: u32)
        ensures
            r <= self@.entries.len(),
            most_recent(self@.ordered(), capacity) == self@.ordered().skip(r as int),
    {
        let len = call_log_len(&self.entries);
        assert(self@.ordered().skip(0) =~= self@.ordered());
        if len > capacity {
            len - capacity
        } else {
            0
        }
    }

    /// The last `capacity` entries, oldest first.
    pub fn recent(&self, capacity: u32) -> (r: Vec<CallLogEntry>)
        requires
            call_log_complete(self.entries),
        ensures
            entries_view(r@) == most_recent(self@.ordered(), capacity),
    {
        let len = call_log_len(&self.entries);
        let first = self.first_shown(capacity);
        let mut result: Vec<CallLogEntry> = Vec::new();
        let mut i: u32 = first;
        while i < len
            invariant
                call_log_complete(self.entries),
                first <= i <= len,
                len == self@.entries.len(),
                entries_view(result@) == self@.ordered().subrange(first as int, i as int),
            decreases len - i,
        {
            if let Some(entry) = self.nth(i) {
                proof {
                    assert(entries_view(result@.push(entry)) =~= entries_view(result@).push(
                        entry@,
                    ));
                    assert(self@.ordered().subrange(first as int, i + 1)
                        =~= self@.ordered().subrange(first as int, i as int).push(
                        self@.ordered()[i as int],
                    ));
                }
                result.push(entry);
            }
            i = i + 1;
        }
        assert(self@.ordered().subrange(first as int, len as int) =~= self@.ordered().skip(
            first as int,
        ));
        result
    }

    /// Those of the last `capacity` entries whose outcome is `success`, oldest
    /// first.
    pub fn filtered(&self, capacity: u32, success: bool) -> (r: Vec<CallLogEntry>)
        requires
            call_log_complete(self.entries),
        ensures
            entries_view(r@) == most_recent(self@.ordered(), capacity).filter(
                has_outcome(success),
            ),
    {
        let len = call_log_len(&self.entries);
        let first = self.first_shown(capacity);
        let mut result: Vec<CallLogEntry> = Vec::new();
        let mut i: u32 = first;
        proof {
            reveal(Seq::filter);
            assert(self@.ordered().subrange(first as int, first as int).filter(
                has_outcome(success),
            ) =~= entries_view(result@));
        }
        while i < len
            invariant
                call_log_complete(self.entries),
                first <= i <= len,
                len == self@.entries.len(),
                entries_view(result@) == self@.ordered().subrange(first as int, i as int).filter(
                    has_outcome(success),
                ),
            decreases len - i,
        {
            if let Some(entry) = self.nth(i) {
                proof {
                    let seen = self@.ordered().subrange(first as int, i as int);
                    assert(entries_view(result@.push(entry)) =~= entries_view(result@).push(
                        entry@,
                    ));
                    assert(self@.ordered().subrange(first as int, i + 1) =~= seen.push(entry@));
                    seen.lemma_filter_push(entry@, has_outcome(success));
                }
                if entry.success == success {
                    result.push(entry);
                }
            }
            i = i + 1;
        }
        assert(self@.ordered().subrange(first as int, len as int) =~= self@.ordered().skip(
            first as int,
        ));
        result
    }

    /// The entry at place `i`, counted from the oldest.
    pub fn nth(&self, i: u32) -> (r: Option<CallLogEntry>)
        requires
            call_log_complete(self.entries),
        ensures
            r is Some == (i < self@.entries.len()),
            r matches Some(entry) ==> entry@ == self@.ordered()[i as int],
    {
        let len = call_log_len(&self.entries);
        if i < len {
            let position: u64 = (self.head as u64 + i as u64) % (len as u64);
            call_log_get(&self.entries, position as u32)
        } else {
            None
        }
    }
}

impl CallLogSummary {
    /// The summary of a route without logged calls.
    pub open spec fn spec_blank() -> CallLogSummary {
        CallLogSummary {
            total_calls: 0,
            success_count: 0,
            failure_count: 0,
            last_call_timestamp: 0,
        }
    }

    /// Whether the counters can take one more call.
    pub open spec fn spec_can_count(self, success: bool) -> bool {
        &&& self.total_calls < u32::MAX
        &&& if success {
            self.success_count < u32::MAX
        } else {
            self.failure_count < u32::MAX
        }
    }

    /// The summary after one more call at `now`.
    pub open spec fn spec_counted(self, success: bool, now: u64) -> CallLogSummary {
        CallLogSummary {
            total_calls: (self.total_calls + 1) as u32,
            success_count: if success {
                (self.success_count + 1) as u32
            } else {
                self.success_count
            },
            failure_count: if success {
                self.failure_count
            } else {
                (self.failure_count + 1) as u32
            },
            last_call_timestamp: now,
        }
    }

    /// The summary of a route without logged calls.
    pub fn blank() -> (r: CallLogSummary)
        ensures
            r == Self::spec_blank(),
    {
        CallLogSummary {
            total_calls: 0,
            success_count: 0,
            failure_count: 0,
            last_call_timestamp: 0,
        }
    }

    /// Whether the counters can take one more call.
    pub fn can_count(&self, success: bool) -> (r: bool)
        ensures
            r == self.spec_can_count(success),
    {
        self.total_calls < u32::MAX && (if success {
            self.success_count < u32::MAX
        } else {
            self.failure_count < u32::MAX
        })
    }

    /// The summary after one more call at `now`.
    pub fn counted(&self, success: bool, now: u64) -> (r: CallLogSummary)
        requires
            self.spec_can_count(success),
        ensures
            r == self.spec_counted(success, now),
    {
        let mut next = *self;
        next.total_calls = next.total_calls + 1;
        if success {
            next.success_count = next.success_count + 1;
        } else {
            next.failure_count = next.failure_count + 1;
        }
        next.last_call_timestamp = now;
        next
    }
}

} // verus!
