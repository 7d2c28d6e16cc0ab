//! Per-server traffic metering: byte, message and estimated token counters.

use vstd::prelude::*;
use crate::text::same_text;

verus! {

/// Largest value a counter can hold; counters saturate there.
pub open spec fn counter_max() -> int {
    u64::MAX as int
}

/// Addition that stops at the largest counter value.
pub open spec fn sat_add(a: int, b: int) -> int {
    if a + b > counter_max() {
        counter_max()
    } else {
        a + b
    }
}

/// Estimated token count of a payload of `bytes` bytes: one token per four
/// bytes, rounded up.
pub open spec fn token_estimate(bytes: int) -> int {
    (bytes + 3) / 4
}

/// Which way a line travelled, seen from this side of the stream.
#[derive(Debug, Clone, Copy, PartialEq, Eq, Structural)]
pub enum TrafficDirection {
    Inbound,
    Outbound,
}

/// Usage counters of one server.
#[derive(Debug, Clone)]
pub struct ContextUsageStats {
    pub server_id: String,
    pub bytes_in: u64,
    pub bytes_out: u64,
    pub total_bytes: u64,
    pub tokens_in: u64,
    pub tokens_out: u64,
    pub total_tokens: u64,
    pub messages_in: u64,
    pub messages_out: u64,
    pub updated_at: String,
}

impl ContextUsageStats {
    /// Totals are the sums of the inbound and outbound fields.
    pub open spec fn totals_consistent(&self) -> bool {
        &&& self.total_bytes as int == sat_add(self.bytes_in as int, self.bytes_out as int)
        &&& self.total_tokens as int == sat_add(self.tokens_in as int, self.tokens_out as int)
    }

    /// The same counters after one line of `bytes` bytes went `direction`,
    /// stamped at `now`.
    pub open spec fn after(
        self,
        direction: TrafficDirection,
        bytes: int,
        now: String,
    ) -> ContextUsageStats {
        let tokens = token_estimate(bytes);
        let bytes_in = if direction == TrafficDirection::Inbound {
            sat_add(self.bytes_in as int, bytes)
        } else {
            self.bytes_in as int
        };
        let bytes_out = if direction == TrafficDirection::Outbound {
            sat_add(self.bytes_out as int, bytes)
        } else {
            self.bytes_out as int
        };
        let tokens_in = if direction == TrafficDirection::Inbound {
            sat_add(self.tokens_in as int, tokens)
        } else {
            self.tokens_in as int
        };
        let tokens_out = if direction == TrafficDirection::Outbound {
            sat_add(self.tokens_out as int, tokens)
        } else {
            self.tokens_out as int
        };
        ContextUsageStats {
            server_id: self.server_id,
            bytes_in: bytes_in as u64,
            bytes_out: bytes_out as u64,
            total_bytes: sat_add(bytes_in, bytes_out) as u64,
            tokens_in: tokens_in as u64,
            tokens_out: tokens_out as u64,
            total_tokens: sat_add(tokens_in, tokens_out) as u64,
            messages_in: if direction == TrafficDirection::Inbound {
                sat_add(self.messages_in as int, 1) as u64
            } else {
                self.messages_in
            },
            messages_out: if direction == TrafficDirection::Outbound {
                sat_add(self.messages_out as int, 1) as u64
            } else {
                self.messages_out
            },
            updated_at: now,
        }
    }

    /// Fresh counters for `server_id`, all zero, stamped at `now`.
    pub fn new(server_id: &str, now: String) -> (r: ContextUsageStats)
        ensures
            r.server_id@ == server_id@,
            r.bytes_in == 0 && r.bytes_out == 0 && r.total_bytes == 0,
            r.tokens_in == 0 && r.tokens_out == 0 && r.total_tokens == 0,
            r.messages_in == 0 && r.messages_out == 0,
            r.updated_at == now,
            r.totals_consistent(),
    {
        ContextUsageStats {
            server_id: server_id.to_owned(),
            bytes_in: 0,
            bytes_out: 0,
            total_bytes: 0,
            tokens_in: 0,
            tokens_out: 0,
            total_tokens: 0,
            messages_in: 0,
            messages_out: 0,
            updated_at: now,
        }
    }

    /// A copy of these counters, as handed to subscribers.
    pub fn snapshot(&self) -> (r: ContextUsageStats)
        ensures
            r == *self,
    {
        ContextUsageStats {
            server_id: self.server_id.clone(),
            bytes_in: self.bytes_in,
            bytes_out: self.bytes_out,
            total_bytes: self.total_bytes,
            tokens_in: self.tokens_in,
            tokens_out: self.tokens_out,
            total_tokens: self.total_tokens,
            messages_in: self.messages_in,
            messages_out: self.messages_out,
            updated_at: self.updated_at.clone(),
        }
    }

    /// Counts one line of `bytes` bytes travelling `direction`.
    pub fn count(&mut self, direction: TrafficDirection, bytes: usize, now: String)
        ensures
            *final(self) == old(self).after(direction, bytes as int, now),
            final(self).totals_consistent(),
    {
        let tokens = estimate_tokens(bytes);
        let bytes = bytes as u64;
        match direction {
            TrafficDirection::Inbound => {
                self.bytes_in = self.bytes_in.saturating_add(bytes);
                self.tokens_in = self.tokens_in.saturating_add(tokens);
                self.messages_in = self.messages_in.saturating_add(1);
            },
            TrafficDirection::Outbound => {
                self.bytes_out = self.bytes_out.saturating_add(bytes);
                self.tokens_out = self.tokens_out.saturating_add(tokens);
                self.messages_out = self.messages_out.saturating_add(1);
            },
        }
        self.total_bytes = self.bytes_in.saturating_add(self.bytes_out);
        self.total_tokens = self.tokens_in.saturating_add(self.tokens_out);
        self.updated_at = now;
    }
}

/// Estimated token count of a payload of `bytes` bytes (one per four bytes,
/// rounded up). An approximation, not a tokenizer.
pub fn estimate_tokens(bytes: usize) -> (r: u64)
    ensures
        r as int == token_estimate(bytes as int),
{
    let quarter = (bytes / 4) as u64;
    if bytes % 4 == 0 {
        quarter
    } else {
        quarter + 1
    }
}

/// The counters of every server that has seen traffic, one entry per server.
pub struct TrafficMeter {
    pub entries: Vec<ContextUsageStats>,
}

/// Zeroed counters for `id`.
pub open spec fn fresh_stats(id: Seq<char>, template: ContextUsageStats) -> bool {
    &&& template.server_id@ == id
    &&& template.bytes_in == 0 && template.bytes_out == 0 && template.total_bytes == 0
    &&& template.tokens_in == 0 && template.tokens_out == 0 && template.total_tokens == 0
    &&& template.messages_in == 0 && template.messages_out == 0
}

impl TrafficMeter {
    /// No two entries count the same server.
    pub open spec fn wf(&self) -> bool {
        forall|i: int, j: int|
            0 <= i < j < self.entries@.len() ==> self.entries@[i].server_id@
                != self.entries@[j].server_id@
    }

    /// Whether `id` has an entry.
    pub open spec fn tracks(&self, id: Seq<char>) -> bool {
        exists|i: int| 0 <= i < self.entries@.len() && self.entries@[i].server_id@ == id
    }

    /// The position of the entry of `id`, when it has one.
    pub open spec fn slot(&self, id: Seq<char>) -> int {
        choose|i: int| 0 <= i < self.entries@.len() && self.entries@[i].server_id@ == id
    }

    pub fn new() -> (r: TrafficMeter)
        ensures
            r.wf(),
            r.entries@.len() == 0,
    {
        TrafficMeter { entries: Vec::new() }
    }

    fn find(&self, server_id: &str) -> (r: Option<usize>)
        ensures
            r is Some <==> self.tracks(server_id@),
            r matches Some(i) ==> i < self.entries@.len() && self.entries@[i as int].server_id@
                == server_id@,
    {
        let mut i: usize = 0;
        while i < self.entries.len()
            invariant
                i <= self.entries@.len(),
                forall|k: int| 0 <= k < i ==> self.entries@[k].server_id@ != server_id@,
            decreases self.entries@.len() - i,
        {
            if same_text(self.entries[i].server_id.as_str(), server_id) {
                return Some(i);
            }
            i = i + 1;
        }
        None
    }

    /// Counts one line of `payload` for `server_id` and returns a copy of the
    /// server's counters afterwards. A server seen for the first time starts
    /// from zero.
    pub fn record(
        &mut self,
        server_id: &str,
        direction: TrafficDirection,
        payload: &str,
        now: String,
    ) -> (r: ContextUsageStats)
        requires
            old(self).wf(),
        ensures
            final(self).wf(),
            final(self).tracks(server_id@),
            old(self).tracks(server_id@) ==> {
                let i = old(self).slot(server_id@);
                &&& r == old(self).entries@[i].after(direction, payload.len() as int, now)
                &&& final(self).entries@ == old(self).entries@.update(i, r)
            },
            !old(self).tracks(server_id@) ==> {
                &&& exists|z: ContextUsageStats|
                    fresh_stats(server_id@, z) && r == z.after(
                        direction,
                        payload.len() as int,
                        now,
                    )
                &&& final(self).entries@ == old(self).entries@.push(r)
            },
    {
        let bytes = payload.len();
        match self.find(server_id) {
            Some(i) => {
                proof {
                    let j = self.slot(server_id@);
                    if j != i as int {
                        if j < i as int {
                            assert(self.entries@[j].server_id@ != self.entries@[i as int].server_id@);
                        } else {
                            assert(self.entries@[i as int].server_id@ != self.entries@[j].server_id@);
                        }
                    }
                }
                let mut stats = self.entries[i].snapshot();
                stats.count(direction, bytes, now);
                let ghost prev = self.entries@;
                self.entries.set(i, stats.snapshot());
                assert(prev[i as int].server_id@ == stats.server_id@);
                assert(self.entries@ == prev.update(i as int, stats));
                assert(self.entries@[i as int].server_id@ == server_id@);
                stats
            },
            None => {
                let mut stats = ContextUsageStats::new(server_id, now.clone());
                let ghost z = stats;
                assert(fresh_stats(server_id@, z));
                stats.count(direction, bytes, now);
                assert(stats == z.after(direction, payload.len() as int, now));
                self.entries.push(stats.snapshot());
                assert(self.entries@[self.entries@.len() - 1].server_id@ == server_id@);
                stats
            },
        }
    }

    /// The counters of `server_id`, if it has seen traffic.
    pub fn usage_of(&self, server_id: &str) -> (r: Option<ContextUsageStats>)
        ensures
            r is Some <==> self.tracks(server_id@),
            r matches Some(s) ==> s.server_id@ == server_id@,
    {
        match self.find(server_id) {
            Some(i) => Some(self.entries[i].snapshot()),
            None => None,
        }
    }
}

/// Counts one line of traffic of `server_id` at the current time and returns
/// the server's counters afterwards, the snapshot that subscribers get.
pub fn record_traffic(meter: &mut TrafficMeter, server_id: &str, direction: TrafficDirection, payload: &str) -> (r:
    ContextUsageStats)
    requires
        old(meter).wf(),
    ensures
        final(meter).wf(),
        final(meter).tracks(server_id@),
        old(meter).tracks(server_id@) ==> {
            let i = old(meter).slot(server_id@);
            &&& r == old(meter).entries@[i].after(direction, payload.len() as int, r.updated_at)
            &&& final(meter).entries@ == old(meter).entries@.update(i, r)
        },
        !old(meter).tracks(server_id@) ==> {
            &&& exists|z: ContextUsageStats|
                fresh_stats(server_id@, z) && r == z.after(direction, payload.len() as int, r.updated_at)
            &&& final(meter).entries@ == old(meter).entries@.push(r)
        },
{
    let now = crate::clock::now_rfc3339();
    meter.record(server_id, direction, payload, now)
}

/// One outbound line of 40 bytes and one inbound line of 80 bytes, counted
/// from zero, give 120 bytes in all, one message each way, 10 tokens out and
/// 20 in.
pub proof fn lemma_two_lines(z: ContextUsageStats, id: Seq<char>, t1: String, t2: String)
    requires
        fresh_stats(id, z),
    ensures
        ({
            let r = z.after(TrafficDirection::Outbound, 40, t1).after(TrafficDirection::Inbound, 80, t2);
            &&& r.total_bytes == 120 && r.bytes_out == 40 && r.bytes_in == 80
            &&& r.messages_out == 1 && r.messages_in == 1
            &&& r.tokens_out == 10 && r.tokens_in == 20 && r.total_tokens == 30
        }),
{
}

} // verus!
