//! Traffic counters and per-session snapshots.
//!
//! The counters only ever grow (saturating at the type's maximum), so many
//! workers may bump them independently; readers take snapshots and compare
//! them by delta. The process embedding this crate holds one
//! [`NetworkMetrics`] value and passes it to whichever component records
//! traffic.

use vstd::prelude::*;
use crate::text::{dec_str, u64_to_string};

verus! {

/// `a + k`, saturating at `u64::MAX` — how a counter grows over `k`
/// single increments.
pub open spec fn sat_add_n(a: u64, k: int) -> u64 {
    if a + k > u64::MAX {
        u64::MAX
    } else {
        (a + k) as u64
    }
}

/// Saturating addition composes: adding in two steps is adding the sum.
pub proof fn lemma_sat_add_n_compose(a: u64, x: int, y: int)
    requires
        x >= 0,
        y >= 0,
    ensures
        sat_add_n(sat_add_n(a, x), y) == sat_add_n(a, x + y),
{
}

/// Process-wide traffic counters, monotonically increasing.
pub struct NetworkMetrics {
    pub packets_sent: u64,
    pub packets_received: u64,
    pub bytes_sent: u64,
    pub bytes_received: u64,
    pub packets_dropped: u64,
}

impl NetworkMetrics {
    /// Fresh counters, all zero.
    pub fn new() -> (m: NetworkMetrics)
        ensures
            m == (NetworkMetrics {
                packets_sent: 0,
                packets_received: 0,
                bytes_sent: 0,
                bytes_received: 0,
                packets_dropped: 0,
            }),
    {
        NetworkMetrics {
            packets_sent: 0,
            packets_received: 0,
            bytes_sent: 0,
            bytes_received: 0,
            packets_dropped: 0,
        }
    }
}

/// Record one packet of `bytes` bytes handed to the transport.
pub fn record_packet_sent(metrics: &mut NetworkMetrics, bytes: u64)
    ensures
        final(metrics).packets_sent == old(metrics).packets_sent.saturating_add(1),
        final(metrics).bytes_sent == old(metrics).bytes_sent.saturating_add(bytes),
        final(metrics).packets_received == old(metrics).packets_received,
        final(metrics).bytes_received == old(metrics).bytes_received,
        final(metrics).packets_dropped == old(metrics).packets_dropped,
{
    metrics.packets_sent = metrics.packets_sent.saturating_add(1);
    metrics.bytes_sent = metrics.bytes_sent.saturating_add(bytes);
}

/// Record one packet of `bytes` bytes received from the transport.
pub fn record_packet_received(metrics: &mut NetworkMetrics, bytes: u64)
    ensures
        final(metrics).packets_received == old(metrics).packets_received.saturating_add(1),
        final(metrics).bytes_received == old(metrics).bytes_received.saturating_add(bytes),
        final(metrics).packets_sent == old(metrics).packets_sent,
        final(metrics).bytes_sent == old(metrics).bytes_sent,
        final(metrics).packets_dropped == old(metrics).packets_dropped,
{
    metrics.packets_received = metrics.packets_received.saturating_add(1);
    metrics.bytes_received = metrics.bytes_received.saturating_add(bytes);
}

/// Record one packet dropped (queue saturated or retries exhausted).
pub fn record_packet_dropped(metrics: &mut NetworkMetrics)
    ensures
        final(metrics).packets_dropped == old(metrics).packets_dropped.saturating_add(1),
        final(metrics).packets_sent == old(metrics).packets_sent,
        final(metrics).bytes_sent == old(metrics).bytes_sent,
        final(metrics).packets_received == old(metrics).packets_received,
        final(metrics).bytes_received == old(metrics).bytes_received,
{
    metrics.packets_dropped = metrics.packets_dropped.saturating_add(1);
}

/// A point-in-time copy of the counters.
#[derive(Clone, Debug, PartialEq, Eq, Structural)]
pub struct MetricsSnapshot {
    pub packets_sent: u64,
    pub packets_received: u64,
    pub bytes_sent: u64,
    pub bytes_received: u64,
    pub packets_dropped: u64,
}

/// Copy the current counter values into a snapshot.
pub fn get_snapshot(metrics: &NetworkMetrics) -> (s: MetricsSnapshot)
    ensures
        s.packets_sent == metrics.packets_sent,
        s.packets_received == metrics.packets_received,
        s.bytes_sent == metrics.bytes_sent,
        s.bytes_received == metrics.bytes_received,
        s.packets_dropped == metrics.packets_dropped,
{
    MetricsSnapshot {
        packets_sent: metrics.packets_sent,
        packets_received: metrics.packets_received,
        bytes_sent: metrics.bytes_sent,
        bytes_received: metrics.bytes_received,
        packets_dropped: metrics.packets_dropped,
    }
}

impl MetricsSnapshot {
    /// Counter growth since `earlier`, field by field (saturating at zero,
    /// so comparing against a later snapshot yields zero, not wraparound).
    pub fn delta(&self, earlier: &MetricsSnapshot) -> (d: MetricsSnapshot)
        ensures
            d.packets_sent == self.packets_sent.saturating_sub(earlier.packets_sent),
            d.packets_received == self.packets_received.saturating_sub(earlier.packets_received),
            d.bytes_sent == self.bytes_sent.saturating_sub(earlier.bytes_sent),
            d.bytes_received == self.bytes_received.saturating_sub(earlier.bytes_received),
            d.packets_dropped == self.packets_dropped.saturating_sub(earlier.packets_dropped),
    {
        MetricsSnapshot {
            packets_sent: self.packets_sent.saturating_sub(earlier.packets_sent),
            packets_received: self.packets_received.saturating_sub(earlier.packets_received),
            bytes_sent: self.bytes_sent.saturating_sub(earlier.bytes_sent),
            bytes_received: self.bytes_received.saturating_sub(earlier.bytes_received),
            packets_dropped: self.packets_dropped.saturating_sub(earlier.packets_dropped),
        }
    }
}

/// The report text for snapshot `s` over `duration_ms` milliseconds:
/// whole-second average rates in each direction, and the drop count. A
/// span under one second is too short to rate.
pub open spec fn spec_report(s: MetricsSnapshot, duration_ms: u64) -> Seq<char> {
    if duration_ms / 1000 == 0 {
        "measured span too short to compute rates"@
    } else {
        let secs = duration_ms / 1000;
        "sent: "@ + dec_str((s.bytes_sent / secs) as nat) + " B/s ("@ + dec_str(
            (s.packets_sent / secs) as nat,
        ) + " pkt/s) | recv: "@ + dec_str((s.bytes_received / secs) as nat) + " B/s ("@ + dec_str(
            (s.packets_received / secs) as nat,
        ) + " pkt/s) | dropped: "@ + dec_str(s.packets_dropped as nat)
    }
}

impl MetricsSnapshot {
    /// Render the report for this snapshot over `duration_ms`
    /// milliseconds.
    pub fn format_report(&self, duration_ms: u64) -> (r: String)
        ensures
            r@ == spec_report(*self, duration_ms),
    {
        let secs = duration_ms / 1000;
        if secs == 0 {
            return String::from_str("measured span too short to compute rates");
        }
        let mut r = String::from_str("sent: ");
        let t = u64_to_string(self.bytes_sent / secs);
        r.append(t.as_str());
        r.append(" B/s (");
        let t = u64_to_string(self.packets_sent / secs);
        r.append(t.as_str());
        r.append(" pkt/s) | recv: ");
        let t = u64_to_string(self.bytes_received / secs);
        r.append(t.as_str());
        r.append(" B/s (");
        let t = u64_to_string(self.packets_received / secs);
        r.append(t.as_str());
        r.append(" pkt/s) | dropped: ");
        let t = u64_to_string(self.packets_dropped);
        r.append(t.as_str());
        proof {
            assert(r@ =~= spec_report(*self, duration_ms));
        }
        r
    }
}

/// Tracks the counters over one session: remembers the values and the
/// clock reading at session start, and reports growth since then.
pub struct SessionMetrics {
    pub start_ms: u64,
    pub initial_snapshot: MetricsSnapshot,
}

impl SessionMetrics {
    /// Open a session at monotonic-clock reading `now_ms` with the
    /// counters currently at `metrics`.
    pub fn new(metrics: &NetworkMetrics, now_ms: u64) -> (s: SessionMetrics)
        ensures
            s.start_ms == now_ms,
            s.initial_snapshot.packets_sent == metrics.packets_sent,
            s.initial_snapshot.packets_received == metrics.packets_received,
            s.initial_snapshot.bytes_sent == metrics.bytes_sent,
            s.initial_snapshot.bytes_received == metrics.bytes_received,
            s.initial_snapshot.packets_dropped == metrics.packets_dropped,
    {
        SessionMetrics { start_ms: now_ms, initial_snapshot: get_snapshot(metrics) }
    }

    /// Counter growth since the session opened, and the elapsed time in
    /// milliseconds at clock reading `now_ms`.
    pub fn get_session_stats(&self, metrics: &NetworkMetrics, now_ms: u64) -> (r: (
        MetricsSnapshot,
        u64,
    ))
        ensures
            r.0.packets_sent == metrics.packets_sent.saturating_sub(
                self.initial_snapshot.packets_sent,
            ),
            r.0.packets_received == metrics.packets_received.saturating_sub(
                self.initial_snapshot.packets_received,
            ),
            r.0.bytes_sent == metrics.bytes_sent.saturating_sub(self.initial_snapshot.bytes_sent),
            r.0.bytes_received == metrics.bytes_received.saturating_sub(
                self.initial_snapshot.bytes_received,
            ),
            r.0.packets_dropped == metrics.packets_dropped.saturating_sub(
                self.initial_snapshot.packets_dropped,
            ),
            r.1 == now_ms.saturating_sub(self.start_ms),
    {
        let current = get_snapshot(metrics);
        let delta = current.delta(&self.initial_snapshot);
        (delta, now_ms.saturating_sub(self.start_ms))
    }

    /// Render the session's report line at clock reading `now_ms`: the
    /// rates over what this session saw. The caller logs the line.
    pub fn print_report(&self, metrics: &NetworkMetrics, now_ms: u64) -> (r: String)
        ensures
            r@ == "performance: "@ + spec_report(
                spec_session_delta(*self, *metrics),
                now_ms.saturating_sub(self.start_ms),
            ),
    {
        let (stats, duration_ms) = self.get_session_stats(metrics, now_ms);
        let mut r = String::from_str("performance: ");
        let body = stats.format_report(duration_ms);
        r.append(body.as_str());
        proof {
            assert(stats == spec_session_delta(*self, *metrics));
        }
        r
    }
}

/// Counter growth during a session: the current counters less the
/// snapshot taken when it opened.
pub open spec fn spec_session_delta(s: SessionMetrics, m: NetworkMetrics) -> MetricsSnapshot {
    MetricsSnapshot {
        packets_sent: m.packets_sent.saturating_sub(s.initial_snapshot.packets_sent),
        packets_received: m.packets_received.saturating_sub(s.initial_snapshot.packets_received),
        bytes_sent: m.bytes_sent.saturating_sub(s.initial_snapshot.bytes_sent),
        bytes_received: m.bytes_received.saturating_sub(s.initial_snapshot.bytes_received),
        packets_dropped: m.packets_dropped.saturating_sub(s.initial_snapshot.packets_dropped),
    }
}

} // verus!
