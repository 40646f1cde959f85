//! The stream bridge: the per-peer byte relay between a local TCP stream
//! and a transport connection.
//!
//! A reader thread outside this crate splits the local byte stream into
//! chunks of whatever size its reads return; each chunk travels the
//! transport in order and is appended, in order, to the far side's local
//! stream. The relay neither reorders nor corrupts: concatenating the
//! chunks on arrival reproduces exactly the bytes that were read. A
//! zero-length payload is a keep-alive — it may trigger transport-level
//! setup but carries no data and is never counted as traffic.

use vstd::prelude::*;
use crate::config::LOCAL_DIAL_ATTEMPTS;
use crate::metrics::{
    lemma_sat_add_n_compose, sat_add_n, NetworkMetrics, record_packet_received,
};
use crate::send_queue::{drain_sent, lemma_drain_all_success};

verus! {

/// The byte stream that a sequence of chunks carries, in order.
pub open spec fn concat_chunks(chunks: Seq<Seq<u8>>) -> Seq<u8>
    decreases chunks.len(),
{
    if chunks.len() == 0 {
        Seq::empty()
    } else {
        concat_chunks(chunks.drop_last()) + chunks.last()
    }
}

/// How many chunks carry data (a zero-length chunk is a keep-alive).
pub open spec fn count_nonempty(chunks: Seq<Seq<u8>>) -> int
    decreases chunks.len(),
{
    if chunks.len() == 0 {
        0
    } else {
        count_nonempty(chunks.drop_last()) + if chunks.last().len() > 0 {
            1int
        } else {
            0int
        }
    }
}

/// Total bytes the chunks carry.
pub open spec fn total_len(chunks: Seq<Seq<u8>>) -> int
    decreases chunks.len(),
{
    if chunks.len() == 0 {
        0
    } else {
        total_len(chunks.drop_last()) + chunks.last().len()
    }
}

/// The state of a bridge's local stream slot: a dropped or errored local
/// connection leaves the slot empty until the coordination loop binds a
/// new one.
#[derive(Clone, Copy, Debug, PartialEq, Eq, Structural)]
pub enum LocalEndpoint {
    /// No local stream bound; inbound data cannot be delivered.
    Empty,
    /// One local stream bound; it alone carries this bridge's bytes.
    Bound,
}

/// One local↔peer data path. The stream itself lives outside this crate;
/// here the slot records whether one is bound.
pub struct StreamBridge {
    /// The local stream slot.
    pub local: LocalEndpoint,
}

impl StreamBridge {
    /// A bridge with no local stream yet.
    pub fn new() -> (b: StreamBridge)
        ensures
            b.local is Empty,
    {
        StreamBridge { local: LocalEndpoint::Empty }
    }

    /// The coordination loop bound a newly accepted local stream.
    pub fn bind_local(&mut self)
        ensures
            final(self).local is Bound,
    {
        self.local = LocalEndpoint::Bound;
    }

    /// The local stream ended (reader saw EOF or an error, or a write
    /// failed): release the slot so a future connection may rebind it.
    pub fn release_local(&mut self)
        ensures
            final(self).local is Empty,
    {
        self.local = LocalEndpoint::Empty;
    }

    /// Whether inbound payloads can be delivered right now.
    pub fn can_deliver(&self) -> (r: bool)
        ensures
            r == (self.local is Bound),
    {
        matches!(self.local, LocalEndpoint::Bound)
    }
}

/// Append `payload` to the bytes bound for the local stream.
fn append_bytes(out: &mut Vec<u8>, payload: &Vec<u8>)
    ensures
        final(out)@ == old(out)@ + payload@,
{
    let n = payload.len();
    let mut k: usize = 0;
    while k < n
        invariant
            0 <= k <= n == payload@.len(),
            out@ =~= old(out)@ + payload@.take(k as int),
        decreases n - k,
    {
        out.push(payload[k]);
        proof {
            assert(out@ =~= old(out)@ + payload@.take(k + 1));
        }
        k = k + 1;
    }
    proof {
        assert(old(out)@ + payload@.take(n as int) =~= old(out)@ + payload@);
    }
}

/// Deliver one batch of inbound transport payloads to the local stream:
/// each payload's bytes are appended in arrival order, so the batch
/// extends the local stream by exactly the bytes the chunks carry.
/// Zero-length keep-alives deliver nothing and are not counted.
#[verifier::loop_isolation(false)]
pub fn deliver_inbound_batch(
    out: &mut Vec<u8>,
    messages: &Vec<Vec<u8>>,
    metrics: &mut NetworkMetrics,
)
    ensures
        final(out)@ == old(out)@ + concat_chunks(messages.deep_view()),
        final(metrics).packets_received == sat_add_n(
            old(metrics).packets_received,
            count_nonempty(messages.deep_view()),
        ),
        final(metrics).bytes_received == sat_add_n(
            old(metrics).bytes_received,
            total_len(messages.deep_view()),
        ),
        final(metrics).packets_sent == old(metrics).packets_sent,
        final(metrics).bytes_sent == old(metrics).bytes_sent,
        final(metrics).packets_dropped == old(metrics).packets_dropped,
{
    let ghost all = messages.deep_view();
    let n = messages.len();
    let mut i: usize = 0;
    while i < n
        invariant
            0 <= i <= n == all.len(),
            out@ =~= old(out)@ + concat_chunks(all.take(i as int)),
            metrics.packets_received == sat_add_n(
                old(metrics).packets_received,
                count_nonempty(all.take(i as int)),
            ),
            metrics.bytes_received == sat_add_n(
                old(metrics).bytes_received,
                total_len(all.take(i as int)),
            ),
            metrics.packets_sent == old(metrics).packets_sent,
            metrics.bytes_sent == old(metrics).bytes_sent,
            metrics.packets_dropped == old(metrics).packets_dropped,
        decreases n - i,
    {
        proof {
            assert(all.take(i + 1).drop_last() =~= all.take(i as int));
            assert(all.take(i + 1).last() == all[i as int]);
            lemma_count_nonneg(all.take(i as int));
            lemma_total_len_nonneg(all.take(i as int));
        }
        let payload = &messages[i];
        if payload.len() > 0 {
            record_packet_received(metrics, payload.len() as u64);
            proof {
                lemma_sat_add_n_compose(
                    old(metrics).packets_received,
                    count_nonempty(all.take(i as int)),
                    1,
                );
                lemma_sat_add_n_compose(
                    old(metrics).bytes_received,
                    total_len(all.take(i as int)),
                    all[i as int].len() as int,
                );
            }
            append_bytes(out, payload);
        }
        proof {
            assert(out@ =~= old(out)@ + concat_chunks(all.take(i + 1)));
        }
        i = i + 1;
    }
    proof {
        assert(all.take(n as int) =~= all);
    }
}

/// A chunk sequence carries a non-negative number of data chunks.
proof fn lemma_count_nonneg(chunks: Seq<Seq<u8>>)
    ensures
        count_nonempty(chunks) >= 0,
    decreases chunks.len(),
{
    if chunks.len() > 0 {
        lemma_count_nonneg(chunks.drop_last());
    }
}

/// A chunk sequence carries a non-negative number of bytes.
proof fn lemma_total_len_nonneg(chunks: Seq<Seq<u8>>)
    ensures
        total_len(chunks) >= 0,
    decreases chunks.len(),
{
    if chunks.len() > 0 {
        lemma_total_len_nonneg(chunks.drop_last());
    }
}

/// Dialing the local service for a new peer is retried a bounded number
/// of times before the peer is rejected.
pub fn should_retry_local_dial(attempts_made: u32) -> (r: bool)
    ensures
        r == (attempts_made < LOCAL_DIAL_ATTEMPTS),
{
    attempts_made < LOCAL_DIAL_ATTEMPTS
}

/// However the reader split the byte stream into chunks, a relay that
/// keeps the chunks in order hands over exactly the original bytes:
/// carried through a lossless drain of the send queue and concatenated on
/// arrival, the chunks reproduce `data`.
pub proof fn lemma_stream_round_trip(
    data: Seq<u8>,
    chunks: Seq<Seq<u8>>,
    outcomes: Seq<bool>,
    pos: int,
)
    requires
        concat_chunks(chunks) == data,
        0 <= pos,
        pos + chunks.len() <= outcomes.len(),
        forall|j: int| pos <= j < pos + chunks.len() ==> outcomes[j],
    ensures
        concat_chunks(drain_sent(chunks, outcomes, pos)) == data,
{
    lemma_drain_all_success(chunks, outcomes, pos);
}

} // verus!
