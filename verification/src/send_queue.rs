//! The reliable send queue: a bounded, retrying, order-preserving
//! outbound buffer, one per peer.
//!
//! Producers hand payloads to [`SendQueue::send`], which never blocks:
//! a full queue (or one whose worker has exited) drops the payload and
//! bumps the dropped counter. A dedicated worker takes tasks strictly in
//! enqueue order and offers each to the transport, retrying a failed send
//! a fixed number of times before giving the task up as dropped.
//!
//! The transport's send primitive is outside this crate; here it appears
//! as [`TransportModel`], a scripted sequence of attempt outcomes and a
//! log of the payloads whose send succeeded. The worker logic is verified
//! against every script, so it holds whatever the real transport answers.

use vstd::prelude::*;
use crate::config::RETRY_ATTEMPTS;
use crate::metrics::{lemma_sat_add_n_compose, sat_add_n, NetworkMetrics, record_packet_dropped};

verus! {

/// Bounded FIFO of payloads awaiting a transport send.
pub struct SendQueue {
    /// Waiting payloads, oldest first.
    pub tasks: Vec<Vec<u8>>,
    /// Most payloads the queue holds at once.
    pub capacity: usize,
    /// Whether the worker that owned this queue has exited.
    pub closed: bool,
}

impl SendQueue {
    /// The queued payloads, oldest first.
    pub open spec fn view(&self) -> Seq<Seq<u8>> {
        self.tasks.deep_view()
    }

    /// An empty, open queue holding at most `capacity` payloads.
    pub fn new(capacity: usize) -> (q: SendQueue)
        ensures
            q@ =~= Seq::<Seq<u8>>::empty(),
            q.capacity == capacity,
            !q.closed,
    {
        SendQueue { tasks: Vec::new(), capacity, closed: false }
    }

    /// Non-blocking enqueue. Returns `false` — dropping the payload and
    /// bumping the dropped counter — where the queue is full or its
    /// worker has exited; otherwise appends the payload behind the ones
    /// already waiting.
    pub fn send(&mut self, data: Vec<u8>, metrics: &mut NetworkMetrics) -> (r: bool)
        ensures
            r == (!old(self).closed && old(self)@.len() < old(self).capacity),
            final(self).capacity == old(self).capacity,
            final(self).closed == old(self).closed,
            r ==> final(self)@ =~= old(self)@.push(data@),
            r ==> *final(metrics) == *old(metrics),
            !r ==> final(self)@ == old(self)@,
            !r ==> *final(metrics) == (NetworkMetrics {
                packets_dropped: old(metrics).packets_dropped.saturating_add(1),
                ..*old(metrics)
            }),
    {
        if self.closed || self.tasks.len() >= self.capacity {
            record_packet_dropped(metrics);
            false
        } else {
            self.tasks.push(data);
            proof {
                assert(self@ =~~= old(self)@.push(data@));
            }
            true
        }
    }

    /// Take the oldest waiting payload, if any.
    pub fn pop_task(&mut self) -> (r: Option<Vec<u8>>)
        ensures
            final(self).capacity == old(self).capacity,
            final(self).closed == old(self).closed,
            match r {
                Some(t) => {
                    &&& old(self)@.len() > 0
                    &&& t@ == old(self)@[0]
                    &&& final(self)@ == old(self)@.drop_first()
                },
                None => old(self)@.len() == 0 && final(self)@ == old(self)@,
            },
    {
        if self.tasks.len() == 0 {
            None
        } else {
            let t = self.tasks.remove(0);
            proof {
                assert(self@ =~~= old(self)@.drop_first());
            }
            Some(t)
        }
    }

    /// Mark the queue closed: its worker has exited, and every further
    /// enqueue is refused.
    pub fn close(&mut self)
        ensures
            final(self).closed,
            final(self)@ == old(self)@,
            final(self).capacity == old(self).capacity,
    {
        self.closed = true;
    }
}

/// The transport's send primitive, as the worker sees it: each attempt
/// answers with the next outcome of a script, and a successful attempt
/// appends its payload to the log of delivered sends.
pub struct TransportModel {
    /// Outcome of each attempt, in the order the attempts are made.
    pub outcomes: Vec<bool>,
    /// How many attempts were made so far.
    pub pos: usize,
    /// Payloads of the successful attempts, in order.
    pub sent: Vec<Vec<u8>>,
}

impl TransportModel {
    /// The payloads delivered so far, in order.
    pub open spec fn sent_view(&self) -> Seq<Seq<u8>> {
        self.sent.deep_view()
    }

    /// A fresh transport that will answer attempts with `outcomes`.
    pub fn new(outcomes: Vec<bool>) -> (t: TransportModel)
        ensures
            t.outcomes == outcomes,
            t.pos == 0,
            t.sent_view() =~= Seq::<Seq<u8>>::empty(),
    {
        TransportModel { outcomes, pos: 0, sent: Vec::new() }
    }

    /// One send attempt: consumes the next scripted outcome; on success
    /// the payload counts as delivered.
    pub fn attempt_send(&mut self, data: &Vec<u8>) -> (r: bool)
        requires
            old(self).pos < old(self).outcomes@.len(),
        ensures
            r == old(self).outcomes@[old(self).pos as int],
            final(self).pos == old(self).pos + 1,
            final(self).outcomes == old(self).outcomes,
            r ==> final(self).sent_view() =~= old(self).sent_view().push(data@),
            !r ==> final(self).sent == old(self).sent,
    {
        let n = self.outcomes.len();
        let ok = self.outcomes[self.pos];
        self.pos = self.pos + 1;
        if ok {
            self.sent.push(vstd::slice::slice_to_vec(data.as_slice()));
            proof {
                assert(self.sent_view() =~~= old(self).sent_view().push(data@));
            }
        }
        ok
    }
}

/// Position of the first `true` among the `tries` outcomes starting at
/// `start`, if any.
pub open spec fn first_success(outcomes: Seq<bool>, start: int, tries: int) -> Option<int>
    decreases tries,
{
    if tries <= 0 || start < 0 || start >= outcomes.len() {
        None
    } else if outcomes[start] {
        Some(start)
    } else {
        first_success(outcomes, start + 1, tries - 1)
    }
}

/// Where `first_success` answers, it names the first `true` in range.
pub proof fn lemma_first_success(outcomes: Seq<bool>, start: int, tries: int)
    requires
        0 <= start,
    ensures
        match first_success(outcomes, start, tries) {
            Some(i) => start <= i < start + tries && i < outcomes.len() && outcomes[i] && (forall|
                j: int,
            | start <= j < i ==> !outcomes[j]),
            None => forall|j: int|
                start <= j < start + tries && j < outcomes.len() ==> !outcomes[j],
        },
    decreases tries,
{
    if tries <= 0 || start >= outcomes.len() {
    } else if outcomes[start] {
    } else {
        lemma_first_success(outcomes, start + 1, tries - 1);
    }
}

/// Offer `data` to the transport, retrying up to [`RETRY_ATTEMPTS`] times.
/// Returns whether some attempt succeeded; where none did, the payload is
/// given up and counted as dropped.
pub fn send_reliable_with_retry(
    transport: &mut TransportModel,
    data: &Vec<u8>,
    metrics: &mut NetworkMetrics,
) -> (r: bool)
    requires
        old(transport).pos + RETRY_ATTEMPTS <= old(transport).outcomes@.len(),
    ensures
        final(transport).outcomes == old(transport).outcomes,
        match first_success(
            old(transport).outcomes@,
            old(transport).pos as int,
            RETRY_ATTEMPTS as int,
        ) {
            Some(i) => {
                &&& r
                &&& final(transport).pos == i + 1
                &&& final(transport).sent_view() == old(transport).sent_view().push(data@)
                &&& *final(metrics) == *old(metrics)
            },
            None => {
                &&& !r
                &&& final(transport).pos == old(transport).pos + RETRY_ATTEMPTS
                &&& final(transport).sent == old(transport).sent
                &&& *final(metrics) == (NetworkMetrics {
                    packets_dropped: old(metrics).packets_dropped.saturating_add(1),
                    ..*old(metrics)
                })
            },
        },
{
    let ghost pos0 = old(transport).pos as int;
    let mut attempt: usize = 0;
    let mut delivered = false;
    while attempt < RETRY_ATTEMPTS && !delivered
        invariant
            0 <= attempt <= RETRY_ATTEMPTS,
            pos0 + RETRY_ATTEMPTS <= transport.outcomes@.len(),
            transport.outcomes == old(transport).outcomes,
            *metrics == *old(metrics),
            !delivered ==> {
                &&& transport.pos == pos0 + attempt
                &&& transport.sent == old(transport).sent
                &&& forall|j: int| pos0 <= j < pos0 + attempt ==> !transport.outcomes@[j]
            },
            delivered ==> {
                &&& attempt < RETRY_ATTEMPTS
                &&& transport.pos == pos0 + attempt + 1
                &&& pos0 + attempt < transport.outcomes@.len()
                &&& transport.outcomes@[pos0 + attempt]
                &&& forall|j: int| pos0 <= j < pos0 + attempt ==> !transport.outcomes@[j]
                &&& transport.sent_view() == old(transport).sent_view().push(data@)
            },
        decreases RETRY_ATTEMPTS - attempt + if delivered {
            0int
        } else {
            1int
        },
    {
        let ok = transport.attempt_send(data);
        if ok {
            delivered = true;
        } else {
            attempt = attempt + 1;
        }
    }
    proof {
        lemma_first_success(transport.outcomes@, pos0, RETRY_ATTEMPTS as int);
        if delivered {
            lemma_first_success_found(transport.outcomes@, pos0, RETRY_ATTEMPTS as int, pos0
                + attempt);
        }
    }
    if !delivered {
        record_packet_dropped(metrics);
    }
    delivered
}

/// A `true` outcome preceded only by `false` ones is the first success.
proof fn lemma_first_success_found(outcomes: Seq<bool>, start: int, tries: int, i: int)
    requires
        0 <= start <= i < start + tries,
        i < outcomes.len(),
        outcomes[i],
        forall|j: int| start <= j < i ==> !outcomes[j],
    ensures
        first_success(outcomes, start, tries) == Some(i),
    decreases tries,
{
    if start == i {
    } else {
        lemma_first_success_found(outcomes, start + 1, tries - 1, i);
    }
}

/// Payloads a worker delivers when it drains `tasks` in order against the
/// outcome script from position `pos` on.
pub open spec fn drain_sent(tasks: Seq<Seq<u8>>, outcomes: Seq<bool>, pos: int) -> Seq<Seq<u8>>
    decreases tasks.len(),
{
    if tasks.len() == 0 {
        Seq::empty()
    } else {
        match first_success(outcomes, pos, RETRY_ATTEMPTS as int) {
            Some(i) => seq![tasks[0]] + drain_sent(tasks.drop_first(), outcomes, i + 1),
            None => drain_sent(tasks.drop_first(), outcomes, pos + RETRY_ATTEMPTS),
        }
    }
}

/// How many tasks such a drain gives up as dropped.
pub open spec fn drain_drops(tasks: Seq<Seq<u8>>, outcomes: Seq<bool>, pos: int) -> int
    decreases tasks.len(),
{
    if tasks.len() == 0 {
        0
    } else {
        match first_success(outcomes, pos, RETRY_ATTEMPTS as int) {
            Some(i) => drain_drops(tasks.drop_first(), outcomes, i + 1),
            None => 1 + drain_drops(tasks.drop_first(), outcomes, pos + RETRY_ATTEMPTS),
        }
    }
}

/// Where the outcome script stands after such a drain.
pub open spec fn drain_pos(tasks: Seq<Seq<u8>>, outcomes: Seq<bool>, pos: int) -> int
    decreases tasks.len(),
{
    if tasks.len() == 0 {
        pos
    } else {
        match first_success(outcomes, pos, RETRY_ATTEMPTS as int) {
            Some(i) => drain_pos(tasks.drop_first(), outcomes, i + 1),
            None => drain_pos(tasks.drop_first(), outcomes, pos + RETRY_ATTEMPTS),
        }
    }
}

/// A drain never counts a negative number of drops.
proof fn lemma_drain_drops_nonneg(tasks: Seq<Seq<u8>>, outcomes: Seq<bool>, pos: int)
    ensures
        drain_drops(tasks, outcomes, pos) >= 0,
    decreases tasks.len(),
{
    if tasks.len() > 0 {
        match first_success(outcomes, pos, RETRY_ATTEMPTS as int) {
            Some(i) => lemma_drain_drops_nonneg(tasks.drop_first(), outcomes, i + 1),
            None => lemma_drain_drops_nonneg(
                tasks.drop_first(),
                outcomes,
                pos + RETRY_ATTEMPTS,
            ),
        }
    }
}

/// Run the worker until the queue is empty: tasks leave strictly in
/// enqueue order, each either delivered to the transport or counted as
/// dropped after its retries are exhausted.
pub fn worker_drain(
    queue: &mut SendQueue,
    transport: &mut TransportModel,
    metrics: &mut NetworkMetrics,
)
    requires
        old(transport).pos + RETRY_ATTEMPTS * old(queue)@.len() <= old(transport).outcomes@.len(),
    ensures
        final(queue)@.len() == 0,
        final(queue).capacity == old(queue).capacity,
        final(queue).closed == old(queue).closed,
        final(transport).outcomes == old(transport).outcomes,
        final(transport).pos == drain_pos(old(queue)@, old(transport).outcomes@, old(transport).pos as int),
        final(transport).sent_view() =~= old(transport).sent_view() + drain_sent(
            old(queue)@,
            old(transport).outcomes@,
            old(transport).pos as int,
        ),
        final(metrics).packets_dropped == sat_add_n(
            old(metrics).packets_dropped,
            drain_drops(old(queue)@, old(transport).outcomes@, old(transport).pos as int),
        ),
        final(metrics).packets_sent == old(metrics).packets_sent,
        final(metrics).bytes_sent == old(metrics).bytes_sent,
        final(metrics).packets_received == old(metrics).packets_received,
        final(metrics).bytes_received == old(metrics).bytes_received,
    decreases old(queue)@.len(),
{
    proof {
        lemma_first_success(
            old(transport).outcomes@,
            old(transport).pos as int,
            RETRY_ATTEMPTS as int,
        );
    }
    let ghost tasks0 = old(queue)@;
    let ghost o = old(transport).outcomes@;
    let ghost p0 = old(transport).pos as int;
    let ghost d0 = old(metrics).packets_dropped;
    let task = match queue.pop_task() {
        Some(t) => t,
        None => {
            return ;
        },
    };
    send_reliable_with_retry(transport, &task, metrics);
    proof {
        lemma_drain_drops_nonneg(tasks0.drop_first(), o, transport.pos as int);
    }
    worker_drain(queue, transport, metrics);
    proof {
        match first_success(o, p0, RETRY_ATTEMPTS as int) {
            Some(i) => {
                assert(transport.sent_view() =~= old(transport).sent_view() + drain_sent(
                    tasks0,
                    o,
                    p0,
                ));
            },
            None => {
                lemma_sat_add_n_compose(d0, 1, drain_drops(tasks0.drop_first(), o, p0
                    + RETRY_ATTEMPTS));
            },
        }
    }
}

/// Under a script with no failures, draining hands the transport exactly
/// the queued payloads, one send per task, in enqueue order, and drops
/// nothing.
pub proof fn lemma_drain_all_success(tasks: Seq<Seq<u8>>, outcomes: Seq<bool>, pos: int)
    requires
        0 <= pos,
        pos + tasks.len() <= outcomes.len(),
        forall|j: int| pos <= j < pos + tasks.len() ==> outcomes[j],
    ensures
        drain_sent(tasks, outcomes, pos) =~= tasks,
        drain_drops(tasks, outcomes, pos) == 0,
        drain_pos(tasks, outcomes, pos) == pos + tasks.len(),
    decreases tasks.len(),
{
    if tasks.len() > 0 {
        assert(first_success(outcomes, pos, RETRY_ATTEMPTS as int) == Some(pos));
        lemma_drain_all_success(tasks.drop_first(), outcomes, pos + 1);
        assert(drain_sent(tasks, outcomes, pos) =~= seq![tasks[0]] + drain_sent(
            tasks.drop_first(),
            outcomes,
            pos + 1,
        ));
        assert(seq![tasks[0]] + tasks.drop_first() =~= tasks);
    }
}

/// A task whose every attempt fails costs exactly one drop, and the
/// worker proceeds to the remaining tasks unharmed.
pub proof fn lemma_drain_failed_task(tasks: Seq<Seq<u8>>, outcomes: Seq<bool>, pos: int)
    requires
        0 <= pos,
        tasks.len() > 0,
        forall|j: int| pos <= j < pos + RETRY_ATTEMPTS ==> j < outcomes.len() ==> !outcomes[j],
    ensures
        drain_sent(tasks, outcomes, pos) == drain_sent(
            tasks.drop_first(),
            outcomes,
            pos + RETRY_ATTEMPTS,
        ),
        drain_drops(tasks, outcomes, pos) == 1 + drain_drops(
            tasks.drop_first(),
            outcomes,
            pos + RETRY_ATTEMPTS,
        ),
{
    assert(first_success(outcomes, pos, RETRY_ATTEMPTS as int) is None) by {
        lemma_first_success(outcomes, pos, RETRY_ATTEMPTS as int);
        if first_success(outcomes, pos, RETRY_ATTEMPTS as int) is Some {
            let i = first_success(outcomes, pos, RETRY_ATTEMPTS as int)->Some_0;
            assert(!outcomes[i]);
        }
    }
}

} // verus!
