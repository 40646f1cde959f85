//! The transport-connection state machine and the peer table.
//!
//! One [`PeerConnection`] tracks a single connection from dial (or
//! inbound acceptance) to termination. The transport's asynchronous
//! signals arrive as [`ConnEvent`] values; the poll loop that pumps the
//! transport lives outside this crate and hands events and clock
//! readings in as plain values. Terminal states are absorbing: once a
//! connection is `Closed` or `Failed` no event revives it, and the
//! coordination loop removes it from the table.

use vstd::prelude::*;

verus! {

/// Why a connection failed.
#[derive(Clone, Copy, Debug, PartialEq, Eq, Structural)]
pub enum FailReason {
    /// No "established" signal arrived within the deadline.
    Timeout,
    /// The peer closed, or a local problem was detected, while still connecting.
    Rejected,
    /// The peer closed, or a local problem was detected, while connected.
    Broken,
}

/// Lifecycle state of one transport connection.
#[derive(Clone, Copy, Debug, PartialEq, Eq, Structural)]
pub enum ConnState {
    /// An inbound request the host has not accepted yet.
    Pending,
    /// Dialed or accepted, waiting for the transport to establish.
    Connecting,
    /// Established; data may flow.
    Connected,
    /// Ended gracefully; no user-facing error.
    Closed,
    /// Ended with an error to surface.
    Failed(FailReason),
}

/// A signal the state machine reacts to.
#[derive(Clone, Copy, Debug, PartialEq, Eq, Structural)]
pub enum ConnEvent {
    /// Transport signal: connection established.
    Established,
    /// Transport signal: closed by the peer.
    ClosedByPeer,
    /// Transport signal: problem detected locally.
    ProblemDetected,
    /// Graceful local shutdown, or explicit peer departure.
    LocalShutdown,
}

/// A connection-state report from the peer transport's poll interface.
#[derive(Clone, Copy, Debug, PartialEq, Eq, Structural)]
pub enum TransportReport {
    /// No state yet, or the handle is stale.
    NotReady,
    /// Still establishing.
    Connecting,
    /// Searching for a route or relay.
    FindingRoute,
    /// Established.
    Connected,
    /// The peer closed the connection.
    ClosedByPeer,
    /// A problem was detected on this side.
    ProblemDetectedLocally,
}

/// The signal a polled report carries into the state machine, if any:
/// only "established", "closed by peer" and "problem detected" move a
/// connection; the in-progress reports carry nothing.
pub open spec fn spec_event_for_report(r: TransportReport) -> Option<ConnEvent> {
    match r {
        TransportReport::Connected => Some(ConnEvent::Established),
        TransportReport::ClosedByPeer => Some(ConnEvent::ClosedByPeer),
        TransportReport::ProblemDetectedLocally => Some(ConnEvent::ProblemDetected),
        TransportReport::NotReady | TransportReport::Connecting
            | TransportReport::FindingRoute => None,
    }
}

/// Translate one polled transport report into a state-machine signal.
pub fn event_for_report(r: TransportReport) -> (e: Option<ConnEvent>)
    ensures
        e == spec_event_for_report(r),
{
    match r {
        TransportReport::Connected => Some(ConnEvent::Established),
        TransportReport::ClosedByPeer => Some(ConnEvent::ClosedByPeer),
        TransportReport::ProblemDetectedLocally => Some(ConnEvent::ProblemDetected),
        TransportReport::NotReady | TransportReport::Connecting
            | TransportReport::FindingRoute => None,
    }
}

/// `s` is terminal: the connection leaves the peer table and its
/// transport handle is released.
pub open spec fn is_terminal(s: ConnState) -> bool {
    match s {
        ConnState::Closed | ConnState::Failed(_) => true,
        _ => false,
    }
}

/// The state after `e` arrives in state `s`. A pending request must be
/// accepted before any event advances it; terminal states absorb
/// everything.
pub open spec fn spec_step(s: ConnState, e: ConnEvent) -> ConnState {
    match s {
        ConnState::Connecting => match e {
            ConnEvent::Established => ConnState::Connected,
            ConnEvent::ClosedByPeer | ConnEvent::ProblemDetected => ConnState::Failed(
                FailReason::Rejected,
            ),
            ConnEvent::LocalShutdown => ConnState::Closed,
        },
        ConnState::Connected => match e {
            ConnEvent::Established => ConnState::Connected,
            ConnEvent::ClosedByPeer | ConnEvent::ProblemDetected => ConnState::Failed(
                FailReason::Broken,
            ),
            ConnEvent::LocalShutdown => ConnState::Closed,
        },
        ConnState::Pending => ConnState::Pending,
        ConnState::Closed => ConnState::Closed,
        ConnState::Failed(r) => ConnState::Failed(r),
    }
}

/// The state after a whole sequence of events.
pub open spec fn spec_run(s: ConnState, events: Seq<ConnEvent>) -> ConnState
    decreases events.len(),
{
    if events.len() == 0 {
        s
    } else {
        spec_run(spec_step(s, events[0]), events.drop_first())
    }
}

/// A terminal state absorbs every later event: in particular, a failed
/// dial never reaches `Connected` afterwards, whatever the transport
/// signals.
pub proof fn lemma_terminal_absorbs(s: ConnState, events: Seq<ConnEvent>)
    requires
        is_terminal(s),
    ensures
        spec_run(s, events) == s,
    decreases events.len(),
{
    if events.len() > 0 {
        lemma_terminal_absorbs(spec_step(s, events[0]), events.drop_first());
    }
}

/// A dial whose deadline passes without an "established" signal fails
/// with `Timeout`, a terminal state: however the transport signals
/// afterwards, the connection never reaches `Connected`, and the next
/// table sweep removes it.
pub proof fn lemma_timeout_is_fatal(events: Seq<ConnEvent>)
    ensures
        is_terminal(ConnState::Failed(FailReason::Timeout)),
        spec_run(ConnState::Failed(FailReason::Timeout), events) == ConnState::Failed(
            FailReason::Timeout,
        ),
        spec_run(ConnState::Failed(FailReason::Timeout), events) != ConnState::Connected,
{
    lemma_terminal_absorbs(ConnState::Failed(FailReason::Timeout), events);
}

/// One connection to a remote peer.
#[derive(Clone, Copy, Debug, PartialEq, Eq, Structural)]
pub struct PeerConnection {
    /// Opaque remote identifier, as the transport names the peer.
    pub identity: u64,
    /// Lifecycle state.
    pub state: ConnState,
    /// Monotonic-clock reading when the connection was dialed or accepted.
    pub dialed_at_ms: u64,
    /// Address octet assigned in the virtual-LAN variant, if any.
    pub virtual_ip: Option<u8>,
}

impl PeerConnection {
    /// An outbound connection just dialed at clock reading `now_ms`.
    pub fn dial(identity: u64, now_ms: u64) -> (c: PeerConnection)
        ensures
            c == (PeerConnection {
                identity,
                state: ConnState::Connecting,
                dialed_at_ms: now_ms,
                virtual_ip: None,
            }),
    {
        PeerConnection {
            identity,
            state: ConnState::Connecting,
            dialed_at_ms: now_ms,
            virtual_ip: None,
        }
    }

    /// An inbound request first seen at clock reading `now_ms`, not yet
    /// accepted.
    pub fn incoming(identity: u64, now_ms: u64) -> (c: PeerConnection)
        ensures
            c == (PeerConnection {
                identity,
                state: ConnState::Pending,
                dialed_at_ms: now_ms,
                virtual_ip: None,
            }),
    {
        PeerConnection {
            identity,
            state: ConnState::Pending,
            dialed_at_ms: now_ms,
            virtual_ip: None,
        }
    }

    /// Accept a pending inbound request; in any other state this does
    /// nothing.
    pub fn accept(&mut self)
        ensures
            final(self).state == if old(self).state is Pending {
                ConnState::Connecting
            } else {
                old(self).state
            },
            final(self).identity == old(self).identity,
            final(self).dialed_at_ms == old(self).dialed_at_ms,
            final(self).virtual_ip == old(self).virtual_ip,
    {
        if matches!(self.state, ConnState::Pending) {
            self.state = ConnState::Connecting;
        }
    }

    /// Apply one transport signal.
    pub fn handle_event(&mut self, e: ConnEvent)
        ensures
            final(self).state == spec_step(old(self).state, e),
            final(self).identity == old(self).identity,
            final(self).dialed_at_ms == old(self).dialed_at_ms,
            final(self).virtual_ip == old(self).virtual_ip,
    {
        self.state = match self.state {
            ConnState::Connecting => match e {
                ConnEvent::Established => ConnState::Connected,
                ConnEvent::ClosedByPeer | ConnEvent::ProblemDetected => ConnState::Failed(
                    FailReason::Rejected,
                ),
                ConnEvent::LocalShutdown => ConnState::Closed,
            },
            ConnState::Connected => match e {
                ConnEvent::Established => ConnState::Connected,
                ConnEvent::ClosedByPeer | ConnEvent::ProblemDetected => ConnState::Failed(
                    FailReason::Broken,
                ),
                ConnEvent::LocalShutdown => ConnState::Closed,
            },
            ConnState::Pending => ConnState::Pending,
            ConnState::Closed => ConnState::Closed,
            ConnState::Failed(r) => ConnState::Failed(r),
        };
    }

    /// Whether the deadline for establishing has passed at `now_ms` for a
    /// connection still `Connecting`.
    pub open spec fn spec_timed_out(self, now_ms: u64, deadline_ms: u64) -> bool {
        self.state is Connecting && now_ms >= self.dialed_at_ms.saturating_add(deadline_ms)
    }

    /// Fail a connection still `Connecting` once its deadline has passed;
    /// in any other case this does nothing.
    pub fn check_timeout(&mut self, now_ms: u64, deadline_ms: u64)
        ensures
            final(self).state == if old(self).spec_timed_out(now_ms, deadline_ms) {
                ConnState::Failed(FailReason::Timeout)
            } else {
                old(self).state
            },
            final(self).identity == old(self).identity,
            final(self).dialed_at_ms == old(self).dialed_at_ms,
            final(self).virtual_ip == old(self).virtual_ip,
    {
        if matches!(self.state, ConnState::Connecting) && now_ms >= self.dialed_at_ms.saturating_add(
            deadline_ms,
        ) {
            self.state = ConnState::Failed(FailReason::Timeout);
        }
    }

    /// A terminal connection is removed from the peer table.
    pub fn should_remove(&self) -> (r: bool)
        ensures
            r == is_terminal(self.state),
    {
        matches!(self.state, ConnState::Closed | ConnState::Failed(_))
    }
}

/// The host accepts every inbound request whose remote identity resolves;
/// one without an identity is rejected, never silently connected.
pub fn accept_incoming_request(identity: Option<u64>) -> (r: bool)
    ensures
        r == identity.is_some(),
{
    identity.is_some()
}

/// A short description of a transport session error code.
pub open spec fn spec_describe_p2p_error(code: u8) -> Seq<char> {
    if code == 0 {
        "no error"@
    } else if code == 1 {
        "the remote peer is not running this application"@
    } else if code == 2 {
        "the remote peer has no access to this application"@
    } else if code == 3 {
        "the remote peer is not logged in"@
    } else if code == 4 {
        "the connection timed out"@
    } else {
        "unknown error"@
    }
}

/// Describe a transport session error code for the user.
pub fn describe_p2p_error(code: u8) -> (r: &'static str)
    ensures
        r@ == spec_describe_p2p_error(code),
{
    match code {
        0 => "no error",
        1 => "the remote peer is not running this application",
        2 => "the remote peer has no access to this application",
        3 => "the remote peer is not logged in",
        4 => "the connection timed out",
        _ => "unknown error",
    }
}

} // verus!
