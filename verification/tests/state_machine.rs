use mcconnect::config::CONNECT_TIMEOUT_MS;
use mcconnect::connection::{
    accept_incoming_request, describe_p2p_error, event_for_report, ConnEvent, ConnState,
    FailReason, PeerConnection, TransportReport,
};
use mcconnect::peer_table::PeerTable;

#[test]
fn dial_reaches_connected_on_established() {
    let mut c = PeerConnection::dial(7, 1000);
    assert_eq!(c.state, ConnState::Connecting);
    c.handle_event(ConnEvent::Established);
    assert_eq!(c.state, ConnState::Connected);
}

#[test]
fn dial_that_never_connects_times_out_and_stays_failed() {
    let mut table = PeerTable::new();
    let mut c = PeerConnection::dial(7, 1000);
    assert!(table.insert(c));
    // Polls before the deadline leave it connecting.
    c.check_timeout(1000 + CONNECT_TIMEOUT_MS - 1, CONNECT_TIMEOUT_MS);
    assert_eq!(c.state, ConnState::Connecting);
    // The deadline passes without an established signal.
    c.check_timeout(1000 + CONNECT_TIMEOUT_MS, CONNECT_TIMEOUT_MS);
    assert_eq!(c.state, ConnState::Failed(FailReason::Timeout));
    // No later signal revives it.
    c.handle_event(ConnEvent::Established);
    assert_eq!(c.state, ConnState::Failed(FailReason::Timeout));
    c.handle_event(ConnEvent::ClosedByPeer);
    assert_eq!(c.state, ConnState::Failed(FailReason::Timeout));
    // The table sweep removes it.
    let mut table = PeerTable::new();
    assert!(table.insert(c));
    table.prune_terminal();
    assert_eq!(table.len(), 0);
    assert!(!table.contains(7));
}

#[test]
fn table_timeout_sweep_fails_only_overdue_dials() {
    let mut table = PeerTable::new();
    assert!(table.insert(PeerConnection::dial(1, 0)));
    assert!(table.insert(PeerConnection::dial(2, 20_000)));
    table.check_timeouts(16_000, CONNECT_TIMEOUT_MS);
    assert_eq!(table.get(1).unwrap().state, ConnState::Failed(FailReason::Timeout));
    assert_eq!(table.get(2).unwrap().state, ConnState::Connecting);
}

#[test]
fn peer_closing_while_connecting_is_rejected_and_while_connected_is_broken() {
    let mut c = PeerConnection::dial(7, 0);
    c.handle_event(ConnEvent::ClosedByPeer);
    assert_eq!(c.state, ConnState::Failed(FailReason::Rejected));

    let mut c = PeerConnection::dial(7, 0);
    c.handle_event(ConnEvent::Established);
    c.handle_event(ConnEvent::ProblemDetected);
    assert_eq!(c.state, ConnState::Failed(FailReason::Broken));

    let mut c = PeerConnection::dial(7, 0);
    c.handle_event(ConnEvent::Established);
    c.handle_event(ConnEvent::LocalShutdown);
    assert_eq!(c.state, ConnState::Closed);
}

#[test]
fn pending_request_needs_acceptance_before_events_count() {
    let mut c = PeerConnection::incoming(9, 0);
    assert_eq!(c.state, ConnState::Pending);
    // A data-bearing signal before acceptance does not advance it.
    c.handle_event(ConnEvent::Established);
    assert_eq!(c.state, ConnState::Pending);
    c.accept();
    assert_eq!(c.state, ConnState::Connecting);
    c.handle_event(ConnEvent::Established);
    assert_eq!(c.state, ConnState::Connected);
}

#[test]
fn host_accepts_only_resolvable_identities() {
    assert!(accept_incoming_request(Some(42)));
    assert!(!accept_incoming_request(None));
}

#[test]
fn table_refuses_duplicate_identity_and_removes_by_identity() {
    let mut table = PeerTable::new();
    assert!(table.insert(PeerConnection::incoming(5, 0)));
    assert!(!table.insert(PeerConnection::incoming(5, 1)));
    assert_eq!(table.len(), 1);
    assert!(table.remove(5));
    assert!(!table.remove(5));
    assert_eq!(table.len(), 0);
}

#[test]
fn table_routes_events_by_identity() {
    let mut table = PeerTable::new();
    assert!(table.insert(PeerConnection::dial(5, 0)));
    assert!(table.insert(PeerConnection::dial(6, 0)));
    assert!(table.handle_event_for(5, ConnEvent::Established));
    assert!(!table.handle_event_for(99, ConnEvent::Established));
    assert_eq!(table.get(5).unwrap().state, ConnState::Connected);
    assert_eq!(table.get(6).unwrap().state, ConnState::Connecting);
}

#[test]
fn only_settled_transport_reports_carry_a_signal() {
    assert_eq!(event_for_report(TransportReport::Connected), Some(ConnEvent::Established));
    assert_eq!(event_for_report(TransportReport::ClosedByPeer), Some(ConnEvent::ClosedByPeer));
    assert_eq!(
        event_for_report(TransportReport::ProblemDetectedLocally),
        Some(ConnEvent::ProblemDetected)
    );
    assert_eq!(event_for_report(TransportReport::NotReady), None);
    assert_eq!(event_for_report(TransportReport::Connecting), None);
    assert_eq!(event_for_report(TransportReport::FindingRoute), None);
}

#[test]
fn p2p_error_codes_have_descriptions() {
    assert_eq!(describe_p2p_error(0), "no error");
    assert_eq!(describe_p2p_error(1), "the remote peer is not running this application");
    assert_eq!(describe_p2p_error(2), "the remote peer has no access to this application");
    assert_eq!(describe_p2p_error(3), "the remote peer is not logged in");
    assert_eq!(describe_p2p_error(4), "the connection timed out");
    assert_eq!(describe_p2p_error(5), "unknown error");
    assert_eq!(describe_p2p_error(255), "unknown error");
}
