use mcconnect::connection::{ConnEvent, PeerConnection};
use mcconnect::metrics::NetworkMetrics;
use mcconnect::peer_table::PeerTable;
use mcconnect::vpn::{
    build_ip_assignment, format_virtual_ip, is_handshake_packet, parse_ip_assignment,
    route_from_peer, IpAllocator, VpnDevice,
};

#[test]
fn sequential_assignments_cover_the_range_once_then_refuse() {
    let mut alloc = IpAllocator::new();
    let mut seen: Vec<u8> = Vec::new();
    for k in 0..253u32 {
        let octet = alloc.assign().expect("octets remain");
        assert_eq!(octet as u32, k + 2);
        assert!(!seen.contains(&octet));
        seen.push(octet);
    }
    assert_eq!(seen.first(), Some(&2));
    assert_eq!(seen.last(), Some(&254));
    // The range is exhausted: the next connection is refused.
    assert_eq!(alloc.assign(), None);
    assert_eq!(alloc.assign(), None);
}

#[test]
fn assignment_message_exact_text_and_round_trip() {
    assert_eq!(format_virtual_ip(7), "10.10.10.7");
    assert_eq!(build_ip_assignment(7), "[VIP]10.10.10.7[/VIP]");
    assert_eq!(parse_ip_assignment("[VIP]10.10.10.7[/VIP]"), Some(7));
    for octet in [2u8, 10, 99, 254] {
        let msg = build_ip_assignment(octet);
        assert_eq!(parse_ip_assignment(&msg), Some(octet));
    }
}

#[test]
fn assignment_parse_rejects_malformed_messages() {
    assert_eq!(parse_ip_assignment("no tags here"), None);
    assert_eq!(parse_ip_assignment("[VIP]192.168.1.7[/VIP]"), None);
    assert_eq!(parse_ip_assignment("[VIP]10.10.10.[/VIP]"), None);
    assert_eq!(parse_ip_assignment("[VIP]10.10.10.300[/VIP]"), None);
}

#[test]
fn handshake_marker_detection() {
    assert!(is_handshake_packet(&b"[VIP]10.10.10.2[/VIP]".to_vec()));
    assert!(is_handshake_packet(&b"[VIP]".to_vec()));
    assert!(!is_handshake_packet(&b"[VI".to_vec()));
    assert!(!is_handshake_packet(&b"raw ip packet".to_vec()));
    assert!(!is_handshake_packet(&Vec::new()));
}

#[test]
fn router_filters_handshakes_and_keepalives_out_of_the_tunnel() {
    let mut device = VpnDevice::new("10.10.10.1", "255.255.255.0").unwrap();
    let mut metrics = NetworkMetrics::new();
    assert!(!route_from_peer(&mut device, b"[VIP]10.10.10.2[/VIP]".to_vec(), &mut metrics));
    assert!(!route_from_peer(&mut device, Vec::new(), &mut metrics));
    assert!(route_from_peer(&mut device, b"data".to_vec(), &mut metrics));
    assert_eq!(device.to_device, vec![b"data".to_vec()]);
    assert_eq!(metrics.packets_received, 1);
    assert_eq!(metrics.bytes_received, 4);
}

#[test]
fn device_starts_empty_and_queues_in_order() {
    let mut device = VpnDevice::new("10.10.10.1", "255.255.255.0").unwrap();
    assert_eq!(device.to_device.len(), 0);
    assert_eq!(device.from_device.len(), 0);
    assert_eq!(device.read_from_device(), None);
    device.push_inbound(b"one".to_vec());
    device.push_inbound(b"two".to_vec());
    assert_eq!(device.read_from_device(), Some(b"one".to_vec()));
    assert_eq!(device.read_from_device(), Some(b"two".to_vec()));
    assert_eq!(device.read_from_device(), None);
}

#[test]
fn two_peers_get_distinct_addresses_and_broadcast_reaches_the_other() {
    let mut metrics = NetworkMetrics::new();
    let mut alloc = IpAllocator::new();
    let mut table = PeerTable::new();

    // Two peers connect to the host; each gets a distinct assignment.
    let mut a = PeerConnection::dial(101, 0);
    a.handle_event(ConnEvent::Established);
    let mut b = PeerConnection::dial(202, 0);
    b.handle_event(ConnEvent::Established);
    let octet_a = alloc.assign().unwrap();
    let octet_b = alloc.assign().unwrap();
    a.virtual_ip = Some(octet_a);
    b.virtual_ip = Some(octet_b);
    assert!(table.insert(a));
    assert!(table.insert(b));
    let msg_a = build_ip_assignment(octet_a);
    let msg_b = build_ip_assignment(octet_b);
    assert_ne!(msg_a, msg_b);
    assert_eq!(parse_ip_assignment(&msg_a), Some(2));
    assert_eq!(parse_ip_assignment(&msg_b), Some(3));

    // Peer A sends a tunnel packet to the host; the host's device turns
    // it around and the host broadcasts it to every connected peer.
    let mut host_device = VpnDevice::new("10.10.10.1", "255.255.255.0").unwrap();
    let packet = b"ip packet from peer a".to_vec();
    assert!(route_from_peer(&mut host_device, packet.clone(), &mut metrics));
    assert_eq!(host_device.to_device.last(), Some(&packet));
    host_device.push_inbound(packet.clone());
    let outbound = host_device.read_from_device().unwrap();
    let targets = table.connected_identities();
    assert_eq!(targets, vec![101, 202]);

    // Peer B's device observes the packet.
    let mut device_b = VpnDevice::new("10.10.10.3", "255.255.255.0").unwrap();
    let mut metrics_b = NetworkMetrics::new();
    assert!(route_from_peer(&mut device_b, outbound, &mut metrics_b));
    assert_eq!(device_b.to_device, vec![packet]);
}
