use mcconnect::metrics::{
    get_snapshot, record_packet_dropped, record_packet_received, record_packet_sent,
    NetworkMetrics, SessionMetrics,
};

#[test]
fn counters_record_each_direction_independently() {
    let mut m = NetworkMetrics::new();
    record_packet_sent(&mut m, 100);
    record_packet_sent(&mut m, 50);
    record_packet_received(&mut m, 7);
    record_packet_dropped(&mut m);
    assert_eq!(m.packets_sent, 2);
    assert_eq!(m.bytes_sent, 150);
    assert_eq!(m.packets_received, 1);
    assert_eq!(m.bytes_received, 7);
    assert_eq!(m.packets_dropped, 1);
}

#[test]
fn counters_saturate_instead_of_wrapping() {
    let mut m = NetworkMetrics::new();
    record_packet_sent(&mut m, u64::MAX);
    record_packet_sent(&mut m, 1);
    assert_eq!(m.bytes_sent, u64::MAX);
    assert_eq!(m.packets_sent, 2);
}

#[test]
fn snapshot_copies_and_delta_subtracts_saturating() {
    let mut m = NetworkMetrics::new();
    record_packet_sent(&mut m, 10);
    let earlier = get_snapshot(&m);
    record_packet_sent(&mut m, 30);
    record_packet_dropped(&mut m);
    let later = get_snapshot(&m);
    let d = later.delta(&earlier);
    assert_eq!(d.packets_sent, 1);
    assert_eq!(d.bytes_sent, 30);
    assert_eq!(d.packets_dropped, 1);
    // Comparing against a later snapshot yields zero, not wraparound.
    let backwards = earlier.delta(&later);
    assert_eq!(backwards.packets_sent, 0);
    assert_eq!(backwards.bytes_sent, 0);
}

#[test]
fn report_has_exact_whole_second_rates() {
    let mut m = NetworkMetrics::new();
    record_packet_sent(&mut m, 1024);
    record_packet_sent(&mut m, 1024);
    record_packet_sent(&mut m, 0);
    record_packet_sent(&mut m, 0);
    record_packet_received(&mut m, 900);
    record_packet_received(&mut m, 100);
    record_packet_dropped(&mut m);
    let s = get_snapshot(&m);
    assert_eq!(
        s.format_report(2000),
        "sent: 1024 B/s (2 pkt/s) | recv: 500 B/s (1 pkt/s) | dropped: 1"
    );
}

#[test]
fn report_refuses_a_span_under_one_second() {
    let m = NetworkMetrics::new();
    let s = get_snapshot(&m);
    assert_eq!(s.format_report(999), "measured span too short to compute rates");
    assert_eq!(s.format_report(0), "measured span too short to compute rates");
}

#[test]
fn session_stats_cover_only_the_session() {
    let mut m = NetworkMetrics::new();
    record_packet_sent(&mut m, 500);
    let session = SessionMetrics::new(&m, 10_000);
    record_packet_sent(&mut m, 2000);
    record_packet_received(&mut m, 64);
    let (stats, elapsed) = session.get_session_stats(&m, 13_000);
    assert_eq!(elapsed, 3000);
    assert_eq!(stats.packets_sent, 1);
    assert_eq!(stats.bytes_sent, 2000);
    assert_eq!(stats.packets_received, 1);
}

#[test]
fn session_report_line_is_prefixed() {
    let mut m = NetworkMetrics::new();
    let session = SessionMetrics::new(&m, 0);
    record_packet_sent(&mut m, 3000);
    let line = session.print_report(&m, 3000);
    assert_eq!(line, "performance: sent: 1000 B/s (0 pkt/s) | recv: 0 B/s (0 pkt/s) | dropped: 0");
}
