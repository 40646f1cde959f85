use mcconnect::bridge::{deliver_inbound_batch, should_retry_local_dial, StreamBridge};
use mcconnect::config::LOCAL_DIAL_ATTEMPTS;
use mcconnect::lan_discovery::broadcast_due;
use mcconnect::metrics::NetworkMetrics;
use mcconnect::send_queue::{worker_drain, SendQueue, TransportModel};
use mcconnect::session::{
    check_password, describe_bootstrap_error, is_valid_lobby_id, join_wait_expired, validate_join,
    BootstrapError, PasswordCheck,
};

#[test]
fn arbitrary_chunking_reproduces_the_exact_byte_stream() {
    let data: Vec<u8> = (0u8..=255).cycle().take(1000).collect();
    // Several different split points, including empty keep-alive chunks.
    let splits: Vec<Vec<usize>> = vec![
        vec![1000],
        vec![1, 999],
        vec![500, 500],
        vec![3, 0, 997],
        vec![0, 250, 250, 0, 500, 0],
    ];
    for split in splits {
        let mut chunks: Vec<Vec<u8>> = Vec::new();
        let mut at = 0;
        for len in split {
            chunks.push(data[at..at + len].to_vec());
            at += len;
        }
        assert_eq!(at, data.len());
        let mut out: Vec<u8> = Vec::new();
        let mut metrics = NetworkMetrics::new();
        deliver_inbound_batch(&mut out, &chunks, &mut metrics);
        assert_eq!(out, data);
    }
}

#[test]
fn keepalives_deliver_nothing_and_are_not_counted() {
    let mut out: Vec<u8> = Vec::new();
    let mut metrics = NetworkMetrics::new();
    let messages = vec![Vec::new(), b"ab".to_vec(), Vec::new(), b"c".to_vec()];
    deliver_inbound_batch(&mut out, &messages, &mut metrics);
    assert_eq!(out, b"abc".to_vec());
    assert_eq!(metrics.packets_received, 2);
    assert_eq!(metrics.bytes_received, 3);
}

#[test]
fn delivery_appends_behind_earlier_bytes() {
    let mut out = b"head".to_vec();
    let mut metrics = NetworkMetrics::new();
    deliver_inbound_batch(&mut out, &vec![b"-tail".to_vec()], &mut metrics);
    assert_eq!(out, b"head-tail".to_vec());
}

#[test]
fn local_slot_binds_and_releases() {
    let mut bridge = StreamBridge::new();
    assert!(!bridge.can_deliver());
    bridge.bind_local();
    assert!(bridge.can_deliver());
    bridge.release_local();
    assert!(!bridge.can_deliver());
}

#[test]
fn local_dial_is_retried_a_bounded_number_of_times() {
    assert!(should_retry_local_dial(0));
    assert!(should_retry_local_dial(LOCAL_DIAL_ATTEMPTS - 1));
    assert!(!should_retry_local_dial(LOCAL_DIAL_ATTEMPTS));
    assert!(!should_retry_local_dial(LOCAL_DIAL_ATTEMPTS + 1));
}

#[test]
fn broadcast_schedule() {
    assert!(broadcast_due(0, None, 1500));
    assert!(!broadcast_due(1499, Some(0), 1500));
    assert!(broadcast_due(1500, Some(0), 1500));
}

#[test]
fn ping_and_pong_cross_the_bridge_intact() {
    // Client → host: the client's reader hands b"ping" to its queue; the
    // transport carries it; the host's side writes it to the service.
    let mut metrics = NetworkMetrics::new();
    let mut queue = SendQueue::new(16);
    assert!(queue.send(b"ping".to_vec(), &mut metrics));
    let mut transport = TransportModel::new(vec![true; 8]);
    worker_drain(&mut queue, &mut transport, &mut metrics);
    let mut host_service_rx: Vec<u8> = Vec::new();
    deliver_inbound_batch(&mut host_service_rx, &transport.sent, &mut metrics);
    assert_eq!(host_service_rx, b"ping".to_vec());

    // Host → client: the service answers b"pong"; it crosses back whole.
    let mut queue_back = SendQueue::new(16);
    assert!(queue_back.send(b"pong".to_vec(), &mut metrics));
    let mut transport_back = TransportModel::new(vec![true; 8]);
    worker_drain(&mut queue_back, &mut transport_back, &mut metrics);
    let mut client_local_rx: Vec<u8> = Vec::new();
    deliver_inbound_batch(&mut client_local_rx, &transport_back.sent, &mut metrics);
    assert_eq!(client_local_rx, b"pong".to_vec());
    assert_eq!(metrics.packets_dropped, 0);
}

#[test]
fn password_check_covers_every_combination() {
    let some = |s: &str| Some(s.to_string());
    assert_eq!(check_password(&some("pw"), &some("pw")), PasswordCheck::Accepted);
    assert_eq!(check_password(&some("pw"), &some("other")), PasswordCheck::Wrong);
    assert_eq!(check_password(&some("pw"), &None), PasswordCheck::Unverifiable);
    assert_eq!(check_password(&None, &some("pw")), PasswordCheck::Missing);
    assert_eq!(check_password(&None, &some("")), PasswordCheck::Accepted);
    assert_eq!(check_password(&None, &None), PasswordCheck::Accepted);
}

#[test]
fn join_validation_refuses_self_connect_after_password_passes() {
    assert_eq!(validate_join(5, 5, &None, &None), Err(BootstrapError::SelfConnect));
    assert_eq!(validate_join(5, 6, &None, &None), Ok(()));
    assert_eq!(
        validate_join(5, 5, &Some("a".to_string()), &Some("b".to_string())),
        Err(BootstrapError::PasswordWrong)
    );
    assert_eq!(
        validate_join(5, 6, &Some("a".to_string()), &None),
        Err(BootstrapError::PasswordUnverifiable)
    );
    assert_eq!(
        validate_join(5, 6, &None, &Some("pw".to_string())),
        Err(BootstrapError::PasswordMissing)
    );
}

#[test]
fn lobby_id_and_join_deadline_checks() {
    assert!(!is_valid_lobby_id(0));
    assert!(is_valid_lobby_id(1));
    assert!(!join_wait_expired(9_999, 0));
    assert!(join_wait_expired(10_000, 0));
}

#[test]
fn bootstrap_errors_have_user_facing_messages() {
    assert_eq!(
        describe_bootstrap_error(BootstrapError::PasswordWrong),
        "wrong room password"
    );
    assert_eq!(
        describe_bootstrap_error(BootstrapError::SelfConnect),
        "cannot connect to yourself - use two different accounts"
    );
    assert!(describe_bootstrap_error(BootstrapError::JoinTimeout).contains("timed out"));
}
