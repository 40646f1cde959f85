use mcconnect::config::RETRY_ATTEMPTS;
use mcconnect::metrics::NetworkMetrics;
use mcconnect::send_queue::{send_reliable_with_retry, worker_drain, SendQueue, TransportModel};

#[test]
fn enqueue_then_lossless_drain_sends_each_once_in_order() {
    let mut metrics = NetworkMetrics::new();
    let mut queue = SendQueue::new(10);
    let items: Vec<Vec<u8>> = vec![vec![1], vec![2, 3], vec![4, 5, 6], vec![], vec![7]];
    for item in items.iter() {
        assert!(queue.send(item.clone(), &mut metrics));
    }
    let mut transport = TransportModel::new(vec![true; 25]);
    worker_drain(&mut queue, &mut transport, &mut metrics);
    assert_eq!(transport.sent, items);
    assert_eq!(transport.pos, items.len());
    assert_eq!(metrics.packets_dropped, 0);
    assert_eq!(queue.tasks.len(), 0);
}

#[test]
fn enqueue_at_capacity_returns_false_and_drops_exactly_one() {
    let mut metrics = NetworkMetrics::new();
    let mut queue = SendQueue::new(2);
    assert!(queue.send(vec![1], &mut metrics));
    assert!(queue.send(vec![2], &mut metrics));
    assert_eq!(metrics.packets_dropped, 0);
    assert!(!queue.send(vec![3], &mut metrics));
    assert_eq!(metrics.packets_dropped, 1);
    // The refused payload left the queue untouched.
    assert_eq!(queue.tasks, vec![vec![1u8], vec![2u8]]);
}

#[test]
fn enqueue_into_closed_queue_is_refused_and_counted() {
    let mut metrics = NetworkMetrics::new();
    let mut queue = SendQueue::new(4);
    queue.close();
    assert!(!queue.send(vec![1], &mut metrics));
    assert_eq!(metrics.packets_dropped, 1);
    assert_eq!(queue.tasks.len(), 0);
}

#[test]
fn task_failing_every_attempt_drops_once_and_worker_moves_on() {
    let mut metrics = NetworkMetrics::new();
    let mut queue = SendQueue::new(4);
    assert!(queue.send(vec![9, 9], &mut metrics));
    assert!(queue.send(vec![8], &mut metrics));
    // First task: every attempt fails. Second task: first attempt works.
    let mut script = vec![false; RETRY_ATTEMPTS];
    script.push(true);
    let mut transport = TransportModel::new(script);
    worker_drain(&mut queue, &mut transport, &mut metrics);
    assert_eq!(metrics.packets_dropped, 1);
    assert_eq!(transport.sent, vec![vec![8u8]]);
    assert_eq!(queue.tasks.len(), 0);
}

#[test]
fn retry_stops_at_first_success() {
    let mut metrics = NetworkMetrics::new();
    let mut transport = TransportModel::new(vec![false, false, true, true, true]);
    let data = vec![5u8];
    assert!(send_reliable_with_retry(&mut transport, &data, &mut metrics));
    // Two failures, then success: three outcomes consumed, one delivery.
    assert_eq!(transport.pos, 3);
    assert_eq!(transport.sent, vec![vec![5u8]]);
    assert_eq!(metrics.packets_dropped, 0);
}

#[test]
fn retry_exhaustion_consumes_all_attempts() {
    let mut metrics = NetworkMetrics::new();
    let mut transport = TransportModel::new(vec![false; RETRY_ATTEMPTS]);
    let data = vec![5u8];
    assert!(!send_reliable_with_retry(&mut transport, &data, &mut metrics));
    assert_eq!(transport.pos, RETRY_ATTEMPTS);
    assert_eq!(transport.sent.len(), 0);
    assert_eq!(metrics.packets_dropped, 1);
}

#[test]
fn pop_task_is_first_in_first_out() {
    let mut metrics = NetworkMetrics::new();
    let mut queue = SendQueue::new(4);
    queue.send(vec![1], &mut metrics);
    queue.send(vec![2], &mut metrics);
    assert_eq!(queue.pop_task(), Some(vec![1u8]));
    assert_eq!(queue.pop_task(), Some(vec![2u8]));
    assert_eq!(queue.pop_task(), None);
}
