use comsrv::combase::enhanced_transport_bridge::{
    should_retry, ConnectionPool, ConnectionPoolConfig, RequestPriority, RequestQueue,
};
use comsrv::error::ComSrvError;

#[test]
fn bridge_queue_serves_higher_priorities_first_in_arrival_order() {
    let mut queue: RequestQueue<u32> = RequestQueue::new();
    queue.enqueue(RequestPriority::Normal, 1);
    queue.enqueue(RequestPriority::Low, 2);
    queue.enqueue(RequestPriority::Critical, 3);
    queue.enqueue(RequestPriority::Normal, 4);
    queue.enqueue(RequestPriority::High, 5);
    assert_eq!(queue.len(), 5);
    assert_eq!(queue.count_of(RequestPriority::Normal), 2);
    let order: Vec<u32> = (0..5).map(|_| queue.dequeue().unwrap().1).collect();
    assert_eq!(order, vec![3, 5, 1, 4, 2]);
    assert!(queue.dequeue().is_none());
}

#[test]
fn bridge_queue_status_counts_present_priorities() {
    let mut queue: RequestQueue<&str> = RequestQueue::new();
    queue.enqueue(RequestPriority::High, "a");
    queue.enqueue(RequestPriority::High, "b");
    queue.enqueue(RequestPriority::Low, "c");
    let status = queue.queue_status();
    assert_eq!(status.get("queue_length").unwrap(), "3");
    assert_eq!(status.get("priority_High_count").unwrap(), "2");
    assert_eq!(status.get("priority_Low_count").unwrap(), "1");
    assert!(status.get("priority_Normal_count").is_none());
    assert_eq!(status.len(), 3);
}

#[test]
fn bridge_retry_decisions() {
    let network = ComSrvError::NetworkError("x".to_string());
    let config = ComSrvError::ConfigError("x".to_string());
    assert!(should_retry(1, 3, &network));
    assert!(should_retry(3, 3, &network));
    assert!(!should_retry(4, 3, &network));
    assert!(!should_retry(1, 3, &config));
}

#[test]
fn bridge_pool_records_use_of_open_connections() {
    let mut pool: ConnectionPool<&str> = ConnectionPool::new(ConnectionPoolConfig::default());
    match pool.record_use(0) {
        Err(ComSrvError::ConnectionError(m)) => assert_eq!(m, "无效的连接索引"),
        other => panic!("unexpected {:?}", other),
    }
    let index = pool.create_connection(|| "link").unwrap();
    assert!(pool.record_use(index).is_ok());
    assert!(pool.record_use(99).is_err());
    assert_eq!(pool.get_stats().get("active_connections").unwrap(), "1");
}
