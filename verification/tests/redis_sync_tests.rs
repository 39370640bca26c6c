use comsrv::combase::point_cache::PointData;
use comsrv::combase::point_manager::UniversalPointConfig;
use comsrv::combase::redis_batch_sync::{
    delete_keys, index_members, pipeline_batches, point_key, type_index_key, RedisBatchSync, RedisBatchSyncConfig,
    RedisSyncStats,
};
use comsrv::combase::telemetry::TelemetryType;
use std::time::{Duration, SystemTime};

fn data(id: &str, value: &str) -> PointData {
    PointData {
        id: id.to_string(),
        name: id.to_string(),
        value: value.to_string(),
        timestamp: SystemTime::UNIX_EPOCH,
        unit: String::new(),
        description: String::new(),
    }
}

#[test]
fn redis_config_defaults() {
    let c = RedisBatchSyncConfig::default();
    assert_eq!(c.batch_size, 1000);
    assert_eq!(c.sync_interval, Duration::from_millis(100));
    assert_eq!(c.key_prefix, "comsrv:points");
    assert!(c.point_ttl.is_none());
    assert!(c.use_pipeline);
    let s = RedisSyncStats::default();
    assert_eq!(s.total_synced, 0);
    assert!(s.last_sync_time.is_none());
}

#[test]
fn redis_keys() {
    assert_eq!(point_key("comsrv:points", 1001), "comsrv:points:1001");
    assert_eq!(type_index_key("p", TelemetryType::Setpoint), "p:type:Setpoint");
    assert_eq!(delete_keys("p", &vec![1, 22]), vec!["p:1".to_string(), "p:22".to_string()]);
    let configs = vec![
        UniversalPointConfig::new(1, "a", TelemetryType::Telemetry),
        UniversalPointConfig::new(2, "b", TelemetryType::Control),
        UniversalPointConfig::new(3, "c", TelemetryType::Telemetry),
    ];
    assert_eq!(index_members(&configs, TelemetryType::Telemetry), vec!["1".to_string(), "3".to_string()]);
    assert!(index_members(&configs, TelemetryType::Signaling).is_empty());
}

#[test]
fn redis_pipeline_batches() {
    assert_eq!(pipeline_batches(0, 10), Vec::<usize>::new());
    assert_eq!(pipeline_batches(25, 10), vec![10, 10, 5]);
    assert_eq!(pipeline_batches(20, 10), vec![10, 10]);
    assert_eq!(pipeline_batches(3, 0), vec![1, 1, 1]);
}

#[test]
fn redis_take_batch_prefers_buffered_updates() {
    let mut sync = RedisBatchSync::new(RedisBatchSyncConfig::default());
    sync.buffer_updates(vec![(2, data("2", "old")), (2, data("2", "buffered")), (9, data("9", "x"))]);
    let mut batch = sync.take_batch(vec![data("1", "a"), data("2", "current"), data("name", "skipped")]);
    batch.sort_by_key(|e| e.0);
    let summary: Vec<(u32, String)> = batch.iter().map(|(id, d)| (*id, d.value.clone())).collect();
    assert_eq!(
        summary,
        vec![(1, "a".to_string()), (2, "buffered".to_string()), (9, "x".to_string())]
    );
    // the buffer is empty afterwards
    assert!(sync.take_batch(Vec::new()).is_empty());
}

#[test]
fn redis_stats_counting() {
    let mut sync = RedisBatchSync::new(RedisBatchSyncConfig::default());
    sync.record_synced(5);
    sync.record_batch(2.5f64.to_bits());
    sync.record_failure();
    let s = sync.get_stats();
    assert_eq!(s.total_synced, 5);
    assert_eq!(s.batch_count, 1);
    assert_eq!(s.failed_syncs, 1);
    assert!(s.last_sync_time.is_some());
    assert_eq!(f64::from_bits(s.average_batch_time_bits), 2.5);
}
