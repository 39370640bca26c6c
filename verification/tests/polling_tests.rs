use comsrv::combase::data_types::PollingConfig;
use comsrv::combase::polling::{
    group_points_for_batch_reading, polling_start_decision, read_error_point, PollAction, PollEvent, PollingCounters,
    PollingCycle, TimeCache,
};
use comsrv::error::ComSrvError;
use std::time::SystemTime;

fn names(list: &[&str]) -> Vec<String> {
    list.iter().map(|s| s.to_string()).collect()
}

fn config(batch: bool, delay: u64) -> PollingConfig {
    let mut c = PollingConfig::default();
    c.enable_batch_reading = batch;
    c.point_read_delay_ms = delay;
    c
}

#[test]
fn polling_groups_share_names_and_default_group() {
    let groups = group_points_for_batch_reading(&names(&["a", "", "a", "b", ""]));
    assert_eq!(groups.len(), 3);
    assert_eq!(groups[0].0, "a");
    assert_eq!(groups[0].1, vec![0, 2]);
    assert_eq!(groups[1].0, "default");
    assert_eq!(groups[1].1, vec![1, 4]);
    assert_eq!(groups[2].0, "b");
    assert_eq!(groups[2].1, vec![3]);
}

#[test]
fn polling_cycle_individual_reads_with_pauses() {
    let (mut cycle, mut action) = PollingCycle::start(&config(false, 5), &names(&["x", "y"]));
    let mut trace = vec![action];
    while action != PollAction::Finish {
        let event = match action {
            PollAction::ReadGroup(_) => PollEvent::GroupRead(true),
            PollAction::ReadPoint(_) => PollEvent::PointRead,
            PollAction::Pause(_) => PollEvent::Paused,
            PollAction::Finish => unreachable!(),
        };
        action = cycle.next(event);
        trace.push(action);
    }
    assert_eq!(
        trace,
        vec![
            PollAction::ReadPoint(0),
            PollAction::Pause(5),
            PollAction::ReadPoint(1),
            PollAction::Pause(5),
            PollAction::Finish
        ]
    );
}

#[test]
fn polling_cycle_batch_success_and_fallback() {
    let (mut cycle, action) = PollingCycle::start(&config(true, 0), &names(&["g1", "g2", "g1"]));
    assert_eq!(action, PollAction::ReadGroup(0));
    assert_eq!(cycle.list(0), &vec![0, 2]);
    assert_eq!(cycle.next(PollEvent::GroupRead(false)), PollAction::ReadPoint(0));
    assert_eq!(cycle.next(PollEvent::PointRead), PollAction::ReadPoint(2));
    assert_eq!(cycle.next(PollEvent::PointRead), PollAction::ReadGroup(1));
    assert_eq!(cycle.next(PollEvent::GroupRead(true)), PollAction::Finish);
}

#[test]
fn polling_cycle_without_points_finishes_at_once() {
    let (_, action) = PollingCycle::start(&config(true, 10), &Vec::new());
    assert_eq!(action, PollAction::Finish);
    let (_, action) = PollingCycle::start(&config(false, 10), &Vec::new());
    assert_eq!(action, PollAction::Finish);
}

#[test]
fn polling_counters_record_cycles() {
    let mut c = PollingCounters::new();
    c.record_cycle(true, 3);
    c.record_cycle(false, 0);
    c.record_cycle(true, 2);
    assert_eq!(c.total_cycles, 3);
    assert_eq!(c.successful_cycles, 2);
    assert_eq!(c.failed_cycles, 1);
    assert_eq!(c.total_points_read, 5);
    assert_eq!(c.total_points_failed, 0);
}

#[test]
fn polling_start_decision_refuses_second_start() {
    match polling_start_decision(true, &config(true, 0)) {
        Err(ComSrvError::InvalidOperation(m)) => assert_eq!(m, "Polling is already running"),
        other => panic!("unexpected {:?}", other),
    }
    let mut off = config(true, 0);
    off.enabled = false;
    assert_eq!(polling_start_decision(false, &off).unwrap(), false);
    assert_eq!(polling_start_decision(false, &config(true, 0)).unwrap(), true);
}

#[test]
fn polling_error_point_and_time_cache() {
    let t = SystemTime::UNIX_EPOCH;
    let d = read_error_point("p1", "Pump", "kW", "timeout", t);
    assert_eq!(d.value, "null");
    assert_eq!(d.description, "Read error: timeout");
    assert_eq!(d.id, "p1");
    assert_eq!(d.unit, "kW");
    assert_eq!(d.timestamp, t);
    let mut cache = TimeCache::new();
    let a = cache.now();
    let b = cache.now();
    assert!(b >= a);
}

#[test]
fn cycle_without_batches_reads_at_most_the_maximum() {
    let mut config = PollingConfig::default();
    config.enable_batch_reading = false;
    config.point_read_delay_ms = 0;
    config.max_points_per_cycle = 2;
    let names: Vec<String> = vec!["a".to_string(), "b".to_string(), "c".to_string()];
    let (mut cycle, mut action) = PollingCycle::start(&config, &names);
    let mut read = Vec::new();
    while let PollAction::ReadPoint(i) = action {
        read.push(i);
        action = cycle.next(PollEvent::PointRead);
    }
    assert_eq!(read, vec![0, 1]);
    assert_eq!(action, PollAction::Finish);
    config.max_points_per_cycle = 0;
    let (_, first) = PollingCycle::start(&config, &names);
    assert_eq!(first, PollAction::Finish);
    config.enable_batch_reading = true;
    let (_, first) = PollingCycle::start(&config, &names);
    assert_eq!(first, PollAction::ReadGroup(0));
}
