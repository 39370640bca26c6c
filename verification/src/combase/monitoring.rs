//! Health levels, health check results and alert events, and the health check of
//! a connection, which reports the outcome of a user-supplied probe.

use vstd::prelude::*;
use std::time::{Instant, SystemTime};
use crate::combase::stats::current_time;
use crate::param_map::ParamMap;
use crate::text::string_of;

verus! {

/// A monotonic clock reading (`std::time::Instant`), carried through unread.
#[verifier::external_type_specification]
#[verifier::external_body]
pub struct ExInstant(Instant);

/// The current monotonic clock reading (`Instant::now`). Nothing is stated of the
/// value: it depends on the clock.
#[verifier::external_body]
pub(crate) fn instant_now() -> Instant {
    Instant::now()
}

/// Whole milliseconds elapsed since `start` (`Instant::elapsed`, then
/// `Duration::as_millis`, narrowed to `u64`). Nothing is stated of the value: it
/// depends on the clock.
#[verifier::external_body]
pub(crate) fn millis_since(start: &Instant) -> u64 {
    start.elapsed().as_millis() as u64
}

/// Health status level.
#[derive(Debug, Clone, Copy, PartialEq, Eq, Structural)]
pub enum HealthLevel {
    /// Healthy
    Healthy,
    /// Warning
    Warning,
    /// Critical
    Critical,
    /// Unknown
    Unknown,
}

/// The lowercase name of a health level.
pub open spec fn health_level_text(l: HealthLevel) -> Seq<char> {
    match l {
        HealthLevel::Healthy => "healthy"@,
        HealthLevel::Warning => "warning"@,
        HealthLevel::Critical => "critical"@,
        HealthLevel::Unknown => "unknown"@,
    }
}

impl HealthLevel {
    /// The level's lowercase name.
    pub fn to_string(&self) -> (s: String)
        ensures
            s@ == health_level_text(*self),
    {
        match self {
            HealthLevel::Healthy => string_of("healthy"),
            HealthLevel::Warning => string_of("warning"),
            HealthLevel::Critical => string_of("critical"),
            HealthLevel::Unknown => string_of("unknown"),
        }
    }
}

/// Health check result.
#[derive(Debug, Clone)]
pub struct HealthCheckResult {
    /// The component that was checked.
    pub component: String,
    /// The level the check found.
    pub level: HealthLevel,
    /// A human-readable summary.
    pub message: String,
    /// Named details of the check.
    pub details: ParamMap,
    /// When the check finished.
    pub timestamp: SystemTime,
    /// How long the check took, in milliseconds.
    pub check_duration_ms: u64,
}

/// The message of a connection check.
pub open spec fn connection_message(connected: bool) -> Seq<char> {
    if connected {
        "连接正常"@
    } else {
        "连接断开"@
    }
}

/// The result of a connection check: healthy with the message for a live
/// connection, critical otherwise, and one detail `connected` that spells the outcome.
pub fn connection_health_result(component: String, is_connected: bool, timestamp: SystemTime, check_duration_ms: u64) -> (r:
    HealthCheckResult)
    ensures
        r.component@ == component@,
        r.level == (if is_connected {
            HealthLevel::Healthy
        } else {
            HealthLevel::Critical
        }),
        r.message@ == connection_message(is_connected),
        r.details.wf(),
        r.details@ == map!["connected"@ => if is_connected {
            "true"@
        } else {
            "false"@
        }],
        r.timestamp == timestamp,
        r.check_duration_ms == check_duration_ms,
{
    let (level, message) = if is_connected {
        (HealthLevel::Healthy, string_of("连接正常"))
    } else {
        (HealthLevel::Critical, string_of("连接断开"))
    };
    let mut details = ParamMap::new();
    let shown = if is_connected {
        string_of("true")
    } else {
        string_of("false")
    };
    details.insert(string_of("connected"), shown);
    HealthCheckResult { component, level, message, details, timestamp, check_duration_ms }
}

/// Connection health checker: reports whether a probe finds the connection up.
pub struct ConnectionHealthChecker<F> {
    name: String,
    check_connection: F,
}

impl<F: Fn() -> bool> ConnectionHealthChecker<F> {
    /// A checker with the given name and probe.
    pub fn new(name: String, check_fn: F) -> (r: Self)
        ensures
            r.checker_name() == name@,
            r.probe() == check_fn,
    {
        ConnectionHealthChecker { name, check_connection: check_fn }
    }

    /// The name the checker was made with.
    pub closed spec fn checker_name(&self) -> Seq<char> {
        self.name@
    }

    /// The probe the checker was made with.
    pub closed spec fn probe(&self) -> F {
        self.check_connection
    }

    /// Runs the probe once and reports its outcome as a connection check result.
    pub fn check_health(&self) -> (r: HealthCheckResult)
        requires
            self.probe().requires(()),
        ensures
            exists|connected: bool|
                self.probe().ensures((), connected) && r.component@ == self.checker_name() && r.level == (
                if connected {
                    HealthLevel::Healthy
                } else {
                    HealthLevel::Critical
                }) && r.message@ == connection_message(connected),
    {
        let start = instant_now();
        let is_connected = (self.check_connection)();
        let duration = millis_since(&start);
        connection_health_result(self.name.clone(), is_connected, current_time(), duration)
    }

    /// The checker's name.
    pub fn name(&self) -> (r: &str)
        ensures
            r@ == self.checker_name(),
    {
        self.name.as_str()
    }
}

/// Alert severity.
#[derive(Debug, Clone, Copy, PartialEq, Eq, Structural)]
pub enum AlertSeverity {
    /// Info
    Info,
    /// Warning
    Warning,
    /// Critical
    Critical,
}

/// Alert event.
#[derive(Debug, Clone)]
pub struct AlertEvent {
    /// The rule that raised the alert.
    pub rule_name: String,
    /// The alert's severity.
    pub severity: AlertSeverity,
    /// A human-readable description.
    pub message: String,
    /// Named details.
    pub details: ParamMap,
    /// When the alert was raised.
    pub timestamp: SystemTime,
}

/// Appends `item` to a bounded log, then drops the oldest entry when the log has
/// grown past `max` entries.
pub fn push_bounded<T>(items: &mut Vec<T>, item: T, max: usize)
    requires
        old(items)@.len() < usize::MAX,
    ensures
        final(items)@ == if old(items)@.len() + 1 > max {
            old(items)@.push(item).drop_first()
        } else {
            old(items)@.push(item)
        },
{
    let ghost grown = old(items)@.push(item);
    items.push(item);
    if items.len() > max {
        let _ = items.remove(0);
        assert(items@ =~= grown.drop_first());
    }
}

/// The newest `limit` entries of a log, newest first.
pub fn newest_first<T>(items: &Vec<T>, limit: usize) -> (r: Vec<&T>)
    ensures
        r@.len() == if limit < items@.len() {
            limit as int
        } else {
            items@.len() as int
        },
        forall|k: int| 0 <= k < r@.len() ==> *(#[trigger] r@[k]) == items@[items@.len() - 1 - k],
{
    let n = items.len();
    let mut out: Vec<&T> = Vec::new();
    let mut k: usize = 0;
    while k < n && k < limit
        invariant
            n == items@.len(),
            k <= n,
            k <= limit,
            out@.len() == k,
            forall|j: int| 0 <= j < k ==> *(#[trigger] out@[j]) == items@[n - 1 - j],
        decreases n - k,
    {
        out.push(&items[n - 1 - k]);
        k = k + 1;
    }
    out
}

/// The number of results at the healthy level.
pub open spec fn healthy_count(results: Seq<HealthCheckResult>) -> nat
    decreases results.len(),
{
    if results.len() == 0 {
        0
    } else {
        healthy_count(results.drop_last()) + if results.last().level == HealthLevel::Healthy {
            1nat
        } else {
            0nat
        }
    }
}

/// Counts the results at the healthy level.
pub fn count_healthy(results: &Vec<HealthCheckResult>) -> (n: usize)
    ensures
        n == healthy_count(results@),
{
    let mut count: usize = 0;
    let mut k: usize = 0;
    while k < results.len()
        invariant
            k <= results@.len(),
            count == healthy_count(results@.subrange(0, k as int)),
            count <= k,
        decreases results@.len() - k,
    {
        assert(results@.subrange(0, k + 1).drop_last() == results@.subrange(0, k as int));
        if results[k].level == HealthLevel::Healthy {
            count = count + 1;
        }
        k = k + 1;
    }
    assert(results@.subrange(0, k as int) == results@);
    count
}

/// Response time samples in milliseconds, the newest `max_samples` kept.
#[derive(Debug, Clone)]
pub struct ResponseTimeStats {
    samples: Vec<u64>,
    max_samples: usize,
}

impl ResponseTimeStats {
    /// The kept samples, oldest first.
    pub closed spec fn kept(&self) -> Seq<u64> {
        self.samples@
    }

    /// The number of samples kept at most.
    pub closed spec fn capacity(&self) -> usize {
        self.max_samples
    }

    /// No samples yet.
    pub fn new(max_samples: usize) -> (r: Self)
        ensures
            r.kept() == Seq::<u64>::empty(),
            r.capacity() == max_samples,
    {
        ResponseTimeStats { samples: Vec::new(), max_samples }
    }

    /// Records a sample; the oldest sample is dropped when more than the capacity
    /// would be kept.
    pub fn add_sample(&mut self, response_time_ms: u64)
        requires
            old(self).kept().len() < usize::MAX,
        ensures
            final(self).capacity() == old(self).capacity(),
            final(self).kept() == if old(self).kept().len() + 1 > old(self).capacity() {
                old(self).kept().push(response_time_ms).drop_first()
            } else {
                old(self).kept().push(response_time_ms)
            },
    {
        push_bounded(&mut self.samples, response_time_ms, self.max_samples);
    }

    /// The kept samples, oldest first.
    pub fn samples(&self) -> (r: &Vec<u64>)
        ensures
            r@ == self.kept(),
    {
        &self.samples
    }

    /// The number of kept samples.
    pub fn sample_count(&self) -> (n: usize)
        ensures
            n == self.kept().len(),
    {
        self.samples.len()
    }
}

/// A bounded log that held at most `max` entries still does after an append, and
/// its newest entry is the appended one.
pub proof fn lemma_bounded_log_stays_bounded<T>(log: Seq<T>, item: T, max: nat)
    requires
        log.len() <= max,
        max > 0,
    ensures
        (if log.len() + 1 > max {
            log.push(item).drop_first()
        } else {
            log.push(item)
        }).len() <= max,
        (if log.len() + 1 > max {
            log.push(item).drop_first()
        } else {
            log.push(item)
        }).last() == item,
{
}

} // verus!
