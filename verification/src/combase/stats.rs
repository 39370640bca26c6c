//! Communication and connection statistics shared by the protocols.

use vstd::prelude::*;
use std::time::{Duration, SystemTime};
use crate::keyed::{find_keyed, keyed_map, keyed_views, keys_distinct, lemma_keyed_map, put_keyed};
use crate::text::{str_eq, string_of};

verus! {

/// A point in wall-clock time (`std::time::SystemTime`), carried through unread.
#[verifier::external_type_specification]
#[verifier::external_body]
pub struct ExSystemTime(SystemTime);

/// Cloning a wall-clock time (`SystemTime` is `Copy`, so its clone is a copy).
pub assume_specification[ <SystemTime as Clone>::clone ](t: &SystemTime) -> (r: SystemTime)
    ensures
        r == *t,
;

/// The current wall-clock time (`SystemTime::now`). Nothing is stated of the value:
/// it depends on the clock.
#[verifier::external_body]
pub(crate) fn current_time() -> SystemTime {
    SystemTime::now()
}

/// The start of the Unix epoch (`SystemTime::UNIX_EPOCH`), the time that statistics
/// carry before their first update. Nothing about the value is read here.
#[verifier::external_body]
pub(crate) fn unix_epoch() -> SystemTime {
    SystemTime::UNIX_EPOCH
}

/// The time elapsed since `t` (`SystemTime::elapsed`), zero where the clock reads
/// earlier than `t`. Nothing is stated of the value: it depends on the clock.
#[verifier::external_body]
fn elapsed_since(t: SystemTime) -> Duration {
    t.elapsed().unwrap_or_default()
}

/// The count a map of error counters gives a kind of error: zero for one never
/// counted.
pub open spec fn count_of(counts: Map<Seq<char>, u64>, error_type: Seq<char>) -> nat {
    if counts.contains_key(error_type) {
        counts[error_type] as nat
    } else {
        0
    }
}

/// The counters after one more error of a kind.
pub open spec fn one_more_error(counts: Map<Seq<char>, u64>, error_type: Seq<char>) -> Map<Seq<char>, u64> {
    counts.insert(error_type, (count_of(counts, error_type) + 1) as u64)
}

/// Base communication statistics that all protocols can extend. The average
/// response time is kept as the bits of an `f64`; the library does not compute it.
#[derive(Debug, Clone)]
pub struct BaseCommStats {
    /// Total number of requests/messages sent
    pub total_requests: u64,
    /// Number of successful requests/messages
    pub successful_requests: u64,
    /// Number of failed requests/messages
    pub failed_requests: u64,
    /// Number of timeout errors
    pub timeout_errors: u64,
    /// Average response time in milliseconds, as the bits of an `f64`
    pub avg_response_time_bits: u64,
    /// Last successful communication timestamp
    pub last_successful_communication: Option<SystemTime>,
    /// Start time for calculating uptime
    pub start_time: SystemTime,
    /// Protocol-specific error counters: each kind of error once, with its count
    pub error_counters: Vec<(String, u64)>,
}

/// The request counters of two statistics agree.
pub open spec fn same_requests(a: BaseCommStats, b: BaseCommStats) -> bool {
    &&& a.total_requests == b.total_requests
    &&& a.successful_requests == b.successful_requests
    &&& a.failed_requests == b.failed_requests
    &&& a.timeout_errors == b.timeout_errors
    &&& a.avg_response_time_bits == b.avg_response_time_bits
    &&& a.last_successful_communication == b.last_successful_communication
    &&& a.start_time == b.start_time
}

impl BaseCommStats {
    /// The error counters, by kind of error.
    pub closed spec fn error_counts(&self) -> Map<Seq<char>, u64> {
        keyed_map(keyed_views(self.error_counters@))
    }

    /// Each kind of error is counted in one place.
    pub closed spec fn wf(&self) -> bool {
        keys_distinct(keyed_views(self.error_counters@))
    }

    /// Whether these are fresh statistics: every counter zero, an average of zero
    /// (the bits of `0.0`), no success recorded and no error counted.
    pub open spec fn is_fresh(&self) -> bool {
        &&& self.wf()
        &&& self.total_requests == 0
        &&& self.successful_requests == 0
        &&& self.failed_requests == 0
        &&& self.timeout_errors == 0
        &&& self.avg_response_time_bits == 0
        &&& self.last_successful_communication is None
        &&& self.error_counts() == Map::<Seq<char>, u64>::empty()
    }

    /// New statistics, started now.
    pub fn new() -> (s: Self)
        ensures
            s.is_fresh(),
    {
        let s = BaseCommStats {
            total_requests: 0,
            successful_requests: 0,
            failed_requests: 0,
            timeout_errors: 0,
            avg_response_time_bits: 0,
            last_successful_communication: None,
            start_time: current_time(),
            error_counters: Vec::new(),
        };
        assert(s.error_counters@ =~= Seq::<(String, u64)>::empty());
        assert(keyed_views(s.error_counters@) =~= Seq::<(Seq<char>, u64)>::empty());
        s
    }

    /// Counts one request: a success is stamped with the current time; a failure
    /// of a named kind counts that kind, and a timeout also counts as one. The
    /// average response time is left to the caller, which holds the times.
    pub fn record_request(&mut self, success: bool, error_type: Option<&str>)
        requires
            old(self).wf(),
            old(self).total_requests < u64::MAX,
            success ==> old(self).successful_requests < u64::MAX,
            !success ==> old(self).failed_requests < u64::MAX,
            !success && error_type is Some ==> count_of(old(self).error_counts(), error_type.unwrap()@) < u64::MAX,
            !success && error_type is Some && error_type.unwrap()@ == "timeout"@ ==> old(self).timeout_errors
                < u64::MAX,
        ensures
            final(self).wf(),
            final(self).total_requests == old(self).total_requests + 1,
            final(self).avg_response_time_bits == old(self).avg_response_time_bits,
            final(self).start_time == old(self).start_time,
            success ==> {
                &&& final(self).successful_requests == old(self).successful_requests + 1
                &&& final(self).failed_requests == old(self).failed_requests
                &&& final(self).timeout_errors == old(self).timeout_errors
                &&& final(self).last_successful_communication is Some
                &&& final(self).error_counts() == old(self).error_counts()
            },
            !success ==> {
                &&& final(self).successful_requests == old(self).successful_requests
                &&& final(self).failed_requests == old(self).failed_requests + 1
                &&& final(self).last_successful_communication == old(self).last_successful_communication
                &&& final(self).timeout_errors == old(self).timeout_errors + (if error_type is Some
                    && error_type.unwrap()@ == "timeout"@ {
                    1int
                } else {
                    0int
                })
                &&& final(self).error_counts() == (match error_type {
                    Some(e) => one_more_error(old(self).error_counts(), e@),
                    None => old(self).error_counts(),
                })
            },
    {
        self.total_requests = self.total_requests + 1;
        if success {
            self.successful_requests = self.successful_requests + 1;
            self.last_successful_communication = Some(current_time());
        } else {
            self.failed_requests = self.failed_requests + 1;
            match error_type {
                Some(error) => {
                    proof {
                        reveal_strlit("timeout");
                    }
                    if str_eq(error, "timeout") {
                        self.timeout_errors = self.timeout_errors + 1;
                    }
                    self.increment_error_counter(error);
                },
                None => {},
            }
        }
    }

    /// The time since the statistics started.
    pub fn uptime(&self) -> (r: Duration) {
        elapsed_since(self.start_time)
    }

    /// Back to fresh statistics, started now.
    pub fn reset(&mut self)
        ensures
            final(self).is_fresh(),
    {
        *self = Self::new();
    }

    /// The count of errors of a kind; zero for one never counted.
    pub fn get_error_count(&self, error_type: &str) -> (r: u64)
        requires
            self.wf(),
        ensures
            r == count_of(self.error_counts(), error_type@),
    {
        proof {
            lemma_keyed_map(keyed_views(self.error_counters@), error_type@);
        }
        match find_keyed(&self.error_counters, error_type) {
            Some(p) => self.error_counters[p].1,
            None => 0,
        }
    }

    /// Counts one more error of a kind.
    pub fn increment_error_counter(&mut self, error_type: &str)
        requires
            old(self).wf(),
            count_of(old(self).error_counts(), error_type@) < u64::MAX,
        ensures
            final(self).wf(),
            same_requests(*old(self), *final(self)),
            final(self).error_counts() == one_more_error(old(self).error_counts(), error_type@),
    {
        let c = self.get_error_count(error_type);
        put_keyed(&mut self.error_counters, string_of(error_type), c + 1);
    }
}

impl Default for BaseCommStats {
    fn default() -> (s: Self)
        ensures
            s.is_fresh(),
    {
        Self::new()
    }
}

/// Base connection statistics for connection-oriented protocols.
#[derive(Debug, Clone)]
pub struct BaseConnectionStats {
    /// Number of reconnection attempts
    pub reconnect_attempts: u64,
    /// Number of currently connected clients (for servers)
    pub connected_clients: u32,
    /// Total connections made
    pub total_connections: u64,
    /// Connection drops/disconnections
    pub connection_drops: u64,
    /// Last connection time
    pub last_connection_time: Option<SystemTime>,
    /// Last disconnection time
    pub last_disconnection_time: Option<SystemTime>,
}

/// The number of connected clients after one more connects.
pub open spec fn clients_after_connection(c: u32) -> int {
    c + 1
}

/// The number of connected clients after one disconnects; it never drops below zero.
pub open spec fn clients_after_disconnection(c: u32) -> int {
    if c > 0 {
        c - 1
    } else {
        0
    }
}

/// Freshly created statistics: every counter zero and no times recorded.
pub open spec fn is_fresh(s: BaseConnectionStats) -> bool {
    &&& s.reconnect_attempts == 0
    &&& s.connected_clients == 0
    &&& s.total_connections == 0
    &&& s.connection_drops == 0
    &&& s.last_connection_time is None
    &&& s.last_disconnection_time is None
}

impl BaseConnectionStats {
    /// Create new connection statistics instance.
    pub fn new() -> (s: Self)
        ensures
            is_fresh(s),
    {
        BaseConnectionStats {
            reconnect_attempts: 0,
            connected_clients: 0,
            total_connections: 0,
            connection_drops: 0,
            last_connection_time: None,
            last_disconnection_time: None,
        }
    }

    /// Record a successful connection: one more connection and one more connected
    /// client, stamped with the current time.
    pub fn record_connection(&mut self)
        requires
            old(self).total_connections < u64::MAX,
            old(self).connected_clients < u32::MAX,
        ensures
            final(self).total_connections == old(self).total_connections + 1,
            final(self).connected_clients == clients_after_connection(old(self).connected_clients),
            final(self).last_connection_time is Some,
            final(self).reconnect_attempts == old(self).reconnect_attempts,
            final(self).connection_drops == old(self).connection_drops,
            final(self).last_disconnection_time == old(self).last_disconnection_time,
    {
        self.total_connections = self.total_connections + 1;
        self.last_connection_time = Some(current_time());
        self.connected_clients = self.connected_clients + 1;
    }

    /// Record a disconnection: one more drop and one client fewer (never below zero),
    /// stamped with the current time.
    pub fn record_disconnection(&mut self)
        requires
            old(self).connection_drops < u64::MAX,
        ensures
            final(self).connection_drops == old(self).connection_drops + 1,
            final(self).connected_clients == clients_after_disconnection(old(self).connected_clients),
            final(self).last_disconnection_time is Some,
            final(self).reconnect_attempts == old(self).reconnect_attempts,
            final(self).total_connections == old(self).total_connections,
            final(self).last_connection_time == old(self).last_connection_time,
    {
        self.connection_drops = self.connection_drops + 1;
        self.last_disconnection_time = Some(current_time());
        if self.connected_clients > 0 {
            self.connected_clients = self.connected_clients - 1;
        }
    }

    /// Record a reconnection attempt.
    pub fn record_reconnection_attempt(&mut self)
        requires
            old(self).reconnect_attempts < u64::MAX,
        ensures
            final(self).reconnect_attempts == old(self).reconnect_attempts + 1,
            final(self).connected_clients == old(self).connected_clients,
            final(self).total_connections == old(self).total_connections,
            final(self).connection_drops == old(self).connection_drops,
            final(self).last_connection_time == old(self).last_connection_time,
            final(self).last_disconnection_time == old(self).last_disconnection_time,
    {
        self.reconnect_attempts = self.reconnect_attempts + 1;
    }

    /// Reset connection statistics to their fresh state.
    pub fn reset(&mut self)
        ensures
            is_fresh(*final(self)),
    {
        *self = Self::new();
    }
}

impl Default for BaseConnectionStats {
    fn default() -> (s: Self)
        ensures
            is_fresh(s),
    {
        Self::new()
    }
}

/// A connection followed by a disconnection leaves the number of connected clients
/// where it was, and a disconnection never leaves a negative count.
pub proof fn lemma_connect_then_disconnect(c: u32)
    requires
        c < u32::MAX,
    ensures
        clients_after_disconnection((c + 1) as u32) == c,
        clients_after_connection(c) == c + 1,
        clients_after_disconnection(c) >= 0,
{
}

} // verus!
