//! The connection pool of the transport bridge: a fixed number of slots, a queue of
//! free slot indices handed out first in, first out, request priorities and the
//! rule that decides which failures are retried.

use vstd::prelude::*;
use std::collections::VecDeque;
use std::time::{Duration, Instant};
use crate::combase::monitoring::instant_now;
use crate::error::ComSrvError;
use crate::param_map::ParamMap;
use crate::text::{decimal_of, string_of, u64_to_decimal};

verus! {

/// Cloning a monotonic clock reading (`Instant` is `Copy`, so its clone is a copy).
pub assume_specification[ <Instant as Clone>::clone ](t: &Instant) -> (r: Instant)
    ensures
        r == *t,
;

/// Cloning a duration (`Duration` is `Copy`, so its clone is a copy).
pub assume_specification[ <Duration as Clone>::clone ](d: &Duration) -> (r: Duration)
    ensures
        r == *d,
;

/// A duration of whole seconds (`Duration::from_secs`). Nothing is stated of the
/// value: `Duration` is opaque here and only carried.
#[verifier::external_body]
fn seconds(secs: u64) -> Duration {
    Duration::from_secs(secs)
}

/// Connection pool configuration.
#[derive(Debug, Clone)]
pub struct ConnectionPoolConfig {
    /// Number of connection slots.
    pub max_connections: usize,
    /// Connections the pool aims to keep open.
    pub min_connections: usize,
    /// Time allowed for opening a connection.
    pub connection_timeout: Duration,
    /// Time after which an idle connection may be closed.
    pub idle_timeout: Duration,
    /// Interval between connection health checks.
    pub health_check_interval: Duration,
}

impl Default for ConnectionPoolConfig {
    /// Five slots, at least one kept open; 10 s connection timeout, 5 min idle
    /// timeout, 30 s health check interval.
    fn default() -> (c: Self)
        ensures
            c.max_connections == 5,
            c.min_connections == 1,
    {
        ConnectionPoolConfig {
            max_connections: 5,
            min_connections: 1,
            connection_timeout: seconds(10),
            idle_timeout: seconds(300),
            health_check_interval: seconds(30),
        }
    }
}

/// Request priority, from lowest to highest.
#[derive(Debug, Clone, Copy, PartialEq, Eq, PartialOrd, Ord, Hash, Structural)]
pub enum RequestPriority {
    /// Low
    Low,
    /// Normal
    Normal,
    /// High
    High,
    /// Critical
    Critical,
}

/// The rank of a priority: higher ranks are served first.
pub open spec fn priority_rank(p: RequestPriority) -> nat {
    match p {
        RequestPriority::Low => 0,
        RequestPriority::Normal => 1,
        RequestPriority::High => 2,
        RequestPriority::Critical => 3,
    }
}

impl RequestPriority {
    /// The priority's rank: 0 for low up to 3 for critical.
    pub fn rank(&self) -> (r: u8)
        ensures
            r == priority_rank(*self),
    {
        match self {
            RequestPriority::Low => 0,
            RequestPriority::Normal => 1,
            RequestPriority::High => 2,
            RequestPriority::Critical => 3,
        }
    }
}

/// State of one pooled connection.
#[derive(Debug, Clone)]
pub struct ConnectionInfo {
    /// The connection's number, unique within its pool.
    pub id: usize,
    /// When the connection was created.
    pub created_at: Instant,
    /// When the connection was last used.
    pub last_used: Instant,
    /// Requests served over the connection.
    pub request_count: u64,
    /// Whether the last health check passed.
    pub is_healthy: bool,
}

/// Whether the failure is one that a retry may cure: network, timeout and
/// connection failures are; every other error is final.
pub open spec fn retriable(e: ComSrvError) -> bool {
    e is NetworkError || e is TimeoutError || e is ConnectionError
}

/// Checks whether an error may be retried.
pub fn is_retriable_error(error: &ComSrvError) -> (r: bool)
    ensures
        r == retriable(*error),
{
    match error {
        ComSrvError::NetworkError(_) => true,
        ComSrvError::TimeoutError(_) => true,
        ComSrvError::ConnectionError(_) => true,
        _ => false,
    }
}

/// The number of occupied slots.
pub open spec fn occupied_count<T>(s: Seq<Option<(T, ConnectionInfo)>>) -> nat
    decreases s.len(),
{
    if s.len() == 0 {
        0
    } else {
        occupied_count(s.drop_last()) + if s.last() is Some {
            1nat
        } else {
            0nat
        }
    }
}

/// Whether no index occurs twice.
pub open spec fn indices_distinct(s: Seq<usize>) -> bool {
    forall|i: int, j: int| 0 <= i < s.len() && 0 <= j < s.len() && i != j ==> s[i] != s[j]
}

/// Whether a slot's connection after a request is the one before it, with one more
/// request counted (wrapping at `u64::MAX`); its use time may be any.
pub open spec fn served_one_more<T>(before: Option<(T, ConnectionInfo)>, after: Option<(T, ConnectionInfo)>) -> bool {
    match (before, after) {
        (Some(o), Some(c)) => {
            &&& c.0 == o.0
            &&& c.1.id == o.1.id
            &&& c.1.created_at == o.1.created_at
            &&& c.1.is_healthy == o.1.is_healthy
            &&& c.1.request_count == (if o.1.request_count == u64::MAX {
                0
            } else {
                o.1.request_count + 1
            })
        },
        _ => false,
    }
}

/// Connection pool: `max_connections` slots, each empty or holding a transport,
/// and a queue of free slot indices.
pub struct ConnectionPool<T> {
    connections: Vec<Option<(T, ConnectionInfo)>>,
    available_indices: VecDeque<usize>,
    config: ConnectionPoolConfig,
    next_connection_id: usize,
}

impl<T> ConnectionPool<T> {
    /// The slots, each empty or holding a connection.
    pub closed spec fn slots(&self) -> Seq<Option<(T, ConnectionInfo)>> {
        self.connections@
    }

    /// The free slot indices, in the order they will be handed out.
    pub closed spec fn available(&self) -> Seq<usize> {
        self.available_indices@
    }

    /// The configuration the pool was made with.
    pub closed spec fn pool_config(&self) -> ConnectionPoolConfig {
        self.config
    }

    /// The number the next created connection receives.
    pub closed spec fn next_id(&self) -> usize {
        self.next_connection_id
    }

    /// Free indices name slots and none is queued twice.
    pub open spec fn wf(&self) -> bool {
        &&& indices_distinct(self.available())
        &&& forall|k: int| 0 <= k < self.available().len() ==> #[trigger] self.available()[k] < self.slots().len()
    }

    /// A pool with `max_connections` empty slots, all free in index order.
    pub fn new(config: ConnectionPoolConfig) -> (p: Self)
        ensures
            p.wf(),
            p.slots().len() == config.max_connections,
            forall|k: int| 0 <= k < p.slots().len() ==> #[trigger] p.slots()[k] is None,
            p.available() == Seq::new(config.max_connections as nat, |k: int| k as usize),
            p.pool_config() == config,
            p.next_id() == 0,
    {
        let n = config.max_connections;
        let mut connections: Vec<Option<(T, ConnectionInfo)>> = Vec::new();
        let mut available_indices: VecDeque<usize> = VecDeque::new();
        let mut i: usize = 0;
        while i < n
            invariant
                i <= n,
                connections@.len() == i,
                forall|k: int| 0 <= k < i ==> #[trigger] connections@[k] is None,
                available_indices@ == Seq::new(i as nat, |k: int| k as usize),
            decreases n - i,
        {
            connections.push(None);
            available_indices.push_back(i);
            i = i + 1;
            assert(available_indices@ =~= Seq::new(i as nat, |k: int| k as usize));
        }
        ConnectionPool { connections, available_indices, config, next_connection_id: 0 }
    }

    /// Takes the first free slot index, if any.
    pub fn acquire_connection(&mut self) -> (r: Option<usize>)
        requires
            old(self).wf(),
        ensures
            final(self).wf(),
            final(self).slots() == old(self).slots(),
            final(self).pool_config() == old(self).pool_config(),
            final(self).next_id() == old(self).next_id(),
            match r {
                Some(i) => old(self).available().len() > 0 && i == old(self).available()[0]
                    && final(self).available() == old(self).available().drop_first(),
                None => old(self).available().len() == 0 && final(self).available() == old(self).available(),
            },
    {
        let r = self.available_indices.pop_front();
        proof {
            let s = self.available_indices@;
            let o = old(self).available_indices@;
            if r is Some {
                assert(s == o.drop_first());
                assert forall|k: int| 0 <= k < s.len() implies #[trigger] s[k] < self.connections@.len() by {
                    assert(s[k] == o[k + 1]);
                }
                assert forall|a: int, b: int| 0 <= a < s.len() && 0 <= b < s.len() && a != b implies s[a] != s[b] by {
                    assert(s[a] == o[a + 1]);
                    assert(s[b] == o[b + 1]);
                }
            }
        }
        r
    }

    /// Whether `index` is queued as free.
    fn is_available(&self, index: usize) -> (r: bool)
        ensures
            r == self.available().contains(index),
    {
        let n = self.available_indices.len();
        let mut k: usize = 0;
        while k < n
            invariant
                n == self.available_indices@.len(),
                k <= n,
                forall|j: int| 0 <= j < k ==> self.available_indices@[j] != index,
            decreases n - k,
        {
            if self.available_indices[k] == index {
                return true;
            }
            k = k + 1;
        }
        false
    }

    /// Returns slot `index` to the free queue, unless it is out of range or already free.
    pub fn release_connection(&mut self, index: usize)
        requires
            old(self).wf(),
        ensures
            final(self).wf(),
            final(self).slots() == old(self).slots(),
            final(self).pool_config() == old(self).pool_config(),
            final(self).next_id() == old(self).next_id(),
            final(self).available() == if index < old(self).slots().len() && !old(self).available().contains(index) {
                old(self).available().push(index)
            } else {
                old(self).available()
            },
    {
        if index < self.connections.len() && !self.is_available(index) {
            let ghost o = self.available_indices@;
            self.available_indices.push_back(index);
            proof {
                let s = self.available_indices@;
                assert forall|a: int, b: int| 0 <= a < s.len() && 0 <= b < s.len() && a != b implies s[a] != s[b] by {
                    if a < o.len() && b < o.len() {
                    } else if a == o.len() {
                        assert(o[b] == s[b]);
                        assert(o.contains(o[b]));
                    } else {
                        assert(o[a] == s[a]);
                        assert(o.contains(o[a]));
                    }
                }
            }
        }
    }

    /// Records a request served over the connection in slot `index`: its use time
    /// becomes now and its request count grows by one (wrapping at `u64::MAX`). A
    /// slot out of range or empty is a connection error.
    pub fn record_use(&mut self, index: usize) -> (r: Result<(), ComSrvError>)
        requires
            old(self).wf(),
        ensures
            final(self).wf(),
            final(self).available() == old(self).available(),
            final(self).pool_config() == old(self).pool_config(),
            final(self).next_id() == old(self).next_id(),
            final(self).slots().len() == old(self).slots().len(),
            forall|k: int| 0 <= k < old(self).slots().len() && k != index ==> #[trigger] final(self).slots()[k] == old(
                self,
            ).slots()[k],
            (index < old(self).slots().len() && old(self).slots()[index as int] is Some) <==> r is Ok,
            r is Ok ==> served_one_more(old(self).slots()[index as int], final(self).slots()[index as int]),
            r matches Err(e) ==> e matches ComSrvError::ConnectionError(m) && m@ == "无效的连接索引"@,
            r is Err ==> final(self).slots() == old(self).slots(),
    {
        if index >= self.connections.len() || self.connections[index].is_none() {
            return Err(ComSrvError::ConnectionError(string_of("无效的连接索引")));
        }
        let slot = self.connections.remove(index);
        match slot {
            Some((transport, info)) => {
                let used = ConnectionInfo {
                    id: info.id,
                    created_at: info.created_at,
                    last_used: instant_now(),
                    request_count: info.request_count.wrapping_add(1),
                    is_healthy: info.is_healthy,
                };
                self.connections.insert(index, Some((transport, used)));
                Ok(())
            },
            None => {
                self.connections.insert(index, None);
                Ok(())
            },
        }
    }

    /// Opens a connection in the first free slot with a transport made by `factory`,
    /// numbering it with the next connection number; fails when no slot is free.
    pub fn create_connection<F: Fn() -> T>(&mut self, transport_factory: F) -> (r: Result<usize, ComSrvError>)
        requires
            old(self).wf(),
            transport_factory.requires(()),
            old(self).next_id() < usize::MAX,
        ensures
            final(self).wf(),
            final(self).pool_config() == old(self).pool_config(),
            final(self).slots().len() == old(self).slots().len(),
            match r {
                Ok(i) => {
                    &&& old(self).available().len() > 0
                    &&& i == old(self).available()[0]
                    &&& final(self).available() == old(self).available().drop_first()
                    &&& final(self).next_id() == old(self).next_id() + 1
                    &&& final(self).slots()[i as int] matches Some((t, info)) && transport_factory.ensures((), t)
                        && info.id == old(self).next_id() && info.request_count == 0 && !info.is_healthy
                    &&& forall|k: int| 0 <= k < old(self).slots().len() && k != i ==> #[trigger] final(self).slots()[k]
                        == old(self).slots()[k]
                },
                Err(e) => {
                    &&& old(self).available().len() == 0
                    &&& e matches ComSrvError::ConnectionError(m) && m@ == "连接池已满"@
                    &&& final(self).available() == old(self).available()
                    &&& final(self).slots() == old(self).slots()
                    &&& final(self).next_id() == old(self).next_id()
                },
            },
    {
        match self.acquire_connection() {
            Some(index) => {
                let transport = transport_factory();
                let info = ConnectionInfo {
                    id: self.next_connection_id,
                    created_at: instant_now(),
                    last_used: instant_now(),
                    request_count: 0,
                    is_healthy: false,
                };
                self.next_connection_id = self.next_connection_id + 1;
                self.connections.set(index, Some((transport, info)));
                Ok(index)
            },
            None => Err(ComSrvError::ConnectionError(string_of("连接池已满"))),
        }
    }

    /// The number of occupied slots.
    fn active_count(&self) -> (n: usize)
        ensures
            n == occupied_count(self.slots()),
    {
        let mut count: usize = 0;
        let mut k: usize = 0;
        while k < self.connections.len()
            invariant
                k <= self.connections@.len(),
                count == occupied_count(self.connections@.subrange(0, k as int)),
                count <= k,
            decreases self.connections@.len() - k,
        {
            let ghost pre = self.connections@.subrange(0, k as int);
            assert(self.connections@.subrange(0, k + 1).drop_last() == pre);
            if self.connections[k].is_some() {
                count = count + 1;
            }
            k = k + 1;
        }
        assert(self.connections@.subrange(0, k as int) == self.connections@);
        count
    }

    /// Pool statistics: slot count, occupied slots, free slots and the configured maximum.
    pub fn get_stats(&self) -> (stats: ParamMap)
        ensures
            stats.wf(),
            stats@ == map![
                "total_connections"@ => decimal_of(self.slots().len()),
                "active_connections"@ => decimal_of(occupied_count(self.slots())),
                "available_connections"@ => decimal_of(self.available().len()),
                "max_connections"@ => decimal_of(self.pool_config().max_connections as nat),
            ],
    {
        let mut stats = ParamMap::new();
        let active = self.active_count();
        stats.insert(string_of("total_connections"), u64_to_decimal(self.connections.len() as u64));
        stats.insert(string_of("active_connections"), u64_to_decimal(active as u64));
        stats.insert(string_of("available_connections"), u64_to_decimal(self.available_indices.len() as u64));
        stats.insert(string_of("max_connections"), u64_to_decimal(self.config.max_connections as u64));
        stats
    }
}

/// Whether requests are in serving order: no request has a lower priority than
/// one after it.
pub open spec fn served_in_order<T>(s: Seq<(RequestPriority, T)>) -> bool {
    forall|i: int, j: int| 0 <= i < j < s.len() ==> priority_rank(#[trigger] s[i].0) >= priority_rank(#[trigger] s[j].0)
}

/// The number of waiting requests with priority `p`.
pub open spec fn count_priority<T>(s: Seq<(RequestPriority, T)>, p: RequestPriority) -> nat
    decreases s.len(),
{
    if s.len() == 0 {
        0
    } else {
        count_priority(s.drop_last(), p) + if s.last().0 == p {
            1nat
        } else {
            0nat
        }
    }
}

/// Requests waiting to be served: higher priorities first and, among requests of
/// one priority, in the order they came.
#[derive(Debug)]
pub struct RequestQueue<T> {
    entries: Vec<(RequestPriority, T)>,
}

impl<T> View for RequestQueue<T> {
    type V = Seq<(RequestPriority, T)>;

    closed spec fn view(&self) -> Seq<(RequestPriority, T)> {
        self.entries@
    }
}

impl<T> RequestQueue<T> {
    /// An empty queue.
    pub fn new() -> (q: Self)
        ensures
            q@ == Seq::<(RequestPriority, T)>::empty(),
            served_in_order(q@),
    {
        RequestQueue { entries: Vec::new() }
    }

    /// The number of waiting requests.
    pub fn len(&self) -> (r: usize)
        ensures
            r == self@.len(),
    {
        self.entries.len()
    }

    /// Adds a request after every waiting request of its priority or a higher one,
    /// and before those of lower priority.
    pub fn enqueue(&mut self, priority: RequestPriority, item: T)
        requires
            served_in_order(old(self)@),
        ensures
            served_in_order(final(self)@),
            exists|pos: int|
                0 <= pos <= old(self)@.len() && (forall|i: int| 0 <= i < pos ==> priority_rank(#[trigger] old(self)@[i].0)
                    >= priority_rank(priority)) && (forall|i: int|
                    pos <= i < old(self)@.len() ==> priority_rank(#[trigger] old(self)@[i].0) < priority_rank(priority))
                    && final(self)@ == old(self)@.insert(pos, (priority, item)),
    {
        let rank = priority.rank();
        let n = self.entries.len();
        let mut pos: usize = 0;
        while pos < n
            invariant
                n == self.entries@.len(),
                self.entries@ == old(self)@,
                rank == priority_rank(priority),
                pos <= n,
                forall|i: int| 0 <= i < pos ==> priority_rank(#[trigger] self.entries@[i].0) >= rank,
            ensures
                pos <= n,
                forall|i: int| 0 <= i < pos ==> priority_rank(#[trigger] self.entries@[i].0) >= rank,
                pos < n ==> priority_rank(self.entries@[pos as int].0) < rank,
            decreases n - pos,
        {
            if self.entries[pos].0.rank() < rank {
                break;
            }
            pos = pos + 1;
        }
        proof {
            let s = old(self)@;
            assert forall|i: int| pos <= i < s.len() implies priority_rank(#[trigger] s[i].0) < rank by {
                if i > pos {
                    assert(priority_rank(s[pos as int].0) >= priority_rank(s[i].0));
                }
            }
        }
        self.entries.insert(pos, (priority, item));
        proof {
            let s = old(self)@;
            let t = self.entries@;
            assert(t == s.insert(pos as int, (priority, item)));
            assert forall|i: int, j: int| 0 <= i < j < t.len() implies priority_rank(#[trigger] t[i].0) >= priority_rank(
                #[trigger] t[j].0,
            ) by {
                if i < pos && j < pos {
                    assert(t[i] == s[i] && t[j] == s[j]);
                } else if i < pos && j == pos {
                    assert(t[i] == s[i]);
                } else if i < pos {
                    assert(t[i] == s[i] && t[j] == s[j - 1]);
                } else if i == pos {
                    assert(t[j] == s[j - 1]);
                } else {
                    assert(t[i] == s[i - 1] && t[j] == s[j - 1]);
                }
            }
        }
    }

    /// Takes the request to serve next: the first one, which has the highest
    /// priority waiting and came first among requests of that priority.
    pub fn dequeue(&mut self) -> (r: Option<(RequestPriority, T)>)
        requires
            served_in_order(old(self)@),
        ensures
            served_in_order(final(self)@),
            old(self)@.len() == 0 ==> r is None && final(self)@ == old(self)@,
            old(self)@.len() > 0 ==> r == Some(old(self)@[0]) && final(self)@ == old(self)@.drop_first(),
            r matches Some(e) ==> forall|i: int| 0 <= i < old(self)@.len() ==> priority_rank(e.0) >= priority_rank(
                #[trigger] old(self)@[i].0,
            ),
    {
        if self.entries.len() == 0 {
            return None;
        }
        let first = self.entries.remove(0);
        proof {
            let s = old(self)@;
            assert(self.entries@ =~= s.drop_first());
            assert forall|i: int| 0 <= i < s.len() implies priority_rank(first.0) >= priority_rank(#[trigger] s[i].0) by {
                if i > 0 {
                    assert(priority_rank(s[0].0) >= priority_rank(s[i].0));
                }
            }
            let t = self.entries@;
            assert forall|i: int, j: int| 0 <= i < j < t.len() implies priority_rank(#[trigger] t[i].0) >= priority_rank(
                #[trigger] t[j].0,
            ) by {
                assert(t[i] == s[i + 1] && t[j] == s[j + 1]);
            }
        }
        Some(first)
    }

    /// The number of waiting requests of a priority.
    pub fn count_of(&self, priority: RequestPriority) -> (r: usize)
        ensures
            r == count_priority(self@, priority),
    {
        let n = self.entries.len();
        let mut count: usize = 0;
        let mut i: usize = 0;
        while i < n
            invariant
                n == self.entries@.len(),
                i <= n,
                count == count_priority(self.entries@.subrange(0, i as int), priority),
                count <= i,
            decreases n - i,
        {
            assert(self.entries@.subrange(0, i + 1).drop_last() =~= self.entries@.subrange(0, i as int));
            if self.entries[i].0 == priority {
                count = count + 1;
            }
            i = i + 1;
        }
        assert(self.entries@.subrange(0, n as int) =~= self.entries@);
        count
    }
}

/// The status key of the count of a priority.
pub open spec fn priority_count_key(p: RequestPriority) -> Seq<char> {
    match p {
        RequestPriority::Low => "priority_Low_count"@,
        RequestPriority::Normal => "priority_Normal_count"@,
        RequestPriority::High => "priority_High_count"@,
        RequestPriority::Critical => "priority_Critical_count"@,
    }
}

/// The status map entry of the count of a priority, added when there is a request
/// of that priority.
pub open spec fn with_priority_count<T>(m: Map<Seq<char>, Seq<char>>, s: Seq<(RequestPriority, T)>, p: RequestPriority) -> Map<
    Seq<char>,
    Seq<char>,
> {
    if count_priority(s, p) > 0 {
        m.insert(priority_count_key(p), decimal_of(count_priority(s, p)))
    } else {
        m
    }
}

/// The queue status: its length, and the count of each priority that has requests.
pub open spec fn queue_status_of<T>(s: Seq<(RequestPriority, T)>) -> Map<Seq<char>, Seq<char>> {
    let m0 = map!["queue_length"@ => decimal_of(s.len())];
    let m1 = with_priority_count(m0, s, RequestPriority::Low);
    let m2 = with_priority_count(m1, s, RequestPriority::Normal);
    let m3 = with_priority_count(m2, s, RequestPriority::High);
    with_priority_count(m3, s, RequestPriority::Critical)
}

impl<T> RequestQueue<T> {
    /// Adds the count of a priority to a status map when there is a request of it.
    fn add_priority_count(&self, status: &mut ParamMap, priority: RequestPriority, key: &str)
        requires
            old(status).wf(),
            key@ == priority_count_key(priority),
        ensures
            final(status).wf(),
            final(status)@ == with_priority_count(old(status)@, self@, priority),
    {
        let count = self.count_of(priority);
        if count > 0 {
            status.insert(string_of(key), u64_to_decimal(count as u64));
        }
    }

    /// The queue status: `queue_length`, and `priority_<name>_count` for each
    /// priority that has requests.
    pub fn queue_status(&self) -> (status: ParamMap)
        ensures
            status.wf(),
            status@ == queue_status_of(self@),
    {
        let mut status = ParamMap::new();
        status.insert(string_of("queue_length"), u64_to_decimal(self.entries.len() as u64));
        proof {
            reveal_strlit("priority_Low_count");
            reveal_strlit("priority_Normal_count");
            reveal_strlit("priority_High_count");
            reveal_strlit("priority_Critical_count");
        }
        self.add_priority_count(&mut status, RequestPriority::Low, "priority_Low_count");
        self.add_priority_count(&mut status, RequestPriority::Normal, "priority_Normal_count");
        self.add_priority_count(&mut status, RequestPriority::High, "priority_High_count");
        self.add_priority_count(&mut status, RequestPriority::Critical, "priority_Critical_count");
        status
    }
}

/// Whether a failed attempt is tried again: attempts remain and the error is one
/// that may pass.
pub fn should_retry(attempts: u32, max_retries: u32, error: &ComSrvError) -> (r: bool)
    ensures
        r == (attempts <= max_retries && retriable(*error)),
{
    attempts <= max_retries && is_retriable_error(error)
}

/// Taking a free slot and giving it back leaves the same slots free; the slot only
/// moves to the end of the queue.
pub proof fn lemma_acquire_release_restores(available: Seq<usize>, slot_count: nat)
    requires
        available.len() > 0,
        indices_distinct(available),
        forall|k: int| 0 <= k < available.len() ==> #[trigger] available[k] < slot_count,
    ensures
        available[0] < slot_count,
        !available.drop_first().contains(available[0]),
        available.drop_first().push(available[0]).to_set() == available.to_set(),
        available.drop_first().push(available[0]).len() == available.len(),
{
    let rest = available.drop_first();
    let back = rest.push(available[0]);
    assert(!rest.contains(available[0])) by {
        if rest.contains(available[0]) {
            let j = choose|j: int| 0 <= j < rest.len() && rest[j] == available[0];
            assert(available[j + 1] == available[0]);
        }
    }
    assert(back.to_set() =~= available.to_set()) by {
        assert forall|x: usize| back.to_set().contains(x) implies available.to_set().contains(x) by {
            let j = choose|j: int| 0 <= j < back.len() && back[j] == x;
            if j < rest.len() {
                assert(available[j + 1] == x);
            } else {
                assert(available[0] == x);
            }
        }
        assert forall|x: usize| available.to_set().contains(x) implies back.to_set().contains(x) by {
            let j = choose|j: int| 0 <= j < available.len() && available[j] == x;
            if j == 0 {
                assert(back[rest.len() as int] == x);
            } else {
                assert(back[j - 1] == x);
            }
        }
    }
}

} // verus!
