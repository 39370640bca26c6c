//! Batched synchronisation of point data to Redis: the configuration, the buffer
//! of pending updates, which points a sync writes and under which keys, how the
//! writes are grouped into pipeline batches, the index members of each telemetry
//! type, and the statistics. The Redis commands themselves are sent outside the
//! library.

use vstd::prelude::*;
use std::time::{Duration, SystemTime};
use crate::combase::point_cache::{PointData, PointDataView, views_of};
use crate::combase::point_manager::{UniversalPointConfig, ids_of_type};
use crate::combase::stats::current_time;
use crate::combase::telemetry::TelemetryType;
use crate::error::push_str;
use crate::text::{decimal_of, parse_u32, parse_unsigned, push_decimal, string_of, u64_to_decimal};

verus! {

/// The duration of a number of milliseconds (`Duration::from_millis`).
pub uninterp spec fn duration_of_millis(ms: u64) -> Duration;

/// `Duration::from_millis`: the duration of `ms` milliseconds.
#[verifier::external_body]
fn millis(ms: u64) -> (d: Duration)
    ensures
        d == duration_of_millis(ms),
{
    Duration::from_millis(ms)
}

/// Configuration for Redis batch sync.
#[derive(Debug, Clone)]
pub struct RedisBatchSyncConfig {
    /// Maximum number of points to sync in one batch
    pub batch_size: usize,
    /// Interval between sync operations
    pub sync_interval: Duration,
    /// Redis key prefix for points
    pub key_prefix: String,
    /// TTL for point data in Redis (None = no expiry)
    pub point_ttl: Option<Duration>,
    /// Enable pipeline mode for better performance
    pub use_pipeline: bool,
}

impl Default for RedisBatchSyncConfig {
    fn default() -> (c: Self)
        ensures
            c.batch_size == 1000,
            c.sync_interval == duration_of_millis(100),
            c.key_prefix@ == "comsrv:points"@,
            c.point_ttl is None,
            c.use_pipeline,
    {
        RedisBatchSyncConfig {
            batch_size: 1000,
            sync_interval: millis(100),
            key_prefix: string_of("comsrv:points"),
            point_ttl: None,
            use_pipeline: true,
        }
    }
}

/// Statistics of the synchronisation. The average batch time is the bits of an
/// `f64`, in milliseconds.
#[derive(Debug, Clone, Copy)]
pub struct RedisSyncStats {
    /// Points written
    pub total_synced: u64,
    /// Batches completed
    pub batch_count: u64,
    /// Batches that failed
    pub failed_syncs: u64,
    /// Time of the last completed batch
    pub last_sync_time: Option<SystemTime>,
    /// Average time of a batch
    pub average_batch_time_bits: u64,
}

/// Statistics before any batch.
pub open spec fn is_zero_sync_stats(s: RedisSyncStats) -> bool {
    &&& s.total_synced == 0
    &&& s.batch_count == 0
    &&& s.failed_syncs == 0
    &&& s.last_sync_time is None
    &&& s.average_batch_time_bits == 0
}

impl Default for RedisSyncStats {
    fn default() -> (s: Self)
        ensures
            is_zero_sync_stats(s),
    {
        RedisSyncStats {
            total_synced: 0,
            batch_count: 0,
            failed_syncs: 0,
            last_sync_time: None,
            average_batch_time_bits: 0,
        }
    }
}

/// The Redis key of a point: the prefix, a colon and the point's number.
pub open spec fn point_key_text(prefix: Seq<char>, id: u32) -> Seq<char> {
    prefix + ":"@ + decimal_of(id as nat)
}

/// The Redis key of a point.
pub fn point_key(prefix: &str, id: u32) -> (r: String)
    ensures
        r@ == point_key_text(prefix@, id),
{
    let mut out = string_of(prefix);
    push_str(&mut out, ":");
    push_decimal(&mut out, id as u64);
    out
}

/// The name of a telemetry type as its Debug form writes it.
pub open spec fn type_debug_name(t: TelemetryType) -> Seq<char> {
    match t {
        TelemetryType::Telemetry => "Telemetry"@,
        TelemetryType::Signaling => "Signaling"@,
        TelemetryType::Control => "Control"@,
        TelemetryType::Setpoint => "Setpoint"@,
    }
}

/// The Redis key of the index of a telemetry type.
pub open spec fn type_index_key_text(prefix: Seq<char>, t: TelemetryType) -> Seq<char> {
    prefix + ":type:"@ + type_debug_name(t)
}

/// The Redis key of the index of a telemetry type.
pub fn type_index_key(prefix: &str, t: TelemetryType) -> (r: String)
    ensures
        r@ == type_index_key_text(prefix@, t),
{
    let mut out = string_of(prefix);
    push_str(&mut out, ":type:");
    match t {
        TelemetryType::Telemetry => push_str(&mut out, "Telemetry"),
        TelemetryType::Signaling => push_str(&mut out, "Signaling"),
        TelemetryType::Control => push_str(&mut out, "Control"),
        TelemetryType::Setpoint => push_str(&mut out, "Setpoint"),
    }
    out
}

/// The members of the index of a telemetry type: the numbers of the configurations
/// of that type, in order, as decimal texts.
pub fn index_members(configs: &[UniversalPointConfig], t: TelemetryType) -> (r: Vec<String>)
    ensures
        r@.len() == ids_of_type(configs@, t).len(),
        forall|i: int| 0 <= i < r@.len() ==> #[trigger] r@[i]@ == decimal_of(ids_of_type(configs@, t)[i] as nat),
{
    let mut out: Vec<String> = Vec::new();
    let n = configs.len();
    let mut i: usize = 0;
    while i < n
        invariant
            n == configs@.len(),
            i <= n,
            out@.len() == ids_of_type(configs@.subrange(0, i as int), t).len(),
            forall|j: int| 0 <= j < out@.len() ==> #[trigger] out@[j]@ == decimal_of(
                ids_of_type(configs@.subrange(0, i as int), t)[j] as nat,
            ),
        decreases n - i,
    {
        let ghost pre = configs@.subrange(0, i as int);
        let ghost cur = configs@.subrange(0, i + 1);
        assert(cur.drop_last() == pre);
        if configs[i].telemetry_type == t {
            out.push(u64_to_decimal(configs[i].point_id as u64));
        }
        i = i + 1;
    }
    assert(configs@.subrange(0, n as int) =~= configs@);
    out
}

/// The keys of the given points, in order.
pub fn delete_keys(prefix: &str, ids: &Vec<u32>) -> (r: Vec<String>)
    ensures
        r@.len() == ids@.len(),
        forall|i: int| 0 <= i < r@.len() ==> #[trigger] r@[i]@ == point_key_text(prefix@, ids@[i]),
{
    let mut out: Vec<String> = Vec::new();
    let n = ids.len();
    let mut i: usize = 0;
    while i < n
        invariant
            n == ids@.len(),
            i <= n,
            out@.len() == i,
            forall|j: int| 0 <= j < i ==> #[trigger] out@[j]@ == point_key_text(prefix@, ids@[j]),
        decreases n - i,
    {
        out.push(point_key(prefix, ids[i]));
        i = i + 1;
    }
    out
}

/// The sizes of the pipeline batches of `n` writes: the pipeline is sent each time
/// `size` writes are queued (after every write when `size` is zero), and once more
/// for what is left.
pub open spec fn batch_sizes(n: nat, size: nat) -> Seq<nat>
    decreases n,
{
    let m: nat = if size == 0 {
        1
    } else {
        size
    };
    if n == 0 {
        Seq::empty()
    } else if n <= m {
        seq![n]
    } else {
        seq![m] + batch_sizes((n - m) as nat, size)
    }
}

/// The sizes of the pipeline batches of `count` writes.
pub fn pipeline_batches(count: usize, batch_size: usize) -> (r: Vec<usize>)
    ensures
        r@.map_values(|b: usize| b as nat) == batch_sizes(count as nat, batch_size as nat),
{
    let m: usize = if batch_size == 0 {
        1
    } else {
        batch_size
    };
    let mut out: Vec<usize> = Vec::new();
    let mut rest: usize = count;
    while rest > 0
        invariant
            m == (if batch_size == 0 {
                1
            } else {
                batch_size
            }),
            out@.map_values(|b: usize| b as nat) + batch_sizes(rest as nat, batch_size as nat) == batch_sizes(
                count as nat,
                batch_size as nat,
            ),
        decreases rest,
    {
        let b: usize = if rest <= m {
            rest
        } else {
            m
        };
        let ghost before = out@.map_values(|x: usize| x as nat);
        out.push(b);
        assert(out@.map_values(|x: usize| x as nat) =~= before.push(b as nat));
        if rest <= m {
            assert(batch_sizes(rest as nat, batch_size as nat) =~= seq![rest as nat]);
            assert(batch_sizes((rest - b) as nat, batch_size as nat) =~= Seq::<nat>::empty());
        } else {
            assert(batch_sizes(rest as nat, batch_size as nat) =~= seq![m as nat] + batch_sizes(
                (rest - m) as nat,
                batch_size as nat,
            ));
        }
        assert(before.push(b as nat) + batch_sizes((rest - b) as nat, batch_size as nat) =~= before + batch_sizes(
            rest as nat,
            batch_size as nat,
        ));
        rest = rest - b;
    }
    assert(batch_sizes(0, batch_size as nat) =~= Seq::<nat>::empty());
    assert(out@.map_values(|b: usize| b as nat) + Seq::<nat>::empty() =~= out@.map_values(|b: usize| b as nat));
    out
}

/// The views of a list of numbered point data.
pub open spec fn entry_views(s: Seq<(u32, PointData)>) -> Seq<(u32, PointDataView)> {
    s.map_values(|e: (u32, PointData)| (e.0, e.1@))
}

/// The map from number to point data that a list of entries gives: a later entry
/// with the same number replaces an earlier one.
pub open spec fn entries_map(s: Seq<(u32, PointDataView)>) -> Map<u32, PointDataView>
    decreases s.len(),
{
    if s.len() == 0 {
        Map::empty()
    } else {
        entries_map(s.drop_last()).insert(s.last().0, s.last().1)
    }
}

/// Whether no two entries share a number.
pub open spec fn entry_ids_distinct(s: Seq<(u32, PointDataView)>) -> bool {
    forall|i: int, j: int| 0 <= i < s.len() && 0 <= j < s.len() && i != j ==> #[trigger] s[i].0 != #[trigger] s[j].0
}

/// The point data of a list whose identifiers are numbers, by number; a later
/// entry with the same number replaces an earlier one.
pub open spec fn numbered(s: Seq<PointDataView>) -> Map<u32, PointDataView>
    decreases s.len(),
{
    if s.len() == 0 {
        Map::empty()
    } else {
        let before = numbered(s.drop_last());
        match parse_unsigned(s.last().id, u32::MAX as nat) {
            Some(n) => before.insert(n as u32, s.last()),
            None => before,
        }
    }
}

/// A number is in the map of a list with distinct numbers exactly when an entry
/// carries it, and the map gives that entry's data.
proof fn lemma_entries_map(s: Seq<(u32, PointDataView)>, k: u32)
    requires
        entry_ids_distinct(s),
    ensures
        entries_map(s).contains_key(k) <==> exists|i: int| 0 <= i < s.len() && #[trigger] s[i].0 == k,
        forall|i: int| 0 <= i < s.len() && #[trigger] s[i].0 == k ==> entries_map(s)[k] == s[i].1,
    decreases s.len(),
{
    if s.len() > 0 {
        let p = s.drop_last();
        assert(entry_ids_distinct(p)) by {
            assert forall|i: int, j: int| 0 <= i < p.len() && 0 <= j < p.len() && i != j implies #[trigger] p[i].0
                != #[trigger] p[j].0 by {
                assert(p[i] == s[i]);
                assert(p[j] == s[j]);
            }
        }
        lemma_entries_map(p, k);
        if exists|i: int| 0 <= i < s.len() && #[trigger] s[i].0 == k {
            let w = choose|i: int| 0 <= i < s.len() && #[trigger] s[i].0 == k;
            if w < p.len() {
                assert(p[w] == s[w]);
            }
        }
        if exists|i: int| 0 <= i < p.len() && #[trigger] p[i].0 == k {
            let w = choose|i: int| 0 <= i < p.len() && #[trigger] p[i].0 == k;
            assert(s[w] == p[w]);
        }
        assert forall|i: int| 0 <= i < s.len() && #[trigger] s[i].0 == k implies entries_map(s)[k] == s[i].1 by {
            if i < p.len() {
                assert(p[i] == s[i]);
            }
        }
    }
}

/// Stores `data` under number `id`, replacing the data an entry with that number had.
fn put_entry(entries: &mut Vec<(u32, PointData)>, id: u32, data: PointData)
    requires
        entry_ids_distinct(entry_views(old(entries)@)),
    ensures
        entry_ids_distinct(entry_views(final(entries)@)),
        entries_map(entry_views(final(entries)@)) == entries_map(entry_views(old(entries)@)).insert(id, data@),
{
    let ghost before = entry_views(entries@);
    let ghost item = (id, data@);
    proof {
        lemma_entries_map(before, id);
    }
    let n = entries.len();
    let mut p: usize = 0;
    while p < n
        invariant
            n == entries@.len(),
            before == entry_views(entries@),
            p <= n,
            forall|q: int| 0 <= q < p ==> #[trigger] before[q].0 != id,
        ensures
            p <= n,
            forall|q: int| 0 <= q < p ==> #[trigger] before[q].0 != id,
            p < n ==> before[p as int].0 == id,
        decreases n - p,
    {
        if entries[p].0 == id {
            break;
        }
        p = p + 1;
    }
    if p < n {
        assert(before[p as int].0 == id);
        entries.set(p, (id, data));
        proof {
            let after = entry_views(entries@);
            assert(after =~= before.update(p as int, item));
            assert(entry_ids_distinct(after)) by {
                assert forall|a: int, b: int| 0 <= a < after.len() && 0 <= b < after.len() && a != b implies #[trigger] after[a].0
                    != #[trigger] after[b].0 by {
                    assert(after[a].0 == before[a].0);
                    assert(after[b].0 == before[b].0);
                }
            }
            assert forall|q: u32| #![auto] entries_map(after).contains_key(q) == entries_map(before).insert(id, item.1).contains_key(q) by {
                lemma_entries_map(after, q);
                lemma_entries_map(before, q);
                if exists|t: int| 0 <= t < after.len() && #[trigger] after[t].0 == q {
                    let t = choose|t: int| 0 <= t < after.len() && #[trigger] after[t].0 == q;
                    assert(before[t].0 == q);
                }
                if exists|t: int| 0 <= t < before.len() && #[trigger] before[t].0 == q {
                    let t = choose|t: int| 0 <= t < before.len() && #[trigger] before[t].0 == q;
                    assert(after[t].0 == q);
                }
            }
            assert forall|q: u32| #[trigger] entries_map(after).contains_key(q) implies entries_map(after)[q]
                == entries_map(before).insert(id, item.1)[q] by {
                lemma_entries_map(after, q);
                lemma_entries_map(before, q);
                let t = choose|t: int| 0 <= t < after.len() && #[trigger] after[t].0 == q;
                assert(after[p as int] == item);
                if t != p {
                    assert(after[t] == before[t]);
                    assert(q != id);
                    assert(entries_map(before)[q] == before[t].1);
                }
            }
            assert(entries_map(after) =~= entries_map(before).insert(id, item.1));
        }
    } else {
        entries.push((id, data));
        proof {
            let after = entry_views(entries@);
            assert(after =~= before.push(item));
            assert(after.drop_last() == before);
            assert(entry_ids_distinct(after)) by {
                assert forall|a: int, b: int| 0 <= a < after.len() && 0 <= b < after.len() && a != b implies #[trigger] after[a].0
                    != #[trigger] after[b].0 by {
                    if a < before.len() {
                        assert(after[a] == before[a]);
                    }
                    if b < before.len() {
                        assert(after[b] == before[b]);
                    }
                }
            }
        }
    }
}

/// The synchroniser's state outside the connection: its configuration, the
/// buffered updates, one per point, and the statistics.
#[derive(Debug)]
pub struct RedisBatchSync {
    config: RedisBatchSyncConfig,
    update_buffer: Vec<(u32, PointData)>,
    stats: RedisSyncStats,
}

impl RedisBatchSync {
    /// The configuration.
    pub closed spec fn settings(&self) -> RedisBatchSyncConfig {
        self.config
    }

    /// The buffered updates, by point number.
    pub closed spec fn pending(&self) -> Map<u32, PointDataView> {
        entries_map(entry_views(self.update_buffer@))
    }

    /// The statistics.
    pub closed spec fn statistics(&self) -> RedisSyncStats {
        self.stats
    }

    /// Each point is buffered once.
    pub closed spec fn wf(&self) -> bool {
        entry_ids_distinct(entry_views(self.update_buffer@))
    }

    /// A synchroniser with nothing buffered and zero statistics.
    pub fn new(config: RedisBatchSyncConfig) -> (s: Self)
        ensures
            s.wf(),
            s.settings() == config,
            s.pending() == Map::<u32, PointDataView>::empty(),
            is_zero_sync_stats(s.statistics()),
    {
        let s = RedisBatchSync { config, update_buffer: Vec::new(), stats: RedisSyncStats::default() };
        assert(entry_views(s.update_buffer@) =~= Seq::<(u32, PointDataView)>::empty());
        s
    }

    /// The configuration.
    pub fn config(&self) -> (r: &RedisBatchSyncConfig)
        ensures
            *r == self.settings(),
    {
        &self.config
    }

    /// Buffers updates; a later update of a point replaces an earlier one.
    pub fn buffer_updates(&mut self, updates: Vec<(u32, PointData)>)
        requires
            old(self).wf(),
        ensures
            final(self).wf(),
            final(self).pending() == old(self).pending().union_prefer_right(entries_map(entry_views(updates@))),
            final(self).settings() == old(self).settings(),
            final(self).statistics() == old(self).statistics(),
    {
        let ghost start = self.pending();
        let n = updates.len();
        let mut i: usize = 0;
        assert(entry_views(updates@).subrange(0, 0) =~= Seq::<(u32, PointDataView)>::empty());
        assert(start.union_prefer_right(Map::<u32, PointDataView>::empty()) =~= start);
        while i < n
            invariant
                n == updates@.len(),
                i <= n,
                self.wf(),
                self.config == old(self).config,
                self.stats == old(self).stats,
                self.pending() == start.union_prefer_right(entries_map(entry_views(updates@).subrange(0, i as int))),
            decreases n - i,
        {
            let ghost pre = entry_views(updates@).subrange(0, i as int);
            let ghost cur = entry_views(updates@).subrange(0, i + 1);
            assert(cur.drop_last() == pre);
            let id = updates[i].0;
            let data = updates[i].1.duplicate();
            assert(cur.last() == (id, data@));
            put_entry(&mut self.update_buffer, id, data);
            assert(self.pending() =~= start.union_prefer_right(entries_map(cur)));
            i = i + 1;
        }
        assert(entry_views(updates@).subrange(0, n as int) =~= entry_views(updates@));
    }

    /// The points a sync writes, each once: the current data whose identifiers are
    /// numbers, with the buffered updates in place of theirs. The buffer is emptied.
    pub fn take_batch(&mut self, current: Vec<PointData>) -> (r: Vec<(u32, PointData)>)
        requires
            old(self).wf(),
        ensures
            final(self).wf(),
            final(self).pending() == Map::<u32, PointDataView>::empty(),
            final(self).settings() == old(self).settings(),
            final(self).statistics() == old(self).statistics(),
            entry_ids_distinct(entry_views(r@)),
            entries_map(entry_views(r@)) == numbered(views_of(current@)).union_prefer_right(old(self).pending()),
    {
        let mut out: Vec<(u32, PointData)> = Vec::new();
        let ghost cv = views_of(current@);
        let n = current.len();
        let mut i: usize = 0;
        assert(entry_views(out@) =~= Seq::<(u32, PointDataView)>::empty());
        assert(cv.subrange(0, 0) =~= Seq::<PointDataView>::empty());
        while i < n
            invariant
                n == current@.len(),
                cv == views_of(current@),
                i <= n,
                entry_ids_distinct(entry_views(out@)),
                entries_map(entry_views(out@)) == numbered(cv.subrange(0, i as int)),
            decreases n - i,
        {
            let ghost pre = cv.subrange(0, i as int);
            let ghost cur = cv.subrange(0, i + 1);
            assert(cur.drop_last() == pre);
            assert(cur.last() == current@[i as int]@);
            match parse_u32(current[i].id.as_str()) {
                Some(id) => {
                    put_entry(&mut out, id, current[i].duplicate());
                },
                None => {},
            }
            i = i + 1;
        }
        assert(cv.subrange(0, n as int) =~= cv);
        let ghost base = numbered(cv);
        let ghost bv = entry_views(self.update_buffer@);
        let m = self.update_buffer.len();
        let mut j: usize = 0;
        assert(bv.subrange(0, 0) =~= Seq::<(u32, PointDataView)>::empty());
        assert(base.union_prefer_right(Map::<u32, PointDataView>::empty()) =~= base);
        while j < m
            invariant
                m == self.update_buffer@.len(),
                bv == entry_views(self.update_buffer@),
                j <= m,
                entry_ids_distinct(entry_views(out@)),
                entries_map(entry_views(out@)) == base.union_prefer_right(entries_map(bv.subrange(0, j as int))),
            decreases m - j,
        {
            let ghost pre = bv.subrange(0, j as int);
            let ghost cur = bv.subrange(0, j + 1);
            assert(cur.drop_last() == pre);
            let id = self.update_buffer[j].0;
            let data = self.update_buffer[j].1.duplicate();
            assert(cur.last() == (id, data@));
            put_entry(&mut out, id, data);
            assert(entries_map(entry_views(out@)) =~= base.union_prefer_right(entries_map(cur)));
            j = j + 1;
        }
        assert(bv.subrange(0, m as int) =~= bv);
        self.update_buffer = Vec::new();
        assert(entry_views(self.update_buffer@) =~= Seq::<(u32, PointDataView)>::empty());
        out
    }

    /// Counts written points.
    pub fn record_synced(&mut self, count: u64)
        requires
            old(self).statistics().total_synced + count <= u64::MAX,
        ensures
            final(self).statistics().total_synced == old(self).statistics().total_synced + count,
            final(self).statistics().batch_count == old(self).statistics().batch_count,
            final(self).statistics().failed_syncs == old(self).statistics().failed_syncs,
            final(self).statistics().last_sync_time == old(self).statistics().last_sync_time,
            final(self).statistics().average_batch_time_bits == old(self).statistics().average_batch_time_bits,
            final(self).pending() == old(self).pending(),
            final(self).wf() == old(self).wf(),
            final(self).settings() == old(self).settings(),
    {
        self.stats.total_synced = self.stats.total_synced + count;
    }

    /// Counts a completed batch, stamped now, with the new average batch time
    /// computed by the caller.
    pub fn record_batch(&mut self, average_batch_time_bits: u64)
        requires
            old(self).statistics().batch_count < u64::MAX,
        ensures
            final(self).statistics().batch_count == old(self).statistics().batch_count + 1,
            final(self).statistics().last_sync_time is Some,
            final(self).statistics().average_batch_time_bits == average_batch_time_bits,
            final(self).statistics().total_synced == old(self).statistics().total_synced,
            final(self).statistics().failed_syncs == old(self).statistics().failed_syncs,
            final(self).pending() == old(self).pending(),
            final(self).wf() == old(self).wf(),
            final(self).settings() == old(self).settings(),
    {
        self.stats.batch_count = self.stats.batch_count + 1;
        self.stats.last_sync_time = Some(current_time());
        self.stats.average_batch_time_bits = average_batch_time_bits;
    }

    /// Counts a failed batch.
    pub fn record_failure(&mut self)
        requires
            old(self).statistics().failed_syncs < u64::MAX,
        ensures
            final(self).statistics().failed_syncs == old(self).statistics().failed_syncs + 1,
            final(self).statistics().total_synced == old(self).statistics().total_synced,
            final(self).statistics().batch_count == old(self).statistics().batch_count,
            final(self).statistics().last_sync_time == old(self).statistics().last_sync_time,
            final(self).statistics().average_batch_time_bits == old(self).statistics().average_batch_time_bits,
            final(self).pending() == old(self).pending(),
            final(self).wf() == old(self).wf(),
            final(self).settings() == old(self).settings(),
    {
        self.stats.failed_syncs = self.stats.failed_syncs + 1;
    }

    /// The statistics.
    pub fn get_stats(&self) -> (r: RedisSyncStats)
        ensures
            r == self.statistics(),
    {
        self.stats
    }
}

} // verus!
