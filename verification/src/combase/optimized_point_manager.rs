//! Point manager indexed by point number, with membership sets per telemetry
//! type and per access right, a name index and a real-time data cache.

use vstd::prelude::*;
use crate::combase::point_cache::{PointCache, PointData, PointDataView, data_map, ids_distinct, views_of};
use crate::combase::point_manager::{
    UniversalPointConfig, cached_among, configs_by_id, data_for, display_name, ids_of_type, lemma_map_of_points,
    lemma_map_of_points_len, lemma_names_unique, lemma_type_counts_split, load_stopped_at, map_of_points, point_config_check,
    point_ids_distinct, position_of_number, store_config, text_or_empty_of,
};
use crate::combase::stats::{current_time, unix_epoch};
use crate::combase::telemetry::TelemetryType;
use crate::error::{ComSrvError, text_num_text};
use crate::text::{decimal_of, parse_u32, parse_unsigned, str_eq, u64_to_decimal};
use std::time::SystemTime;

verus! {

/// Statistics of the indexed point manager.
#[derive(Debug, Clone, Copy)]
pub struct OptimizedPointManagerStats {
    /// Number of distinct points
    pub total_points: usize,
    /// Number of enabled points
    pub enabled_points: usize,
    /// Number of measurement configurations loaded
    pub telemetry_points: usize,
    /// Number of signaling configurations loaded
    pub signaling_points: usize,
    /// Number of control configurations loaded
    pub control_points: usize,
    /// Number of regulation configurations loaded
    pub setpoint_points: usize,
    /// Number of read operations
    pub read_operations: u64,
    /// Number of write operations
    pub write_operations: u64,
    /// Number of cache hits
    pub cache_hits: u64,
    /// Number of cache misses
    pub cache_misses: u64,
    /// Last update time
    pub last_update: SystemTime,
}

/// An entry of the name index: a point name and the number it stands for.
#[derive(Debug, Clone)]
pub struct NamedPoint {
    /// Point name
    pub name: String,
    /// Point number
    pub point_id: u32,
}

impl View for NamedPoint {
    type V = (Seq<char>, u32);

    open spec fn view(&self) -> (Seq<char>, u32) {
        (self.name@, self.point_id)
    }
}

/// The numbers of the enabled configurations of a list, in order.
pub open spec fn enabled_ids(s: Seq<UniversalPointConfig>) -> Seq<u32>
    decreases s.len(),
{
    if s.len() == 0 {
        Seq::empty()
    } else if s.last().enabled {
        enabled_ids(s.drop_last()).push(s.last().point_id)
    } else {
        enabled_ids(s.drop_last())
    }
}

/// The numbers of the readable configurations of a list, in order.
pub open spec fn readable_ids(s: Seq<UniversalPointConfig>) -> Seq<u32>
    decreases s.len(),
{
    if s.len() == 0 {
        Seq::empty()
    } else if s.last().readable {
        readable_ids(s.drop_last()).push(s.last().point_id)
    } else {
        readable_ids(s.drop_last())
    }
}

/// The numbers of the writable configurations of a list, in order.
pub open spec fn writable_ids(s: Seq<UniversalPointConfig>) -> Seq<u32>
    decreases s.len(),
{
    if s.len() == 0 {
        Seq::empty()
    } else if s.last().writable {
        writable_ids(s.drop_last()).push(s.last().point_id)
    } else {
        writable_ids(s.drop_last())
    }
}

/// The (name, number) pairs of the named configurations of a list, in order.
pub open spec fn names_loaded(s: Seq<UniversalPointConfig>) -> Seq<(Seq<char>, u32)>
    decreases s.len(),
{
    if s.len() == 0 {
        Seq::empty()
    } else {
        match s.last().name {
            Some(n) => names_loaded(s.drop_last()).push((n@, s.last().point_id)),
            None => names_loaded(s.drop_last()),
        }
    }
}

/// The number that the last pair with name `key` gives.
pub open spec fn name_lookup(s: Seq<(Seq<char>, u32)>, key: Seq<char>) -> Option<u32>
    decreases s.len(),
{
    if s.len() == 0 {
        None
    } else if s.last().0 == key {
        Some(s.last().1)
    } else {
        name_lookup(s.drop_last(), key)
    }
}

/// The memory estimate for a number of points, cached values and enabled points.
pub open spec fn memory_estimate(points: nat, cached: nat, enabled: nat) -> nat {
    points * vstd::layout::size_of::<(u32, UniversalPointConfig)>() + cached * vstd::layout::size_of::<
        (u32, PointData),
    >() + enabled * vstd::layout::size_of::<u32>() * 3
}

/// Point manager indexed by point number.
#[derive(Debug, Clone)]
pub struct OptimizedPointManager {
    points: Vec<UniversalPointConfig>,
    cache: PointCache,
    telemetry_set: Vec<u32>,
    signaling_set: Vec<u32>,
    control_set: Vec<u32>,
    setpoint_set: Vec<u32>,
    names: Vec<NamedPoint>,
    enabled_set: Vec<u32>,
    readable_set: Vec<u32>,
    writable_set: Vec<u32>,
    stats: OptimizedPointManagerStats,
    channel_id: String,
}

/// `v` with `n` added when absent.
fn add_member(v: &mut Vec<u32>, n: u32)
    requires
        old(v)@.no_duplicates(),
    ensures
        final(v)@.no_duplicates(),
        final(v)@.to_set() == old(v)@.to_set().insert(n),
{
    let len = v.len();
    let mut i: usize = 0;
    while i < len
        invariant
            len == v@.len(),
            v@ == old(v)@,
            old(v)@.no_duplicates(),
            i <= len,
            forall|j: int| 0 <= j < i ==> v@[j] != n,
        decreases len - i,
    {
        if v[i] == n {
            proof {
                assert(v@.contains(n));
                assert(v@.to_set().insert(n) =~= v@.to_set());
            }
            return;
        }
        i = i + 1;
    }
    let ghost before = v@;
    v.push(n);
    proof {
        before.lemma_push_to_set_commute(n);
        assert(!before.contains(n));
    }
}

/// Whether `v` holds `n`.
fn holds(v: &Vec<u32>, n: u32) -> (r: bool)
    ensures
        r == v@.contains(n),
{
    let len = v.len();
    let mut i: usize = 0;
    while i < len
        invariant
            len == v@.len(),
            i <= len,
            forall|j: int| 0 <= j < i ==> v@[j] != n,
        decreases len - i,
    {
        if v[i] == n {
            assert(v@[i as int] == n);
            return true;
        }
        i = i + 1;
    }
    false
}

/// A copy of a list of numbers.
fn copy_ids(v: &Vec<u32>) -> (r: Vec<u32>)
    ensures
        r@ == v@,
{
    let mut out: Vec<u32> = Vec::new();
    let len = v.len();
    let mut i: usize = 0;
    while i < len
        invariant
            len == v@.len(),
            i <= len,
            out@ == v@.subrange(0, i as int),
        decreases len - i,
    {
        out.push(v[i]);
        assert(out@ =~= v@.subrange(0, i + 1));
        i = i + 1;
    }
    assert(v@.subrange(0, len as int) =~= v@);
    out
}

/// The views of a name index.
pub open spec fn name_views(s: Seq<NamedPoint>) -> Seq<(Seq<char>, u32)> {
    s.map_values(|e: NamedPoint| e@)
}

impl OptimizedPointManager {
    /// The configurations by point number.
    pub closed spec fn configs(&self) -> Map<u32, UniversalPointConfig> {
        map_of_points(self.points@)
    }

    /// The numbers loaded under a telemetry type.
    pub closed spec fn type_set(&self, t: TelemetryType) -> Set<u32> {
        match t {
            TelemetryType::Telemetry => self.telemetry_set@.to_set(),
            TelemetryType::Signaling => self.signaling_set@.to_set(),
            TelemetryType::Control => self.control_set@.to_set(),
            TelemetryType::Setpoint => self.setpoint_set@.to_set(),
        }
    }

    /// The numbers loaded as enabled.
    pub closed spec fn enabled(&self) -> Set<u32> {
        self.enabled_set@.to_set()
    }

    /// The numbers loaded as readable.
    pub closed spec fn readable(&self) -> Set<u32> {
        self.readable_set@.to_set()
    }

    /// The numbers loaded as writable.
    pub closed spec fn writable(&self) -> Set<u32> {
        self.writable_set@.to_set()
    }

    /// The name index: the (name, number) pairs in the order they were loaded.
    pub closed spec fn name_index(&self) -> Seq<(Seq<char>, u32)> {
        name_views(self.names@)
    }

    /// The latest data of each point, by identifier text.
    pub closed spec fn cached(&self) -> Map<Seq<char>, PointDataView> {
        self.cache@
    }

    /// The statistics.
    pub closed spec fn statistics(&self) -> OptimizedPointManagerStats {
        self.stats
    }

    /// The channel the points belong to.
    pub closed spec fn channel(&self) -> Seq<char> {
        self.channel_id@
    }

    /// The number lists hold each number once, numbers are distinct among the
    /// configurations, and the cache is well formed.
    pub closed spec fn wf(&self) -> bool {
        &&& point_ids_distinct(self.points@)
        &&& self.cache.wf()
        &&& self.telemetry_set@.no_duplicates()
        &&& self.signaling_set@.no_duplicates()
        &&& self.control_set@.no_duplicates()
        &&& self.setpoint_set@.no_duplicates()
        &&& self.enabled_set@.no_duplicates()
        &&& self.readable_set@.no_duplicates()
        &&& self.writable_set@.no_duplicates()
    }

    /// A manager without points.
    pub fn new(channel_id: String) -> (m: Self)
        ensures
            m.wf(),
            m.configs() == Map::<u32, UniversalPointConfig>::empty(),
            forall|t: TelemetryType| #[trigger] m.type_set(t) == Set::<u32>::empty(),
            m.enabled() == Set::<u32>::empty(),
            m.readable() == Set::<u32>::empty(),
            m.writable() == Set::<u32>::empty(),
            m.name_index() == Seq::<(Seq<char>, u32)>::empty(),
            m.cached() == Map::<Seq<char>, PointDataView>::empty(),
            m.statistics().total_points == 0,
            m.statistics().enabled_points == 0,
            m.statistics().telemetry_points == 0,
            m.statistics().signaling_points == 0,
            m.statistics().control_points == 0,
            m.statistics().setpoint_points == 0,
            m.statistics().read_operations == 0,
            m.statistics().write_operations == 0,
            m.statistics().cache_hits == 0,
            m.statistics().cache_misses == 0,
            m.channel() == channel_id@,
    {
        let m = OptimizedPointManager {
            points: Vec::new(),
            cache: PointCache::new(),
            telemetry_set: Vec::new(),
            signaling_set: Vec::new(),
            control_set: Vec::new(),
            setpoint_set: Vec::new(),
            names: Vec::new(),
            enabled_set: Vec::new(),
            readable_set: Vec::new(),
            writable_set: Vec::new(),
            stats: OptimizedPointManagerStats {
                total_points: 0,
                enabled_points: 0,
                telemetry_points: 0,
                signaling_points: 0,
                control_points: 0,
                setpoint_points: 0,
                read_operations: 0,
                write_operations: 0,
                cache_hits: 0,
                cache_misses: 0,
                last_update: unix_epoch(),
            },
            channel_id,
        };
        proof {
            assert(m.points@ =~= Seq::<UniversalPointConfig>::empty());
            assert(m.configs() =~= Map::<u32, UniversalPointConfig>::empty());
            assert(Seq::<u32>::empty().to_set() =~= Set::<u32>::empty());
            assert(m.name_index() =~= Seq::<(Seq<char>, u32)>::empty());
        }
        m
    }

    /// Adds a number to the set of a type.
    fn add_to_type(&mut self, t: TelemetryType, n: u32)
        requires
            old(self).wf(),
        ensures
            final(self).wf(),
            final(self).type_set(t) == old(self).type_set(t).insert(n),
            forall|u: TelemetryType| u != t ==> #[trigger] final(self).type_set(u) == old(self).type_set(u),
            final(self).points == old(self).points,
            final(self).cache == old(self).cache,
            final(self).names == old(self).names,
            final(self).enabled_set == old(self).enabled_set,
            final(self).readable_set == old(self).readable_set,
            final(self).writable_set == old(self).writable_set,
            final(self).stats == old(self).stats,
            final(self).channel_id == old(self).channel_id,
    {
        match t {
            TelemetryType::Telemetry => add_member(&mut self.telemetry_set, n),
            TelemetryType::Signaling => add_member(&mut self.signaling_set, n),
            TelemetryType::Control => add_member(&mut self.control_set, n),
            TelemetryType::Setpoint => add_member(&mut self.setpoint_set, n),
        }
    }

    /// Replaces every point by the given configurations, checking each in turn and
    /// building the indices. On the first invalid configuration the load stops
    /// with its error: what was loaded before it stays and the statistics are left
    /// as they were. On success the statistics count the distinct points, the
    /// enabled ones, and each type's configurations with repeats included. The
    /// cache is left as it is.
    pub fn load_points(&mut self, configs: Vec<UniversalPointConfig>) -> (r: Result<(), ComSrvError>)
        requires
            old(self).wf(),
        ensures
            final(self).wf(),
            final(self).channel() == old(self).channel(),
            final(self).cached() == old(self).cached(),
            match r {
                Ok(()) => {
                    &&& forall|i: int| 0 <= i < configs@.len() ==> #[trigger] point_config_check(configs@[i]) is Ok
                    &&& final(self).configs() == configs_by_id(configs@)
                    &&& forall|t: TelemetryType| #[trigger] final(self).type_set(t) == ids_of_type(configs@, t).to_set()
                    &&& final(self).enabled() == enabled_ids(configs@).to_set()
                    &&& final(self).readable() == readable_ids(configs@).to_set()
                    &&& final(self).writable() == writable_ids(configs@).to_set()
                    &&& final(self).name_index() == names_loaded(configs@)
                    &&& final(self).statistics().total_points == configs_by_id(configs@).dom().len()
                    &&& final(self).statistics().enabled_points == enabled_ids(configs@).to_set().len()
                    &&& final(self).statistics().telemetry_points == ids_of_type(configs@, TelemetryType::Telemetry).len()
                    &&& final(self).statistics().signaling_points == ids_of_type(configs@, TelemetryType::Signaling).len()
                    &&& final(self).statistics().control_points == ids_of_type(configs@, TelemetryType::Control).len()
                    &&& final(self).statistics().setpoint_points == ids_of_type(configs@, TelemetryType::Setpoint).len()
                    &&& final(self).statistics().read_operations == old(self).statistics().read_operations
                    &&& final(self).statistics().write_operations == old(self).statistics().write_operations
                    &&& final(self).statistics().cache_hits == old(self).statistics().cache_hits
                    &&& final(self).statistics().cache_misses == old(self).statistics().cache_misses
                },
                Err(e) => exists|k: int|
                    #[trigger] load_stopped_at(configs@, k, e) && final(self).configs() == configs_by_id(
                        configs@.subrange(0, k),
                    ) && (forall|t: TelemetryType| #[trigger] final(self).type_set(t) == ids_of_type(configs@.subrange(0, k), t).to_set())
                        && final(self).enabled() == enabled_ids(configs@.subrange(0, k)).to_set()
                        && final(self).readable() == readable_ids(configs@.subrange(0, k)).to_set()
                        && final(self).writable() == writable_ids(configs@.subrange(0, k)).to_set()
                        && final(self).name_index() == names_loaded(configs@.subrange(0, k))
                        && final(self).statistics() == old(self).statistics(),
            },
    {
        self.points = Vec::new();
        self.telemetry_set = Vec::new();
        self.signaling_set = Vec::new();
        self.control_set = Vec::new();
        self.setpoint_set = Vec::new();
        self.names = Vec::new();
        self.enabled_set = Vec::new();
        self.readable_set = Vec::new();
        self.writable_set = Vec::new();
        let ghost all = configs@;
        let n = configs.len();
        let mut rest = configs;
        let mut counts: (usize, usize, usize, usize) = (0, 0, 0, 0);
        let mut i: usize = 0;
        proof {
            let e = Seq::<UniversalPointConfig>::empty();
            assert(all.subrange(0, 0) =~= e);
            assert(map_of_points(self.points@) =~= Map::<u32, UniversalPointConfig>::empty());
            assert(configs_by_id(e) =~= Map::<u32, UniversalPointConfig>::empty());
            assert(rest@ =~= all.subrange(0, n as int));
            assert(Seq::<u32>::empty().to_set() =~= Set::<u32>::empty());
            assert(name_views(self.names@) =~= Seq::<(Seq<char>, u32)>::empty());
        }
        while i < n
            invariant
                n == all.len(),
                configs@ == all,
                i <= n,
                rest@ == all.subrange(i as int, n as int),
                self.wf(),
                self.channel_id == old(self).channel_id,
                self.cache == old(self).cache,
                self.stats == old(self).stats,
                forall|j: int| 0 <= j < i ==> #[trigger] point_config_check(all[j]) is Ok,
                map_of_points(self.points@) == configs_by_id(all.subrange(0, i as int)),
                forall|t: TelemetryType| #[trigger] self.type_set(t) == ids_of_type(all.subrange(0, i as int), t).to_set(),
                self.enabled_set@.to_set() == enabled_ids(all.subrange(0, i as int)).to_set(),
                self.readable_set@.to_set() == readable_ids(all.subrange(0, i as int)).to_set(),
                self.writable_set@.to_set() == writable_ids(all.subrange(0, i as int)).to_set(),
                name_views(self.names@) == names_loaded(all.subrange(0, i as int)),
                counts.0 == ids_of_type(all.subrange(0, i as int), TelemetryType::Telemetry).len(),
                counts.1 == ids_of_type(all.subrange(0, i as int), TelemetryType::Signaling).len(),
                counts.2 == ids_of_type(all.subrange(0, i as int), TelemetryType::Control).len(),
                counts.3 == ids_of_type(all.subrange(0, i as int), TelemetryType::Setpoint).len(),
                counts.0 + counts.1 + counts.2 + counts.3 == i,
            decreases n - i,
        {
            let ghost head = *self;
            let ghost pre = all.subrange(0, i as int);
            let ghost cur = all.subrange(0, i + 1);
            assert(cur.drop_last() == pre);
            assert(cur.last() == all[i as int]);
            proof {
                lemma_type_counts_split(pre);
            }
            let config = rest.remove(0);
            assert(config == all[i as int]);
            assert(rest@ =~= all.subrange(i + 1, n as int));
            match config.validate() {
                Ok(()) => {},
                Err(e) => {
                    proof {
                        let k = i as int;
                        assert(load_stopped_at(all, k, e) && self.configs() == configs_by_id(all.subrange(0, k))
                            && (forall|t: TelemetryType| #[trigger] self.type_set(t) == ids_of_type(all.subrange(0, k), t).to_set())
                            && self.enabled() == enabled_ids(all.subrange(0, k)).to_set() && self.readable()
                            == readable_ids(all.subrange(0, k)).to_set() && self.writable() == writable_ids(
                            all.subrange(0, k),
                        ).to_set() && self.name_index() == names_loaded(all.subrange(0, k)) && self.statistics()
                            == old(self).statistics());
                    }
                    return Err(e);
                },
            }
            let id = config.point_id;
            let t = config.telemetry_type;
            if config.enabled {
                add_member(&mut self.enabled_set, id);
            }
            if config.readable {
                add_member(&mut self.readable_set, id);
            }
            if config.writable {
                add_member(&mut self.writable_set, id);
            }
            proof {
                enabled_ids(pre).lemma_push_to_set_commute(id);
                readable_ids(pre).lemma_push_to_set_commute(id);
                writable_ids(pre).lemma_push_to_set_commute(id);
                ids_of_type(pre, t).lemma_push_to_set_commute(id);
            }
            match t {
                TelemetryType::Telemetry => counts.0 = counts.0 + 1,
                TelemetryType::Signaling => counts.1 = counts.1 + 1,
                TelemetryType::Control => counts.2 = counts.2 + 1,
                TelemetryType::Setpoint => counts.3 = counts.3 + 1,
            }
            let ghost start = *self;
            self.add_to_type(t, id);
            assert forall|u: TelemetryType| #[trigger] self.type_set(u) == ids_of_type(cur, u).to_set() by {
                assert(head.type_set(u) == ids_of_type(pre, u).to_set());
                assert(start.type_set(u) == head.type_set(u));
            }
            let ghost typed = *self;
            match &config.name {
                Some(name) => {
                    let ghost prev = self.names@;
                    self.names.push(NamedPoint { name: name.clone(), point_id: id });
                    assert(name_views(self.names@) =~= name_views(prev).push((name@, id)));
                },
                None => {},
            }
            let ghost before_store = *self;
            store_config(&mut self.points, config);
            assert forall|u: TelemetryType| #[trigger] self.type_set(u) == ids_of_type(cur, u).to_set() by {
                assert(typed.type_set(u) == ids_of_type(cur, u).to_set());
                assert(before_store.type_set(u) == typed.type_set(u));
            }
            i = i + 1;
        }
        assert(all.subrange(0, n as int) =~= all);
        proof {
            lemma_map_of_points_len(self.points@);
            self.enabled_set@.unique_seq_to_set();
        }
        let ghost loaded = *self;
        self.stats.total_points = self.points.len();
        self.stats.enabled_points = self.enabled_set.len();
        self.stats.telemetry_points = counts.0;
        self.stats.signaling_points = counts.1;
        self.stats.control_points = counts.2;
        self.stats.setpoint_points = counts.3;
        self.stats.last_update = current_time();
        assert forall|t: TelemetryType| #[trigger] self.type_set(t) == ids_of_type(all, t).to_set() by {
            assert(loaded.type_set(t) == ids_of_type(all.subrange(0, n as int), t).to_set());
        }
        Ok(())
    }
}


/// The data a value text gives the point of number `n` and configuration `c` at time `ts`.
pub open spec fn point_view(n: u32, c: UniversalPointConfig, value: Seq<char>, ts: SystemTime) -> PointDataView {
    PointDataView {
        id: decimal_of(n as nat),
        name: display_name(c),
        value: value,
        timestamp: ts,
        unit: text_or_empty_of(c.unit),
        description: text_or_empty_of(c.description),
    }
}

/// The cache after a batch of (number, value text) updates at time `ts`: each
/// update of an enabled, loaded point replaces its data; the others are skipped.
pub open spec fn batch_applied(
    m: Map<Seq<char>, PointDataView>,
    ups: Seq<(u32, Seq<char>)>,
    en: Set<u32>,
    cfg: Map<u32, UniversalPointConfig>,
    ts: SystemTime,
) -> Map<Seq<char>, PointDataView>
    decreases ups.len(),
{
    if ups.len() == 0 {
        m
    } else {
        let before = batch_applied(m, ups.drop_last(), en, cfg, ts);
        let (n, v) = ups.last();
        if en.contains(n) && cfg.contains_key(n) {
            before.insert(decimal_of(n as nat), point_view(n, cfg[n], v, ts))
        } else {
            before
        }
    }
}

/// The number of updates of a batch that are applied.
pub open spec fn batch_count(ups: Seq<(u32, Seq<char>)>, en: Set<u32>, cfg: Map<u32, UniversalPointConfig>) -> nat
    decreases ups.len(),
{
    if ups.len() == 0 {
        0
    } else {
        batch_count(ups.drop_last(), en, cfg) + if en.contains(ups.last().0) && cfg.contains_key(ups.last().0) {
            1nat
        } else {
            0nat
        }
    }
}

/// The views of a batch of updates.
pub open spec fn update_views(s: Seq<(u32, String)>) -> Seq<(u32, Seq<char>)> {
    s.map_values(|u: (u32, String)| (u.0, u.1@))
}

/// The data of a point at a given time.
fn data_at(n: u32, config: &UniversalPointConfig, value: String, ts: SystemTime) -> (d: PointData)
    ensures
        d@ == point_view(n, *config, value@, ts),
{
    let d = data_for(u64_to_decimal(n as u64).as_str(), config, value);
    PointData { timestamp: ts, ..d }
}

impl OptimizedPointManager {
    /// The configuration with number `point_id`, if loaded.
    pub fn get_point_config(&self, point_id: u32) -> (r: Option<&UniversalPointConfig>)
        requires
            self.wf(),
        ensures
            match r {
                Some(c) => self.configs().contains_key(point_id) && self.configs()[point_id] == *c,
                None => !self.configs().contains_key(point_id),
            },
    {
        proof {
            lemma_map_of_points(self.points@, point_id);
        }
        match position_of_number(&self.points, point_id) {
            Some(p) => Some(&self.points[p]),
            None => None,
        }
    }

    /// The configuration whose number the text `point_id` gives, read as `u32` is
    /// parsed; `None` when it is no such number or no such point is loaded.
    pub fn get_point_config_by_string(&self, point_id: &str) -> (r: Option<&UniversalPointConfig>)
        requires
            self.wf(),
        ensures
            match parse_unsigned(point_id@, u32::MAX as nat) {
                Some(v) => match r {
                    Some(c) => self.configs().contains_key(v as u32) && self.configs()[v as u32] == *c,
                    None => !self.configs().contains_key(v as u32),
                },
                None => r is None,
            },
    {
        match parse_u32(point_id) {
            Some(id) => self.get_point_config(id),
            None => None,
        }
    }

    /// The configuration of the number that the name index gives for `name`.
    pub fn get_point_config_by_name(&self, name: &str) -> (r: Option<&UniversalPointConfig>)
        requires
            self.wf(),
        ensures
            match name_lookup(self.name_index(), name@) {
                Some(n) => match r {
                    Some(c) => self.configs().contains_key(n) && self.configs()[n] == *c,
                    None => !self.configs().contains_key(n),
                },
                None => r is None,
            },
    {
        let len = self.names.len();
        let mut i: usize = len;
        assert(self.name_index().subrange(0, len as int) =~= self.name_index());
        while i > 0
            invariant
                len == self.names@.len(),
                i <= len,
                self.wf(),
                name_lookup(self.name_index(), name@) == name_lookup(self.name_index().subrange(0, i as int), name@),
            decreases i,
        {
            let ghost idx = self.name_index();
            let ghost sub = idx.subrange(0, i as int);
            assert(sub.last() == self.names@[i - 1]@);
            if str_eq(self.names[i - 1].name.as_str(), name) {
                let id = self.names[i - 1].point_id;
                return self.get_point_config(id);
            }
            assert(sub.drop_last() =~= idx.subrange(0, i - 1));
            i = i - 1;
        }
        None
    }

    /// All loaded configurations, one per point number.
    pub fn get_all_point_configs(&self) -> (r: &[UniversalPointConfig])
        requires
            self.wf(),
        ensures
            point_ids_distinct(r@),
            map_of_points(r@) == self.configs(),
    {
        self.points.as_slice()
    }

    /// The numbers loaded under a telemetry type, each once.
    pub fn get_points_by_type(&self, telemetry_type: &TelemetryType) -> (r: Vec<u32>)
        requires
            self.wf(),
        ensures
            r@.no_duplicates(),
            r@.to_set() == self.type_set(*telemetry_type),
    {
        match telemetry_type {
            TelemetryType::Telemetry => copy_ids(&self.telemetry_set),
            TelemetryType::Signaling => copy_ids(&self.signaling_set),
            TelemetryType::Control => copy_ids(&self.control_set),
            TelemetryType::Setpoint => copy_ids(&self.setpoint_set),
        }
    }

    /// The numbers loaded under a telemetry type that are also loaded as enabled,
    /// each once.
    pub fn get_enabled_points_by_type(&self, telemetry_type: &TelemetryType) -> (r: Vec<u32>)
        requires
            self.wf(),
        ensures
            r@.no_duplicates(),
            r@.to_set() == self.type_set(*telemetry_type).intersect(self.enabled()),
    {
        let ids = self.get_points_by_type(telemetry_type);
        let mut out: Vec<u32> = Vec::new();
        let len = ids.len();
        let mut i: usize = 0;
        while i < len
            invariant
                len == ids@.len(),
                i <= len,
                ids@.no_duplicates(),
                out@.no_duplicates(),
                forall|x: u32| #[trigger] out@.contains(x) <==> (ids@.subrange(0, i as int).contains(x) && self.enabled().contains(x)),
            decreases len - i,
        {
            let x = ids[i];
            if holds(&self.enabled_set, x) {
                proof {
                    assert(!ids@.subrange(0, i as int).contains(x)) by {
                        if ids@.subrange(0, i as int).contains(x) {
                            let j = choose|j: int| 0 <= j < i && #[trigger] ids@.subrange(0, i as int)[j] == x;
                            assert(ids@[j] == ids@[i as int]);
                        }
                    }
                }
                let ghost prev = out@;
                proof {
                    assert(!prev.contains(x));
                }
                out.push(x);
                proof {
                    assert(out@[prev.len() as int] == x);
                    assert forall|a: int, b: int| 0 <= a < out@.len() && 0 <= b < out@.len() && a != b implies out@[a]
                        != out@[b] by {
                        if a < prev.len() && b < prev.len() {
                            assert(out@[a] == prev[a] && out@[b] == prev[b]);
                        } else if a < prev.len() {
                            assert(out@[a] == prev[a]);
                            assert(prev.contains(prev[a]));
                        } else if b < prev.len() {
                            assert(out@[b] == prev[b]);
                            assert(prev.contains(prev[b]));
                        }
                    }
                    assert forall|y: u32| #[trigger] out@.contains(y) <==> (ids@.subrange(0, i + 1).contains(y)
                        && self.enabled().contains(y)) by {
                        if ids@.subrange(0, i + 1).contains(y) {
                            let j = choose|j: int| 0 <= j < i + 1 && #[trigger] ids@.subrange(0, i + 1)[j] == y;
                            if j < i {
                                assert(ids@.subrange(0, i as int)[j] == y);
                            }
                        }
                        if ids@.subrange(0, i as int).contains(y) {
                            let j = choose|j: int| 0 <= j < i && #[trigger] ids@.subrange(0, i as int)[j] == y;
                            assert(ids@.subrange(0, i + 1)[j] == y);
                        }
                        if out@.contains(y) {
                            let j = choose|j: int| 0 <= j < out@.len() && #[trigger] out@[j] == y;
                            if j < prev.len() {
                                assert(prev[j] == y);
                            }
                        }
                        if prev.contains(y) {
                            let j = choose|j: int| 0 <= j < prev.len() && #[trigger] prev[j] == y;
                            assert(out@[j] == y);
                        }
                        assert(ids@.subrange(0, i + 1)[i as int] == x);
                    }
                }
            } else {
                proof {
                    assert forall|y: u32| #[trigger] out@.contains(y) <==> (ids@.subrange(0, i + 1).contains(y)
                        && self.enabled().contains(y)) by {
                        if ids@.subrange(0, i + 1).contains(y) {
                            let j = choose|j: int| 0 <= j < i + 1 && #[trigger] ids@.subrange(0, i + 1)[j] == y;
                            if j < i {
                                assert(ids@.subrange(0, i as int)[j] == y);
                            }
                        }
                        if ids@.subrange(0, i as int).contains(y) {
                            let j = choose|j: int| 0 <= j < i && #[trigger] ids@.subrange(0, i as int)[j] == y;
                            assert(ids@.subrange(0, i + 1)[j] == y);
                        }
                    }
                }
            }
            i = i + 1;
        }
        proof {
            assert(ids@.subrange(0, len as int) =~= ids@);
            assert(out@.to_set() =~= self.type_set(*telemetry_type).intersect(self.enabled()));
        }
        out
    }

    /// Records a value for the point of number `point_id`: the point must be loaded
    /// as enabled (else `InvalidOperation`) and loaded (else `NotFound`); its data,
    /// with the value text and the current time, replaces what the cache held for
    /// it, and one more write operation is counted.
    pub fn update_point_value(&mut self, point_id: u32, value: String) -> (r: Result<(), ComSrvError>)
        requires
            old(self).wf(),
            old(self).statistics().write_operations < u64::MAX,
        ensures
            final(self).wf(),
            final(self).configs() == old(self).configs(),
            forall|t: TelemetryType| #[trigger] final(self).type_set(t) == old(self).type_set(t),
            final(self).enabled() == old(self).enabled(),
            final(self).readable() == old(self).readable(),
            final(self).writable() == old(self).writable(),
            final(self).name_index() == old(self).name_index(),
            final(self).channel() == old(self).channel(),
            if !old(self).enabled().contains(point_id) {
                &&& r matches Err(ComSrvError::InvalidOperation(m)) && m@ == "Point "@ + decimal_of(point_id as nat) + " is disabled"@
                &&& final(self).cached() == old(self).cached()
                &&& final(self).statistics() == old(self).statistics()
            } else if !old(self).configs().contains_key(point_id) {
                &&& r matches Err(ComSrvError::NotFound(m)) && m@ == "Point not found: "@ + decimal_of(point_id as nat)
                &&& final(self).cached() == old(self).cached()
                &&& final(self).statistics() == old(self).statistics()
            } else {
                &&& r is Ok
                &&& exists|ts: SystemTime| final(self).cached() == #[trigger] old(self).cached().insert(
                    decimal_of(point_id as nat),
                    point_view(point_id, old(self).configs()[point_id], value@, ts),
                )
                &&& final(self).statistics() == (OptimizedPointManagerStats {
                    write_operations: (old(self).statistics().write_operations + 1) as u64,
                    ..old(self).statistics()
                })
            },
    {
        if !holds(&self.enabled_set, point_id) {
            return Err(ComSrvError::InvalidOperation(text_num_text("Point ", point_id as u64, " is disabled")));
        }
        let ts = current_time();
        let data = match self.get_point_config(point_id) {
            Some(c) => data_at(point_id, c, value, ts),
            None => {
                let message = text_num_text("Point not found: ", point_id as u64, "");
                proof {
                    reveal_strlit("");
                    assert(message@ =~= "Point not found: "@ + decimal_of(point_id as nat));
                }
                return Err(ComSrvError::NotFound(message));
            },
        };
        self.cache.put(data);
        self.stats.write_operations = self.stats.write_operations + 1;
        assert(self.cached() == old(self).cached().insert(
            decimal_of(point_id as nat),
            point_view(point_id, old(self).configs()[point_id], value@, ts),
        ));
        Ok(())
    }

    /// Records a batch of (number, value text) updates, all with one time: an
    /// update of a point not loaded as enabled, or not loaded, is skipped; each
    /// other one replaces the point's cached data and counts one write operation.
    pub fn batch_update_values(&mut self, updates: Vec<(u32, String)>) -> (r: Result<(), ComSrvError>)
        requires
            old(self).wf(),
            old(self).statistics().write_operations + updates@.len() <= u64::MAX,
        ensures
            r is Ok,
            final(self).wf(),
            final(self).configs() == old(self).configs(),
            forall|t: TelemetryType| #[trigger] final(self).type_set(t) == old(self).type_set(t),
            final(self).enabled() == old(self).enabled(),
            final(self).readable() == old(self).readable(),
            final(self).writable() == old(self).writable(),
            final(self).name_index() == old(self).name_index(),
            final(self).channel() == old(self).channel(),
            exists|ts: SystemTime| final(self).cached() == #[trigger] batch_applied(
                old(self).cached(),
                update_views(updates@),
                old(self).enabled(),
                old(self).configs(),
                ts,
            ),
            final(self).statistics() == (OptimizedPointManagerStats {
                write_operations: (old(self).statistics().write_operations + batch_count(
                    update_views(updates@),
                    old(self).enabled(),
                    old(self).configs(),
                )) as u64,
                ..old(self).statistics()
            }),
    {
        let ts = current_time();
        let ghost ups = update_views(updates@);
        let ghost en = self.enabled();
        let ghost cfg = self.configs();
        let ghost m0 = self.cached();
        let n = updates.len();
        let mut rest = updates;
        let mut i: usize = 0;
        proof {
            assert(rest@ =~= updates@.subrange(0, n as int));
        }
        while i < n
            invariant
                n == ups.len(),
                ups == update_views(updates@),
                i <= n,
                rest@ == updates@.subrange(i as int, n as int),
                self.wf(),
                self.points == old(self).points,
                self.telemetry_set == old(self).telemetry_set,
                self.signaling_set == old(self).signaling_set,
                self.control_set == old(self).control_set,
                self.setpoint_set == old(self).setpoint_set,
                self.names == old(self).names,
                self.enabled_set == old(self).enabled_set,
                self.readable_set == old(self).readable_set,
                self.writable_set == old(self).writable_set,
                self.channel_id == old(self).channel_id,
                en == old(self).enabled(),
                cfg == old(self).configs(),
                m0 == old(self).cached(),
                self.cached() == batch_applied(m0, ups.subrange(0, i as int), en, cfg, ts),
                self.stats == (OptimizedPointManagerStats {
                    write_operations: (old(self).stats.write_operations + batch_count(ups.subrange(0, i as int), en, cfg)) as u64,
                    ..old(self).stats
                }),
                batch_count(ups.subrange(0, i as int), en, cfg) <= i,
                old(self).stats.write_operations + n <= u64::MAX,
            decreases n - i,
        {
            let ghost pre = ups.subrange(0, i as int);
            let ghost cur = ups.subrange(0, i + 1);
            assert(cur.drop_last() == pre);
            let (point_id, value) = rest.remove(0);
            assert(cur.last() == (point_id, value@));
            assert(rest@ =~= updates@.subrange(i + 1, n as int));
            if holds(&self.enabled_set, point_id) {
                match self.get_point_config(point_id) {
                    Some(c) => {
                        let data = data_at(point_id, c, value, ts);
                        self.cache.put(data);
                        self.stats.write_operations = self.stats.write_operations + 1;
                    },
                    None => {},
                }
            }
            i = i + 1;
        }
        assert(ups.subrange(0, n as int) =~= ups);
        Ok(())
    }

    /// A copy of the cached data of the point with number `point_id`; the lookup
    /// counts a cache hit or a cache miss.
    pub fn get_point_data(&mut self, point_id: u32) -> (r: Option<PointData>)
        requires
            old(self).wf(),
            old(self).statistics().cache_hits < u64::MAX,
            old(self).statistics().cache_misses < u64::MAX,
        ensures
            final(self).wf(),
            final(self).configs() == old(self).configs(),
            forall|t: TelemetryType| #[trigger] final(self).type_set(t) == old(self).type_set(t),
            final(self).enabled() == old(self).enabled(),
            final(self).readable() == old(self).readable(),
            final(self).writable() == old(self).writable(),
            final(self).name_index() == old(self).name_index(),
            final(self).cached() == old(self).cached(),
            final(self).channel() == old(self).channel(),
            match r {
                Some(d) => {
                    &&& old(self).cached().contains_key(decimal_of(point_id as nat))
                    &&& old(self).cached()[decimal_of(point_id as nat)] == d@
                    &&& final(self).statistics() == (OptimizedPointManagerStats {
                        cache_hits: (old(self).statistics().cache_hits + 1) as u64,
                        ..old(self).statistics()
                    })
                },
                None => {
                    &&& !old(self).cached().contains_key(decimal_of(point_id as nat))
                    &&& final(self).statistics() == (OptimizedPointManagerStats {
                        cache_misses: (old(self).statistics().cache_misses + 1) as u64,
                        ..old(self).statistics()
                    })
                },
            },
    {
        let key = u64_to_decimal(point_id as u64);
        match self.cache.find(key.as_str()) {
            Some(d) => {
                let copy = d.duplicate();
                self.stats.cache_hits = self.stats.cache_hits + 1;
                Some(copy)
            },
            None => {
                self.stats.cache_misses = self.stats.cache_misses + 1;
                None
            },
        }
    }

    /// Copies of all cached data, one per point.
    pub fn get_all_point_data(&self) -> (r: Vec<PointData>)
        requires
            self.wf(),
        ensures
            ids_distinct(views_of(r@)),
            data_map(views_of(r@)) == self.cached(),
    {
        self.cache.all()
    }

    /// Copies of the cached data of the numbers loaded under a telemetry type, in
    /// the order in which the set of that type is walked.
    pub fn get_point_data_by_type(&self, telemetry_type: &TelemetryType) -> (r: Vec<PointData>)
        requires
            self.wf(),
        ensures
            exists|ids: Seq<u32>|
                ids.no_duplicates() && ids.to_set() == self.type_set(*telemetry_type) && views_of(r@)
                    == #[trigger] cached_among(ids, self.cached()),
    {
        let ids = self.get_points_by_type(telemetry_type);
        let mut out: Vec<PointData> = Vec::new();
        let n = ids.len();
        let mut i: usize = 0;
        while i < n
            invariant
                n == ids@.len(),
                i <= n,
                self.wf(),
                views_of(out@) == cached_among(ids@.subrange(0, i as int), self.cached()),
            decreases n - i,
        {
            let ghost pre = ids@.subrange(0, i as int);
            assert(ids@.subrange(0, i + 1).drop_last() == pre);
            let key = u64_to_decimal(ids[i] as u64);
            match self.cache.find(key.as_str()) {
                Some(d) => {
                    let ghost prev = out@;
                    out.push(d.duplicate());
                    assert(views_of(out@) =~= views_of(prev).push(d@));
                },
                None => {},
            }
            i = i + 1;
        }
        assert(ids@.subrange(0, n as int) == ids@);
        out
    }

    /// Whether the point with number `point_id` was loaded as enabled.
    pub fn is_point_enabled(&self, point_id: u32) -> (r: bool)
        ensures
            r == self.enabled().contains(point_id),
    {
        holds(&self.enabled_set, point_id)
    }

    /// Whether the point with number `point_id` was loaded as readable.
    pub fn is_point_readable(&self, point_id: u32) -> (r: bool)
        ensures
            r == self.readable().contains(point_id),
    {
        holds(&self.readable_set, point_id)
    }

    /// Whether the point with number `point_id` was loaded as writable.
    pub fn is_point_writable(&self, point_id: u32) -> (r: bool)
        ensures
            r == self.writable().contains(point_id),
    {
        holds(&self.writable_set, point_id)
    }

    /// The statistics.
    pub fn get_stats(&self) -> (r: OptimizedPointManagerStats)
        ensures
            r == self.statistics(),
    {
        self.stats
    }

    /// An estimate of the memory the points, the cached data and the access sets
    /// take, in bytes.
    pub fn get_memory_usage(&self) -> (r: usize)
        requires
            self.wf(),
            memory_estimate(self.configs().dom().len(), self.cached().dom().len(), self.enabled().len()) <= usize::MAX,
        ensures
            r == memory_estimate(self.configs().dom().len(), self.cached().dom().len(), self.enabled().len()),
    {
        proof {
            lemma_map_of_points_len(self.points@);
            self.enabled_set@.unique_seq_to_set();
        }
        let points = self.points.len();
        let cached = self.cache.len();
        let enabled = self.enabled_set.len();
        let point_size = std::mem::size_of::<(u32, UniversalPointConfig)>();
        let data_size = std::mem::size_of::<(u32, PointData)>();
        let id_size = std::mem::size_of::<u32>();
        proof {
            let a = points as nat * point_size as nat;
            let b = cached as nat * data_size as nat;
            let c = enabled as nat * id_size as nat * 3;
            assert(a + b + c <= usize::MAX);
            assert(enabled as nat * id_size as nat <= c) by (nonlinear_arith)
                requires
                    c == enabled as nat * id_size as nat * 3,
            ;
        }
        let points_size = points * point_size;
        let cache_size = cached * data_size;
        let indices_size = enabled * id_size * 3;
        points_size + cache_size + indices_size
    }

    /// Drops every point, index, cached value and count.
    pub fn clear_all(&mut self)
        ensures
            final(self).wf(),
            final(self).configs() == Map::<u32, UniversalPointConfig>::empty(),
            forall|t: TelemetryType| #[trigger] final(self).type_set(t) == Set::<u32>::empty(),
            final(self).enabled() == Set::<u32>::empty(),
            final(self).readable() == Set::<u32>::empty(),
            final(self).writable() == Set::<u32>::empty(),
            final(self).name_index() == Seq::<(Seq<char>, u32)>::empty(),
            final(self).cached() == Map::<Seq<char>, PointDataView>::empty(),
            final(self).statistics().total_points == 0,
            final(self).statistics().enabled_points == 0,
            final(self).statistics().telemetry_points == 0,
            final(self).statistics().signaling_points == 0,
            final(self).statistics().control_points == 0,
            final(self).statistics().setpoint_points == 0,
            final(self).statistics().read_operations == 0,
            final(self).statistics().write_operations == 0,
            final(self).statistics().cache_hits == 0,
            final(self).statistics().cache_misses == 0,
            final(self).channel() == old(self).channel(),
    {
        let channel_id = self.channel_id.clone();
        let fresh = OptimizedPointManager::new(channel_id);
        *self = fresh;
    }
}

/// A batch leaves the cached data of a point that is not loaded as enabled as it
/// was.
pub proof fn lemma_batch_skips_disabled(
    m: Map<Seq<char>, PointDataView>,
    ups: Seq<(u32, Seq<char>)>,
    en: Set<u32>,
    cfg: Map<u32, UniversalPointConfig>,
    ts: SystemTime,
    n: u32,
)
    requires
        !en.contains(n),
    ensures
        batch_applied(m, ups, en, cfg, ts).contains_key(decimal_of(n as nat)) == m.contains_key(decimal_of(n as nat)),
        m.contains_key(decimal_of(n as nat)) ==> batch_applied(m, ups, en, cfg, ts)[decimal_of(n as nat)] == m[decimal_of(
            n as nat,
        )],
    decreases ups.len(),
{
    if ups.len() > 0 {
        lemma_batch_skips_disabled(m, ups.drop_last(), en, cfg, ts, n);
        let k = ups.last().0;
        if en.contains(k) && cfg.contains_key(k) && decimal_of(k as nat) == decimal_of(n as nat) {
            lemma_names_unique(decimal_of(n as nat), k, n);
        }
    }
}

/// A batch applies at most as many updates as it holds.
pub proof fn lemma_batch_count_bounded(ups: Seq<(u32, Seq<char>)>, en: Set<u32>, cfg: Map<u32, UniversalPointConfig>)
    ensures
        batch_count(ups, en, cfg) <= ups.len(),
    decreases ups.len(),
{
    if ups.len() > 0 {
        lemma_batch_count_bounded(ups.drop_last(), en, cfg);
    }
}

} // verus!
