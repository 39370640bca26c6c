//! Point configurations with smart defaults: a point needs only a number, a name
//! and a telemetry type; its unit, scale, data type and direction follow from
//! them unless configured.
//!
//! The library does not compute with floating point: a point's scale and offset
//! are held as the bit patterns of their 64-bit IEEE 754 values (`f64::to_bits`).

use vstd::prelude::*;
use crate::combase::defaults::{default_data_type_of, default_unit_for, get_default_data_type, get_default_unit};
use crate::combase::telemetry::{TelemetryType, readable_kind};
use crate::combase::point_cache::{PointCache, PointData, PointDataView, data_map, ids_distinct, views_of};
use crate::combase::stats::{current_time, unix_epoch};
use crate::error::{ComSrvError, text_str_text};
use crate::seq_util::without;
use crate::text::{contains_run, decimal_of, lowered, push_decimal, seq_contains_run, str_eq, string_of, to_lowercase, u64_to_decimal};
use std::time::SystemTime;

verus! {

/// The bits of the `f64` value 1.0.
pub const SCALE_ONE_BITS: u64 = 0x3FF0000000000000;

/// The bits of the `f64` value 0.001.
pub const SCALE_MILLI_BITS: u64 = 0x3F50624DD2F1A9FC;

/// The bits of the `f64` value 0.000001.
pub const SCALE_MICRO_BITS: u64 = 0x3EB0C6F7A0B5ED8D;

/// The scale a point defaults to.
#[derive(Debug, Clone, Copy, PartialEq, Eq, Structural)]
pub enum DefaultScale {
    /// Values are taken as they are (1.0).
    One,
    /// A register holding watts, read in kilo-units (0.001).
    Milli,
    /// A register holding watts, read in mega-units (0.000001).
    Micro,
}

/// The default scale for a unit and a lowercased signal name: registers that store
/// watts are scaled to kW, kVar or kVA by 0.001 and to MW by 0.000001.
pub open spec fn default_scale_for(unit: Option<Seq<char>>, name: Seq<char>) -> DefaultScale {
    match unit {
        Some(u) => if (u == "kW"@ || u == "kVar"@ || u == "kVA"@) && seq_contains_run(name, "register"@) {
            DefaultScale::Milli
        } else if u == "MW"@ && seq_contains_run(name, "register"@) {
            DefaultScale::Micro
        } else {
            DefaultScale::One
        },
        None => DefaultScale::One,
    }
}

/// The bits of the `f64` value of a default scale.
pub open spec fn scale_bits_of(s: DefaultScale) -> u64 {
    match s {
        DefaultScale::One => SCALE_ONE_BITS,
        DefaultScale::Milli => SCALE_MILLI_BITS,
        DefaultScale::Micro => SCALE_MICRO_BITS,
    }
}

impl DefaultScale {
    /// The bits of the scale's `f64` value.
    pub fn bits(&self) -> (r: u64)
        ensures
            r == scale_bits_of(*self),
    {
        match self {
            DefaultScale::One => SCALE_ONE_BITS,
            DefaultScale::Milli => SCALE_MILLI_BITS,
            DefaultScale::Micro => SCALE_MICRO_BITS,
        }
    }
}

/// The view of an optional text.
pub open spec fn text_view(t: Option<&str>) -> Option<Seq<char>> {
    match t {
        Some(s) => Some(s@),
        None => None,
    }
}

/// Default scale for common units, from the unit and the lowercased signal name.
pub fn get_default_scale(unit: Option<&str>, signal_name: &str) -> (r: DefaultScale)
    ensures
        r == default_scale_for(text_view(unit), lowered(signal_name@)),
{
    match unit {
        Some(u) => {
            let lowered_name = to_lowercase(signal_name);
            let is_register = contains_run(lowered_name.as_str(), "register");
            if (str_eq(u, "kW") || str_eq(u, "kVar") || str_eq(u, "kVA")) && is_register {
                DefaultScale::Milli
            } else if str_eq(u, "MW") && is_register {
                DefaultScale::Micro
            } else {
                DefaultScale::One
            }
        },
        None => DefaultScale::One,
    }
}

/// Point configuration for universal management.
#[derive(Debug, Clone)]
pub struct UniversalPointConfig {
    /// Point number, matching the four-telemetry table
    pub point_id: u32,
    /// Point name
    pub name: Option<String>,
    /// Description
    pub description: Option<String>,
    /// Engineering unit
    pub unit: Option<String>,
    /// Data type; inferred from the telemetry type when absent
    pub data_type: Option<String>,
    /// Scale factor, as the bits of an `f64`
    pub scale_bits: u64,
    /// Offset, as the bits of an `f64`
    pub offset_bits: u64,
    /// Inversion of digital values (0 off, 1 on)
    pub reverse: u8,
    /// Telemetry type classification
    pub telemetry_type: TelemetryType,
    /// Whether this point is enabled
    pub enabled: bool,
    /// Whether this point is readable
    pub readable: bool,
    /// Whether this point is writable
    pub writable: bool,
}

/// The data type a configuration resolves to.
pub open spec fn resolved_data_type(c: UniversalPointConfig) -> Seq<char> {
    match c.data_type {
        Some(d) => d@,
        None => default_data_type_of(c.telemetry_type),
    }
}

/// The outcome of validating a configuration: the first failing rule, in the order
/// point number non-zero, data type non-empty, reverse flag 0 or 1.
pub open spec fn point_config_check(c: UniversalPointConfig) -> Result<(), Seq<char>> {
    if c.point_id == 0 {
        Err("Point ID cannot be 0"@)
    } else if resolved_data_type(c).len() == 0 {
        Err("Data type cannot be empty"@)
    } else if c.reverse > 1 {
        Err("Reverse must be 0 or 1"@)
    } else {
        Ok(())
    }
}

/// The name a configuration shows: its name, or `Point_` and its number.
pub open spec fn display_name(c: UniversalPointConfig) -> Seq<char> {
    match c.name {
        Some(n) => n@,
        None => "Point_"@ + decimal_of(c.point_id as nat),
    }
}

impl UniversalPointConfig {
    /// A point with smart defaults: the unit its name suggests, the scale that unit
    /// calls for, offset 0, no inversion, enabled and readable, writable when it is a
    /// control or regulation point.
    pub fn new(point_id: u32, name: &str, telemetry_type: TelemetryType) -> (c: Self)
        ensures
            c.point_id == point_id,
            c.name matches Some(n) && n@ == name@,
            c.description is None,
            match default_unit_for(lowered(name@)) {
                Some(u) => c.unit matches Some(cu) && cu@ == u,
                None => c.unit is None,
            },
            c.data_type is None,
            c.scale_bits == scale_bits_of(default_scale_for(default_unit_for(lowered(name@)), lowered(name@))),
            c.offset_bits == 0,
            c.reverse == 0,
            c.telemetry_type == telemetry_type,
            c.enabled,
            c.readable,
            c.writable == !readable_kind(telemetry_type),
    {
        let is_writable = match telemetry_type {
            TelemetryType::Control | TelemetryType::Setpoint => true,
            _ => false,
        };
        let unit = get_default_unit(name);
        let scale = get_default_scale(unit, name);
        let unit_text = match unit {
            Some(u) => Some(string_of(u)),
            None => None,
        };
        UniversalPointConfig {
            point_id,
            name: Some(string_of(name)),
            description: None,
            unit: unit_text,
            data_type: None,
            scale_bits: scale.bits(),
            offset_bits: 0,
            reverse: 0,
            telemetry_type,
            enabled: true,
            readable: true,
            writable: is_writable,
        }
    }

    /// The actual data type, inferred from the telemetry type when not specified.
    pub fn get_data_type(&self) -> (r: String)
        ensures
            r@ == resolved_data_type(*self),
    {
        match &self.data_type {
            Some(d) => d.clone(),
            None => string_of(get_default_data_type(&self.telemetry_type)),
        }
    }

    /// Validate the point configuration.
    pub fn validate(&self) -> (r: Result<(), ComSrvError>)
        ensures
            match point_config_check(*self) {
                Ok(()) => r is Ok,
                Err(m) => r matches Err(ComSrvError::InvalidParameter(e)) && e@ == m,
            },
    {
        if self.point_id == 0 {
            return Err(ComSrvError::InvalidParameter(string_of("Point ID cannot be 0")));
        }
        let data_type = self.get_data_type();
        if data_type.as_str().unicode_len() == 0 {
            return Err(ComSrvError::InvalidParameter(string_of("Data type cannot be empty")));
        }
        if self.reverse > 1 {
            return Err(ComSrvError::InvalidParameter(string_of("Reverse must be 0 or 1")));
        }
        Ok(())
    }

    /// Apply the reverse setting to a digital value: inverted when reverse is 1.
    pub fn process_digital_value(&self, source_data: bool) -> (r: bool)
        ensures
            r == if self.reverse == 1 {
                !source_data
            } else {
                source_data
            },
    {
        if self.reverse == 1 {
            !source_data
        } else {
            source_data
        }
    }

    /// The point number as text.
    pub fn id(&self) -> (r: String)
        ensures
            r@ == decimal_of(self.point_id as nat),
    {
        u64_to_decimal(self.point_id as u64)
    }

    /// The point's name, or `Point_` and its number.
    pub fn get_name(&self) -> (r: String)
        ensures
            r@ == display_name(*self),
    {
        match &self.name {
            Some(n) => n.clone(),
            None => {
                let mut s = string_of("Point_");
                push_decimal(&mut s, self.point_id as u64);
                s
            },
        }
    }
}

/// A new point's configuration passes validation whenever its number is non-zero.
pub proof fn lemma_new_point_valid(c: UniversalPointConfig)
    requires
        c.point_id != 0,
        c.data_type is None,
        c.reverse == 0,
    ensures
        point_config_check(c) is Ok,
{
    reveal_strlit("float32");
    reveal_strlit("bool");
}

/// The configurations by point number that loading a list gives: a later
/// configuration with the same number replaces an earlier one.
pub open spec fn configs_by_id(s: Seq<UniversalPointConfig>) -> Map<u32, UniversalPointConfig>
    decreases s.len(),
{
    if s.len() == 0 {
        Map::empty()
    } else {
        configs_by_id(s.drop_last()).insert(s.last().point_id, s.last())
    }
}

/// The numbers recorded under type `t` when loading a list, in order; a number
/// loaded twice is recorded twice.
pub open spec fn ids_of_type(s: Seq<UniversalPointConfig>, t: TelemetryType) -> Seq<u32>
    decreases s.len(),
{
    if s.len() == 0 {
        Seq::empty()
    } else if s.last().telemetry_type == t {
        ids_of_type(s.drop_last(), t).push(s.last().point_id)
    } else {
        ids_of_type(s.drop_last(), t)
    }
}

/// The number of enabled configurations in a list, repeats included.
pub open spec fn enabled_total(s: Seq<UniversalPointConfig>) -> nat
    decreases s.len(),
{
    if s.len() == 0 {
        0
    } else {
        enabled_total(s.drop_last()) + if s.last().enabled {
            1nat
        } else {
            0nat
        }
    }
}

/// Whether no two configurations of a list share a number.
pub open spec fn point_ids_distinct(s: Seq<UniversalPointConfig>) -> bool {
    forall|i: int, j: int|
        0 <= i < s.len() && 0 <= j < s.len() && i != j ==> #[trigger] s[i].point_id != #[trigger] s[j].point_id
}

/// The map that a list of configurations with distinct numbers stands for.
pub open spec fn map_of_points(s: Seq<UniversalPointConfig>) -> Map<u32, UniversalPointConfig>
    decreases s.len(),
{
    if s.len() == 0 {
        Map::empty()
    } else {
        map_of_points(s.drop_last()).insert(s.last().point_id, s.last())
    }
}

/// A number is in the map of a list with distinct numbers exactly when a
/// configuration carries it, and the map gives that configuration.
pub proof fn lemma_map_of_points(s: Seq<UniversalPointConfig>, k: u32)
    requires
        point_ids_distinct(s),
    ensures
        map_of_points(s).contains_key(k) <==> exists|i: int| 0 <= i < s.len() && #[trigger] s[i].point_id == k,
        forall|i: int| 0 <= i < s.len() && #[trigger] s[i].point_id == k ==> map_of_points(s)[k] == s[i],
    decreases s.len(),
{
    if s.len() > 0 {
        let p = s.drop_last();
        assert(point_ids_distinct(p)) by {
            assert forall|i: int, j: int| 0 <= i < p.len() && 0 <= j < p.len() && i != j implies #[trigger] p[i].point_id
                != #[trigger] p[j].point_id by {
                assert(p[i] == s[i]);
                assert(p[j] == s[j]);
            }
        }
        lemma_map_of_points(p, k);
        if exists|i: int| 0 <= i < s.len() && #[trigger] s[i].point_id == k {
            let w = choose|i: int| 0 <= i < s.len() && #[trigger] s[i].point_id == k;
            if w < p.len() {
                assert(p[w] == s[w]);
            }
        }
        if exists|i: int| 0 <= i < p.len() && #[trigger] p[i].point_id == k {
            let w = choose|i: int| 0 <= i < p.len() && #[trigger] p[i].point_id == k;
            assert(s[w] == p[w]);
        }
        assert forall|i: int| 0 <= i < s.len() && #[trigger] s[i].point_id == k implies map_of_points(s)[k] == s[i] by {
            if i < p.len() {
                assert(p[i] == s[i]);
                assert(s.last().point_id != k);
            }
        }
    }
}

/// The map of a list with distinct numbers has one entry per configuration.
pub proof fn lemma_map_of_points_len(s: Seq<UniversalPointConfig>)
    requires
        point_ids_distinct(s),
    ensures
        map_of_points(s).dom().finite(),
        map_of_points(s).dom().len() == s.len(),
    decreases s.len(),
{
    if s.len() > 0 {
        let p = s.drop_last();
        assert(point_ids_distinct(p)) by {
            assert forall|i: int, j: int| 0 <= i < p.len() && 0 <= j < p.len() && i != j implies #[trigger] p[i].point_id
                != #[trigger] p[j].point_id by {
                assert(p[i] == s[i]);
                assert(p[j] == s[j]);
            }
        }
        lemma_map_of_points_len(p);
        lemma_map_of_points(p, s.last().point_id);
        if map_of_points(p).contains_key(s.last().point_id) {
            let w = choose|i: int| 0 <= i < p.len() && #[trigger] p[i].point_id == s.last().point_id;
            assert(p[w] == s[w]);
        }
    }
}

/// Whether a load of `s` stops at position `k` with error `e`: every configuration
/// before it passes validation and it fails with `e`.
pub open spec fn load_stopped_at(s: Seq<UniversalPointConfig>, k: int, e: ComSrvError) -> bool {
    &&& 0 <= k < s.len()
    &&& forall|i: int| 0 <= i < k ==> #[trigger] point_config_check(s[i]) is Ok
    &&& point_config_check(s[k]) matches Err(m) && e matches ComSrvError::InvalidParameter(em) && em@ == m
}

/// The position of the configuration with number `n`.
pub(crate) fn position_of_number(points: &Vec<UniversalPointConfig>, n: u32) -> (r: Option<usize>)
    ensures
        match r {
            Some(p) => p < points@.len() && points@[p as int].point_id == n,
            None => forall|j: int| 0 <= j < points@.len() ==> #[trigger] points@[j].point_id != n,
        },
{
    let len = points.len();
    let mut i: usize = 0;
    while i < len
        invariant
            len == points@.len(),
            i <= len,
            forall|j: int| 0 <= j < i ==> #[trigger] points@[j].point_id != n,
        decreases len - i,
    {
        if points[i].point_id == n {
            return Some(i);
        }
        i = i + 1;
    }
    None
}

/// Stores a configuration under its number, replacing one with that number.
pub(crate) fn store_config(points: &mut Vec<UniversalPointConfig>, config: UniversalPointConfig)
    requires
        point_ids_distinct(old(points)@),
    ensures
        point_ids_distinct(final(points)@),
        map_of_points(final(points)@) == map_of_points(old(points)@).insert(config.point_id, config),
{
    let ghost before = points@;
    let ghost c = config;
    proof {
        lemma_map_of_points(before, c.point_id);
    }
    match position_of_number(points, config.point_id) {
        Some(i) => {
            points.set(i, config);
            proof {
                let after = points@;
                assert(point_ids_distinct(after)) by {
                    assert forall|a: int, b: int|
                        0 <= a < after.len() && 0 <= b < after.len() && a != b implies #[trigger] after[a].point_id
                        != #[trigger] after[b].point_id by {
                        assert(after[a].point_id == before[a].point_id);
                        assert(after[b].point_id == before[b].point_id);
                    }
                }
                assert(map_of_points(after) =~= map_of_points(before).insert(c.point_id, c)) by {
                    assert forall|q: u32| #![auto]
                        map_of_points(after).contains_key(q) == map_of_points(before).insert(c.point_id, c).contains_key(q) by {
                        lemma_map_of_points(after, q);
                        lemma_map_of_points(before, q);
                        if exists|t: int| 0 <= t < after.len() && #[trigger] after[t].point_id == q {
                            let t = choose|t: int| 0 <= t < after.len() && #[trigger] after[t].point_id == q;
                            assert(before[t].point_id == q);
                        }
                        if exists|t: int| 0 <= t < before.len() && #[trigger] before[t].point_id == q {
                            let t = choose|t: int| 0 <= t < before.len() && #[trigger] before[t].point_id == q;
                            assert(after[t].point_id == q);
                        }
                        if q == c.point_id {
                            assert(after[i as int].point_id == q);
                        }
                    }
                    assert forall|q: u32| #[trigger] map_of_points(after).contains_key(q) implies map_of_points(after)[q]
                        == map_of_points(before).insert(c.point_id, c)[q] by {
                        lemma_map_of_points(after, q);
                        lemma_map_of_points(before, q);
                        let t = choose|t: int| 0 <= t < after.len() && #[trigger] after[t].point_id == q;
                        if t != i {
                            assert(after[t] == before[t]);
                        }
                    }
                }
            }
        },
        None => {
            points.push(config);
            proof {
                let after = points@;
                assert(after.drop_last() == before);
                assert(point_ids_distinct(after)) by {
                    assert forall|a: int, b: int|
                        0 <= a < after.len() && 0 <= b < after.len() && a != b implies #[trigger] after[a].point_id
                        != #[trigger] after[b].point_id by {
                        if a < before.len() {
                            assert(after[a] == before[a]);
                        }
                        if b < before.len() {
                            assert(after[b] == before[b]);
                        }
                    }
                }
            }
        },
    }
}

/// Point management statistics.
#[derive(Debug, Clone, Copy)]
pub struct PointManagerStats {
    /// Number of distinct points
    pub total_points: usize,
    /// Number of enabled points
    pub enabled_points: usize,
    /// Number of measurement points
    pub telemetry_points: usize,
    /// Number of signaling points
    pub signaling_points: usize,
    /// Number of control points
    pub control_points: usize,
    /// Number of regulation points
    pub setpoint_points: usize,
    /// Number of read operations
    pub read_operations: u64,
    /// Number of write operations
    pub write_operations: u64,
    /// Number of validation errors
    pub validation_errors: u64,
    /// Last update time
    pub last_update: SystemTime,
}

/// Statistics before anything was loaded: all counters zero.
pub open spec fn stats_zero(s: PointManagerStats) -> bool {
    &&& s.total_points == 0
    &&& s.enabled_points == 0
    &&& s.telemetry_points == 0
    &&& s.signaling_points == 0
    &&& s.control_points == 0
    &&& s.setpoint_points == 0
    &&& s.read_operations == 0
    &&& s.write_operations == 0
    &&& s.validation_errors == 0
}

/// Point manager of one channel: configurations by number and numbers by type,
/// with statistics.
#[derive(Debug, Clone)]
pub struct UniversalPointManager {
    points: Vec<UniversalPointConfig>,
    telemetry_ids: Vec<u32>,
    signaling_ids: Vec<u32>,
    control_ids: Vec<u32>,
    setpoint_ids: Vec<u32>,
    stats: PointManagerStats,
    channel_id: String,
    cache: PointCache,
}

/// Whether a point number is named by a key text.
pub open spec fn names_point(key: Seq<char>, n: u32) -> bool {
    decimal_of(n as nat) == key
}

impl UniversalPointManager {
    /// The configurations by point number.
    pub closed spec fn configs(&self) -> Map<u32, UniversalPointConfig> {
        map_of_points(self.points@)
    }

    /// The numbers recorded under a telemetry type.
    pub closed spec fn type_list(&self, t: TelemetryType) -> Seq<u32> {
        match t {
            TelemetryType::Telemetry => self.telemetry_ids@,
            TelemetryType::Signaling => self.signaling_ids@,
            TelemetryType::Control => self.control_ids@,
            TelemetryType::Setpoint => self.setpoint_ids@,
        }
    }

    /// The statistics.
    pub closed spec fn statistics(&self) -> PointManagerStats {
        self.stats
    }

    /// The channel the points belong to.
    pub closed spec fn channel(&self) -> Seq<char> {
        self.channel_id@
    }

    /// The latest data of each point, by identifier text.
    pub closed spec fn cached(&self) -> Map<Seq<char>, PointDataView> {
        self.cache@
    }

    /// Numbers are distinct among the configurations.
    pub closed spec fn wf(&self) -> bool {
        point_ids_distinct(self.points@) && self.cache.wf()
    }

    /// A manager without points.
    pub fn new(channel_id: String) -> (m: Self)
        ensures
            m.wf(),
            m.configs() == Map::<u32, UniversalPointConfig>::empty(),
            forall|t: TelemetryType| #[trigger] m.type_list(t) == Seq::<u32>::empty(),
            stats_zero(m.statistics()),
            m.channel() == channel_id@,
            m.cached() == Map::<Seq<char>, PointDataView>::empty(),
    {
        UniversalPointManager {
            points: Vec::new(),
            telemetry_ids: Vec::new(),
            signaling_ids: Vec::new(),
            control_ids: Vec::new(),
            setpoint_ids: Vec::new(),
            stats: PointManagerStats {
                total_points: 0,
                enabled_points: 0,
                telemetry_points: 0,
                signaling_points: 0,
                control_points: 0,
                setpoint_points: 0,
                read_operations: 0,
                write_operations: 0,
                validation_errors: 0,
                last_update: unix_epoch(),
            },
            channel_id,
            cache: PointCache::new(),
        }
    }

    /// The position of the configuration whose number `key` names.
    fn position_of_key(&self, key: &str) -> (r: Option<usize>)
        ensures
            match r {
                Some(p) => p < self.points@.len() && names_point(key@, self.points@[p as int].point_id),
                None => forall|j: int| 0 <= j < self.points@.len() ==> !names_point(key@, #[trigger] self.points@[j].point_id),
            },
    {
        let len = self.points.len();
        let mut i: usize = 0;
        while i < len
            invariant
                len == self.points@.len(),
                i <= len,
                forall|j: int| 0 <= j < i ==> !names_point(key@, #[trigger] self.points@[j].point_id),
            decreases len - i,
        {
            let text = u64_to_decimal(self.points[i].point_id as u64);
            if str_eq(text.as_str(), key) {
                return Some(i);
            }
            i = i + 1;
        }
        None
    }

    /// Records a number under a type.
    fn record_type(&mut self, t: TelemetryType, n: u32)
        ensures
            final(self).points == old(self).points,
            final(self).type_list(t) == old(self).type_list(t).push(n),
            forall|u: TelemetryType| u != t ==> #[trigger] final(self).type_list(u) == old(self).type_list(u),
            final(self).stats == old(self).stats,
            final(self).channel_id == old(self).channel_id,
            final(self).cache == old(self).cache,
    {
        match t {
            TelemetryType::Telemetry => self.telemetry_ids.push(n),
            TelemetryType::Signaling => self.signaling_ids.push(n),
            TelemetryType::Control => self.control_ids.push(n),
            TelemetryType::Setpoint => self.setpoint_ids.push(n),
        }
    }

    /// What loading `configs` leaves: on success every configuration passed its
    /// check and the manager holds them, with the type lists and counts they give;
    /// on an error, the configurations before the one refused.
    pub open spec fn loaded(
        before: UniversalPointManager,
        after: UniversalPointManager,
        configs: Seq<UniversalPointConfig>,
        r: Result<(), ComSrvError>,
    ) -> bool {
        match r {
            Ok(()) => {
                &&& forall|i: int| 0 <= i < configs.len() ==> #[trigger] point_config_check(configs[i]) is Ok
                &&& after.configs() == configs_by_id(configs)
                &&& forall|t: TelemetryType| #[trigger] after.type_list(t) == ids_of_type(configs, t)
                &&& after.statistics().total_points == configs_by_id(configs).dom().len()
                &&& after.statistics().enabled_points == enabled_total(configs)
                &&& after.statistics().telemetry_points == ids_of_type(configs, TelemetryType::Telemetry).len()
                &&& after.statistics().signaling_points == ids_of_type(configs, TelemetryType::Signaling).len()
                &&& after.statistics().control_points == ids_of_type(configs, TelemetryType::Control).len()
                &&& after.statistics().setpoint_points == ids_of_type(configs, TelemetryType::Setpoint).len()
                &&& after.statistics().read_operations == before.statistics().read_operations
                &&& after.statistics().write_operations == before.statistics().write_operations
                &&& after.statistics().validation_errors == before.statistics().validation_errors
            },
            Err(e) => exists|k: int|
                #[trigger] load_stopped_at(configs, k, e) && after.configs() == configs_by_id(
                    configs.subrange(0, k),
                ) && (forall|t: TelemetryType| #[trigger] after.type_list(t) == ids_of_type(configs.subrange(0, k), t))
                    && after.statistics() == before.statistics(),
        }
    }

    /// Replaces every point by the given configurations, checking each in turn. On
    /// the first invalid configuration the load stops with its error: the points
    /// loaded before it stay and the statistics are left as they were. On success
    /// the statistics count the distinct points, and the enabled ones and each type's
    /// ones with repeats included.
    pub fn load_points(&mut self, configs: Vec<UniversalPointConfig>) -> (r: Result<(), ComSrvError>)
        requires
            old(self).wf(),
        ensures
            final(self).wf(),
            final(self).channel() == old(self).channel(),
            final(self).cached() == old(self).cached(),
            Self::loaded(*old(self), *final(self), configs@, r),
    {
        self.points = Vec::new();
        self.telemetry_ids = Vec::new();
        self.signaling_ids = Vec::new();
        self.control_ids = Vec::new();
        self.setpoint_ids = Vec::new();
        let ghost all = configs@;
        let n = configs.len();
        let mut rest = configs;
        let mut enabled_count: usize = 0;
        let mut counts: (usize, usize, usize, usize) = (0, 0, 0, 0);
        let mut i: usize = 0;
        proof {
            assert(all.subrange(0, 0) =~= Seq::<UniversalPointConfig>::empty());
            assert(map_of_points(self.points@) =~= Map::<u32, UniversalPointConfig>::empty());
            assert(rest@ =~= all.subrange(0, n as int));
        }
        while i < n
            invariant
                n == all.len(),
                configs@ == all,
                i <= n,
                rest@ == all.subrange(i as int, n as int),
                point_ids_distinct(self.points@),
                self.channel_id == old(self).channel_id,
                self.cache == old(self).cache,
                self.cache.wf(),
                self.stats == old(self).stats,
                forall|j: int| 0 <= j < i ==> #[trigger] point_config_check(all[j]) is Ok,
                map_of_points(self.points@) == configs_by_id(all.subrange(0, i as int)),
                forall|t: TelemetryType| #[trigger] self.type_list(t) == ids_of_type(all.subrange(0, i as int), t),
                enabled_count == enabled_total(all.subrange(0, i as int)),
                counts.0 == ids_of_type(all.subrange(0, i as int), TelemetryType::Telemetry).len(),
                counts.1 == ids_of_type(all.subrange(0, i as int), TelemetryType::Signaling).len(),
                counts.2 == ids_of_type(all.subrange(0, i as int), TelemetryType::Control).len(),
                counts.3 == ids_of_type(all.subrange(0, i as int), TelemetryType::Setpoint).len(),
                enabled_count <= i,
                counts.0 + counts.1 + counts.2 + counts.3 == i,
            decreases n - i,
        {
            let ghost pre = all.subrange(0, i as int);
            let ghost cur = all.subrange(0, i + 1);
            assert(cur.drop_last() == pre);
            assert(cur.last() == all[i as int]);
            proof {
                lemma_type_counts_split(pre);
            }
            let config = rest.remove(0);
            assert(config == all[i as int]);
            assert(rest@ =~= all.subrange(i + 1, n as int));
            match config.validate() {
                Ok(()) => {},
                Err(e) => {
                    proof {
                        let k = i as int;
                        assert(load_stopped_at(all, k, e) && self.configs() == configs_by_id(all.subrange(0, k)) && (forall|
                            t: TelemetryType,
                        | #[trigger] self.type_list(t) == ids_of_type(all.subrange(0, k), t)) && self.statistics() == old(
                            self,
                        ).statistics());
                    }
                    return Err(e);
                },
            }
            if config.enabled {
                enabled_count = enabled_count + 1;
            }
            let t = config.telemetry_type;
            let id = config.point_id;
            match t {
                TelemetryType::Telemetry => counts.0 = counts.0 + 1,
                TelemetryType::Signaling => counts.1 = counts.1 + 1,
                TelemetryType::Control => counts.2 = counts.2 + 1,
                TelemetryType::Setpoint => counts.3 = counts.3 + 1,
            }
            let ghost start = *self;
            store_config(&mut self.points, config);
            let ghost mid = *self;
            assert(forall|u: TelemetryType| #[trigger] mid.type_list(u) == start.type_list(u));
            self.record_type(t, id);
            assert forall|u: TelemetryType| #[trigger] self.type_list(u) == ids_of_type(cur, u) by {
                assert(start.type_list(u) == ids_of_type(pre, u));
            }
            i = i + 1;
        }
        assert(all.subrange(0, n as int) =~= all);
        proof {
            lemma_map_of_points_len(self.points@);
        }
        let ghost loaded = *self;
        self.stats.total_points = self.points.len();
        self.stats.enabled_points = enabled_count;
        self.stats.telemetry_points = counts.0;
        self.stats.signaling_points = counts.1;
        self.stats.control_points = counts.2;
        self.stats.setpoint_points = counts.3;
        self.stats.last_update = current_time();
        assert forall|t: TelemetryType| #[trigger] self.type_list(t) == ids_of_type(all, t) by {
            assert(loaded.type_list(t) == ids_of_type(all.subrange(0, n as int), t));
        }
        Ok(())
    }
}

/// Loading configurations with distinct numbers keeps each of them: the loaded
/// points are as many as the configurations, and the four type counts add up to
/// that number.
pub proof fn lemma_load_counts(s: Seq<UniversalPointConfig>)
    requires
        point_ids_distinct(s),
    ensures
        configs_by_id(s).dom().finite(),
        configs_by_id(s).dom().len() == s.len(),
        ids_of_type(s, TelemetryType::Telemetry).len() + ids_of_type(s, TelemetryType::Signaling).len() + ids_of_type(
            s,
            TelemetryType::Control,
        ).len() + ids_of_type(s, TelemetryType::Setpoint).len() == configs_by_id(s).dom().len(),
{
    lemma_configs_by_id_is_map_of_points(s);
    lemma_map_of_points_len(s);
    lemma_type_counts_split(s);
}

/// The map a load builds is the map of the list.
proof fn lemma_configs_by_id_is_map_of_points(s: Seq<UniversalPointConfig>)
    ensures
        configs_by_id(s) == map_of_points(s),
    decreases s.len(),
{
    if s.len() > 0 {
        lemma_configs_by_id_is_map_of_points(s.drop_last());
    }
}

/// Each configuration is recorded under exactly one type.
pub proof fn lemma_type_counts_split(s: Seq<UniversalPointConfig>)
    ensures
        ids_of_type(s, TelemetryType::Telemetry).len() + ids_of_type(s, TelemetryType::Signaling).len() + ids_of_type(
            s,
            TelemetryType::Control,
        ).len() + ids_of_type(s, TelemetryType::Setpoint).len() == s.len(),
    decreases s.len(),
{
    if s.len() > 0 {
        lemma_type_counts_split(s.drop_last());
    }
}


/// The numbers of `s` whose configuration in `m` exists and is enabled, in order.
pub open spec fn enabled_among(s: Seq<u32>, m: Map<u32, UniversalPointConfig>) -> Seq<u32>
    decreases s.len(),
{
    if s.len() == 0 {
        Seq::empty()
    } else if m.contains_key(s.last()) && m[s.last()].enabled {
        enabled_among(s.drop_last(), m).push(s.last())
    } else {
        enabled_among(s.drop_last(), m)
    }
}

/// The configuration of the point of `m` whose number `key` names, if any.
pub open spec fn keyed_config(m: Map<u32, UniversalPointConfig>, key: Seq<char>) -> Option<UniversalPointConfig> {
    if exists|n: u32| #[trigger] m.contains_key(n) && names_point(key, n) {
        Some(m[choose|n: u32| #[trigger] m.contains_key(n) && names_point(key, n)])
    } else {
        None
    }
}

/// A key text names at most one point number.
pub proof fn lemma_names_unique(key: Seq<char>, a: u32, b: u32)
    requires
        names_point(key, a),
        names_point(key, b),
    ensures
        a == b,
{
    crate::text::lemma_decimal_digits(a as nat);
    crate::text::lemma_decimal_digits(b as nat);
}

/// Removing a position of a list with distinct numbers removes its number from
/// the map the list stands for.
proof fn lemma_map_of_points_remove(s: Seq<UniversalPointConfig>, p: int)
    requires
        point_ids_distinct(s),
        0 <= p < s.len(),
    ensures
        point_ids_distinct(s.remove(p)),
        map_of_points(s.remove(p)) == map_of_points(s).remove(s[p].point_id),
{
    let r = s.remove(p);
    let k = s[p].point_id;
    assert forall|a: int, b: int| 0 <= a < r.len() && 0 <= b < r.len() && a != b implies #[trigger] r[a].point_id
        != #[trigger] r[b].point_id by {
        let a2 = if a < p { a } else { a + 1 };
        let b2 = if b < p { b } else { b + 1 };
        assert(r[a] == s[a2]);
        assert(r[b] == s[b2]);
    }
    assert forall|q: u32| #![auto] map_of_points(r).contains_key(q) == map_of_points(s).remove(k).contains_key(q) by {
        lemma_map_of_points(r, q);
        lemma_map_of_points(s, q);
        if exists|t: int| 0 <= t < r.len() && #[trigger] r[t].point_id == q {
            let t = choose|t: int| 0 <= t < r.len() && #[trigger] r[t].point_id == q;
            let t2 = if t < p { t } else { t + 1 };
            assert(r[t] == s[t2]);
        }
        if q != k && exists|t: int| 0 <= t < s.len() && #[trigger] s[t].point_id == q {
            let t = choose|t: int| 0 <= t < s.len() && #[trigger] s[t].point_id == q;
            if t < p {
                assert(r[t] == s[t]);
            } else {
                assert(r[t - 1] == s[t]);
            }
        }
    }
    assert forall|q: u32| #[trigger] map_of_points(r).contains_key(q) implies map_of_points(r)[q] == map_of_points(
        s,
    ).remove(k)[q] by {
        lemma_map_of_points(r, q);
        lemma_map_of_points(s, q);
        let t = choose|t: int| 0 <= t < r.len() && #[trigger] r[t].point_id == q;
        let t2 = if t < p { t } else { t + 1 };
        assert(r[t] == s[t2]);
    }
    assert(map_of_points(r) =~= map_of_points(s).remove(k));
}

/// `ids` with every occurrence of `v` taken out.
fn ids_without(ids: &Vec<u32>, v: u32) -> (r: Vec<u32>)
    ensures
        r@ == without(ids@, v),
{
    let mut out: Vec<u32> = Vec::new();
    let n = ids.len();
    let mut i: usize = 0;
    while i < n
        invariant
            n == ids@.len(),
            i <= n,
            out@ == without(ids@.subrange(0, i as int), v),
        decreases n - i,
    {
        let ghost pre = ids@.subrange(0, i as int);
        assert(ids@.subrange(0, i + 1).drop_last() == pre);
        if ids[i] != v {
            out.push(ids[i]);
        }
        i = i + 1;
    }
    assert(ids@.subrange(0, n as int) == ids@);
    out
}

/// The decimal texts of a list of numbers.
fn decimal_texts(ids: &Vec<u32>) -> (r: Vec<String>)
    ensures
        r@.len() == ids@.len(),
        forall|i: int| 0 <= i < ids@.len() ==> #[trigger] r@[i]@ == decimal_of(ids@[i] as nat),
{
    let mut out: Vec<String> = Vec::new();
    let n = ids.len();
    let mut i: usize = 0;
    while i < n
        invariant
            n == ids@.len(),
            i <= n,
            out@.len() == i,
            forall|j: int| 0 <= j < i ==> #[trigger] out@[j]@ == decimal_of(ids@[j] as nat),
        decreases n - i,
    {
        out.push(u64_to_decimal(ids[i] as u64));
        i = i + 1;
    }
    out
}

impl UniversalPointManager {
    /// The configuration of the point that `key` names.
    fn lookup(&self, key: &str) -> (r: Option<&UniversalPointConfig>)
        requires
            self.wf(),
        ensures
            match r {
                Some(c) => keyed_config(self.configs(), key@) == Some(*c) && self.configs().contains_key(c.point_id)
                    && names_point(key@, c.point_id) && self.configs()[c.point_id] == *c,
                None => keyed_config(self.configs(), key@) is None && forall|n: u32|
                    #[trigger] self.configs().contains_key(n) ==> !names_point(key@, n),
            },
    {
        match self.position_of_key(key) {
            Some(p) => {
                let ghost k = self.points@[p as int].point_id;
                proof {
                    lemma_map_of_points(self.points@, k);
                    let m = self.configs();
                    assert(m.contains_key(k) && names_point(key@, k));
                    let w = choose|n: u32| #[trigger] m.contains_key(n) && names_point(key@, n);
                    lemma_names_unique(key@, w, k);
                }
                Some(&self.points[p])
            },
            None => {
                proof {
                    assert forall|n: u32| #[trigger] self.configs().contains_key(n) implies !names_point(key@, n) by {
                        lemma_map_of_points(self.points@, n);
                        let t = choose|t: int| 0 <= t < self.points@.len() && #[trigger] self.points@[t].point_id == n;
                        assert(!names_point(key@, self.points@[t].point_id));
                    }
                }
                None
            },
        }
    }

    /// The configuration of the point whose number `point_id` names, if loaded.
    pub fn get_point_config(&self, point_id: &str) -> (r: Option<&UniversalPointConfig>)
        requires
            self.wf(),
        ensures
            match r {
                Some(c) => keyed_config(self.configs(), point_id@) == Some(*c),
                None => keyed_config(self.configs(), point_id@) is None,
            },
    {
        self.lookup(point_id)
    }

    /// All loaded configurations, one per point number.
    pub fn get_all_point_configs(&self) -> (r: &[UniversalPointConfig])
        requires
            self.wf(),
        ensures
            point_ids_distinct(r@),
            map_of_points(r@) == self.configs(),
    {
        self.points.as_slice()
    }

    /// The numbers recorded under a telemetry type, as decimal texts.
    pub fn get_points_by_type(&self, telemetry_type: &TelemetryType) -> (r: Vec<String>)
        ensures
            r@.len() == self.type_list(*telemetry_type).len(),
            forall|i: int| 0 <= i < r@.len() ==> #[trigger] r@[i]@ == decimal_of(self.type_list(*telemetry_type)[i] as nat),
    {
        match telemetry_type {
            TelemetryType::Telemetry => decimal_texts(&self.telemetry_ids),
            TelemetryType::Signaling => decimal_texts(&self.signaling_ids),
            TelemetryType::Control => decimal_texts(&self.control_ids),
            TelemetryType::Setpoint => decimal_texts(&self.setpoint_ids),
        }
    }

    /// The numbers recorded under a telemetry type whose point is loaded and
    /// enabled, as decimal texts.
    pub fn get_enabled_points_by_type(&self, telemetry_type: &TelemetryType) -> (r: Vec<String>)
        requires
            self.wf(),
        ensures
            r@.len() == enabled_among(self.type_list(*telemetry_type), self.configs()).len(),
            forall|i: int| 0 <= i < r@.len() ==> #[trigger] r@[i]@ == decimal_of(
                enabled_among(self.type_list(*telemetry_type), self.configs())[i] as nat,
            ),
    {
        let ids: &Vec<u32> = match telemetry_type {
            TelemetryType::Telemetry => &self.telemetry_ids,
            TelemetryType::Signaling => &self.signaling_ids,
            TelemetryType::Control => &self.control_ids,
            TelemetryType::Setpoint => &self.setpoint_ids,
        };
        assert(ids@ == self.type_list(*telemetry_type));
        let ghost m = self.configs();
        let mut chosen: Vec<u32> = Vec::new();
        let n = ids.len();
        let mut i: usize = 0;
        while i < n
            invariant
                n == ids@.len(),
                i <= n,
                m == self.configs(),
                self.wf(),
                chosen@ == enabled_among(ids@.subrange(0, i as int), m),
            decreases n - i,
        {
            let ghost pre = ids@.subrange(0, i as int);
            assert(ids@.subrange(0, i + 1).drop_last() == pre);
            let id = ids[i];
            match position_of_number(&self.points, id) {
                Some(p) => {
                    proof {
                        lemma_map_of_points(self.points@, id);
                    }
                    if self.points[p].enabled {
                        chosen.push(id);
                    }
                },
                None => {
                    proof {
                        lemma_map_of_points(self.points@, id);
                    }
                },
            }
            i = i + 1;
        }
        assert(ids@.subrange(0, n as int) == ids@);
        decimal_texts(&chosen)
    }

    /// Rewrites the list of type `t` without the number `n`.
    fn drop_from_type(&mut self, t: TelemetryType, n: u32)
        ensures
            final(self).points == old(self).points,
            final(self).type_list(t) == without(old(self).type_list(t), n),
            forall|u: TelemetryType| u != t ==> #[trigger] final(self).type_list(u) == old(self).type_list(u),
            final(self).stats == old(self).stats,
            final(self).channel_id == old(self).channel_id,
            final(self).cache == old(self).cache,
    {
        match t {
            TelemetryType::Telemetry => self.telemetry_ids = ids_without(&self.telemetry_ids, n),
            TelemetryType::Signaling => self.signaling_ids = ids_without(&self.signaling_ids, n),
            TelemetryType::Control => self.control_ids = ids_without(&self.control_ids, n),
            TelemetryType::Setpoint => self.setpoint_ids = ids_without(&self.setpoint_ids, n),
        }
    }

    /// Removes the point that `point_id` names: its configuration goes, and its
    /// number leaves the list of its type. A key that names no loaded point is
    /// answered `NotFound` and nothing changes.
    pub fn remove_point(&mut self, point_id: &str) -> (r: Result<(), ComSrvError>)
        requires
            old(self).wf(),
        ensures
            final(self).wf(),
            final(self).channel() == old(self).channel(),
            final(self).statistics() == old(self).statistics(),
            r is Ok <==> keyed_config(old(self).configs(), point_id@) is Some,
            keyed_config(final(self).configs(), point_id@) is None,
            match keyed_config(old(self).configs(), point_id@) {
                Some(c) => {
                    &&& final(self).configs() == old(self).configs().remove(c.point_id)
                    &&& final(self).cached() == old(self).cached().remove(point_id@)
                    &&& final(self).type_list(c.telemetry_type) == without(old(self).type_list(c.telemetry_type), c.point_id)
                    &&& forall|u: TelemetryType| u != c.telemetry_type ==> #[trigger] final(self).type_list(u) == old(
                        self,
                    ).type_list(u)
                },
                None => {
                    &&& r matches Err(ComSrvError::NotFound(m)) && m@ == "Point not found: "@ + point_id@
                    &&& final(self).configs() == old(self).configs()
                    &&& final(self).cached() == old(self).cached()
                    &&& forall|u: TelemetryType| #[trigger] final(self).type_list(u) == old(self).type_list(u)
                },
            },
    {
        match self.position_of_key(point_id) {
            Some(p) => {
                let ghost before = self.points@;
                let ghost k = before[p as int].point_id;
                proof {
                    lemma_map_of_points(before, k);
                    lemma_map_of_points_remove(before, p as int);
                    let m = self.configs();
                    assert(m.contains_key(k) && names_point(point_id@, k));
                    let w = choose|n: u32| #[trigger] m.contains_key(n) && names_point(point_id@, n);
                    lemma_names_unique(point_id@, w, k);
                }
                let config = self.points.remove(p);
                let n = config.point_id;
                self.cache.evict(point_id);
                self.drop_from_type(config.telemetry_type, n);
                proof {
                    let m = old(self).configs();
                    assert forall|q: u32| #[trigger] m.contains_key(q) implies m[q].point_id == q by {
                        lemma_map_of_points(before, q);
                    }
                    lemma_removed_point_gone(m, point_id@);
                }
                Ok(())
            },
            None => {
                proof {
                    assert forall|n: u32| #[trigger] self.configs().contains_key(n) implies !names_point(point_id@, n) by {
                        lemma_map_of_points(self.points@, n);
                        let t = choose|t: int| 0 <= t < self.points@.len() && #[trigger] self.points@[t].point_id == n;
                        assert(!names_point(point_id@, self.points@[t].point_id));
                    }
                }
                let message = text_str_text("Point not found: ", point_id, "");
                proof {
                    reveal_strlit("");
                    assert(message@ =~= "Point not found: "@ + point_id@);
                }
                Err(ComSrvError::NotFound(message))
            },
        }
    }

    /// The statistics.
    pub fn get_stats(&self) -> (r: PointManagerStats)
        ensures
            r == self.statistics(),
    {
        self.stats
    }

    /// The channel the points belong to.
    pub fn channel_id(&self) -> (r: &str)
        ensures
            r@ == self.channel(),
    {
        self.channel_id.as_str()
    }

    /// Whether `point_id` names a loaded, enabled point.
    pub fn is_point_enabled(&self, point_id: &str) -> (r: bool)
        requires
            self.wf(),
        ensures
            r == (keyed_config(self.configs(), point_id@) matches Some(c) && c.enabled),
    {
        match self.lookup(point_id) {
            Some(c) => c.enabled,
            None => false,
        }
    }

    /// Whether `point_id` names a loaded point that is enabled and readable.
    pub fn is_point_readable(&self, point_id: &str) -> (r: bool)
        requires
            self.wf(),
        ensures
            r == (keyed_config(self.configs(), point_id@) matches Some(c) && c.enabled && c.readable),
    {
        match self.lookup(point_id) {
            Some(c) => c.enabled && c.readable,
            None => false,
        }
    }

    /// Whether `point_id` names a loaded point that is enabled and writable.
    pub fn is_point_writable(&self, point_id: &str) -> (r: bool)
        requires
            self.wf(),
        ensures
            r == (keyed_config(self.configs(), point_id@) matches Some(c) && c.enabled && c.writable),
    {
        match self.lookup(point_id) {
            Some(c) => c.enabled && c.writable,
            None => false,
        }
    }

    /// Checks that a value may be written to the point `point_id` names: the point
    /// must be loaded (else `NotFound`), enabled and writable (else
    /// `InvalidOperation`). The value itself is not examined.
    pub fn validate_point_value(&self, point_id: &str) -> (r: Result<(), ComSrvError>)
        requires
            self.wf(),
        ensures
            match keyed_config(self.configs(), point_id@) {
                None => r matches Err(ComSrvError::NotFound(m)) && m@ == "Point not found: "@ + point_id@,
                Some(c) => if !c.enabled {
                    r matches Err(ComSrvError::InvalidOperation(m)) && m@ == "Point "@ + point_id@ + " is disabled"@
                } else if !c.writable {
                    r matches Err(ComSrvError::InvalidOperation(m)) && m@ == "Point "@ + point_id@ + " is not writable"@
                } else {
                    r is Ok
                },
            },
    {
        match self.lookup(point_id) {
            Some(c) => {
                if !c.enabled {
                    return Err(ComSrvError::InvalidOperation(text_str_text("Point ", point_id, " is disabled")));
                }
                if !c.writable {
                    return Err(ComSrvError::InvalidOperation(text_str_text("Point ", point_id, " is not writable")));
                }
                Ok(())
            },
            None => {
                let message = text_str_text("Point not found: ", point_id, "");
                proof {
                    reveal_strlit("");
                    assert(message@ =~= "Point not found: "@ + point_id@);
                }
                Err(ComSrvError::NotFound(message))
            },
        }
    }
}


/// The text of an optional text, empty when absent.
pub open spec fn text_or_empty_of(o: Option<String>) -> Seq<char> {
    match o {
        Some(t) => t@,
        None => Seq::empty(),
    }
}

/// The text of an optional text, empty when absent.
fn text_or_empty(o: &Option<String>) -> (r: String)
    ensures
        r@ == text_or_empty_of(*o),
{
    match o {
        Some(t) => t.clone(),
        None => String::new(),
    }
}

/// Whether `d` is the data recorded for the point of configuration `c` under
/// `key` with value text `value`: the time aside, every field is fixed.
pub open spec fn recorded_data(d: PointDataView, key: Seq<char>, c: UniversalPointConfig, value: Seq<char>) -> bool {
    &&& d.id == key
    &&& d.name == display_name(c)
    &&& d.value == value
    &&& d.unit == text_or_empty_of(c.unit)
    &&& d.description == text_or_empty_of(c.description)
}

/// The statistics after one more read operation.
pub open spec fn with_one_more_read(s: PointManagerStats) -> PointManagerStats {
    PointManagerStats { read_operations: (s.read_operations + 1) as u64, ..s }
}

/// The cached data of the numbers of `ids` that have any, in order.
pub open spec fn cached_among(ids: Seq<u32>, m: Map<Seq<char>, PointDataView>) -> Seq<PointDataView>
    decreases ids.len(),
{
    if ids.len() == 0 {
        Seq::empty()
    } else if m.contains_key(decimal_of(ids.last() as nat)) {
        cached_among(ids.drop_last(), m).push(m[decimal_of(ids.last() as nat)])
    } else {
        cached_among(ids.drop_last(), m)
    }
}

/// The data point of a configuration's point with a value text.
pub(crate) fn data_for(key: &str, config: &UniversalPointConfig, value: String) -> (d: PointData)
    ensures
        recorded_data(d@, key@, *config, value@),
{
    PointData {
        id: string_of(key),
        name: config.get_name(),
        value,
        timestamp: current_time(),
        unit: text_or_empty(&config.unit),
        description: text_or_empty(&config.description),
    }
}

impl UniversalPointManager {
    /// Records a value for the point that `point_id` names: the point must be
    /// loaded (else `NotFound`) and enabled (else `InvalidOperation`); its data,
    /// with the value text and the current time, replaces what the cache held for
    /// it, and one more read operation is counted.
    pub fn update_point_value(&mut self, point_id: &str, value: String) -> (r: Result<(), ComSrvError>)
        requires
            old(self).wf(),
            old(self).statistics().read_operations < u64::MAX,
        ensures
            final(self).wf(),
            final(self).configs() == old(self).configs(),
            forall|t: TelemetryType| #[trigger] final(self).type_list(t) == old(self).type_list(t),
            final(self).channel() == old(self).channel(),
            match keyed_config(old(self).configs(), point_id@) {
                None => {
                    &&& r matches Err(ComSrvError::NotFound(m)) && m@ == "Point not found: "@ + point_id@
                    &&& final(self).cached() == old(self).cached()
                    &&& final(self).statistics() == old(self).statistics()
                },
                Some(c) => if !c.enabled {
                    &&& r matches Err(ComSrvError::InvalidOperation(m)) && m@ == "Point "@ + point_id@ + " is disabled"@
                    &&& final(self).cached() == old(self).cached()
                    &&& final(self).statistics() == old(self).statistics()
                } else {
                    &&& r is Ok
                    &&& final(self).cached().contains_key(point_id@)
                    &&& recorded_data(final(self).cached()[point_id@], point_id@, c, value@)
                    &&& final(self).cached().remove(point_id@) == old(self).cached().remove(point_id@)
                    &&& final(self).statistics() == with_one_more_read(old(self).statistics())
                },
            },
    {
        let data = match self.lookup(point_id) {
            Some(c) => {
                if !c.enabled {
                    return Err(ComSrvError::InvalidOperation(text_str_text("Point ", point_id, " is disabled")));
                }
                data_for(point_id, c, value)
            },
            None => {
                let message = text_str_text("Point not found: ", point_id, "");
                proof {
                    reveal_strlit("");
                    assert(message@ =~= "Point not found: "@ + point_id@);
                }
                return Err(ComSrvError::NotFound(message));
            },
        };
        self.cache.put(data);
        proof {
            assert(self.cache@.remove(point_id@) =~= old(self).cache@.remove(point_id@));
        }
        self.stats.read_operations = self.stats.read_operations + 1;
        Ok(())
    }

    /// A copy of the data cached for the point that `point_id` names.
    pub fn get_point_data(&self, point_id: &str) -> (r: Option<PointData>)
        requires
            self.wf(),
        ensures
            match r {
                Some(d) => self.cached().contains_key(point_id@) && self.cached()[point_id@] == d@,
                None => !self.cached().contains_key(point_id@),
            },
    {
        match self.cache.find(point_id) {
            Some(d) => Some(d.duplicate()),
            None => None,
        }
    }

    /// Copies of all cached data, one per point.
    pub fn get_all_point_data(&self) -> (r: Vec<PointData>)
        requires
            self.wf(),
        ensures
            ids_distinct(views_of(r@)),
            data_map(views_of(r@)) == self.cached(),
    {
        self.cache.all()
    }

    /// Copies of the cached data of the numbers recorded under a telemetry type,
    /// in the order of the type's list.
    pub fn get_point_data_by_type(&self, telemetry_type: &TelemetryType) -> (r: Vec<PointData>)
        requires
            self.wf(),
        ensures
            views_of(r@) == cached_among(self.type_list(*telemetry_type), self.cached()),
    {
        let ids: &Vec<u32> = match telemetry_type {
            TelemetryType::Telemetry => &self.telemetry_ids,
            TelemetryType::Signaling => &self.signaling_ids,
            TelemetryType::Control => &self.control_ids,
            TelemetryType::Setpoint => &self.setpoint_ids,
        };
        assert(ids@ == self.type_list(*telemetry_type));
        let mut out: Vec<PointData> = Vec::new();
        let n = ids.len();
        let mut i: usize = 0;
        while i < n
            invariant
                n == ids@.len(),
                i <= n,
                self.wf(),
                views_of(out@) == cached_among(ids@.subrange(0, i as int), self.cached()),
            decreases n - i,
        {
            let ghost pre = ids@.subrange(0, i as int);
            assert(ids@.subrange(0, i + 1).drop_last() == pre);
            let key = u64_to_decimal(ids[i] as u64);
            match self.cache.find(key.as_str()) {
                Some(d) => {
                    let ghost prev = out@;
                    out.push(d.duplicate());
                    assert(views_of(out@) =~= views_of(prev).push(d@));
                },
                None => {},
            }
            i = i + 1;
        }
        assert(ids@.subrange(0, n as int) == ids@);
        out
    }

    /// Drops all cached data.
    pub fn clear_cache(&mut self)
        requires
            old(self).wf(),
        ensures
            final(self).wf(),
            final(self).configs() == old(self).configs(),
            forall|t: TelemetryType| #[trigger] final(self).type_list(t) == old(self).type_list(t),
            final(self).statistics() == old(self).statistics(),
            final(self).channel() == old(self).channel(),
            final(self).cached() == Map::<Seq<char>, PointDataView>::empty(),
    {
        self.cache.clear();
    }
}

/// After loading a list, the decimal text of each loaded number finds the last
/// configuration loaded with that number.
pub proof fn lemma_loaded_point_found(s: Seq<UniversalPointConfig>, n: u32)
    requires
        configs_by_id(s).contains_key(n),
    ensures
        keyed_config(configs_by_id(s), decimal_of(n as nat)) == Some(configs_by_id(s)[n]),
{
    let m = configs_by_id(s);
    let key = decimal_of(n as nat);
    assert(m.contains_key(n) && names_point(key, n));
    let w = choose|k: u32| #[trigger] m.contains_key(k) && names_point(key, k);
    lemma_names_unique(key, w, n);
}

/// Once the point a key names is removed, the key names no point.
pub proof fn lemma_removed_point_gone(m: Map<u32, UniversalPointConfig>, key: Seq<char>)
    requires
        forall|k: u32| #[trigger] m.contains_key(k) ==> m[k].point_id == k,
        keyed_config(m, key) is Some,
    ensures
        keyed_config(m.remove(keyed_config(m, key)->0.point_id), key) is None,
{
    let w = choose|k: u32| #[trigger] m.contains_key(k) && names_point(key, k);
    assert(keyed_config(m, key)->0 == m[w]);
    assert forall|k: u32| #[trigger] m.remove(m[w].point_id).contains_key(k) implies !names_point(key, k) by {
        if names_point(key, k) {
            lemma_names_unique(key, k, w);
        }
    }
}

} // verus!
