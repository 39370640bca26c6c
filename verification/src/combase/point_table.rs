//! Universal point configuration and the point table that indexes points by
//! number, by name and by telemetry type.

use vstd::prelude::*;
use crate::combase::TelemetryType;
use crate::combase::TelemetryMetadata;
use crate::error::{ComSrvError, text_num_text, text_str_text};
use crate::seq_util::{lemma_push_fresh, lemma_remove_is_without, lemma_without_contents, no_dups, without};
use crate::text::{decimal_of, str_eq, string_of};

verus! {

/// The bit pattern of the 64-bit float `1.0`.
pub const SCALE_ONE_BITS: u64 = 0x3FF0000000000000;

/// Universal point configuration for the four-telemetry point types.
///
/// The library does not compute with floating point: the engineering scale and
/// offset are held as the bit patterns of their 64-bit IEEE 754 values
/// (`f64::to_bits`), and only compared here.
#[derive(Debug, Clone, PartialEq)]
pub struct UniversalPointConfig {
    /// Point number
    pub point_index: u32,
    /// Point name
    pub point_name: String,
    /// Four-telemetry type
    pub telemetry_type: TelemetryType,
    /// Engineering unit
    pub unit: String,
    /// Scale factor, as the bits of an `f64`
    pub scale_bits: u64,
    /// Offset, as the bits of an `f64`
    pub offset_bits: u64,
    /// Access mode
    pub access_mode: String,
    /// Extended telemetry metadata
    pub telemetry_metadata: Option<TelemetryMetadata>,
    /// Whether the point is enabled
    pub enabled: bool,
}

/// Whether the bits stand for positive or negative zero.
pub open spec fn float_bits_zero(bits: u64) -> bool {
    bits == 0 || bits == 0x8000000000000000
}

/// The access mode a new point of each type gets.
pub open spec fn default_access_mode(t: TelemetryType) -> Seq<char> {
    match t {
        TelemetryType::Telemetry | TelemetryType::Signaling => "read"@,
        _ => "read_write"@,
    }
}

/// The outcome of validating a configuration: the message of the first rule that
/// fails, in the order name present, scale non-zero, access mode fits the type.
pub open spec fn config_check(c: UniversalPointConfig) -> Result<(), Seq<char>> {
    if c.point_name@.len() == 0 {
        Err("Point name cannot be empty"@)
    } else if float_bits_zero(c.scale_bits) {
        Err("Scale factor cannot be zero"@)
    } else if (c.telemetry_type is Telemetry || c.telemetry_type is Signaling) {
        if c.access_mode@ != "read"@ {
            Err("Measurement and signaling points should be read-only, got: "@ + c.access_mode@)
        } else {
            Ok(())
        }
    } else if c.access_mode@ != "read_write"@ && c.access_mode@ != "write"@ {
        Err("Control and regulation points should be writable, got: "@ + c.access_mode@)
    } else {
        Ok(())
    }
}

impl UniversalPointConfig {
    /// A new enabled point with scale 1, offset 0, no metadata, and the access mode of
    /// its type.
    pub fn new(point_index: u32, point_name: String, telemetry_type: TelemetryType, unit: String) -> (c: Self)
        ensures
            c.point_index == point_index,
            c.point_name == point_name,
            c.telemetry_type == telemetry_type,
            c.unit == unit,
            c.scale_bits == SCALE_ONE_BITS,
            c.offset_bits == 0,
            c.access_mode@ == default_access_mode(telemetry_type),
            c.telemetry_metadata is None,
            c.enabled,
    {
        let access_mode = match telemetry_type {
            TelemetryType::Telemetry | TelemetryType::Signaling => string_of("read"),
            TelemetryType::Control | TelemetryType::Setpoint => string_of("read_write"),
        };
        UniversalPointConfig {
            point_index,
            point_name,
            telemetry_type,
            unit,
            scale_bits: SCALE_ONE_BITS,
            offset_bits: 0,
            access_mode,
            telemetry_metadata: None,
            enabled: true,
        }
    }

    /// Validates the configuration.
    pub fn validate(&self) -> (r: Result<(), ComSrvError>)
        ensures
            match config_check(*self) {
                Ok(()) => r is Ok,
                Err(m) => r matches Err(ComSrvError::ConfigError(e)) && e@ == m,
            },
    {
        if self.point_name.as_str().unicode_len() == 0 {
            return Err(ComSrvError::ConfigError(string_of("Point name cannot be empty")));
        }
        if self.scale_bits == 0 || self.scale_bits == 0x8000000000000000 {
            return Err(ComSrvError::ConfigError(string_of("Scale factor cannot be zero")));
        }
        proof {
            reveal_strlit("");
        }
        match self.telemetry_type {
            TelemetryType::Telemetry | TelemetryType::Signaling => {
                if !str_eq(self.access_mode.as_str(), "read") {
                    return Err(ComSrvError::ConfigError(text_str_text(
                        "Measurement and signaling points should be read-only, got: ",
                        self.access_mode.as_str(),
                        "",
                    )));
                }
            },
            TelemetryType::Control | TelemetryType::Setpoint => {
                if !str_eq(self.access_mode.as_str(), "read_write") && !str_eq(self.access_mode.as_str(), "write") {
                    return Err(ComSrvError::ConfigError(text_str_text(
                        "Control and regulation points should be writable, got: ",
                        self.access_mode.as_str(),
                        "",
                    )));
                }
            },
        }
        Ok(())
    }
}

/// Point counts by type and by enabled state.
#[derive(Debug, Clone, Copy)]
pub struct PointStatistics {
    /// Total number of points
    pub total_points: u32,
    /// Measurement points
    pub telemetry_points: u32,
    /// Signaling points
    pub signaling_points: u32,
    /// Control points
    pub control_points: u32,
    /// Regulation points
    pub setpoint_points: u32,
    /// Enabled points
    pub enabled_points: u32,
    /// Disabled points
    pub disabled_points: u32,
}

/// The map from point number to configuration that a list of configurations stands for.
pub open spec fn map_of_configs(s: Seq<(u32, UniversalPointConfig)>) -> Map<u32, UniversalPointConfig>
    decreases s.len(),
{
    if s.len() == 0 {
        Map::empty()
    } else {
        map_of_configs(s.drop_last()).insert(s.last().0, s.last().1)
    }
}

/// Whether no two configurations share a point number.
pub open spec fn indices_distinct(s: Seq<(u32, UniversalPointConfig)>) -> bool {
    forall|i: int, j: int|
        0 <= i < s.len() && 0 <= j < s.len() && i != j ==> #[trigger] s[i].0 != #[trigger] s[j].0
}

/// Whether no two configurations share a name.
pub open spec fn names_distinct(s: Seq<(u32, UniversalPointConfig)>) -> bool {
    forall|i: int, j: int|
        0 <= i < s.len() && 0 <= j < s.len() && i != j ==> #[trigger] s[i].1.point_name@ != #[trigger] s[j].1.point_name@
}

/// A number is in the map exactly when a configuration carries it, and the map gives
/// that configuration.
pub proof fn lemma_map_of_configs(s: Seq<(u32, UniversalPointConfig)>, k: u32)
    requires
        indices_distinct(s),
    ensures
        map_of_configs(s).contains_key(k) <==> exists|i: int| 0 <= i < s.len() && #[trigger] s[i].0 == k,
        forall|i: int| 0 <= i < s.len() && #[trigger] s[i].0 == k ==> map_of_configs(s)[k] == s[i].1,
    decreases s.len(),
{
    if s.len() > 0 {
        let p = s.drop_last();
        assert(indices_distinct(p)) by {
            assert forall|i: int, j: int| 0 <= i < p.len() && 0 <= j < p.len() && i != j implies #[trigger] p[i].0
                != #[trigger] p[j].0 by {
                assert(p[i] == s[i]);
                assert(p[j] == s[j]);
            }
        }
        lemma_map_of_configs(p, k);
        if exists|i: int| 0 <= i < s.len() && #[trigger] s[i].0 == k {
            let w = choose|i: int| 0 <= i < s.len() && #[trigger] s[i].0 == k;
            if w < p.len() {
                assert(p[w] == s[w]);
            }
        }
        if exists|i: int| 0 <= i < p.len() && #[trigger] p[i].0 == k {
            let w = choose|i: int| 0 <= i < p.len() && #[trigger] p[i].0 == k;
            assert(s[w] == p[w]);
        }
        assert forall|i: int| 0 <= i < s.len() && #[trigger] s[i].0 == k implies map_of_configs(s)[k]
            == s[i].1 by {
            if i < p.len() {
                assert(p[i] == s[i]);
                assert(s.last().0 != k);
            }
        }
    }
}

/// The number of entries of the map of distinct configurations.
pub proof fn lemma_map_of_configs_len(s: Seq<(u32, UniversalPointConfig)>)
    requires
        indices_distinct(s),
    ensures
        map_of_configs(s).dom().finite(),
        map_of_configs(s).dom().len() == s.len(),
    decreases s.len(),
{
    if s.len() > 0 {
        let p = s.drop_last();
        assert(indices_distinct(p)) by {
            assert forall|i: int, j: int| 0 <= i < p.len() && 0 <= j < p.len() && i != j implies #[trigger] p[i].0
                != #[trigger] p[j].0 by {
                assert(p[i] == s[i]);
                assert(p[j] == s[j]);
            }
        }
        lemma_map_of_configs_len(p);
        lemma_map_of_configs(p, s.last().0);
        if map_of_configs(p).contains_key(s.last().0) {
            let w = choose|i: int| 0 <= i < p.len() && #[trigger] p[i].0 == s.last().0;
            assert(p[w] == s[w]);
            assert(s[s.len() - 1] == s.last());
        }
    }
}

/// Replacing the configuration at a position by one with the same number updates
/// that number's entry and nothing else.
proof fn lemma_set_config(s: Seq<(u32, UniversalPointConfig)>, pos: int, c: (u32, UniversalPointConfig))
    requires
        indices_distinct(s),
        0 <= pos < s.len(),
        s[pos].0 == c.0,
    ensures
        indices_distinct(s.update(pos, c)),
        map_of_configs(s.update(pos, c)) == map_of_configs(s).insert(c.0, c.1),
{
    let t = s.update(pos, c);
    assert(indices_distinct(t)) by {
        assert forall|i: int, j: int| 0 <= i < t.len() && 0 <= j < t.len() && i != j implies #[trigger] t[i].0
            != #[trigger] t[j].0 by {
            assert(t[i].0 == s[i].0);
            assert(t[j].0 == s[j].0);
        }
    }
    let a = map_of_configs(t);
    let b = map_of_configs(s).insert(c.0, c.1);
    assert forall|k: u32| #![auto] a.contains_key(k) == b.contains_key(k) by {
        lemma_map_of_configs(t, k);
        lemma_map_of_configs(s, k);
        if exists|i: int| 0 <= i < t.len() && #[trigger] t[i].0 == k {
            let i = choose|i: int| 0 <= i < t.len() && #[trigger] t[i].0 == k;
            assert(s[i].0 == k);
        }
        if exists|i: int| 0 <= i < s.len() && #[trigger] s[i].0 == k {
            let i = choose|i: int| 0 <= i < s.len() && #[trigger] s[i].0 == k;
            assert(t[i].0 == k);
        }
        if k == c.0 {
            assert(t[pos].0 == k);
        }
    }
    assert forall|k: u32| #[trigger] a.contains_key(k) implies a[k] == b[k] by {
        lemma_map_of_configs(t, k);
        lemma_map_of_configs(s, k);
        let i = choose|i: int| 0 <= i < t.len() && #[trigger] t[i].0 == k;
        if i != pos {
            assert(t[i] == s[i]);
        }
    }
    assert(a =~= b);
}

/// Removing the configuration at a position removes its number from the map.
proof fn lemma_remove_config(s: Seq<(u32, UniversalPointConfig)>, pos: int)
    requires
        indices_distinct(s),
        0 <= pos < s.len(),
    ensures
        indices_distinct(s.remove(pos)),
        names_distinct(s) ==> names_distinct(s.remove(pos)),
        map_of_configs(s.remove(pos)) == map_of_configs(s).remove(s[pos].0),
{
    let t = s.remove(pos);
    assert forall|i: int| 0 <= i < t.len() implies #[trigger] t[i] == s[if i < pos { i } else { i + 1 }] by {}
    assert(indices_distinct(t)) by {
        assert forall|i: int, j: int| 0 <= i < t.len() && 0 <= j < t.len() && i != j implies #[trigger] t[i].0
            != #[trigger] t[j].0 by {
            assert(t[i] == s[if i < pos { i } else { i + 1 }]);
            assert(t[j] == s[if j < pos { j } else { j + 1 }]);
        }
    }
    if names_distinct(s) {
        assert forall|i: int, j: int| 0 <= i < t.len() && 0 <= j < t.len() && i != j implies #[trigger] t[i].1.point_name@
            != #[trigger] t[j].1.point_name@ by {
            assert(t[i] == s[if i < pos { i } else { i + 1 }]);
            assert(t[j] == s[if j < pos { j } else { j + 1 }]);
        }
    }
    let k0 = s[pos].0;
    let a = map_of_configs(t);
    let b = map_of_configs(s).remove(k0);
    assert forall|k: u32| #![auto] a.contains_key(k) == b.contains_key(k) by {
        lemma_map_of_configs(t, k);
        lemma_map_of_configs(s, k);
        if exists|i: int| 0 <= i < t.len() && #[trigger] t[i].0 == k {
            let i = choose|i: int| 0 <= i < t.len() && #[trigger] t[i].0 == k;
            let j = if i < pos { i } else { i + 1 };
            assert(t[i] == s[j]);
            assert(s[j].0 == k);
            assert(j != pos);
        }
        if exists|i: int| 0 <= i < s.len() && #[trigger] s[i].0 == k {
            let i = choose|i: int| 0 <= i < s.len() && #[trigger] s[i].0 == k;
            if k != k0 {
                assert(i != pos);
                let j = if i < pos { i } else { i - 1 };
                assert(t[j] == s[i]);
            }
        }
    }
    assert forall|k: u32| #[trigger] a.contains_key(k) implies a[k] == b[k] by {
        lemma_map_of_configs(t, k);
        lemma_map_of_configs(s, k);
        let i = choose|i: int| 0 <= i < t.len() && #[trigger] t[i].0 == k;
        let j = if i < pos { i } else { i + 1 };
        assert(t[i] == s[j]);
    }
    assert(a =~= b);
}

/// The point table: configurations indexed by number, by name and by telemetry type.
#[derive(Debug, Clone)]
pub struct UniversalPointManager {
    points: Vec<(u32, UniversalPointConfig)>,
    telemetry_ids: Vec<u32>,
    signaling_ids: Vec<u32>,
    control_ids: Vec<u32>,
    setpoint_ids: Vec<u32>,
}

impl View for UniversalPointManager {
    type V = Map<u32, UniversalPointConfig>;

    closed spec fn view(&self) -> Map<u32, UniversalPointConfig> {
        map_of_configs(self.points@)
    }
}

/// Whether some number of the map gives the configuration `c`.
pub open spec fn holds_config(m: Map<u32, UniversalPointConfig>, c: UniversalPointConfig) -> bool {
    exists|k: u32| #[trigger] m.contains_key(k) && m[k] == c
}

/// Whether the map holds a point with the given name.
pub open spec fn name_taken(m: Map<u32, UniversalPointConfig>, name: Seq<char>) -> bool {
    exists|k: u32| #[trigger] m.contains_key(k) && m[k].point_name@ == name
}

impl UniversalPointManager {
    /// The numbers of the points of type `t`, in the order they joined that type.
    pub closed spec fn group(&self, t: TelemetryType) -> Seq<u32> {
        match t {
            TelemetryType::Telemetry => self.telemetry_ids@,
            TelemetryType::Signaling => self.signaling_ids@,
            TelemetryType::Control => self.control_ids@,
            TelemetryType::Setpoint => self.setpoint_ids@,
        }
    }

    /// The table's invariant: numbers and names are unique, and each type's list
    /// holds, once each, exactly the numbers of the points of that type.
    pub closed spec fn wf(&self) -> bool {
        &&& indices_distinct(self.points@)
        &&& names_distinct(self.points@)
        &&& forall|t: TelemetryType| no_dups(#[trigger] self.group(t))
        &&& forall|t: TelemetryType, k: u32|
            #[trigger] self.group(t).contains(k) <==> (self@.contains_key(k) && self@[k].telemetry_type == t)
    }

    /// What the invariant gives a user of the table: finitely many points, names
    /// unique across points, and each point listed once, under its own type only.
    pub proof fn lemma_point_table_facts(&self)
        requires
            self.wf(),
        ensures
            self@.dom().finite(),
            forall|a: u32, b: u32|
                #[trigger] self@.contains_key(a) && #[trigger] self@.contains_key(b) && a != b ==> self@[a].point_name@
                    != self@[b].point_name@,
            forall|t: TelemetryType| no_dups(#[trigger] self.group(t)),
            forall|t: TelemetryType, k: u32|
                #[trigger] self.group(t).contains(k) <==> (self@.contains_key(k) && self@[k].telemetry_type == t),
    {
        lemma_map_of_configs_len(self.points@);
        assert forall|a: u32, b: u32|
            #[trigger] self@.contains_key(a) && #[trigger] self@.contains_key(b) && a != b implies self@[a].point_name@
                != self@[b].point_name@ by {
            lemma_map_of_configs(self.points@, a);
            lemma_map_of_configs(self.points@, b);
            let i = choose|i: int| 0 <= i < self.points@.len() && #[trigger] self.points@[i].0 == a;
            let j = choose|j: int| 0 <= j < self.points@.len() && #[trigger] self.points@[j].0 == b;
            assert(i != j);
        }
    }

    /// After a successful `update_point(i, config)`: the new name leads to number `i`
    /// alone, a name given up is free, and `i` is listed under the new type only.
    pub proof fn lemma_update_point_lookup(before: &Self, after: &Self, i: u32, config: UniversalPointConfig)
        requires
            before.wf(),
            after.wf(),
            before@.contains_key(i),
            after@ == before@.insert(i, config),
        ensures
            forall|k: u32| #[trigger] after@.contains_key(k) && after@[k].point_name@ == config.point_name@ ==> k == i,
            before@[i].point_name@ != config.point_name@ ==> !name_taken(after@, before@[i].point_name@),
            forall|t: TelemetryType| #[trigger] after.group(t).contains(i) <==> t == config.telemetry_type,
    {
        before.lemma_point_table_facts();
        after.lemma_point_table_facts();
        assert(after@.contains_key(i) && after@[i] == config);
        if before@[i].point_name@ != config.point_name@ && name_taken(after@, before@[i].point_name@) {
            let k = choose|k: u32| #[trigger] after@.contains_key(k) && after@[k].point_name@ == before@[i].point_name@;
            assert(k != i);
            assert(before@.contains_key(k) && before@[k] == after@[k]);
        }
    }

    /// An empty table.
    pub fn new() -> (m: Self)
        ensures
            m.wf(),
            m@ == Map::<u32, UniversalPointConfig>::empty(),
            forall|t: TelemetryType| #[trigger] m.group(t) == Seq::<u32>::empty(),
    {
        UniversalPointManager {
            points: Vec::new(),
            telemetry_ids: Vec::new(),
            signaling_ids: Vec::new(),
            control_ids: Vec::new(),
            setpoint_ids: Vec::new(),
        }
    }

    /// The position of the point with number `index`.
    fn position_of_index(&self, index: u32) -> (r: Option<usize>)
        requires
            indices_distinct(self.points@),
        ensures
            match r {
                Some(p) => p < self.points@.len() && self.points@[p as int].0 == index,
                None => !self@.contains_key(index),
            },
    {
        proof {
            lemma_map_of_configs(self.points@, index);
        }
        let n = self.points.len();
        let mut i: usize = 0;
        while i < n
            invariant
                n == self.points@.len(),
                i <= n,
                forall|j: int| 0 <= j < i ==> #[trigger] self.points@[j].0 != index,
            decreases n - i,
        {
            if self.points[i].0 == index {
                return Some(i);
            }
            i = i + 1;
        }
        None
    }

    /// The position of the point named `name`.
    fn position_of_name(&self, name: &str) -> (r: Option<usize>)
        requires
            indices_distinct(self.points@),
        ensures
            match r {
                Some(p) => p < self.points@.len() && self.points@[p as int].1.point_name@ == name@,
                None => !name_taken(self@, name@),
            },
    {
        let n = self.points.len();
        let mut i: usize = 0;
        while i < n
            invariant
                n == self.points@.len(),
                i <= n,
                forall|j: int| 0 <= j < i ==> #[trigger] self.points@[j].1.point_name@ != name@,
            decreases n - i,
        {
            if str_eq(self.points[i].1.point_name.as_str(), name) {
                return Some(i);
            }
            i = i + 1;
        }
        proof {
            if name_taken(self@, name@) {
                let k = choose|k: u32| #[trigger] self@.contains_key(k) && self@[k].point_name@ == name@;
                lemma_map_of_configs(self.points@, k);
                let j = choose|j: int| 0 <= j < self.points@.len() && #[trigger] self.points@[j].0 == k;
                assert(self.points@[j].1.point_name@ == name@);
            }
        }
        None
    }

    /// Appends `index` to the list of type `t`.
    fn push_to_group(&mut self, t: TelemetryType, index: u32)
        ensures
            final(self).points == old(self).points,
            final(self).group(t) == old(self).group(t).push(index),
            forall|u: TelemetryType| u != t ==> #[trigger] final(self).group(u) == old(self).group(u),
    {
        match t {
            TelemetryType::Telemetry => self.telemetry_ids.push(index),
            TelemetryType::Signaling => self.signaling_ids.push(index),
            TelemetryType::Control => self.control_ids.push(index),
            TelemetryType::Setpoint => self.setpoint_ids.push(index),
        }
    }

    /// Takes `index` out of the list of type `t`.
    fn remove_from_group(&mut self, t: TelemetryType, index: u32)
        requires
            no_dups(old(self).group(t)),
        ensures
            final(self).points == old(self).points,
            final(self).group(t) == without(old(self).group(t), index),
            forall|u: TelemetryType| u != t ==> #[trigger] final(self).group(u) == old(self).group(u),
    {
        match t {
            TelemetryType::Telemetry => remove_value(&mut self.telemetry_ids, index),
            TelemetryType::Signaling => remove_value(&mut self.signaling_ids, index),
            TelemetryType::Control => remove_value(&mut self.control_ids, index),
            TelemetryType::Setpoint => remove_value(&mut self.setpoint_ids, index),
        }
    }

    /// Adds a point. Refused when the configuration is invalid, or when its number or
    /// its name is already in the table; the table is then unchanged.
    pub fn add_point(&mut self, config: UniversalPointConfig) -> (r: Result<(), ComSrvError>)
        requires
            old(self).wf(),
        ensures
            final(self).wf(),
            match config_check(config) {
                Err(m) => r matches Err(ComSrvError::ConfigError(e)) && e@ == m,
                Ok(()) => if old(self)@.contains_key(config.point_index) {
                    r matches Err(ComSrvError::ConfigError(e)) && e@ == "Point index "@ + decimal_of(
                        config.point_index as nat,
                    ) + " already exists"@
                } else if name_taken(old(self)@, config.point_name@) {
                    r matches Err(ComSrvError::ConfigError(e)) && e@ == "Point name '"@ + config.point_name@
                        + "' already exists"@
                } else {
                    r is Ok
                },
            },
            r is Ok ==> final(self)@ == old(self)@.insert(config.point_index, config),
            r is Ok ==> final(self).group(config.telemetry_type) == old(self).group(config.telemetry_type).push(
                config.point_index,
            ),
            r is Ok ==> forall|u: TelemetryType| u != config.telemetry_type ==> #[trigger] final(self).group(u) == old(self).group(u),
            r is Err ==> *final(self) == *old(self),
    {
        match config.validate() {
            Ok(()) => {},
            Err(e) => {
                return Err(e);
            },
        }
        if self.position_of_index(config.point_index).is_some() {
            proof {
                lemma_map_of_configs(self.points@, config.point_index);
            }
            return Err(ComSrvError::ConfigError(text_num_text("Point index ", config.point_index as u64, " already exists")));
        }
        if let Some(p) = self.position_of_name(config.point_name.as_str()) {
            proof {
                let k = self.points@[p as int].0;
                lemma_map_of_configs(self.points@, k);
                assert(self@.contains_key(k) && self@[k].point_name@ == config.point_name@);
            }
            return Err(ComSrvError::ConfigError(text_str_text("Point name '", config.point_name.as_str(), "' already exists")));
        }
        let index = config.point_index;
        let t = config.telemetry_type;
        let ghost old_points = self.points@;
        let ghost old_map = self@;
        let ghost old_self = *self;
        proof {
            lemma_map_of_configs(old_points, index);
        }
        self.points.push((config.point_index, config));
        proof {
            let s = self.points@;
            assert(s.drop_last() == old_points);
            assert(indices_distinct(s)) by {
                assert forall|i: int, j: int| 0 <= i < s.len() && 0 <= j < s.len() && i != j implies #[trigger] s[i].0
                    != #[trigger] s[j].0 by {
                    if i < old_points.len() {
                        assert(s[i] == old_points[i]);
                    }
                    if j < old_points.len() {
                        assert(s[j] == old_points[j]);
                    }
                }
            }
            assert(names_distinct(s)) by {
                assert forall|i: int, j: int| 0 <= i < s.len() && 0 <= j < s.len() && i != j implies #[trigger] s[i].1.point_name@
                    != #[trigger] s[j].1.point_name@ by {
                    if i < old_points.len() && j < old_points.len() {
                        assert(s[i] == old_points[i]);
                        assert(s[j] == old_points[j]);
                    } else if i < old_points.len() {
                        assert(s[i] == old_points[i]);
                        lemma_map_of_configs(old_points, s[i].0);
                        assert(old_map.contains_key(s[i].0));
                    } else {
                        assert(s[j] == old_points[j]);
                        lemma_map_of_configs(old_points, s[j].0);
                        assert(old_map.contains_key(s[j].0));
                    }
                }
            }
        }
        proof {
            assert(!old_self.group(t).contains(index));
            lemma_push_fresh(old_self.group(t), index);
            assert(self.points@.drop_last() == old_points);
            assert(self@ == old_map.insert(index, config));
        }
        self.push_to_group(t, index);
        proof {
            assert forall|u: TelemetryType| no_dups(#[trigger] self.group(u)) by {
                if u != t {
                    assert(self.group(u) == old_self.group(u));
                }
            }
            assert forall|u: TelemetryType, k: u32| #[trigger] self.group(u).contains(k) <==> (self@.contains_key(k)
                && self@[k].telemetry_type == u) by {
                assert(old_self.group(u).contains(k) <==> (old_map.contains_key(k) && old_map[k].telemetry_type == u));
                if u == t {
                    assert(self.group(u).contains(k) <==> (old_self.group(u).contains(k) || k == index));
                } else {
                    assert(self.group(u) == old_self.group(u));
                }
            }
        }
        Ok(())
    }

    /// The point with number `point_index`.
    pub fn get_point_by_index(&self, point_index: u32) -> (r: Option<&UniversalPointConfig>)
        requires
            self.wf(),
        ensures
            match r {
                Some(c) => self@.contains_key(point_index) && self@[point_index] == *c,
                None => !self@.contains_key(point_index),
            },
    {
        match self.position_of_index(point_index) {
            Some(p) => {
                proof {
                    lemma_map_of_configs(self.points@, point_index);
                }
                Some(&self.points[p].1)
            },
            None => None,
        }
    }

    /// The point named `point_name`.
    pub fn get_point_by_name(&self, point_name: &str) -> (r: Option<&UniversalPointConfig>)
        requires
            self.wf(),
        ensures
            match r {
                Some(c) => c.point_name@ == point_name@ && holds_config(self@, *c),
                None => !name_taken(self@, point_name@),
            },
    {
        match self.position_of_name(point_name) {
            Some(p) => {
                proof {
                    let k = self.points@[p as int].0;
                    lemma_map_of_configs(self.points@, k);
                    assert(self@.contains_key(k) && self@[k] == self.points@[p as int].1);
                }
                Some(&self.points[p].1)
            },
            None => None,
        }
    }

    /// The points of type `t`, in the order they joined that type.
    pub fn get_points_by_type(&self, telemetry_type: &TelemetryType) -> (r: Vec<&UniversalPointConfig>)
        requires
            self.wf(),
        ensures
            r@.len() == self.group(*telemetry_type).len(),
            forall|k: int| 0 <= k < r@.len() ==> *(#[trigger] r@[k]) == self@[self.group(*telemetry_type)[k]],
    {
        let ids: &Vec<u32> = match telemetry_type {
            TelemetryType::Telemetry => &self.telemetry_ids,
            TelemetryType::Signaling => &self.signaling_ids,
            TelemetryType::Control => &self.control_ids,
            TelemetryType::Setpoint => &self.setpoint_ids,
        };
        let mut out: Vec<&UniversalPointConfig> = Vec::new();
        let n = ids.len();
        let mut i: usize = 0;
        while i < n
            invariant
                self.wf(),
                ids@ == self.group(*telemetry_type),
                n == ids@.len(),
                i <= n,
                out@.len() == i,
                forall|k: int| 0 <= k < i ==> *(#[trigger] out@[k]) == self@[ids@[k]],
            decreases n - i,
        {
            let id = ids[i];
            assert(self.group(*telemetry_type).contains(id)) by {
                assert(ids@[i as int] == id);
            }
            match self.position_of_index(id) {
                Some(p) => {
                    proof {
                        lemma_map_of_configs(self.points@, id);
                    }
                    out.push(&self.points[p].1);
                },
                None => {},
            }
            i = i + 1;
        }
        out
    }

    /// All points of the table.
    pub fn get_all_points(&self) -> (r: Vec<&UniversalPointConfig>)
        requires
            self.wf(),
        ensures
            r@.len() == self@.dom().len(),
            forall|k: int| 0 <= k < r@.len() ==> holds_config(self@, *#[trigger] r@[k]),
            forall|i: u32| #[trigger] self@.contains_key(i) ==> exists|k: int| 0 <= k < r@.len() && *(#[trigger] r@[k]) == self@[i],
    {
        proof {
            lemma_map_of_configs_len(self.points@);
        }
        let mut out: Vec<&UniversalPointConfig> = Vec::new();
        let n = self.points.len();
        let mut i: usize = 0;
        while i < n
            invariant
                self.wf(),
                n == self.points@.len(),
                i <= n,
                out@.len() == i,
                forall|k: int| 0 <= k < i ==> *(#[trigger] out@[k]) == self.points@[k].1,
            decreases n - i,
        {
            out.push(&self.points[i].1);
            i = i + 1;
        }
        proof {
            assert forall|k: int| 0 <= k < out@.len() implies holds_config(self@, *#[trigger] out@[k]) by {
                let key = self.points@[k].0;
                lemma_map_of_configs(self.points@, key);
                assert(self@.contains_key(key) && self@[key] == *out@[k]);
            }
            assert forall|i: u32| #[trigger] self@.contains_key(i) implies exists|k: int| 0 <= k < out@.len() && *(
            #[trigger] out@[k]) == self@[i] by {
                lemma_map_of_configs(self.points@, i);
                let k = choose|k: int| 0 <= k < self.points@.len() && #[trigger] self.points@[k].0 == i;
                assert(*out@[k] == self@[i]);
            }
        }
        out
    }

    /// Replaces the configuration of point `point_index`. Refused when the new
    /// configuration is invalid, when there is no such point, or when the name
    /// changes to one another point has; the table is then unchanged. A change of
    /// type moves the point to the end of its new type's list.
    pub fn update_point(&mut self, point_index: u32, config: UniversalPointConfig) -> (r: Result<(), ComSrvError>)
        requires
            old(self).wf(),
        ensures
            final(self).wf(),
            match config_check(config) {
                Err(m) => r matches Err(ComSrvError::ConfigError(e)) && e@ == m,
                Ok(()) => if !old(self)@.contains_key(point_index) {
                    r matches Err(ComSrvError::ConfigError(e)) && e@ == "Point index "@ + decimal_of(
                        point_index as nat,
                    ) + " not found"@
                } else if old(self)@[point_index].point_name@ != config.point_name@ && name_taken(
                    old(self)@,
                    config.point_name@,
                ) {
                    r matches Err(ComSrvError::ConfigError(e)) && e@ == "Point name '"@ + config.point_name@
                        + "' already exists"@
                } else {
                    r is Ok
                },
            },
            r is Ok ==> final(self)@ == old(self)@.insert(point_index, config),
            r is Ok ==> {
                let old_t = old(self)@[point_index].telemetry_type;
                let new_t = config.telemetry_type;
                if old_t == new_t {
                    forall|u: TelemetryType| #[trigger] final(self).group(u) == old(self).group(u)
                } else {
                    &&& final(self).group(old_t) == without(old(self).group(old_t), point_index)
                    &&& final(self).group(new_t) == old(self).group(new_t).push(point_index)
                    &&& forall|u: TelemetryType| u != old_t && u != new_t ==> #[trigger] final(self).group(u) == old(self).group(u)
                }
            },
            r is Err ==> *final(self) == *old(self),
    {
        match config.validate() {
            Ok(()) => {},
            Err(e) => {
                return Err(e);
            },
        }
        let pos = match self.position_of_index(point_index) {
            Some(p) => p,
            None => {
                return Err(ComSrvError::ConfigError(text_num_text("Point index ", point_index as u64, " not found")));
            },
        };
        proof {
            lemma_map_of_configs(self.points@, point_index);
        }
        let old_t = self.points[pos].1.telemetry_type;
        let same_name = str_eq(self.points[pos].1.point_name.as_str(), config.point_name.as_str());
        if !same_name {
            if let Some(p) = self.position_of_name(config.point_name.as_str()) {
                proof {
                    let k = self.points@[p as int].0;
                    lemma_map_of_configs(self.points@, k);
                    assert(self@.contains_key(k) && self@[k].point_name@ == config.point_name@);
                }
                return Err(ComSrvError::ConfigError(text_str_text("Point name '", config.point_name.as_str(), "' already exists")));
            }
        }
        let ghost old_points = self.points@;
        let ghost old_map = self@;
        let ghost old_self = *self;
        let new_t = config.telemetry_type;
        if old_t != new_t {
            proof {
                assert(self.group(old_t).contains(point_index));
                assert(!self.group(new_t).contains(point_index));
                lemma_without_contents(self.group(old_t), point_index);
                lemma_push_fresh(self.group(new_t), point_index);
            }
            self.remove_from_group(old_t, point_index);
            self.push_to_group(new_t, point_index);
        }
        let ghost before_set = *self;
        assert(forall|u: TelemetryType| u != old_t && u != new_t ==> #[trigger] before_set.group(u) == old_self.group(u));
        assert(old_t == new_t ==> forall|u: TelemetryType| #[trigger] before_set.group(u) == old_self.group(u));
        self.points.set(pos, (point_index, config));
        assert(forall|u: TelemetryType| #[trigger] self.group(u) == before_set.group(u));
        proof {
            lemma_set_config(old_points, pos as int, (point_index, config));
            let s = self.points@;
            assert(s == old_points.update(pos as int, (point_index, config)));
            assert(names_distinct(s)) by {
                assert forall|i: int, j: int| 0 <= i < s.len() && 0 <= j < s.len() && i != j implies #[trigger] s[i].1.point_name@
                    != #[trigger] s[j].1.point_name@ by {
                    if i != pos && j != pos {
                        assert(s[i] == old_points[i]);
                        assert(s[j] == old_points[j]);
                    } else if i == pos {
                        assert(s[j] == old_points[j]);
                        if !same_name {
                            lemma_map_of_configs(old_points, old_points[j].0);
                            assert(old_map.contains_key(old_points[j].0));
                        }
                    } else {
                        assert(s[i] == old_points[i]);
                        if !same_name {
                            lemma_map_of_configs(old_points, old_points[i].0);
                            assert(old_map.contains_key(old_points[i].0));
                        }
                    }
                }
            }
            assert(self@ == old_map.insert(point_index, config));
            assert(old_map[point_index].telemetry_type == old_t);
            if old_t != new_t {
                lemma_without_contents(old_self.group(old_t), point_index);
                lemma_push_fresh(old_self.group(new_t), point_index);
            }
            assert forall|u: TelemetryType| no_dups(#[trigger] self.group(u)) by {
                if old_t == new_t || (u != old_t && u != new_t) {
                    assert(self.group(u) == old_self.group(u));
                }
            }
            assert forall|u: TelemetryType, k: u32| #[trigger] self.group(u).contains(k) <==> (self@.contains_key(k)
                && self@[k].telemetry_type == u) by {
                assert(old_self.group(u).contains(k) <==> (old_map.contains_key(k) && old_map[k].telemetry_type == u));
                if old_t == new_t || (u != old_t && u != new_t) {
                    assert(self.group(u) == old_self.group(u));
                } else if u == old_t {
                    assert(self.group(u).contains(k) <==> (old_self.group(u).contains(k) && k != point_index));
                } else {
                    assert(self.group(u).contains(k) <==> (old_self.group(u).contains(k) || k == point_index));
                }
            }
        }
        Ok(())
    }

    /// Removes point `point_index`; refused, with the table unchanged, when there is
    /// no such point.
    pub fn remove_point(&mut self, point_index: u32) -> (r: Result<(), ComSrvError>)
        requires
            old(self).wf(),
        ensures
            final(self).wf(),
            r is Ok <==> old(self)@.contains_key(point_index),
            r matches Err(e) ==> (e matches ComSrvError::ConfigError(m) && m@ == "Point index "@ + decimal_of(
                point_index as nat,
            ) + " not found"@),
            r is Ok ==> final(self)@ == old(self)@.remove(point_index),
            r is Ok ==> {
                let t = old(self)@[point_index].telemetry_type;
                &&& final(self).group(t) == without(old(self).group(t), point_index)
                &&& forall|u: TelemetryType| u != t ==> #[trigger] final(self).group(u) == old(self).group(u)
            },
            r is Err ==> *final(self) == *old(self),
    {
        let pos = match self.position_of_index(point_index) {
            Some(p) => p,
            None => {
                return Err(ComSrvError::ConfigError(text_num_text("Point index ", point_index as u64, " not found")));
            },
        };
        proof {
            lemma_map_of_configs(self.points@, point_index);
        }
        let ghost old_points = self.points@;
        let ghost old_map = self@;
        let ghost old_self = *self;
        let t = self.points[pos].1.telemetry_type;
        proof {
            lemma_without_contents(self.group(t), point_index);
        }
        self.points.remove(pos);
        self.remove_from_group(t, point_index);
        proof {
            lemma_remove_config(old_points, pos as int);
            assert(self@ == old_map.remove(point_index));
            assert(old_map[point_index].telemetry_type == t);
            assert forall|u: TelemetryType| no_dups(#[trigger] self.group(u)) by {
                if u != t {
                    assert(self.group(u) == old_self.group(u));
                }
            }
            assert forall|u: TelemetryType, k: u32| #[trigger] self.group(u).contains(k) <==> (self@.contains_key(k)
                && self@[k].telemetry_type == u) by {
                assert(old_self.group(u).contains(k) <==> (old_map.contains_key(k) && old_map[k].telemetry_type == u));
                if u == t {
                    assert(self.group(u).contains(k) <==> (old_self.group(u).contains(k) && k != point_index));
                } else {
                    assert(self.group(u) == old_self.group(u));
                }
            }
        }
        Ok(())
    }

    /// Counts the points by type and by enabled state.
    pub fn get_statistics(&self) -> (s: PointStatistics)
        requires
            self.wf(),
            self@.dom().len() < 0x1_0000_0000,
        ensures
            s.total_points == self@.dom().len(),
            s.telemetry_points == self.group(TelemetryType::Telemetry).len(),
            s.signaling_points == self.group(TelemetryType::Signaling).len(),
            s.control_points == self.group(TelemetryType::Control).len(),
            s.setpoint_points == self.group(TelemetryType::Setpoint).len(),
            s.enabled_points + s.disabled_points == s.total_points,
            s.telemetry_points + s.signaling_points + s.control_points + s.setpoint_points == s.total_points,
            s.enabled_points == enabled_numbers(self@).len(),
    {
        proof {
            lemma_map_of_configs_len(self.points@);
        }
        let n = self.points.len();
        let mut s = PointStatistics {
            total_points: 0,
            telemetry_points: 0,
            signaling_points: 0,
            control_points: 0,
            setpoint_points: 0,
            enabled_points: 0,
            disabled_points: 0,
        };
        let mut i: usize = 0;
        while i < n
            invariant
                self.wf(),
                n == self.points@.len(),
                n < 0x1_0000_0000,
                i <= n,
                s.total_points == i,
                s.telemetry_points == count_type(self.points@.subrange(0, i as int), TelemetryType::Telemetry),
                s.signaling_points == count_type(self.points@.subrange(0, i as int), TelemetryType::Signaling),
                s.control_points == count_type(self.points@.subrange(0, i as int), TelemetryType::Control),
                s.setpoint_points == count_type(self.points@.subrange(0, i as int), TelemetryType::Setpoint),
                s.enabled_points == count_enabled(self.points@.subrange(0, i as int)),
                s.enabled_points + s.disabled_points == i,
                s.telemetry_points + s.signaling_points + s.control_points + s.setpoint_points == i,
            decreases n - i,
        {
            let c = &self.points[i].1;
            let ghost pre = self.points@.subrange(0, i as int);
            let ghost cur = self.points@.subrange(0, i + 1);
            assert(cur.drop_last() == pre);
            assert(cur.last() == self.points@[i as int]);
            proof {
                lemma_count_type_le(pre, TelemetryType::Telemetry);
                lemma_count_type_le(pre, TelemetryType::Signaling);
                lemma_count_type_le(pre, TelemetryType::Control);
                lemma_count_type_le(pre, TelemetryType::Setpoint);
                lemma_count_enabled_le(pre);
            }
            s.total_points = s.total_points + 1;
            match c.telemetry_type {
                TelemetryType::Telemetry => s.telemetry_points = s.telemetry_points + 1,
                TelemetryType::Signaling => s.signaling_points = s.signaling_points + 1,
                TelemetryType::Control => s.control_points = s.control_points + 1,
                TelemetryType::Setpoint => s.setpoint_points = s.setpoint_points + 1,
            }
            if c.enabled {
                s.enabled_points = s.enabled_points + 1;
            } else {
                s.disabled_points = s.disabled_points + 1;
            }
            i = i + 1;
        }
        proof {
            assert(self.points@.subrange(0, n as int) == self.points@);
            lemma_group_len(self, TelemetryType::Telemetry);
            lemma_group_len(self, TelemetryType::Signaling);
            lemma_group_len(self, TelemetryType::Control);
            lemma_group_len(self, TelemetryType::Setpoint);
            lemma_enabled_len(self);
        }
        s
    }
}

/// Takes the (single) occurrence of `v` out of `ids`.
fn remove_value(ids: &mut Vec<u32>, v: u32)
    requires
        no_dups(old(ids)@),
    ensures
        final(ids)@ == without(old(ids)@, v),
{
    let n = ids.len();
    let mut i: usize = 0;
    while i < n
        invariant
            n == ids@.len(),
            ids@ == old(ids)@,
            no_dups(ids@),
            i <= n,
            forall|j: int| 0 <= j < i ==> ids@[j] != v,
        decreases n - i,
    {
        if ids[i] == v {
            proof {
                lemma_remove_is_without(ids@, i as int);
            }
            ids.remove(i);
            return;
        }
        i = i + 1;
    }
    proof {
        crate::seq_util::lemma_without_absent(ids@, v);
    }
}

/// The number of configurations of type `t`.
pub open spec fn count_type(s: Seq<(u32, UniversalPointConfig)>, t: TelemetryType) -> nat
    decreases s.len(),
{
    if s.len() == 0 {
        0
    } else {
        count_type(s.drop_last(), t) + if s.last().1.telemetry_type == t {
            1nat
        } else {
            0nat
        }
    }
}

/// The number of enabled configurations.
pub open spec fn count_enabled(s: Seq<(u32, UniversalPointConfig)>) -> nat
    decreases s.len(),
{
    if s.len() == 0 {
        0
    } else {
        count_enabled(s.drop_last()) + if s.last().1.enabled {
            1nat
        } else {
            0nat
        }
    }
}

proof fn lemma_count_type_le(s: Seq<(u32, UniversalPointConfig)>, t: TelemetryType)
    ensures
        count_type(s, t) <= s.len(),
    decreases s.len(),
{
    if s.len() > 0 {
        lemma_count_type_le(s.drop_last(), t);
    }
}

proof fn lemma_count_enabled_le(s: Seq<(u32, UniversalPointConfig)>)
    ensures
        count_enabled(s) <= s.len(),
    decreases s.len(),
{
    if s.len() > 0 {
        lemma_count_enabled_le(s.drop_last());
    }
}

/// The points of type `t` in a list of distinct numbers, as a set of numbers.
pub open spec fn numbers_of_type(s: Seq<(u32, UniversalPointConfig)>, t: TelemetryType) -> Set<u32> {
    Set::new(|k: u32| exists|i: int| 0 <= i < s.len() && #[trigger] s[i].0 == k && s[i].1.telemetry_type == t)
}

proof fn lemma_count_type_set(s: Seq<(u32, UniversalPointConfig)>, t: TelemetryType)
    requires
        indices_distinct(s),
    ensures
        numbers_of_type(s, t).finite(),
        numbers_of_type(s, t).len() == count_type(s, t),
    decreases s.len(),
{
    if s.len() == 0 {
        assert(numbers_of_type(s, t) =~= Set::empty());
    } else {
        let p = s.drop_last();
        assert(indices_distinct(p)) by {
            assert forall|i: int, j: int| 0 <= i < p.len() && 0 <= j < p.len() && i != j implies #[trigger] p[i].0
                != #[trigger] p[j].0 by {
                assert(p[i] == s[i]);
                assert(p[j] == s[j]);
            }
        }
        lemma_count_type_set(p, t);
        let last = s.last();
        assert(!numbers_of_type(p, t).contains(last.0)) by {
            if numbers_of_type(p, t).contains(last.0) {
                let i = choose|i: int| 0 <= i < p.len() && #[trigger] p[i].0 == last.0 && p[i].1.telemetry_type == t;
                assert(s[i] == p[i]);
                assert(s[s.len() - 1] == last);
            }
        }
        if last.1.telemetry_type == t {
            assert(numbers_of_type(s, t) =~= numbers_of_type(p, t).insert(last.0)) by {
                assert forall|k: u32| numbers_of_type(s, t).contains(k) implies numbers_of_type(p, t).insert(last.0).contains(k) by {
                    let i = choose|i: int| 0 <= i < s.len() && #[trigger] s[i].0 == k && s[i].1.telemetry_type == t;
                    if i < p.len() {
                        assert(p[i] == s[i]);
                    }
                }
                assert forall|k: u32| numbers_of_type(p, t).insert(last.0).contains(k) implies numbers_of_type(s, t).contains(k) by {
                    if k == last.0 {
                        assert(s[s.len() - 1] == last);
                    } else {
                        let i = choose|i: int| 0 <= i < p.len() && #[trigger] p[i].0 == k && p[i].1.telemetry_type == t;
                        assert(s[i] == p[i]);
                    }
                }
            }
        } else {
            assert(numbers_of_type(s, t) =~= numbers_of_type(p, t)) by {
                assert forall|k: u32| numbers_of_type(s, t).contains(k) implies numbers_of_type(p, t).contains(k) by {
                    let i = choose|i: int| 0 <= i < s.len() && #[trigger] s[i].0 == k && s[i].1.telemetry_type == t;
                    if i < p.len() {
                        assert(p[i] == s[i]);
                    } else {
                        assert(s[i] == last);
                    }
                }
                assert forall|k: u32| numbers_of_type(p, t).contains(k) implies numbers_of_type(s, t).contains(k) by {
                    let i = choose|i: int| 0 <= i < p.len() && #[trigger] p[i].0 == k && p[i].1.telemetry_type == t;
                    assert(s[i] == p[i]);
                }
            }
        }
    }
}

/// The length of a type's list equals the number of points of that type.
proof fn lemma_group_len(m: &UniversalPointManager, t: TelemetryType)
    requires
        m.wf(),
    ensures
        m.group(t).len() == count_type(m.points@, t),
{
    lemma_count_type_set(m.points@, t);
    let g = m.group(t);
    assert(g.to_set() =~= numbers_of_type(m.points@, t)) by {
        assert forall|k: u32| g.to_set().contains(k) <==> numbers_of_type(m.points@, t).contains(k) by {
            lemma_map_of_configs(m.points@, k);
            assert(g.to_set().contains(k) <==> g.contains(k));
            if numbers_of_type(m.points@, t).contains(k) {
                let i = choose|i: int| 0 <= i < m.points@.len() && #[trigger] m.points@[i].0 == k && m.points@[i].1.telemetry_type == t;
                assert(m@.contains_key(k));
            }
            if g.contains(k) {
                let i = choose|i: int| 0 <= i < m.points@.len() && #[trigger] m.points@[i].0 == k;
                assert(m.points@[i].1.telemetry_type == t);
            }
        }
    }
    assert(g.no_duplicates());
    g.unique_seq_to_set();
}

/// The numbers of the enabled points of a table.
pub open spec fn enabled_numbers(m: Map<u32, UniversalPointConfig>) -> Set<u32> {
    Set::new(|k: u32| m.contains_key(k) && m[k].enabled)
}

/// The enabled points in a list of distinct numbers, as a set of numbers.
pub open spec fn enabled_in(s: Seq<(u32, UniversalPointConfig)>) -> Set<u32> {
    Set::new(|k: u32| exists|i: int| 0 <= i < s.len() && #[trigger] s[i].0 == k && s[i].1.enabled)
}

proof fn lemma_count_enabled_set(s: Seq<(u32, UniversalPointConfig)>)
    requires
        indices_distinct(s),
    ensures
        enabled_in(s).finite(),
        enabled_in(s).len() == count_enabled(s),
    decreases s.len(),
{
    if s.len() == 0 {
        assert(enabled_in(s) =~= Set::empty());
    } else {
        let p = s.drop_last();
        assert(indices_distinct(p)) by {
            assert forall|i: int, j: int| 0 <= i < p.len() && 0 <= j < p.len() && i != j implies #[trigger] p[i].0
                != #[trigger] p[j].0 by {
                assert(p[i] == s[i]);
                assert(p[j] == s[j]);
            }
        }
        lemma_count_enabled_set(p);
        let last = s.last();
        assert(!enabled_in(p).contains(last.0)) by {
            if enabled_in(p).contains(last.0) {
                let i = choose|i: int| 0 <= i < p.len() && #[trigger] p[i].0 == last.0 && p[i].1.enabled;
                assert(s[i] == p[i]);
                assert(s[s.len() - 1] == last);
            }
        }
        if last.1.enabled {
            assert(enabled_in(s) =~= enabled_in(p).insert(last.0)) by {
                assert forall|k: u32| enabled_in(s).contains(k) implies enabled_in(p).insert(last.0).contains(k) by {
                    let i = choose|i: int| 0 <= i < s.len() && #[trigger] s[i].0 == k && s[i].1.enabled;
                    if i < p.len() {
                        assert(p[i] == s[i]);
                    }
                }
                assert forall|k: u32| enabled_in(p).insert(last.0).contains(k) implies enabled_in(s).contains(k) by {
                    if k == last.0 {
                        assert(s[s.len() - 1] == last);
                    } else {
                        let i = choose|i: int| 0 <= i < p.len() && #[trigger] p[i].0 == k && p[i].1.enabled;
                        assert(s[i] == p[i]);
                    }
                }
            }
        } else {
            assert(enabled_in(s) =~= enabled_in(p)) by {
                assert forall|k: u32| enabled_in(s).contains(k) implies enabled_in(p).contains(k) by {
                    let i = choose|i: int| 0 <= i < s.len() && #[trigger] s[i].0 == k && s[i].1.enabled;
                    if i < p.len() {
                        assert(p[i] == s[i]);
                    } else {
                        assert(s[i] == last);
                    }
                }
                assert forall|k: u32| enabled_in(p).contains(k) implies enabled_in(s).contains(k) by {
                    let i = choose|i: int| 0 <= i < p.len() && #[trigger] p[i].0 == k && p[i].1.enabled;
                    assert(s[i] == p[i]);
                }
            }
        }
    }
}

/// The number of enabled points of a table equals the count over its entries.
proof fn lemma_enabled_len(m: &UniversalPointManager)
    requires
        m.wf(),
    ensures
        enabled_numbers(m@).len() == count_enabled(m.points@),
{
    lemma_count_enabled_set(m.points@);
    assert(enabled_numbers(m@) =~= enabled_in(m.points@)) by {
        assert forall|k: u32| enabled_numbers(m@).contains(k) <==> enabled_in(m.points@).contains(k) by {
            lemma_map_of_configs(m.points@, k);
            if enabled_in(m.points@).contains(k) {
                let i = choose|i: int| 0 <= i < m.points@.len() && #[trigger] m.points@[i].0 == k && m.points@[i].1.enabled;
                assert(m@.contains_key(k));
            }
            if enabled_numbers(m@).contains(k) {
                let i = choose|i: int| 0 <= i < m.points@.len() && #[trigger] m.points@[i].0 == k;
                assert(m.points@[i].1.enabled);
            }
        }
    }
}

/// Removing a point that was just added gives back the table's map and type lists.
pub proof fn lemma_remove_undoes_add(
    m: Map<u32, UniversalPointConfig>,
    group: Seq<u32>,
    c: UniversalPointConfig,
)
    requires
        !m.contains_key(c.point_index),
        !group.contains(c.point_index),
    ensures
        m.insert(c.point_index, c).remove(c.point_index) == m,
        without(group.push(c.point_index), c.point_index) == group,
{
    assert(m.insert(c.point_index, c).remove(c.point_index) =~= m);
    crate::seq_util::lemma_without_push(group, c.point_index);
}

} // verus!
