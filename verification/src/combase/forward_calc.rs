//! Forward calculations: derived points computed from source points. This module
//! holds the operations, the configuration of a calculation and the rule it must
//! satisfy, the engine that keeps a channel's calculations and source values and
//! picks the values a calculation takes, and the manager of the channels' engines.
//! Values are carried as the bits of `f64`s; the arithmetic on them is done outside
//! the library.

use vstd::prelude::*;
use crate::combase::telemetry::TelemetryType;
use crate::error::{ComSrvError, text_str_text};
use crate::keyed::{find_keyed, keyed_map, keyed_views, keys_distinct, keys_of, lemma_keyed_map, lemma_keyed_map_set, put_keyed};
use crate::text::string_of;

verus! {

/// Calculation operation types.
#[derive(Debug, Clone, Copy, PartialEq, Eq, Structural)]
pub enum CalculationOperation {
    /// First value plus second value
    Add,
    /// First value minus second value
    Subtract,
    /// First value times second value
    Multiply,
    /// First value divided by second value
    Divide,
    /// Mean of all values
    Average,
    /// Sum of all values
    Sum,
}

/// Source point configuration. The factors and values are the bits of `f64`s.
#[derive(Debug, Clone)]
pub struct SourcePointConfig {
    /// The source point's id.
    pub point_id: String,
    /// The name the value has in the calculation.
    pub variable_name: String,
    /// Factor applied to the raw value, if any.
    pub scale_factor_bits: Option<u64>,
    /// Offset added after scaling, if any.
    pub offset_bits: Option<u64>,
    /// Whether the calculation needs this value.
    pub required: bool,
    /// Value taken when a required source has none, if any.
    pub default_value_bits: Option<u64>,
}

impl SourcePointConfig {
    /// A required source without scaling, offset or default.
    pub fn new(point_id: &str, variable_name: &str) -> (r: Self)
        ensures
            r.point_id@ == point_id@,
            r.variable_name@ == variable_name@,
            r.scale_factor_bits is None,
            r.offset_bits is None,
            r.required,
            r.default_value_bits is None,
    {
        SourcePointConfig {
            point_id: string_of(point_id),
            variable_name: string_of(variable_name),
            scale_factor_bits: None,
            offset_bits: None,
            required: true,
            default_value_bits: None,
        }
    }
}

/// Target point configuration.
#[derive(Debug, Clone)]
pub struct TargetPointConfig {
    /// The target point's id.
    pub point_id: String,
    /// The target point's name.
    pub name: String,
    /// The target point's telemetry type.
    pub telemetry_type: TelemetryType,
    /// The target point's unit, if any.
    pub unit: Option<String>,
}

impl TargetPointConfig {
    /// A target point without a unit.
    pub fn new(point_id: &str, name: &str, telemetry_type: TelemetryType) -> (r: Self)
        ensures
            r.point_id@ == point_id@,
            r.name@ == name@,
            r.telemetry_type == telemetry_type,
            r.unit is None,
    {
        TargetPointConfig { point_id: string_of(point_id), name: string_of(name), telemetry_type, unit: None }
    }
}

/// What checking a calculation's configuration gives: an error message for an
/// empty id, then for an empty list of source points; otherwise success.
pub open spec fn calculation_check(id: Seq<char>, source_count: nat) -> Result<(), Seq<char>> {
    if id.len() == 0 {
        Err("Calculation ID cannot be empty"@)
    } else if source_count == 0 {
        Err("At least one source point is required"@)
    } else {
        Ok(())
    }
}

/// Checks a calculation's id and the number of its source points.
pub fn validate_calculation(id: &str, source_count: usize) -> (r: Result<(), ComSrvError>)
    ensures
        match calculation_check(id@, source_count as nat) {
            Ok(()) => r is Ok,
            Err(m) => r matches Err(ComSrvError::InvalidParameter(e)) && e@ == m,
        },
{
    if id.unicode_len() == 0 {
        return Err(ComSrvError::InvalidParameter(string_of("Calculation ID cannot be empty")));
    }
    if source_count == 0 {
        return Err(ComSrvError::InvalidParameter(string_of("At least one source point is required")));
    }
    Ok(())
}

/// Forward calculation configuration.
#[derive(Debug, Clone)]
pub struct ForwardCalculationConfig {
    /// Calculation id.
    pub id: String,
    /// Calculation name.
    pub name: String,
    /// Source points, in operand order.
    pub source_points: Vec<SourcePointConfig>,
    /// Where the result goes.
    pub target_point: TargetPointConfig,
    /// The operation.
    pub operation: CalculationOperation,
    /// Whether the calculation runs.
    pub enabled: bool,
    /// Priority.
    pub priority: i32,
}

/// What checking a configuration gives.
pub open spec fn config_check(c: ForwardCalculationConfig) -> Result<(), Seq<char>> {
    calculation_check(c.id@, c.source_points@.len())
}

impl ForwardCalculationConfig {
    /// An enabled calculation with priority 0.
    pub fn new(
        id: &str,
        name: &str,
        source_points: Vec<SourcePointConfig>,
        target_point: TargetPointConfig,
        operation: CalculationOperation,
    ) -> (r: Self)
        ensures
            r.id@ == id@,
            r.name@ == name@,
            r.source_points == source_points,
            r.target_point == target_point,
            r.operation == operation,
            r.enabled,
            r.priority == 0,
    {
        ForwardCalculationConfig {
            id: string_of(id),
            name: string_of(name),
            source_points,
            target_point,
            operation,
            enabled: true,
            priority: 0,
        }
    }

    /// Checks the id and that there is at least one source point.
    pub fn validate(&self) -> (r: Result<(), ComSrvError>)
        ensures
            match config_check(*self) {
                Ok(()) => r is Ok,
                Err(m) => r matches Err(ComSrvError::InvalidParameter(e)) && e@ == m,
            },
    {
        validate_calculation(self.id.as_str(), self.source_points.len())
    }
}

/// The number of source values an operation needs: two for the binary operations,
/// none for the aggregates.
pub open spec fn operands_needed(op: CalculationOperation) -> nat {
    match op {
        CalculationOperation::Add | CalculationOperation::Subtract | CalculationOperation::Multiply
        | CalculationOperation::Divide => 2,
        CalculationOperation::Average | CalculationOperation::Sum => 0,
    }
}

/// The message for an operation given too few values.
pub open spec fn too_few_operands_text(op: CalculationOperation) -> Seq<char> {
    match op {
        CalculationOperation::Add => "Add operation requires at least 2 values"@,
        CalculationOperation::Subtract => "Subtract operation requires at least 2 values"@,
        CalculationOperation::Multiply => "Multiply operation requires at least 2 values"@,
        CalculationOperation::Divide => "Divide operation requires at least 2 values"@,
        _ => Seq::empty(),
    }
}

/// Checks that an operation has enough source values: the binary operations need
/// at least two, the aggregates any number.
pub fn check_operands(op: CalculationOperation, value_count: usize) -> (r: Result<(), ComSrvError>)
    ensures
        value_count >= operands_needed(op) ==> r is Ok,
        value_count < operands_needed(op) ==> (r matches Err(ComSrvError::InvalidOperation(e)) && e@
            == too_few_operands_text(op)),
{
    if value_count >= 2 {
        return Ok(());
    }
    match op {
        CalculationOperation::Add => Err(ComSrvError::InvalidOperation(string_of("Add operation requires at least 2 values"))),
        CalculationOperation::Subtract => Err(
            ComSrvError::InvalidOperation(string_of("Subtract operation requires at least 2 values")),
        ),
        CalculationOperation::Multiply => Err(
            ComSrvError::InvalidOperation(string_of("Multiply operation requires at least 2 values")),
        ),
        CalculationOperation::Divide => Err(
            ComSrvError::InvalidOperation(string_of("Divide operation requires at least 2 values")),
        ),
        CalculationOperation::Average | CalculationOperation::Sum => Ok(()),
    }
}


/// A value a calculation takes from one of its sources, as the bits of `f64`s.
#[derive(Debug, Clone, Copy, PartialEq, Eq, Structural)]
pub enum SourceValue {
    /// The source point's current value, with the source's scale factor and offset,
    /// which are applied to it.
    Measured { raw_bits: u64, scale_factor_bits: Option<u64>, offset_bits: Option<u64> },
    /// The default of a required source whose point has no value.
    Default { value_bits: u64 },
}

/// The values that a calculation's sources give, in order, against the current
/// point values: a source whose point has a value gives it with its scaling; a
/// required one without gives its default; an optional one without gives nothing.
/// A required source with neither makes the whole an error naming its point.
pub open spec fn gathered(sources: Seq<SourcePointConfig>, values: Map<Seq<char>, u64>) -> Result<
    Seq<SourceValue>,
    Seq<char>,
>
    decreases sources.len(),
{
    if sources.len() == 0 {
        Ok(Seq::empty())
    } else {
        match gathered(sources.drop_last(), values) {
            Err(p) => Err(p),
            Ok(vs) => {
                let src = sources.last();
                if values.contains_key(src.point_id@) {
                    Ok(
                        vs.push(
                            SourceValue::Measured {
                                raw_bits: values[src.point_id@],
                                scale_factor_bits: src.scale_factor_bits,
                                offset_bits: src.offset_bits,
                            },
                        ),
                    )
                } else if src.required {
                    match src.default_value_bits {
                        Some(d) => Ok(vs.push(SourceValue::Default { value_bits: d })),
                        None => Err(src.point_id@),
                    }
                } else {
                    Ok(vs)
                }
            }
        }
    }
}

/// Once a prefix of the sources fails, the whole fails the same way.
pub proof fn lemma_gathered_error_stays(s: Seq<SourcePointConfig>, values: Map<Seq<char>, u64>, k: int)
    requires
        0 <= k <= s.len(),
        gathered(s.subrange(0, k), values) is Err,
    ensures
        gathered(s, values) == gathered(s.subrange(0, k), values),
    decreases s.len() - k,
{
    if k < s.len() {
        let next = s.subrange(0, k + 1);
        assert(next.drop_last() =~= s.subrange(0, k));
        lemma_gathered_error_stays(s, values, k + 1);
    } else {
        assert(s.subrange(0, k) =~= s);
    }
}

/// The configurations by id: a later one with an id replaces an earlier one.
pub open spec fn calculations_by_id(s: Seq<ForwardCalculationConfig>) -> Map<Seq<char>, ForwardCalculationConfig>
    decreases s.len(),
{
    if s.len() == 0 {
        Map::empty()
    } else {
        calculations_by_id(s.drop_last()).insert(s.last().id@, s.last())
    }
}

/// Loading stopped at position `k` with error `e`: the configurations before it
/// pass their check, and its own check fails with the message that `e` carries.
pub open spec fn load_stopped_at(s: Seq<ForwardCalculationConfig>, k: int, e: ComSrvError) -> bool {
    &&& 0 <= k < s.len()
    &&& forall|j: int| 0 <= j < k ==> #[trigger] config_check(s[j]) is Ok
    &&& config_check(s[k]) matches Err(m) && (e matches ComSrvError::InvalidParameter(t) && t@ == m)
}

/// The engine of one channel: its calculations by id and the current values of
/// its points, as the bits of `f64`s.
#[derive(Debug, Clone)]
pub struct ForwardCalculationEngine {
    calculations: Vec<(String, ForwardCalculationConfig)>,
    point_values: Vec<(String, u64)>,
    channel_id: String,
}

impl ForwardCalculationEngine {
    /// The calculations, by id.
    pub closed spec fn calculations(&self) -> Map<Seq<char>, ForwardCalculationConfig> {
        keyed_map(keyed_views(self.calculations@))
    }

    /// The current point values, by point id.
    pub closed spec fn values(&self) -> Map<Seq<char>, u64> {
        keyed_map(keyed_views(self.point_values@))
    }

    /// The channel.
    pub closed spec fn channel(&self) -> Seq<char> {
        self.channel_id@
    }

    /// Each calculation id and each point id is kept once.
    pub closed spec fn wf(&self) -> bool {
        &&& keys_distinct(keyed_views(self.calculations@))
        &&& keys_distinct(keyed_views(self.point_values@))
    }

    /// Whether this is the engine a channel starts with: no calculations and no values.
    pub open spec fn is_empty_for(&self, channel: Seq<char>) -> bool {
        &&& self.wf()
        &&& self.calculations() == Map::<Seq<char>, ForwardCalculationConfig>::empty()
        &&& self.values() == Map::<Seq<char>, u64>::empty()
        &&& self.channel() == channel
    }

    /// An engine for a channel, without calculations or values.
    pub fn new(channel_id: String) -> (e: Self)
        ensures
            e.is_empty_for(channel_id@),
    {
        let e = ForwardCalculationEngine { calculations: Vec::new(), point_values: Vec::new(), channel_id };
        assert(keyed_views(e.calculations@) =~= Seq::<(Seq<char>, ForwardCalculationConfig)>::empty());
        assert(keyed_views(e.point_values@) =~= Seq::<(Seq<char>, u64)>::empty());
        e
    }

    /// Replaces the calculations by the given ones, checking each in turn. On the
    /// first invalid one the load stops with its error, keeping those before it.
    pub fn load_calculations(&mut self, configs: Vec<ForwardCalculationConfig>) -> (r: Result<(), ComSrvError>)
        requires
            old(self).wf(),
        ensures
            final(self).wf(),
            final(self).values() == old(self).values(),
            final(self).channel() == old(self).channel(),
            match r {
                Ok(()) => {
                    &&& forall|i: int| 0 <= i < configs@.len() ==> #[trigger] config_check(configs@[i]) is Ok
                    &&& final(self).calculations() == calculations_by_id(configs@)
                },
                Err(e) => exists|k: int|
                    #[trigger] load_stopped_at(configs@, k, e) && final(self).calculations() == calculations_by_id(
                        configs@.subrange(0, k),
                    ),
            },
    {
        self.calculations = Vec::new();
        let ghost all = configs@;
        let n = configs.len();
        let mut rest = configs;
        let mut i: usize = 0;
        proof {
            assert(keyed_views(self.calculations@) =~= Seq::<(Seq<char>, ForwardCalculationConfig)>::empty());
            assert(all.subrange(0, 0) =~= Seq::<ForwardCalculationConfig>::empty());
            assert(rest@ =~= all.subrange(0, n as int));
        }
        while i < n
            invariant
                n == all.len(),
                configs@ == all,
                i <= n,
                rest@ == all.subrange(i as int, n as int),
                keys_distinct(keyed_views(self.calculations@)),
                keys_distinct(keyed_views(self.point_values@)),
                self.point_values == old(self).point_values,
                self.channel_id == old(self).channel_id,
                forall|j: int| 0 <= j < i ==> #[trigger] config_check(all[j]) is Ok,
                self.calculations() == calculations_by_id(all.subrange(0, i as int)),
            decreases n - i,
        {
            let ghost pre = all.subrange(0, i as int);
            let ghost cur = all.subrange(0, i + 1);
            assert(cur.drop_last() == pre);
            assert(cur.last() == all[i as int]);
            let config = rest.remove(0);
            assert(config == all[i as int]);
            assert(rest@ =~= all.subrange(i + 1, n as int));
            match config.validate() {
                Ok(()) => {},
                Err(e) => {
                    proof {
                        let k = i as int;
                        assert(load_stopped_at(all, k, e) && self.calculations() == calculations_by_id(
                            all.subrange(0, k),
                        ));
                    }
                    return Err(e);
                },
            }
            let key = config.id.clone();
            put_keyed(&mut self.calculations, key, config);
            i = i + 1;
        }
        assert(all.subrange(0, n as int) =~= all);
        Ok(())
    }

    /// Sets the current value of a point.
    pub fn update_point_value(&mut self, point_id: &str, value_bits: u64)
        requires
            old(self).wf(),
        ensures
            final(self).wf(),
            final(self).values() == old(self).values().insert(point_id@, value_bits),
            final(self).calculations() == old(self).calculations(),
            final(self).channel() == old(self).channel(),
    {
        put_keyed(&mut self.point_values, string_of(point_id), value_bits);
    }

    /// The configuration of a calculation.
    pub fn get_calculation_config(&self, calc_id: &str) -> (r: Option<&ForwardCalculationConfig>)
        requires
            self.wf(),
        ensures
            match r {
                Some(c) => self.calculations().contains_key(calc_id@) && *c == self.calculations()[calc_id@],
                None => !self.calculations().contains_key(calc_id@),
            },
    {
        proof {
            lemma_keyed_map(keyed_views(self.calculations@), calc_id@);
        }
        match find_keyed(&self.calculations, calc_id) {
            Some(p) => {
                assert(keyed_views(self.calculations@)[p as int].1 == self.calculations@[p as int].1);
                Some(&self.calculations[p].1)
            },
            None => None,
        }
    }

    /// The values that `sources` give against the current point values.
    fn gather(&self, sources: &Vec<SourcePointConfig>) -> (r: Result<Vec<SourceValue>, ComSrvError>)
        requires
            self.wf(),
        ensures
            match gathered(sources@, self.values()) {
                Ok(vs) => r matches Ok(v) && v@ == vs,
                Err(p) => r matches Err(ComSrvError::PointNotFound(m)) && m@ == "Required source point "@ + p
                    + " not available"@,
            },
    {
        let ghost all = sources@;
        let n = sources.len();
        let mut out: Vec<SourceValue> = Vec::new();
        let mut i: usize = 0;
        assert(all.subrange(0, 0) =~= Seq::<SourcePointConfig>::empty());
        while i < n
            invariant
                n == all.len(),
                sources@ == all,
                i <= n,
                self.wf(),
                gathered(all.subrange(0, i as int), self.values()) == Ok::<Seq<SourceValue>, Seq<char>>(out@),
            decreases n - i,
        {
            let ghost pre = all.subrange(0, i as int);
            let ghost cur = all.subrange(0, i + 1);
            assert(cur.drop_last() == pre);
            assert(cur.last() == all[i as int]);
            let src = &sources[i];
            proof {
                lemma_keyed_map(keyed_views(self.point_values@), src.point_id@);
            }
            match find_keyed(&self.point_values, src.point_id.as_str()) {
                Some(p) => {
                    assert(keyed_views(self.point_values@)[p as int].1 == self.point_values@[p as int].1);
                    out.push(
                        SourceValue::Measured {
                            raw_bits: self.point_values[p].1,
                            scale_factor_bits: src.scale_factor_bits,
                            offset_bits: src.offset_bits,
                        },
                    );
                },
                None => {
                    if src.required {
                        match src.default_value_bits {
                            Some(d) => out.push(SourceValue::Default { value_bits: d }),
                            None => {
                                proof {
                                    lemma_gathered_error_stays(all, self.values(), i + 1);
                                }
                                let m = text_str_text("Required source point ", src.point_id.as_str(), " not available");
                                return Err(ComSrvError::PointNotFound(m));
                            },
                        }
                    }
                },
            }
            i = i + 1;
        }
        assert(all.subrange(0, n as int) =~= all);
        Ok(out)
    }

    /// What a calculation takes: its operation and the values of its sources, or
    /// nothing for a disabled calculation. An unknown calculation, a required source
    /// with neither value nor default, and too few values for the operation are
    /// errors. The arithmetic itself is left to the caller.
    pub fn calculation_inputs(&self, calc_id: &str) -> (r: Result<Option<(CalculationOperation, Vec<SourceValue>)>, ComSrvError>)
        requires
            self.wf(),
        ensures
            !self.calculations().contains_key(calc_id@) ==> (r matches Err(ComSrvError::NotFound(m)) && m@
                == "Calculation not found: "@ + calc_id@),
            self.calculations().contains_key(calc_id@) ==> {
                let c = self.calculations()[calc_id@];
                if !c.enabled {
                    r matches Ok(None)
                } else {
                    match gathered(c.source_points@, self.values()) {
                        Err(p) => r matches Err(ComSrvError::PointNotFound(m)) && m@ == "Required source point "@ + p
                            + " not available"@,
                        Ok(vs) => if vs.len() < operands_needed(c.operation) {
                            r matches Err(ComSrvError::InvalidOperation(m)) && m@ == too_few_operands_text(c.operation)
                        } else {
                            r matches Ok(Some((op, v))) && op == c.operation && v@ == vs
                        },
                    }
                }
            },
    {
        let config = match self.get_calculation_config(calc_id) {
            Some(c) => c,
            None => {
                let m = text_str_text("Calculation not found: ", calc_id, "");
                proof {
                    reveal_strlit("");
                    assert(m@ =~= "Calculation not found: "@ + calc_id@);
                }
                return Err(ComSrvError::NotFound(m));
            },
        };
        if !config.enabled {
            return Ok(None);
        }
        let values = match self.gather(&config.source_points) {
            Ok(v) => v,
            Err(e) => return Err(e),
        };
        match check_operands(config.operation, values.len()) {
            Ok(()) => Ok(Some((config.operation, values))),
            Err(e) => Err(e),
        }
    }

    /// The channel.
    pub fn channel_id(&self) -> (r: &str)
        ensures
            r@ == self.channel(),
    {
        self.channel_id.as_str()
    }

    /// The ids of the calculations, each once.
    pub fn calculation_ids(&self) -> (r: Vec<String>)
        requires
            self.wf(),
        ensures
            forall|i: int, j: int| 0 <= i < r@.len() && 0 <= j < r@.len() && i != j ==> #[trigger] r@[i]@ != #[trigger] r@[j]@,
            forall|i: int| 0 <= i < r@.len() ==> self.calculations().contains_key(#[trigger] r@[i]@),
            forall|k: Seq<char>| #[trigger] self.calculations().contains_key(k) ==> exists|i: int| 0 <= i < r@.len() && #[trigger] r@[i]@ == k,
    {
        keys_of(&self.calculations)
    }
}

/// The calculation engines of the channels, one per channel.
#[derive(Debug, Clone)]
pub struct ForwardCalculationManager {
    engines: Vec<(String, ForwardCalculationEngine)>,
}

impl ForwardCalculationManager {
    /// The engines, by channel.
    pub closed spec fn engines(&self) -> Map<Seq<char>, ForwardCalculationEngine> {
        keyed_map(keyed_views(self.engines@))
    }

    /// Each channel has one engine.
    pub closed spec fn wf(&self) -> bool {
        keys_distinct(keyed_views(self.engines@))
    }

    /// Every engine is well formed.
    pub open spec fn engines_wf(&self) -> bool {
        forall|k: Seq<char>| #[trigger] self.engines().contains_key(k) ==> self.engines()[k].wf()
    }

    /// A manager without engines.
    pub fn new() -> (m: Self)
        ensures
            m.wf(),
            m.engines() == Map::<Seq<char>, ForwardCalculationEngine>::empty(),
    {
        let m = ForwardCalculationManager { engines: Vec::new() };
        assert(keyed_views(m.engines@) =~= Seq::<(Seq<char>, ForwardCalculationEngine)>::empty());
        m
    }

    /// The engine of a channel, made for it, empty, if it had none. What is done
    /// through the reference is kept by the manager.
    pub fn get_engine(&mut self, channel_id: &str) -> (r: &mut ForwardCalculationEngine)
        requires
            old(self).wf(),
        ensures
            final(self).wf(),
            old(self).engines().contains_key(channel_id@) ==> *r == old(self).engines()[channel_id@],
            !old(self).engines().contains_key(channel_id@) ==> r.is_empty_for(channel_id@),
            old(self).engines_wf() ==> r.wf(),
            final(self).engines() == old(self).engines().insert(channel_id@, *final(r)),
    {
        let ghost before = keyed_views(self.engines@);
        proof {
            lemma_keyed_map(before, channel_id@);
        }
        let p: usize = match find_keyed(&self.engines, channel_id) {
            Some(p) => p,
            None => {
                let e = ForwardCalculationEngine::new(string_of(channel_id));
                self.engines.push((string_of(channel_id), e));
                proof {
                    let after = keyed_views(self.engines@);
                    assert(after =~= before.push((channel_id@, e)));
                    assert(after.drop_last() == before);
                    assert(keys_distinct(after)) by {
                        assert forall|a: int, b: int| 0 <= a < after.len() && 0 <= b < after.len() && a != b implies #[trigger] after[a].0
                            != #[trigger] after[b].0 by {
                            if a < before.len() {
                                assert(after[a] == before[a]);
                            }
                            if b < before.len() {
                                assert(after[b] == before[b]);
                            }
                        }
                    }
                }
                self.engines.len() - 1
            },
        };
        let ghost mid = keyed_views(self.engines@);
        let ghost entries = self.engines@;
        proof {
            lemma_keyed_map(mid, channel_id@);
        }
        let r = &mut self.engines[p].1;
        proof {
            lemma_keyed_map_set(mid, p as int, *final(r));
            assert(keyed_views(entries.update(p as int, (entries[p as int].0, *final(r)))) =~= mid.update(
                p as int,
                (mid[p as int].0, *final(r)),
            ));
        }
        r
    }

    /// The channels that have an engine, each once.
    pub fn get_active_channels(&self) -> (r: Vec<String>)
        requires
            self.wf(),
        ensures
            forall|i: int, j: int| 0 <= i < r@.len() && 0 <= j < r@.len() && i != j ==> #[trigger] r@[i]@ != #[trigger] r@[j]@,
            forall|i: int| 0 <= i < r@.len() ==> self.engines().contains_key(#[trigger] r@[i]@),
            forall|k: Seq<char>| #[trigger] self.engines().contains_key(k) ==> exists|i: int| 0 <= i < r@.len() && #[trigger] r@[i]@ == k,
    {
        keys_of(&self.engines)
    }
}

impl Default for ForwardCalculationManager {
    fn default() -> (m: Self)
        ensures
            m.wf(),
            m.engines() == Map::<Seq<char>, ForwardCalculationEngine>::empty(),
    {
        Self::new()
    }
}

} // verus!
