//! Forward calculation configurations: which expression computes a target point
//! from which source points, the checks a configuration must pass, the registry of
//! configurations by identifier, and how source data is matched to the variables.
//! The expressions themselves compute with floating point and are evaluated outside
//! the library.

use vstd::prelude::*;
use crate::combase::stats::current_time;
use crate::combase::{CalculationStatus, TelemetryPointId, TelemetryType, english_name_of};
use crate::error::{ComSrvError, push_str};
use crate::keyed::{find_keyed, keyed_map, keyed_views, keys_distinct, lemma_keyed_map, lemma_keyed_map_len, put_keyed, remove_keyed};
use crate::text::{decimal_of, str_eq, string_of};
use std::time::SystemTime;

verus! {

/// Whether `c` is whitespace as Unicode's `White_Space` property defines it: tab,
/// line feed, vertical tab, form feed, carriage return, space, next line, no-break
/// space, ogham space mark, the spaces U+2000 to U+200A, line separator, paragraph
/// separator, narrow no-break space, medium mathematical space and ideographic space.
pub open spec fn is_white_space(c: char) -> bool {
    let u = c as u32;
    ||| 0x9 <= u <= 0xd
    ||| u == 0x20
    ||| u == 0x85
    ||| u == 0xa0
    ||| u == 0x1680
    ||| 0x2000 <= u <= 0x200a
    ||| u == 0x2028
    ||| u == 0x2029
    ||| u == 0x202f
    ||| u == 0x205f
    ||| u == 0x3000
}

/// `s` without its leading whitespace.
pub open spec fn trim_start_of(s: Seq<char>) -> Seq<char>
    decreases s.len(),
{
    if s.len() > 0 && is_white_space(s[0]) {
        trim_start_of(s.drop_first())
    } else {
        s
    }
}

/// `s` without its trailing whitespace.
pub open spec fn trim_end_of(s: Seq<char>) -> Seq<char>
    decreases s.len(),
{
    if s.len() > 0 && is_white_space(s.last()) {
        trim_end_of(s.drop_last())
    } else {
        s
    }
}

/// The text that `str::trim` leaves of `s`: without leading and trailing
/// whitespace.
pub open spec fn trimmed_of(s: Seq<char>) -> Seq<char> {
    trim_end_of(trim_start_of(s))
}

/// `s` without leading and trailing whitespace (`str::trim`, which removes the
/// characters of Unicode's `White_Space` property from both ends).
#[verifier::external_body]
pub(crate) fn trim_text(s: &str) -> (r: &str)
    ensures
        r@ == trimmed_of(s@),
{
    s.trim()
}

/// The pairs with each name once, the last pair of a name counting; names keep the
/// order of their first appearance.
pub fn last_per_name(pairs: Vec<(String, TelemetryPointId)>) -> (r: Vec<(String, TelemetryPointId)>)
    ensures
        keys_distinct(keyed_views(r@)),
        keyed_map(keyed_views(r@)) == keyed_map(keyed_views(pairs@)),
{
    let mut out: Vec<(String, TelemetryPointId)> = Vec::new();
    let n = pairs.len();
    let mut rest = pairs;
    let ghost all = keyed_views(rest@);
    let mut i: usize = 0;
    proof {
        assert(keyed_views(out@) =~= Seq::<(Seq<char>, TelemetryPointId)>::empty());
        assert(all.subrange(0, 0) =~= Seq::<(Seq<char>, TelemetryPointId)>::empty());
    }
    while i < n
        invariant
            n == all.len(),
            i <= n,
            keyed_views(rest@) == all.subrange(i as int, n as int),
            keys_distinct(keyed_views(out@)),
            keyed_map(keyed_views(out@)) == keyed_map(all.subrange(0, i as int)),
        decreases n - i,
    {
        let ghost rest_before = rest@;
        assert(keyed_views(rest@).len() == rest@.len());
        let (name, point) = rest.remove(0);
        assert(rest_before[0] == (name, point));
        assert(keyed_views(rest_before)[0] == (name@, point));
        assert(all[i as int] == (name@, point));
        assert(all.subrange(0, i + 1).drop_last() == all.subrange(0, i as int));
        put_keyed(&mut out, name, point);
        proof {
            assert forall|k: int| 0 <= k < rest@.len() implies #[trigger] keyed_views(rest@)[k] == all.subrange(
                i + 1,
                n as int,
            )[k] by {
                assert(rest@[k] == rest_before[k + 1]);
                assert(keyed_views(rest_before)[k + 1] == all.subrange(i as int, n as int)[k + 1]);
            }
            assert(keyed_views(rest@) =~= all.subrange(i + 1, n as int));
        }
        i = i + 1;
    }
    assert(all.subrange(0, n as int) =~= all);
    out
}

/// A forward calculation: the expression that computes a target point from
/// source points.
#[derive(Debug, Clone)]
pub struct ForwardCalculationConfig {
    /// Configuration identifier
    pub id: String,
    /// Calculation name
    pub name: String,
    /// Target point
    pub target_point: TelemetryPointId,
    /// Target point name, for display
    pub target_point_name: Option<String>,
    /// Calculation expression
    pub expression: String,
    /// Source points by variable name, each name once
    pub source_points: Vec<(String, TelemetryPointId)>,
    /// Execution interval in milliseconds
    pub execution_interval_ms: u64,
    /// Whether the calculation is enabled
    pub enabled: bool,
    /// Engineering unit
    pub unit: String,
    /// Description
    pub description: String,
    /// Creation time
    pub created_at: SystemTime,
    /// Update time
    pub updated_at: SystemTime,
    /// Earlier form: the target point number
    pub target_point_id: Option<u32>,
    /// Earlier form: the telemetry type of the result
    pub target_telemetry_type: Option<TelemetryType>,
    /// Earlier form: source point numbers by variable name
    pub legacy_source_points: Option<Vec<(String, u32)>>,
}

/// The source map of a configuration.
pub open spec fn source_map(c: ForwardCalculationConfig) -> Map<Seq<char>, TelemetryPointId> {
    keyed_map(keyed_views(c.source_points@))
}

/// Whether a configuration has the defaults a new one gets: one-second interval,
/// enabled, no unit or description, no target name.
pub open spec fn fresh_defaults(c: ForwardCalculationConfig) -> bool {
    &&& c.target_point_name is None
    &&& c.execution_interval_ms == 1000
    &&& c.enabled
    &&& c.unit@ == Seq::<char>::empty()
    &&& c.description@ == Seq::<char>::empty()
    &&& c.created_at == c.updated_at
    &&& c.legacy_source_points is None
    &&& keys_distinct(keyed_views(c.source_points@))
}

/// The telemetry measurement point with a number.
pub open spec fn measurement_point(n: u32) -> TelemetryPointId {
    TelemetryPointId { telemetry_type: TelemetryType::Telemetry, point_id: n }
}

/// Legacy source numbers as measurement points.
pub open spec fn legacy_views(s: Seq<(String, u32)>) -> Seq<(Seq<char>, TelemetryPointId)> {
    s.map_values(|p: (String, u32)| (p.0@, measurement_point(p.1)))
}

impl ForwardCalculationConfig {
    /// A new enabled configuration with a one-second interval; source pairs with a
    /// repeated name keep the last one.
    pub fn new(
        id: String,
        name: String,
        target_point: TelemetryPointId,
        expression: String,
        source_points: Vec<(String, TelemetryPointId)>,
    ) -> (c: Self)
        ensures
            c.id@ == id@,
            c.name@ == name@,
            c.target_point == target_point,
            c.expression@ == expression@,
            source_map(c) == keyed_map(keyed_views(source_points@)),
            fresh_defaults(c),
            c.target_point_id is None,
            c.target_telemetry_type is None,
    {
        let now = current_time();
        ForwardCalculationConfig {
            id,
            name,
            target_point,
            target_point_name: None,
            expression,
            source_points: last_per_name(source_points),
            execution_interval_ms: 1000,
            enabled: true,
            unit: String::new(),
            description: String::new(),
            created_at: now,
            updated_at: now,
            target_point_id: None,
            target_telemetry_type: None,
            legacy_source_points: None,
        }
    }

    /// A configuration from the earlier form, which named the target by number and
    /// type and its sources by measurement point number.
    pub fn from_legacy(
        id: String,
        name: String,
        target_point_id: u32,
        target_telemetry_type: TelemetryType,
        expression: String,
        legacy_source_points: Vec<(String, u32)>,
    ) -> (c: Self)
        ensures
            c.id@ == id@,
            c.name@ == name@,
            c.target_point == (TelemetryPointId { telemetry_type: target_telemetry_type, point_id: target_point_id }),
            c.expression@ == expression@,
            source_map(c) == keyed_map(legacy_views(legacy_source_points@)),
            fresh_defaults(c),
            c.target_point_id == Some(target_point_id),
            c.target_telemetry_type == Some(target_telemetry_type),
    {
        let mut pairs: Vec<(String, TelemetryPointId)> = Vec::new();
        let n = legacy_source_points.len();
        let mut i: usize = 0;
        while i < n
            invariant
                n == legacy_source_points@.len(),
                i <= n,
                keyed_views(pairs@) == legacy_views(legacy_source_points@).subrange(0, i as int),
            decreases n - i,
        {
            let ghost prev = pairs@;
            let entry = (legacy_source_points[i].0.clone(), TelemetryPointId {
                telemetry_type: TelemetryType::Telemetry,
                point_id: legacy_source_points[i].1,
            });
            pairs.push(entry);
            assert(keyed_views(pairs@) =~= keyed_views(prev).push((entry.0@, entry.1)));
            i = i + 1;
        }
        assert(legacy_views(legacy_source_points@).subrange(0, n as int) =~= legacy_views(legacy_source_points@));
        let mut c = ForwardCalculationConfig::new(
            id,
            name,
            TelemetryPointId { telemetry_type: target_telemetry_type, point_id: target_point_id },
            expression,
            pairs,
        );
        c.target_point_id = Some(target_point_id);
        c.target_telemetry_type = Some(target_telemetry_type);
        c
    }
}

/// The outcome of the checks of the basic engine before it tries the expression:
/// an expression that is not blank, some source point, a non-zero interval.
pub open spec fn basic_check_of(c: ForwardCalculationConfig) -> Result<(), Seq<char>> {
    if trimmed_of(c.expression@).len() == 0 {
        Err("Expression cannot be empty"@)
    } else if c.source_points@.len() == 0 {
        Err("Source points cannot be empty"@)
    } else if c.execution_interval_ms == 0 {
        Err("Execution interval must be greater than 0"@)
    } else {
        Ok(())
    }
}

/// The outcome of the checks of the enhanced engine before it tries the expression:
/// an identifier, an expression, some source point.
pub open spec fn enhanced_check_of(c: ForwardCalculationConfig) -> Result<(), Seq<char>> {
    if c.id@.len() == 0 {
        Err("Configuration ID cannot be empty"@)
    } else if c.expression@.len() == 0 {
        Err("Expression cannot be empty"@)
    } else if c.source_points@.len() == 0 {
        Err("Source points cannot be empty"@)
    } else {
        Ok(())
    }
}

/// A configuration error carrying the message of a failed check.
pub open spec fn config_result(r: Result<(), ComSrvError>, expected: Result<(), Seq<char>>) -> bool {
    match expected {
        Ok(()) => r is Ok,
        Err(m) => r matches Err(ComSrvError::ConfigError(e)) && e@ == m,
    }
}

/// Checks a configuration as the basic engine does before trying its expression.
pub fn check_basic_config(c: &ForwardCalculationConfig) -> (r: Result<(), ComSrvError>)
    ensures
        config_result(r, basic_check_of(*c)),
{
    if trim_text(c.expression.as_str()).unicode_len() == 0 {
        return Err(ComSrvError::ConfigError(string_of("Expression cannot be empty")));
    }
    if c.source_points.len() == 0 {
        return Err(ComSrvError::ConfigError(string_of("Source points cannot be empty")));
    }
    if c.execution_interval_ms == 0 {
        return Err(ComSrvError::ConfigError(string_of("Execution interval must be greater than 0")));
    }
    Ok(())
}

/// Checks a configuration as the enhanced engine does before trying its expression.
pub fn check_enhanced_config(c: &ForwardCalculationConfig) -> (r: Result<(), ComSrvError>)
    ensures
        config_result(r, enhanced_check_of(*c)),
{
    if c.id.as_str().unicode_len() == 0 {
        return Err(ComSrvError::ConfigError(string_of("Configuration ID cannot be empty")));
    }
    if c.expression.as_str().unicode_len() == 0 {
        return Err(ComSrvError::ConfigError(string_of("Expression cannot be empty")));
    }
    if c.source_points.len() == 0 {
        return Err(ComSrvError::ConfigError(string_of("Source points cannot be empty")));
    }
    Ok(())
}

/// The texts of a list of strings.
pub open spec fn texts_of(s: Seq<String>) -> Seq<Seq<char>> {
    s.map_values(|a: String| a@)
}

/// The key under which source data of a point is supplied: its identifier text.
pub open spec fn source_key(p: TelemetryPointId) -> Seq<char> {
    english_name_of(p.telemetry_type) + ":"@ + decimal_of(p.point_id as nat)
}

/// The variables whose point has supplied data, with the key of that data, in the
/// order of the sources.
pub open spec fn present_sources(pairs: Seq<(Seq<char>, TelemetryPointId)>, keys: Seq<Seq<char>>) -> Seq<
    (Seq<char>, Seq<char>),
>
    decreases pairs.len(),
{
    if pairs.len() == 0 {
        Seq::empty()
    } else if keys.contains(source_key(pairs.last().1)) {
        present_sources(pairs.drop_last(), keys).push((pairs.last().0, source_key(pairs.last().1)))
    } else {
        present_sources(pairs.drop_last(), keys)
    }
}

/// The variables whose point has no supplied data, in the order of the sources.
pub open spec fn missing_sources(pairs: Seq<(Seq<char>, TelemetryPointId)>, keys: Seq<Seq<char>>) -> Seq<Seq<char>>
    decreases pairs.len(),
{
    if pairs.len() == 0 {
        Seq::empty()
    } else if keys.contains(source_key(pairs.last().1)) {
        missing_sources(pairs.drop_last(), keys)
    } else {
        missing_sources(pairs.drop_last(), keys).push(pairs.last().0)
    }
}

/// The views of (variable, key) pairs.
pub open spec fn text_pairs(s: Seq<(String, String)>) -> Seq<(Seq<char>, Seq<char>)> {
    s.map_values(|p: (String, String)| (p.0@, p.1@))
}

/// Whether `key` is one of `available`.
fn is_available(available: &Vec<String>, key: &str) -> (r: bool)
    ensures
        r == texts_of(available@).contains(key@),
{
    let m = available.len();
    let mut t: usize = 0;
    while t < m
        invariant
            m == available@.len(),
            t <= m,
            forall|q: int| 0 <= q < t ==> #[trigger] available@[q]@ != key@,
        decreases m - t,
    {
        if str_eq(available[t].as_str(), key) {
            assert(texts_of(available@)[t as int] == key@);
            return true;
        }
        t = t + 1;
    }
    assert forall|q: int| 0 <= q < texts_of(available@).len() implies texts_of(available@)[q] != key@ by {
        assert(texts_of(available@)[q] == available@[q]@);
    }
    false
}

/// How the variables of a configuration meet the supplied data, given the keys of
/// the data: the variables whose point has data, with its key, and those without.
pub fn split_sources(c: &ForwardCalculationConfig, available: &Vec<String>) -> (r: (Vec<(String, String)>, Vec<String>))
    ensures
        text_pairs(r.0@) == present_sources(keyed_views(c.source_points@), texts_of(available@)),
        texts_of(r.1@) == missing_sources(keyed_views(c.source_points@), texts_of(available@)),
{
    let ghost pairs = keyed_views(c.source_points@);
    let ghost keys = texts_of(available@);
    let mut present: Vec<(String, String)> = Vec::new();
    let mut missing: Vec<String> = Vec::new();
    let n = c.source_points.len();
    let mut i: usize = 0;
    proof {
        assert(pairs.subrange(0, 0) =~= Seq::<(Seq<char>, TelemetryPointId)>::empty());
        assert(text_pairs(present@) =~= Seq::<(Seq<char>, Seq<char>)>::empty());
        assert(texts_of(missing@) =~= Seq::<Seq<char>>::empty());
    }
    while i < n
        invariant
            n == c.source_points@.len(),
            pairs == keyed_views(c.source_points@),
            keys == texts_of(available@),
            i <= n,
            text_pairs(present@) == present_sources(pairs.subrange(0, i as int), keys),
            texts_of(missing@) == missing_sources(pairs.subrange(0, i as int), keys),
        decreases n - i,
    {
        assert(pairs.subrange(0, i + 1).drop_last() =~= pairs.subrange(0, i as int));
        assert(pairs.subrange(0, i + 1).last() == (c.source_points@[i as int].0@, c.source_points@[i as int].1));
        let key = c.source_points[i].1.to_string();
        let ghost pre_present = present@;
        let ghost pre_missing = missing@;
        if is_available(available, key.as_str()) {
            let name = c.source_points[i].0.clone();
            present.push((name, key));
            assert(text_pairs(present@) =~= text_pairs(pre_present).push(
                (c.source_points@[i as int].0@, source_key(c.source_points@[i as int].1)),
            ));
        } else {
            missing.push(c.source_points[i].0.clone());
            assert(texts_of(missing@) =~= texts_of(pre_missing).push(c.source_points@[i as int].0@));
        }
        i = i + 1;
    }
    assert(pairs.subrange(0, n as int) =~= pairs);
    (present, missing)
}

/// The names of a list joined with `", "`.
pub open spec fn joined(names: Seq<Seq<char>>) -> Seq<char>
    decreases names.len(),
{
    if names.len() == 0 {
        Seq::empty()
    } else if names.len() == 1 {
        names[0]
    } else {
        joined(names.drop_last()) + ", "@ + names.last()
    }
}

/// The message of a calculation that lacks source data, naming the variables.
pub fn missing_sources_message(missing: &Vec<String>) -> (r: String)
    ensures
        r@ == "Missing source data for variables: "@ + joined(texts_of(missing@)),
{
    let ghost names = texts_of(missing@);
    let mut out = string_of("Missing source data for variables: ");
    let ghost prefix = out@;
    let n = missing.len();
    let mut i: usize = 0;
    while i < n
        invariant
            n == missing@.len(),
            names == texts_of(missing@),
            i <= n,
            out@ == prefix + joined(names.subrange(0, i as int)),
        decreases n - i,
    {
        assert(names.subrange(0, i + 1).drop_last() =~= names.subrange(0, i as int));
        assert(names.subrange(0, i + 1).last() == missing@[i as int]@);
        if i > 0 {
            push_str(&mut out, ", ");
        }
        push_str(&mut out, missing[i].as_str());
        proof {
            if i == 0 {
                assert(names.subrange(0, 1)[0] == missing@[0]@);
                assert(out@ =~= prefix + joined(names.subrange(0, 1)));
            } else {
                assert(out@ =~= prefix + joined(names.subrange(0, i + 1)));
            }
        }
        i = i + 1;
    }
    assert(names.subrange(0, n as int) =~= names);
    out
}

/// Whether the kind of a calculated value suits the target: boolean results for
/// signaling and control points, numeric ones for measurement and regulation points.
pub fn result_matches_target(is_boolean: bool, target: TelemetryType) -> (r: bool)
    ensures
        r == (is_boolean == (target is Signaling || target is Control)),
{
    match target {
        TelemetryType::Signaling | TelemetryType::Control => is_boolean,
        TelemetryType::Telemetry | TelemetryType::Setpoint => !is_boolean,
    }
}

/// The status of a calculation run: incomplete when source data is missing (the
/// expression is then not evaluated), a calculation error when evaluation fails
/// (`evaluation` is `None`), success otherwise.
pub fn calculation_status(missing_sources: bool, evaluation: Option<bool>) -> (r: CalculationStatus)
    ensures
        r == (if missing_sources {
            CalculationStatus::IncompleteSourceData
        } else if evaluation is None {
            CalculationStatus::CalculationError
        } else {
            CalculationStatus::Success
        }),
{
    if missing_sources {
        CalculationStatus::IncompleteSourceData
    } else {
        match evaluation {
            None => CalculationStatus::CalculationError,
            Some(_) => CalculationStatus::Success,
        }
    }
}

/// The status of a run of the enhanced engine: incomplete when source data is
/// missing, an expression error when evaluation fails (`evaluation` is `None`), a
/// type mismatch when the result is not of the target's kind (`evaluation` says
/// whether it is boolean), success otherwise.
pub fn enhanced_calculation_status(missing_sources: bool, evaluation: Option<bool>, target: TelemetryType) -> (r:
    CalculationStatus)
    ensures
        r == (if missing_sources {
            CalculationStatus::IncompleteSourceData
        } else {
            match evaluation {
                None => CalculationStatus::ExpressionError,
                Some(is_boolean) => if is_boolean == (target is Signaling || target is Control) {
                    CalculationStatus::Success
                } else {
                    CalculationStatus::TypeMismatch
                },
            }
        }),
{
    if missing_sources {
        return CalculationStatus::IncompleteSourceData;
    }
    match evaluation {
        None => CalculationStatus::ExpressionError,
        Some(is_boolean) => if result_matches_target(is_boolean, target) {
            CalculationStatus::Success
        } else {
            CalculationStatus::TypeMismatch
        },
    }
}

/// Forward calculation configurations by identifier.
#[derive(Debug, Clone)]
pub struct CalculationRegistry {
    configs: Vec<(String, ForwardCalculationConfig)>,
}

impl View for CalculationRegistry {
    type V = Map<Seq<char>, ForwardCalculationConfig>;

    closed spec fn view(&self) -> Map<Seq<char>, ForwardCalculationConfig> {
        keyed_map(keyed_views(self.configs@))
    }
}

impl CalculationRegistry {
    /// Identifiers are distinct and each entry is keyed by its configuration's id.
    pub closed spec fn wf(&self) -> bool {
        &&& keys_distinct(keyed_views(self.configs@))
        &&& forall|i: int| 0 <= i < self.configs@.len() ==> #[trigger] self.configs@[i].0@ == self.configs@[i].1.id@
    }

    /// An empty registry.
    pub fn new() -> (r: Self)
        ensures
            r.wf(),
            r@ == Map::<Seq<char>, ForwardCalculationConfig>::empty(),
    {
        let r = CalculationRegistry { configs: Vec::new() };
        assert(keyed_views(r.configs@) =~= Seq::<(Seq<char>, ForwardCalculationConfig)>::empty());
        r
    }

    /// Stores a configuration under its identifier, replacing one with that
    /// identifier.
    pub fn insert(&mut self, config: ForwardCalculationConfig)
        requires
            old(self).wf(),
        ensures
            final(self).wf(),
            final(self)@ == old(self)@.insert(config.id@, config),
    {
        let id = config.id.clone();
        let ghost before = self.configs@;
        put_keyed(&mut self.configs, id, config);
        proof {
            assert forall|i: int| 0 <= i < self.configs@.len() implies #[trigger] self.configs@[i].0@
                == self.configs@[i].1.id@ by {
                let v = keyed_views(self.configs@);
                let b = keyed_views(before);
                assert(v[i] == (self.configs@[i].0@, self.configs@[i].1));
                lemma_keyed_map(v, v[i].0);
                if v[i].0 == config.id@ {
                    assert(keyed_map(v)[v[i].0] == config);
                } else {
                    lemma_keyed_map(b, v[i].0);
                    let t = choose|t: int| 0 <= t < b.len() && #[trigger] b[t].0 == v[i].0;
                    assert(b[t] == (before[t].0@, before[t].1));
                }
            }
        }
    }

    /// Removes the configuration with an identifier; whether there was one.
    pub fn remove(&mut self, config_id: &str) -> (r: bool)
        requires
            old(self).wf(),
        ensures
            final(self).wf(),
            r == old(self)@.contains_key(config_id@),
            final(self)@ == old(self)@.remove(config_id@),
    {
        let ghost before = self.configs@;
        let r = remove_keyed(&mut self.configs, config_id);
        proof {
            assert forall|i: int| 0 <= i < self.configs@.len() implies #[trigger] self.configs@[i].0@
                == self.configs@[i].1.id@ by {
                let v = keyed_views(self.configs@);
                let b = keyed_views(before);
                assert(v[i] == (self.configs@[i].0@, self.configs@[i].1));
                lemma_keyed_map(v, v[i].0);
                lemma_keyed_map(b, v[i].0);
                let t = choose|t: int| 0 <= t < b.len() && #[trigger] b[t].0 == v[i].0;
                assert(b[t] == (before[t].0@, before[t].1));
            }
        }
        r
    }

    /// The configuration with an identifier.
    pub fn get(&self, config_id: &str) -> (r: Option<&ForwardCalculationConfig>)
        requires
            self.wf(),
        ensures
            match r {
                Some(c) => self@.contains_key(config_id@) && self@[config_id@] == *c,
                None => !self@.contains_key(config_id@),
            },
    {
        let ghost v = keyed_views(self.configs@);
        proof {
            lemma_keyed_map(v, config_id@);
        }
        match find_keyed(&self.configs, config_id) {
            Some(p) => {
                assert(v[p as int] == (self.configs@[p as int].0@, self.configs@[p as int].1));
                Some(&self.configs[p].1)
            },
            None => None,
        }
    }

    /// All configurations, one per identifier.
    pub fn all(&self) -> (r: Vec<&ForwardCalculationConfig>)
        requires
            self.wf(),
        ensures
            r@.len() == self@.dom().len(),
            forall|k: int| 0 <= k < r@.len() ==> self@.contains_key(r@[k].id@) && self@[r@[k].id@] == *r@[k],
            forall|id: Seq<char>| #[trigger] self@.contains_key(id) ==> exists|k: int| 0 <= k < r@.len() && r@[k].id@ == id,
    {
        let ghost v = keyed_views(self.configs@);
        let mut out: Vec<&ForwardCalculationConfig> = Vec::new();
        let n = self.configs.len();
        let mut i: usize = 0;
        while i < n
            invariant
                n == self.configs@.len(),
                v == keyed_views(self.configs@),
                self.wf(),
                i <= n,
                out@.len() == i,
                forall|k: int| 0 <= k < i ==> *(#[trigger] out@[k]) == self.configs@[k].1,
            decreases n - i,
        {
            out.push(&self.configs[i].1);
            i = i + 1;
        }
        proof {
            lemma_keyed_map_len(v);
            assert forall|k: int| 0 <= k < out@.len() implies self@.contains_key(out@[k].id@) && self@[out@[k].id@]
                == *out@[k] by {
                assert(v[k] == (self.configs@[k].0@, self.configs@[k].1));
                lemma_keyed_map(v, v[k].0);
            }
            assert forall|id: Seq<char>| #[trigger] self@.contains_key(id) implies exists|k: int|
                0 <= k < out@.len() && out@[k].id@ == id by {
                lemma_keyed_map(v, id);
                let t = choose|t: int| 0 <= t < v.len() && #[trigger] v[t].0 == id;
                assert(v[t] == (self.configs@[t].0@, self.configs@[t].1));
                assert(out@[t].id@ == id);
            }
        }
        out
    }
}

/// The point of a telemetry type with a number.
pub open spec fn point_of(t: TelemetryType, n: u32) -> TelemetryPointId {
    TelemetryPointId { telemetry_type: t, point_id: n }
}

/// Example configurations of logic calculations: AND, OR and NOT of signals, a
/// compound condition, and a threshold on a measurement.
pub fn create_logic_example_configs() -> (r: Vec<ForwardCalculationConfig>)
    ensures
        r@.len() == 5,
            r@[0].id@ == "device_start_logic"@,
            r@[0].name@ == "Device Start Logic"@,
            r@[0].target_point == point_of(TelemetryType::Control, 3001),
            r@[0].expression@ == "switch1 AND switch2"@,
            source_map(r@[0]) == Map::<Seq<char>, TelemetryPointId>::empty().insert("switch1"@, point_of(TelemetryType::Signaling, 1001)).insert("switch2"@, point_of(TelemetryType::Signaling, 1002)),
            fresh_defaults(r@[0]),
            r@[1].id@ == "alarm_or_logic"@,
            r@[1].name@ == "Alarm OR Logic"@,
            r@[1].target_point == point_of(TelemetryType::Signaling, 2001),
            r@[1].expression@ == "temp_alarm OR pressure_alarm OR flow_alarm"@,
            source_map(r@[1]) == Map::<Seq<char>, TelemetryPointId>::empty().insert("temp_alarm"@, point_of(TelemetryType::Signaling, 1010)).insert("pressure_alarm"@, point_of(TelemetryType::Signaling, 1011)).insert("flow_alarm"@, point_of(TelemetryType::Signaling, 1012)),
            fresh_defaults(r@[1]),
            r@[2].id@ == "device_running_status"@,
            r@[2].name@ == "Device Running Status"@,
            r@[2].target_point == point_of(TelemetryType::Signaling, 2002),
            r@[2].expression@ == "NOT stop_signal"@,
            source_map(r@[2]) == Map::<Seq<char>, TelemetryPointId>::empty().insert("stop_signal"@, point_of(TelemetryType::Signaling, 1020)),
            fresh_defaults(r@[2]),
            r@[3].id@ == "complex_control_logic"@,
            r@[3].name@ == "Complex Control Logic"@,
            r@[3].target_point == point_of(TelemetryType::Control, 3002),
            r@[3].expression@ == "(manual_mode OR (auto_mode AND temp > 50)) AND NOT emergency_stop"@,
            source_map(r@[3]) == Map::<Seq<char>, TelemetryPointId>::empty().insert("manual_mode"@, point_of(TelemetryType::Signaling, 1030)).insert("auto_mode"@, point_of(TelemetryType::Signaling, 1031)).insert("temp"@, point_of(TelemetryType::Telemetry, 1032)).insert("emergency_stop"@, point_of(TelemetryType::Signaling, 1033)),
            fresh_defaults(r@[3]),
            r@[4].id@ == "temperature_high_alarm"@,
            r@[4].name@ == "Temperature High Alarm"@,
            r@[4].target_point == point_of(TelemetryType::Signaling, 2003),
            r@[4].expression@ == "temperature > 80"@,
            source_map(r@[4]) == Map::<Seq<char>, TelemetryPointId>::empty().insert("temperature"@, point_of(TelemetryType::Telemetry, 1040)),
            fresh_defaults(r@[4]),
{
    let mut out: Vec<ForwardCalculationConfig> = Vec::new();
    let mut pairs: Vec<(String, TelemetryPointId)> = Vec::new();
    pairs.push((string_of("switch1"), TelemetryPointId { telemetry_type: TelemetryType::Signaling, point_id: 1001 }));
    pairs.push((string_of("switch2"), TelemetryPointId { telemetry_type: TelemetryType::Signaling, point_id: 1002 }));
    proof {
        reveal_with_fuel(keyed_map, 5);
        assert(keyed_views(pairs@) =~= seq![("switch1"@, TelemetryPointId { telemetry_type: TelemetryType::Signaling, point_id: 1001 }), ("switch2"@, TelemetryPointId { telemetry_type: TelemetryType::Signaling, point_id: 1002 })]);
    }
    out.push(ForwardCalculationConfig::new(
        string_of("device_start_logic"),
        string_of("Device Start Logic"),
        TelemetryPointId { telemetry_type: TelemetryType::Control, point_id: 3001 },
        string_of("switch1 AND switch2"),
        pairs,
    ));
    let mut pairs: Vec<(String, TelemetryPointId)> = Vec::new();
    pairs.push((string_of("temp_alarm"), TelemetryPointId { telemetry_type: TelemetryType::Signaling, point_id: 1010 }));
    pairs.push((string_of("pressure_alarm"), TelemetryPointId { telemetry_type: TelemetryType::Signaling, point_id: 1011 }));
    pairs.push((string_of("flow_alarm"), TelemetryPointId { telemetry_type: TelemetryType::Signaling, point_id: 1012 }));
    proof {
        reveal_with_fuel(keyed_map, 5);
        assert(keyed_views(pairs@) =~= seq![("temp_alarm"@, TelemetryPointId { telemetry_type: TelemetryType::Signaling, point_id: 1010 }), ("pressure_alarm"@, TelemetryPointId { telemetry_type: TelemetryType::Signaling, point_id: 1011 }), ("flow_alarm"@, TelemetryPointId { telemetry_type: TelemetryType::Signaling, point_id: 1012 })]);
    }
    out.push(ForwardCalculationConfig::new(
        string_of("alarm_or_logic"),
        string_of("Alarm OR Logic"),
        TelemetryPointId { telemetry_type: TelemetryType::Signaling, point_id: 2001 },
        string_of("temp_alarm OR pressure_alarm OR flow_alarm"),
        pairs,
    ));
    let mut pairs: Vec<(String, TelemetryPointId)> = Vec::new();
    pairs.push((string_of("stop_signal"), TelemetryPointId { telemetry_type: TelemetryType::Signaling, point_id: 1020 }));
    proof {
        reveal_with_fuel(keyed_map, 5);
        assert(keyed_views(pairs@) =~= seq![("stop_signal"@, TelemetryPointId { telemetry_type: TelemetryType::Signaling, point_id: 1020 })]);
    }
    out.push(ForwardCalculationConfig::new(
        string_of("device_running_status"),
        string_of("Device Running Status"),
        TelemetryPointId { telemetry_type: TelemetryType::Signaling, point_id: 2002 },
        string_of("NOT stop_signal"),
        pairs,
    ));
    let mut pairs: Vec<(String, TelemetryPointId)> = Vec::new();
    pairs.push((string_of("manual_mode"), TelemetryPointId { telemetry_type: TelemetryType::Signaling, point_id: 1030 }));
    pairs.push((string_of("auto_mode"), TelemetryPointId { telemetry_type: TelemetryType::Signaling, point_id: 1031 }));
    pairs.push((string_of("temp"), TelemetryPointId { telemetry_type: TelemetryType::Telemetry, point_id: 1032 }));
    pairs.push((string_of("emergency_stop"), TelemetryPointId { telemetry_type: TelemetryType::Signaling, point_id: 1033 }));
    proof {
        reveal_with_fuel(keyed_map, 5);
        assert(keyed_views(pairs@) =~= seq![("manual_mode"@, TelemetryPointId { telemetry_type: TelemetryType::Signaling, point_id: 1030 }), ("auto_mode"@, TelemetryPointId { telemetry_type: TelemetryType::Signaling, point_id: 1031 }), ("temp"@, TelemetryPointId { telemetry_type: TelemetryType::Telemetry, point_id: 1032 }), ("emergency_stop"@, TelemetryPointId { telemetry_type: TelemetryType::Signaling, point_id: 1033 })]);
    }
    out.push(ForwardCalculationConfig::new(
        string_of("complex_control_logic"),
        string_of("Complex Control Logic"),
        TelemetryPointId { telemetry_type: TelemetryType::Control, point_id: 3002 },
        string_of("(manual_mode OR (auto_mode AND temp > 50)) AND NOT emergency_stop"),
        pairs,
    ));
    let mut pairs: Vec<(String, TelemetryPointId)> = Vec::new();
    pairs.push((string_of("temperature"), TelemetryPointId { telemetry_type: TelemetryType::Telemetry, point_id: 1040 }));
    proof {
        reveal_with_fuel(keyed_map, 5);
        assert(keyed_views(pairs@) =~= seq![("temperature"@, TelemetryPointId { telemetry_type: TelemetryType::Telemetry, point_id: 1040 })]);
    }
    out.push(ForwardCalculationConfig::new(
        string_of("temperature_high_alarm"),
        string_of("Temperature High Alarm"),
        TelemetryPointId { telemetry_type: TelemetryType::Signaling, point_id: 2003 },
        string_of("temperature > 80"),
        pairs,
    ));
    out
}

} // verus!
