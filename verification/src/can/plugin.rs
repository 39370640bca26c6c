//! The CAN plugin's checks on channel parameters and the configuration it derives
//! from them.

use vstd::prelude::*;
use crate::can::config::CanConfig;
use crate::can::frame::CanFilter;
use crate::error::ComSrvError;
use crate::text::string_of;

verus! {

/// What a channel parameter holds, as far as the plugin reads it.
#[derive(Debug, Clone, PartialEq)]
pub enum ParamValue {
    /// A text value.
    Text(String),
    /// A boolean.
    Flag(bool),
    /// A non-negative whole number.
    Unsigned(u64),
    /// A list of values, each read as a receive filter.
    List(Vec<FilterEntry>),
    /// Any other value (null, a negative or fractional number, an object).
    Other,
}

/// What an entry of the `filters` list holds: its `id` and `mask`, each when it is
/// a non-negative whole number.
#[derive(Debug, Clone, PartialEq)]
pub struct FilterEntry {
    /// `id`
    pub id: Option<u64>,
    /// `mask`
    pub mask: Option<u64>,
}

/// The channel parameters that the CAN plugin reads, each absent or present.
#[derive(Debug, Clone)]
pub struct CanParams {
    /// `interface`
    pub interface: Option<ParamValue>,
    /// `bitrate`
    pub bitrate: Option<ParamValue>,
    /// `use_extended_id`
    pub use_extended_id: Option<ParamValue>,
    /// `use_fd`
    pub use_fd: Option<ParamValue>,
    /// `timeout_ms`
    pub timeout_ms: Option<ParamValue>,
    /// `send_queue_size`
    pub send_queue_size: Option<ParamValue>,
    /// `filters`
    pub filters: Option<ParamValue>,
}

/// The plugin's description of itself.
#[derive(Debug, Clone)]
pub struct PluginMetadata {
    /// Protocol identifier.
    pub id: String,
    /// Display name.
    pub name: String,
    /// Version.
    pub version: String,
    /// Short description.
    pub description: String,
    /// Author.
    pub author: String,
    /// License.
    pub license: String,
    /// Offered features.
    pub features: Vec<String>,
}

/// CAN Bus Protocol Plugin.
pub struct CanPlugin {
    /// The plugin's description of itself.
    pub metadata: PluginMetadata,
}

/// The features the CAN plugin offers.
pub open spec fn can_features() -> Seq<Seq<char>> {
    seq!["telemetry"@, "control"@, "diagnostics"@, "broadcast"@]
}

impl Default for CanPlugin {
    fn default() -> (p: Self)
        ensures
            p.metadata.id@ == "can"@,
            p.metadata.name@ == "CAN Bus"@,
            p.metadata.version@ == "1.0.0"@,
            p.metadata.features@.len() == 4,
            forall|i: int| 0 <= i < 4 ==> #[trigger] p.metadata.features@[i]@ == can_features()[i],
    {
        let mut features: Vec<String> = Vec::new();
        features.push(string_of("telemetry"));
        features.push(string_of("control"));
        features.push(string_of("diagnostics"));
        features.push(string_of("broadcast"));
        CanPlugin {
            metadata: PluginMetadata {
                id: string_of("can"),
                name: string_of("CAN Bus"),
                version: string_of("1.0.0"),
                description: string_of("Controller Area Network (CAN) bus protocol implementation"),
                author: string_of("VoltageEMS Team"),
                license: string_of("MIT"),
                features,
            },
        }
    }
}

/// The value as a flag, if it is one.
pub open spec fn as_flag(v: Option<ParamValue>) -> Option<bool> {
    match v {
        Some(ParamValue::Flag(b)) => Some(b),
        _ => None,
    }
}

/// The value as a non-negative whole number, if it is one.
pub open spec fn as_unsigned(v: Option<ParamValue>) -> Option<u64> {
    match v {
        Some(ParamValue::Unsigned(n)) => Some(n),
        _ => None,
    }
}

/// The outcome of checking CAN channel parameters: the first failing rule, in the
/// order interface present, interface is text, filters form a list, CAN FD needs
/// at least 500 kbit/s.
pub open spec fn params_check(p: CanParams) -> Result<(), Seq<char>> {
    if p.interface is None {
        Err("Missing required parameter: interface"@)
    } else if !(p.interface matches Some(ParamValue::Text(_))) {
        Err("Parameter 'interface' must be a string"@)
    } else if p.filters is Some && !(p.filters matches Some(ParamValue::List(_))) {
        Err("Parameter 'filters' must be an array"@)
    } else if as_flag(p.use_fd) == Some(true) && (match as_unsigned(p.bitrate) {
        Some(rate) => rate < 500000,
        None => false,
    }) {
        Err("CAN FD requires bitrate of at least 500kbps"@)
    } else {
        Ok(())
    }
}

impl CanPlugin {
    /// Checks CAN channel parameters.
    pub fn validate_config(&self, config: &CanParams) -> (r: Result<(), ComSrvError>)
        ensures
            match params_check(*config) {
                Ok(()) => r is Ok,
                Err(m) => r matches Err(ComSrvError::ConfigError(e)) && e@ == m,
            },
    {
        match &config.interface {
            None => {
                return Err(ComSrvError::ConfigError(string_of("Missing required parameter: interface")));
            },
            Some(ParamValue::Text(_)) => {},
            Some(_) => {
                return Err(ComSrvError::ConfigError(string_of("Parameter 'interface' must be a string")));
            },
        }
        match &config.filters {
            None => {},
            Some(ParamValue::List(_)) => {},
            Some(_) => {
                return Err(ComSrvError::ConfigError(string_of("Parameter 'filters' must be an array")));
            },
        }
        if let Some(ParamValue::Flag(true)) = &config.use_fd {
            if let Some(ParamValue::Unsigned(rate)) = &config.bitrate {
                if *rate < 500000 {
                    return Err(ComSrvError::ConfigError(string_of("CAN FD requires bitrate of at least 500kbps")));
                }
            }
        }
        Ok(())
    }

    /// The CAN configuration that a channel's parameters describe. The interface
    /// must be text; the bit rate (truncated to 32 bits), identifier width, CAN FD
    /// flag, timeout and queue size fall back to 500000, standard, off, 1000 ms and
    /// 100 when absent or of another kind.
    pub fn config_from_params(&self, params: &CanParams) -> (r: Result<CanConfig, ComSrvError>)
        ensures
            r is Ok <==> params.interface matches Some(ParamValue::Text(_)),
            r matches Err(e) ==> (e matches ComSrvError::ConfigError(m) && m@ == "Missing interface parameter"@),
            r matches Ok(c) ==> {
                &&& (params.interface matches Some(ParamValue::Text(i)) && c.interface@ == i@)
                &&& c.bitrate == match as_unsigned(params.bitrate) {
                    Some(b) => b as u32,
                    None => 500000u32,
                }
                &&& c.use_extended_id == match as_flag(params.use_extended_id) {
                    Some(b) => b,
                    None => false,
                }
                &&& c.use_fd == match as_flag(params.use_fd) {
                    Some(b) => b,
                    None => false,
                }
                &&& c.timeout_ms == match as_unsigned(params.timeout_ms) {
                    Some(t) => t,
                    None => 1000u64,
                }
                &&& c.send_queue_size == match as_unsigned(params.send_queue_size) {
                    Some(q) => q as usize,
                    None => 100usize,
                }
            },
    {
        let interface = match &params.interface {
            Some(ParamValue::Text(i)) => i.clone(),
            _ => {
                return Err(ComSrvError::ConfigError(string_of("Missing interface parameter")));
            },
        };
        let bitrate: u32 = match &params.bitrate {
            Some(ParamValue::Unsigned(b)) => {
                #[verifier::truncate]
                let t = *b as u32;
                t
            },
            _ => 500000,
        };
        let use_extended_id = match &params.use_extended_id {
            Some(ParamValue::Flag(b)) => *b,
            _ => false,
        };
        let use_fd = match &params.use_fd {
            Some(ParamValue::Flag(b)) => *b,
            _ => false,
        };
        let timeout_ms: u64 = match &params.timeout_ms {
            Some(ParamValue::Unsigned(t)) => *t,
            _ => 1000,
        };
        let send_queue_size: usize = match &params.send_queue_size {
            Some(ParamValue::Unsigned(q)) => {
                #[verifier::truncate]
                let t = *q as usize;
                t
            },
            _ => 100,
        };
        Ok(CanConfig { interface, bitrate, use_extended_id, use_fd, timeout_ms, send_queue_size })
    }
}

/// Parameters that pass the check always name a text interface, so a configuration
/// can be derived from them.
pub proof fn lemma_checked_params_give_config(p: CanParams)
    requires
        params_check(p) is Ok,
    ensures
        p.interface matches Some(ParamValue::Text(_)),
{
}

/// The receive filters of a list of filter entries, in order: one for each entry
/// with both an id and a mask, each truncated to 32 bits.
pub open spec fn picked_filters(items: Seq<FilterEntry>, extended: bool) -> Seq<CanFilter>
    decreases items.len(),
{
    if items.len() == 0 {
        Seq::empty()
    } else {
        let before = picked_filters(items.drop_last(), extended);
        match (items.last().id, items.last().mask) {
            (Some(id), Some(mask)) => before.push(CanFilter { id: id as u32, mask: mask as u32, extended }),
            _ => before,
        }
    }
}

/// The receive filters a `filters` parameter gives: those of its entries when it
/// is a list, none otherwise.
pub open spec fn filters_of(p: Option<ParamValue>, extended: bool) -> Seq<CanFilter> {
    match p {
        Some(ParamValue::List(items)) => picked_filters(items@, extended),
        _ => Seq::empty(),
    }
}

impl CanPlugin {
    /// The receive filters that the channel's parameters list; they apply to
    /// extended identifiers when `use_extended_id` is true.
    pub fn filters_from_params(&self, params: &CanParams) -> (r: Vec<CanFilter>)
        ensures
            r@ == filters_of(
                params.filters,
                match as_flag(params.use_extended_id) {
                    Some(b) => b,
                    None => false,
                },
            ),
    {
        let extended = match &params.use_extended_id {
            Some(ParamValue::Flag(b)) => *b,
            _ => false,
        };
        let mut out: Vec<CanFilter> = Vec::new();
        match &params.filters {
            Some(ParamValue::List(items)) => {
                let n = items.len();
                let mut i: usize = 0;
                assert(items@.subrange(0, 0) =~= Seq::<FilterEntry>::empty());
                while i < n
                    invariant
                        n == items@.len(),
                        i <= n,
                        out@ == picked_filters(items@.subrange(0, i as int), extended),
                    decreases n - i,
                {
                    assert(items@.subrange(0, i + 1).drop_last() =~= items@.subrange(0, i as int));
                    match (items[i].id, items[i].mask) {
                        (Some(id), Some(mask)) => {
                            out.push(CanFilter { id: id as u32, mask: mask as u32, extended });
                        },
                        _ => {},
                    }
                    i = i + 1;
                }
                assert(items@.subrange(0, n as int) =~= items@);
            },
            _ => {},
        }
        out
    }
}

/// The default value a configuration parameter has.
#[derive(Debug, Clone, PartialEq)]
pub enum TemplateDefault {
    /// A text.
    Text(String),
    /// A non-negative whole number.
    Unsigned(u64),
    /// A boolean.
    Flag(bool),
    /// An empty list.
    EmptyList,
}

/// The rule a parameter's value must follow: bounds, a pattern, or a list of
/// allowed values.
#[derive(Debug, Clone)]
pub struct ValidationRule {
    /// Lowest value, if bounded.
    pub min: Option<u64>,
    /// Highest value, if bounded.
    pub max: Option<u64>,
    /// Pattern the text must match, if any.
    pub pattern: Option<String>,
    /// The allowed values, if limited.
    pub allowed_values: Option<Vec<String>>,
}

/// The description of one configuration parameter.
#[derive(Debug, Clone)]
pub struct ConfigTemplate {
    /// Parameter name.
    pub name: String,
    /// What the parameter sets.
    pub description: String,
    /// The kind of value: `string`, `int`, `bool` or `array`.
    pub param_type: String,
    /// Whether the parameter must be given.
    pub required: bool,
    /// The default value, if any.
    pub default_value: Option<TemplateDefault>,
    /// The rule its value must follow, if any.
    pub validation: Option<ValidationRule>,
}

/// A default value as values.
pub enum DefaultView {
    Text(Seq<char>),
    Unsigned(u64),
    Flag(bool),
    EmptyList,
}

/// A validation rule as values.
pub struct RuleView {
    pub min: Option<u64>,
    pub max: Option<u64>,
    pub pattern: Option<Seq<char>>,
    pub allowed_values: Option<Seq<Seq<char>>>,
}

/// A parameter description as values.
pub struct TemplateView {
    pub name: Seq<char>,
    pub description: Seq<char>,
    pub param_type: Seq<char>,
    pub required: bool,
    pub default_value: Option<DefaultView>,
    pub validation: Option<RuleView>,
}

/// The view of a default value.
pub open spec fn default_view(d: TemplateDefault) -> DefaultView {
    match d {
        TemplateDefault::Text(t) => DefaultView::Text(t@),
        TemplateDefault::Unsigned(n) => DefaultView::Unsigned(n),
        TemplateDefault::Flag(b) => DefaultView::Flag(b),
        TemplateDefault::EmptyList => DefaultView::EmptyList,
    }
}

/// The view of a validation rule.
pub open spec fn rule_view(r: ValidationRule) -> RuleView {
    RuleView {
        min: r.min,
        max: r.max,
        pattern: match r.pattern {
            Some(p) => Some(p@),
            None => None,
        },
        allowed_values: match r.allowed_values {
            Some(v) => Some(v@.map_values(|t: String| t@)),
            None => None,
        },
    }
}

/// The view of a parameter description.
pub open spec fn template_view(t: ConfigTemplate) -> TemplateView {
    TemplateView {
        name: t.name@,
        description: t.description@,
        param_type: t.param_type@,
        required: t.required,
        default_value: match t.default_value {
            Some(d) => Some(default_view(d)),
            None => None,
        },
        validation: match t.validation {
            Some(r) => Some(rule_view(r)),
            None => None,
        },
    }
}

/// A rule with bounds only.
pub open spec fn bounds(min: u64, max: u64) -> RuleView {
    RuleView { min: Some(min), max: Some(max), pattern: None, allowed_values: None }
}

/// The bit rates a `bitrate` parameter may name, as texts.
pub open spec fn allowed_bit_rates() -> Seq<Seq<char>> {
    seq!["10000"@, "20000"@, "50000"@, "100000"@, "125000"@, "250000"@, "500000"@, "800000"@, "1000000"@]
}

/// The CAN plugin's parameters, in order.
pub open spec fn can_config_template() -> Seq<TemplateView> {
    seq![
        TemplateView {
            name: "interface"@,
            description: "CAN interface name (e.g., can0, vcan0)"@,
            param_type: "string"@,
            required: true,
            default_value: Some(DefaultView::Text("can0"@)),
            validation: Some(RuleView { min: None, max: None, pattern: Some("^[a-zA-Z0-9]+$"@), allowed_values: None }),
        },
        TemplateView {
            name: "bitrate"@,
            description: "CAN bus bitrate in bits per second"@,
            param_type: "int"@,
            required: false,
            default_value: Some(DefaultView::Unsigned(500000)),
            validation: Some(RuleView { min: None, max: None, pattern: None, allowed_values: Some(allowed_bit_rates()) }),
        },
        TemplateView {
            name: "use_extended_id"@,
            description: "Use extended (29-bit) CAN IDs"@,
            param_type: "bool"@,
            required: false,
            default_value: Some(DefaultView::Flag(false)),
            validation: None,
        },
        TemplateView {
            name: "use_fd"@,
            description: "Use CAN FD (Flexible Data-rate)"@,
            param_type: "bool"@,
            required: false,
            default_value: Some(DefaultView::Flag(false)),
            validation: None,
        },
        TemplateView {
            name: "filters"@,
            description: "CAN ID filters (JSON array of filter objects)"@,
            param_type: "array"@,
            required: false,
            default_value: Some(DefaultView::EmptyList),
            validation: None,
        },
        TemplateView {
            name: "error_mask"@,
            description: "CAN error frame mask"@,
            param_type: "int"@,
            required: false,
            default_value: Some(DefaultView::Unsigned(0)),
            validation: Some(bounds(0, 255)),
        },
        TemplateView {
            name: "timeout_ms"@,
            description: "Read timeout in milliseconds"@,
            param_type: "int"@,
            required: false,
            default_value: Some(DefaultView::Unsigned(1000)),
            validation: Some(bounds(100, 60000)),
        },
        TemplateView {
            name: "send_queue_size"@,
            description: "Size of the transmit queue"@,
            param_type: "int"@,
            required: false,
            default_value: Some(DefaultView::Unsigned(100)),
            validation: Some(bounds(1, 1000)),
        },
    ]
}

/// One parameter description.
fn template(
    name: &str,
    description: &str,
    param_type: &str,
    required: bool,
    default_value: Option<TemplateDefault>,
    validation: Option<ValidationRule>,
) -> (t: ConfigTemplate)
    ensures
        t.name@ == name@,
        t.description@ == description@,
        t.param_type@ == param_type@,
        t.required == required,
        t.default_value == default_value,
        t.validation == validation,
{
    ConfigTemplate {
        name: string_of(name),
        description: string_of(description),
        param_type: string_of(param_type),
        required,
        default_value,
        validation,
    }
}

/// A rule with bounds only.
fn bounded(min: u64, max: u64) -> (r: ValidationRule)
    ensures
        rule_view(r) == bounds(min, max),
{
    ValidationRule { min: Some(min), max: Some(max), pattern: None, allowed_values: None }
}

impl CanPlugin {
    /// The description of the CAN channel parameters.
    pub fn config_template(&self) -> (r: Vec<ConfigTemplate>)
        ensures
            r@.map_values(|t: ConfigTemplate| template_view(t)) == can_config_template(),
    {
        let mut rates: Vec<String> = Vec::new();
        rates.push(string_of("10000"));
        rates.push(string_of("20000"));
        rates.push(string_of("50000"));
        rates.push(string_of("100000"));
        rates.push(string_of("125000"));
        rates.push(string_of("250000"));
        rates.push(string_of("500000"));
        rates.push(string_of("800000"));
        rates.push(string_of("1000000"));
        assert(rates@.map_values(|t: String| t@) =~= allowed_bit_rates());
        let mut out: Vec<ConfigTemplate> = Vec::new();
        out.push(
            template(
                "interface",
                "CAN interface name (e.g., can0, vcan0)",
                "string",
                true,
                Some(TemplateDefault::Text(string_of("can0"))),
                Some(ValidationRule { min: None, max: None, pattern: Some(string_of("^[a-zA-Z0-9]+$")), allowed_values: None }),
            ),
        );
        out.push(
            template(
                "bitrate",
                "CAN bus bitrate in bits per second",
                "int",
                false,
                Some(TemplateDefault::Unsigned(500000)),
                Some(ValidationRule { min: None, max: None, pattern: None, allowed_values: Some(rates) }),
            ),
        );
        out.push(template("use_extended_id", "Use extended (29-bit) CAN IDs", "bool", false, Some(TemplateDefault::Flag(false)), None));
        out.push(template("use_fd", "Use CAN FD (Flexible Data-rate)", "bool", false, Some(TemplateDefault::Flag(false)), None));
        out.push(
            template(
                "filters",
                "CAN ID filters (JSON array of filter objects)",
                "array",
                false,
                Some(TemplateDefault::EmptyList),
                None,
            ),
        );
        out.push(template("error_mask", "CAN error frame mask", "int", false, Some(TemplateDefault::Unsigned(0)), Some(bounded(0, 255))));
        out.push(
            template(
                "timeout_ms",
                "Read timeout in milliseconds",
                "int",
                false,
                Some(TemplateDefault::Unsigned(1000)),
                Some(bounded(100, 60000)),
            ),
        );
        out.push(
            template(
                "send_queue_size",
                "Size of the transmit queue",
                "int",
                false,
                Some(TemplateDefault::Unsigned(100)),
                Some(bounded(1, 1000)),
            ),
        );
        assert(out@.map_values(|t: ConfigTemplate| template_view(t)) =~= can_config_template());
        out
    }
}

} // verus!
