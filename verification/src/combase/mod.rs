//! Protocol-independent foundation of the communication service: the
//! four-telemetry classification, polling settings, raw protocol values, point
//! identifiers and point tables.

pub mod adapter_manager;
pub mod calculation;
pub mod data_types;
pub mod defaults;
pub mod enhanced_transport_bridge;
pub mod expression;
pub mod forward_calc;
pub mod monitoring;
pub mod optimized_point_manager;
pub mod packet_parser;
pub mod point_cache;
pub mod point_manager;
pub mod point_table;
pub mod polling;
pub mod protocol_factory;
pub mod simplified_mapping;
pub mod smart_mapping;
pub mod stats;
pub mod telemetry;
pub mod raw_value;
pub mod redis_batch_sync;
pub mod service;

pub use point_table::{PointStatistics, UniversalPointConfig, UniversalPointManager};
pub use raw_value::{ProtocolResponse, RawProtocolValue};

use vstd::prelude::*;
use crate::combase::stats::current_time;
use crate::error::{ComSrvError, push_str};
use std::time::SystemTime;
use crate::text::{ascii_lower, decimal_of, is_ascii_text, is_digit_char, lemma_decimal_digits, lemma_parse_decimal, lemma_split_pair, lowered, parse_u32, parse_unsigned, push_decimal, split_char, split_on, str_eq, string_of, to_lowercase};

verus! {

/// Four-telemetry data type classification.
#[derive(Debug, Clone, Copy, PartialEq, Eq, Hash, Structural)]
pub enum TelemetryType {
    /// Analog measurements (temperature, pressure, flow, etc.)
    Telemetry,
    /// Digital status signals (switch status, alarm status, etc.)
    Signaling,
    /// Digital control commands (start/stop, on/off, etc.)
    Control,
    /// Analog regulation commands (setpoint adjustment, etc.)
    Setpoint,
}

/// The Chinese name of a telemetry type.
pub open spec fn chinese_name_of(t: TelemetryType) -> Seq<char> {
    match t {
        TelemetryType::Telemetry => "遥测"@,
        TelemetryType::Signaling => "遥信"@,
        TelemetryType::Control => "遥控"@,
        TelemetryType::Setpoint => "遥调"@,
    }
}

/// The English name of a telemetry type.
pub open spec fn english_name_of(t: TelemetryType) -> Seq<char> {
    match t {
        TelemetryType::Telemetry => "Remote Measurement"@,
        TelemetryType::Signaling => "Remote Signaling"@,
        TelemetryType::Control => "Remote Control"@,
        TelemetryType::Setpoint => "Remote Regulation"@,
    }
}

/// Measurement and signaling points are read.
pub open spec fn readable_kind(t: TelemetryType) -> bool {
    t is Telemetry || t is Signaling
}

/// Analog kinds: measurement and regulation.
pub open spec fn analog_kind(t: TelemetryType) -> bool {
    t is Telemetry || t is Setpoint
}

impl TelemetryType {
    /// Get the Chinese name of the telemetry type.
    pub fn chinese_name(&self) -> (r: &'static str)
        ensures
            r@ == chinese_name_of(*self),
    {
        match self {
            TelemetryType::Telemetry => "遥测",
            TelemetryType::Signaling => "遥信",
            TelemetryType::Control => "遥控",
            TelemetryType::Setpoint => "遥调",
        }
    }

    /// Get the English name of the telemetry type.
    pub fn english_name(&self) -> (r: &'static str)
        ensures
            r@ == english_name_of(*self),
    {
        match self {
            TelemetryType::Telemetry => "Remote Measurement",
            TelemetryType::Signaling => "Remote Signaling",
            TelemetryType::Control => "Remote Control",
            TelemetryType::Setpoint => "Remote Regulation",
        }
    }

    /// Check if this telemetry type is readable (measurement/signaling).
    pub fn is_readable(&self) -> (r: bool)
        ensures
            r == readable_kind(*self),
    {
        match self {
            TelemetryType::Telemetry | TelemetryType::Signaling => true,
            _ => false,
        }
    }

    /// Check if this telemetry type is writable (control/regulation).
    pub fn is_writable(&self) -> (r: bool)
        ensures
            r == !readable_kind(*self),
    {
        match self {
            TelemetryType::Control | TelemetryType::Setpoint => true,
            _ => false,
        }
    }

    /// Check if this telemetry type handles analog values.
    pub fn is_analog(&self) -> (r: bool)
        ensures
            r == analog_kind(*self),
    {
        match self {
            TelemetryType::Telemetry | TelemetryType::Setpoint => true,
            _ => false,
        }
    }

    /// Check if this telemetry type handles digital values.
    pub fn is_digital(&self) -> (r: bool)
        ensures
            r == !analog_kind(*self),
    {
        match self {
            TelemetryType::Signaling | TelemetryType::Control => true,
            _ => false,
        }
    }
}

/// Every telemetry type is exactly one of readable or writable, and exactly one of
/// analog or digital; each of the four combinations names one type.
pub proof fn lemma_telemetry_kinds_partition(t: TelemetryType)
    ensures
        readable_kind(t) && analog_kind(t) <==> t is Telemetry,
        readable_kind(t) && !analog_kind(t) <==> t is Signaling,
        !readable_kind(t) && !analog_kind(t) <==> t is Control,
        !readable_kind(t) && analog_kind(t) <==> t is Setpoint,
{
}

/// Universal polling configuration, usable by any protocol that polls.
#[derive(Debug, Clone, Copy)]
pub struct PollingConfig {
    /// Enable or disable polling for this channel
    pub enabled: bool,
    /// Polling interval in milliseconds
    pub interval_ms: u64,
    /// Maximum number of points to read per polling cycle
    pub max_points_per_cycle: u32,
    /// Timeout for each polling operation
    pub timeout_ms: u64,
    /// Number of retry attempts on failure
    pub max_retries: u32,
    /// Delay between retries in milliseconds
    pub retry_delay_ms: u64,
    /// Enable batch reading optimization (protocol-specific)
    pub enable_batch_reading: bool,
    /// Minimum delay between individual point reads in milliseconds
    pub point_read_delay_ms: u64,
}

impl Default for PollingConfig {
    fn default() -> (c: Self)
        ensures
            c.enabled,
            c.interval_ms == 1000,
            c.max_points_per_cycle == 1000,
            c.timeout_ms == 5000,
            c.max_retries == 3,
            c.retry_delay_ms == 1000,
            c.enable_batch_reading,
            c.point_read_delay_ms == 10,
    {
        PollingConfig {
            enabled: true,
            interval_ms: 1000,
            max_points_per_cycle: 1000,
            timeout_ms: 5000,
            max_retries: 3,
            retry_delay_ms: 1000,
            enable_batch_reading: true,
            point_read_delay_ms: 10,
        }
    }
}

/// Execution status.
#[derive(Debug, Clone, PartialEq)]
pub enum ExecutionStatus {
    /// Standby
    Standby,
    /// Executing
    Executing,
    /// Completed
    Completed,
    /// Failed
    Failed(String),
}

/// Control execution status.
#[derive(Debug, Clone, PartialEq)]
pub enum ControlExecutionStatus {
    /// Standby
    Standby,
    /// Executing
    Executing,
    /// Success
    Success,
    /// Failed
    Failed(String),
    /// Timeout
    Timeout,
}

/// Regulation execution status.
#[derive(Debug, Clone, PartialEq)]
pub enum RegulationExecutionStatus {
    /// Standby
    Standby,
    /// Regulating
    Regulating,
    /// Success
    Success,
    /// Failed
    Failed(String),
    /// Timeout
    Timeout,
    /// Out of Range
    OutOfRange,
}

/// Generic connection state used by connection managers.
#[derive(Debug, Clone, PartialEq, Eq)]
pub enum ConnectionState {
    /// Channel is disconnected.
    Disconnected,
    /// Channel is attempting to establish a connection.
    Connecting,
    /// Channel is connected and operational.
    Connected,
    /// Channel encountered an error during connection.
    Error(String),
}

/// Protocol specific statistics collection, implemented by each protocol for its
/// own counters.
pub trait ProtocolStats: Send + Sync {
    /// Reset all statistic counters.
    fn reset(&mut self);
}

/// Extended telemetry metadata for specialized point types.
#[derive(Debug, Clone, PartialEq)]
pub struct TelemetryMetadata {
    /// For signaling points: text for the true state
    pub true_text: Option<String>,
    /// For signaling points: text for the false state
    pub false_text: Option<String>,
    /// For signaling points: invert the read state
    pub invert_signal: Option<bool>,
    /// For control points: text for the true command
    pub true_command: Option<String>,
    /// For control points: text for the false command
    pub false_command: Option<String>,
    /// For control points: invert the command
    pub invert_control: Option<bool>,
}

/// Whether metadata asks for signaling values to be inverted.
pub open spec fn inverts_signal(m: Option<TelemetryMetadata>) -> bool {
    m matches Some(meta) && meta.invert_signal == Some(true)
}

/// Whether metadata asks for control values to be inverted.
pub open spec fn inverts_control(m: Option<TelemetryMetadata>) -> bool {
    m matches Some(meta) && meta.invert_control == Some(true)
}

/// The text describing a signaling state.
pub open spec fn status_text_of(status: bool, m: Option<TelemetryMetadata>) -> Seq<char> {
    match m {
        Some(meta) => if status {
            match meta.true_text {
                Some(t) => t@,
                None => "True"@,
            }
        } else {
            match meta.false_text {
                Some(t) => t@,
                None => "False"@,
            }
        },
        None => if status {
            "True"@
        } else {
            "False"@
        },
    }
}

/// The text describing a control command.
pub open spec fn command_text_of(command: bool, m: Option<TelemetryMetadata>) -> Seq<char> {
    match m {
        Some(meta) => if command {
            match meta.true_command {
                Some(t) => t@,
                None => "Execute"@,
            }
        } else {
            match meta.false_command {
                Some(t) => t@,
                None => "Stop"@,
            }
        },
        None => if command {
            "Execute"@
        } else {
            "Stop"@
        },
    }
}

/// Protocol-independent processing of point values.
pub struct UniversalDataProcessor;

impl UniversalDataProcessor {
    /// Applies the signaling inversion that the metadata asks for.
    pub fn apply_signal_invert(&self, value: bool, metadata: &Option<TelemetryMetadata>) -> (r: bool)
        ensures
            r == if inverts_signal(*metadata) {
                !value
            } else {
                value
            },
    {
        if let Some(meta) = metadata {
            if let Some(true) = meta.invert_signal {
                return !value;
            }
        }
        value
    }

    /// Applies the control inversion that the metadata asks for.
    pub fn apply_control_invert(&self, value: bool, metadata: &Option<TelemetryMetadata>) -> (r: bool)
        ensures
            r == if inverts_control(*metadata) {
                !value
            } else {
                value
            },
    {
        if let Some(meta) = metadata {
            if let Some(true) = meta.invert_control {
                return !value;
            }
        }
        value
    }

    /// The text describing a signaling state: the metadata's text for that state,
    /// else `True` or `False`.
    pub fn get_status_description(&self, status: bool, metadata: &Option<TelemetryMetadata>) -> (r: String)
        ensures
            r@ == status_text_of(status, *metadata),
    {
        match metadata {
            Some(meta) => {
                if status {
                    match &meta.true_text {
                        Some(t) => t.clone(),
                        None => string_of("True"),
                    }
                } else {
                    match &meta.false_text {
                        Some(t) => t.clone(),
                        None => string_of("False"),
                    }
                }
            },
            None => {
                if status {
                    string_of("True")
                } else {
                    string_of("False")
                }
            },
        }
    }

    /// The text describing a control command: the metadata's text for that command,
    /// else `Execute` or `Stop`.
    pub fn get_command_description(&self, command: bool, metadata: &Option<TelemetryMetadata>) -> (r: String)
        ensures
            r@ == command_text_of(command, *metadata),
    {
        match metadata {
            Some(meta) => {
                if command {
                    match &meta.true_command {
                        Some(t) => t.clone(),
                        None => string_of("Execute"),
                    }
                } else {
                    match &meta.false_command {
                        Some(t) => t.clone(),
                        None => string_of("Stop"),
                    }
                }
            },
            None => {
                if command {
                    string_of("Execute")
                } else {
                    string_of("Stop")
                }
            },
        }
    }
}

/// Raw data as a protocol delivers it.
///
/// A decimal value is held as the bit pattern of its 64-bit IEEE 754 value
/// (`f64::to_bits`); the library does not compute with it.
#[derive(Debug, Clone, Copy, PartialEq, Eq, Structural)]
pub enum ProtocolRawData {
    /// Decimal value (measurement and regulation), as the bits of an `f64`
    Decimal(u64),
    /// Binary value (signaling and control)
    Binary(bool),
    /// Invalid data
    Invalid,
}

impl ProtocolRawData {
    /// The bits of the decimal value, if this is one.
    pub fn as_decimal(&self) -> (r: Option<u64>)
        ensures
            r == match *self {
                ProtocolRawData::Decimal(b) => Some(b),
                _ => None::<u64>,
            },
    {
        match self {
            ProtocolRawData::Decimal(b) => Some(*b),
            _ => None,
        }
    }

    /// The binary value, if this is one.
    pub fn as_binary(&self) -> (r: Option<bool>)
        ensures
            r == match *self {
                ProtocolRawData::Binary(v) => Some(v),
                _ => None::<bool>,
            },
    {
        match self {
            ProtocolRawData::Binary(v) => Some(*v),
            _ => None,
        }
    }

    /// Whether the data is valid.
    pub fn is_valid(&self) -> (r: bool)
        ensures
            r == !(*self is Invalid),
    {
        match self {
            ProtocolRawData::Invalid => false,
            _ => true,
        }
    }
}

/// Processed signaling point data.
#[derive(Debug, Clone)]
pub struct SignalingPoint {
    /// Current digital status
    pub status: bool,
    /// Status description text
    pub status_text: String,
    /// Status change time
    pub timestamp: SystemTime,
}

/// Processed control point data.
#[derive(Debug, Clone)]
pub struct ControlPoint {
    /// Current control state
    pub current_state: bool,
    /// Command description text
    pub command_text: String,
    /// Control execution status
    pub execution_status: ExecutionStatus,
    /// Time of the state
    pub timestamp: SystemTime,
}

impl UniversalDataProcessor {
    /// Processes signaling data: the binary value with the point's inversion
    /// applied, and the text for the resulting state; data that is not binary is
    /// a configuration error.
    pub fn process_signaling_data(&self, raw_data: ProtocolRawData, config: &UniversalPointConfig) -> (r: Result<
        SignalingPoint,
        ComSrvError,
    >)
        ensures
            match raw_data {
                ProtocolRawData::Binary(v) => r matches Ok(p) && p.status == (if inverts_signal(config.telemetry_metadata) {
                    !v
                } else {
                    v
                }) && p.status_text@ == status_text_of(p.status, config.telemetry_metadata),
                _ => r matches Err(ComSrvError::ConfigError(m)) && m@ == "Invalid signaling data type"@,
            },
    {
        let binary_value = match raw_data.as_binary() {
            Some(v) => v,
            None => return Err(ComSrvError::ConfigError(string_of("Invalid signaling data type"))),
        };
        let status = self.apply_signal_invert(binary_value, &config.telemetry_metadata);
        let status_text = self.get_status_description(status, &config.telemetry_metadata);
        Ok(SignalingPoint { status, status_text, timestamp: current_time() })
    }

    /// Processes control data: the binary value with the point's inversion
    /// applied, the text for the resulting command, and the status `Completed`;
    /// data that is not binary is a configuration error.
    pub fn process_control_data(&self, raw_data: ProtocolRawData, config: &UniversalPointConfig) -> (r: Result<
        ControlPoint,
        ComSrvError,
    >)
        ensures
            match raw_data {
                ProtocolRawData::Binary(v) => r matches Ok(p) && p.current_state == (if inverts_control(
                    config.telemetry_metadata,
                ) {
                    !v
                } else {
                    v
                }) && p.command_text@ == command_text_of(p.current_state, config.telemetry_metadata)
                    && p.execution_status == ExecutionStatus::Completed,
                _ => r matches Err(ComSrvError::ConfigError(m)) && m@ == "Invalid control data type"@,
            },
    {
        let binary_value = match raw_data.as_binary() {
            Some(v) => v,
            None => return Err(ComSrvError::ConfigError(string_of("Invalid control data type"))),
        };
        let current_state = self.apply_control_invert(binary_value, &config.telemetry_metadata);
        let command_text = self.get_command_description(current_state, &config.telemetry_metadata);
        Ok(ControlPoint {
            current_state,
            command_text,
            execution_status: ExecutionStatus::Completed,
            timestamp: current_time(),
        })
    }

    /// Prepares a control command for the protocol: the command with the point's
    /// control inversion applied, as binary data.
    pub fn prepare_control_command(&self, command: bool, config: &UniversalPointConfig) -> (r: Result<
        ProtocolRawData,
        ComSrvError,
    >)
        ensures
            r == Ok::<ProtocolRawData, ComSrvError>(ProtocolRawData::Binary(if inverts_control(config.telemetry_metadata) {
                !command
            } else {
                command
            })),
    {
        let protocol_command = self.apply_control_invert(command, &config.telemetry_metadata);
        Ok(ProtocolRawData::Binary(protocol_command))
    }
}

/// Inverting twice gives the value back: preparing a command and reading
/// back the state it produced agree under the same metadata.
pub proof fn lemma_control_invert_involutive(value: bool, m: Option<TelemetryMetadata>)
    ensures
        (if inverts_control(m) {
            !(if inverts_control(m) {
                !value
            } else {
                value
            })
        } else {
            (if inverts_control(m) {
                !value
            } else {
                value
            })
        }) == value,
{
}

/// Inverting a signal twice gives the signal back.
pub proof fn lemma_signal_invert_involutive(value: bool, m: Option<TelemetryMetadata>)
    ensures
        (if inverts_signal(m) {
            !(if inverts_signal(m) {
                !value
            } else {
                value
            })
        } else {
            (if inverts_signal(m) {
                !value
            } else {
                value
            })
        }) == value,
{
}

/// A point identifier qualified by its telemetry type.
#[derive(Debug, Clone, Copy, PartialEq, Eq, Hash, Structural)]
pub struct TelemetryPointId {
    /// The point's telemetry type.
    pub telemetry_type: TelemetryType,
    /// The point's number.
    pub point_id: u32,
}

/// The telemetry type that a lowercased type word names.
pub open spec fn type_of_word(w: Seq<char>) -> Option<TelemetryType> {
    if w == "telemetry"@ {
        Some(TelemetryType::Telemetry)
    } else if w == "signaling"@ {
        Some(TelemetryType::Signaling)
    } else if w == "control"@ {
        Some(TelemetryType::Control)
    } else if w == "setpoint"@ {
        Some(TelemetryType::Setpoint)
    } else {
        None
    }
}

/// What parsing `type:id` text gives: exactly two colon-separated parts, a type word
/// that lowercases to one of the four type names, and a decimal `u32`.
pub open spec fn point_id_parse(s: Seq<char>) -> Result<TelemetryPointId, Seq<char>> {
    let parts = split_on(s, ':');
    if parts.len() != 2 {
        Err("Invalid point ID format, expected 'type:id'"@)
    } else {
        match type_of_word(lowered(parts[0])) {
            None => Err("Unknown telemetry type: "@ + parts[0]),
            Some(t) => match parse_unsigned(parts[1], u32::MAX as nat) {
                Some(v) => Ok(TelemetryPointId { telemetry_type: t, point_id: v as u32 }),
                None => Err("Invalid point ID: "@ + parts[1]),
            },
        }
    }
}

impl TelemetryPointId {
    /// A point identifier.
    pub fn new(telemetry_type: TelemetryType, point_id: u32) -> (r: Self)
        ensures
            r.telemetry_type == telemetry_type,
            r.point_id == point_id,
    {
        TelemetryPointId { telemetry_type, point_id }
    }

    /// The identifier as `English name:number`.
    pub fn to_string(&self) -> (s: String)
        ensures
            s@ == english_name_of(self.telemetry_type) + ":"@ + decimal_of(self.point_id as nat),
    {
        let mut s = String::new();
        push_str(&mut s, self.telemetry_type.english_name());
        push_str(&mut s, ":");
        push_decimal(&mut s, self.point_id as u64);
        assert(s@ =~= english_name_of(self.telemetry_type) + ":"@ + decimal_of(self.point_id as nat));
        s
    }

    /// Parses `type:id` text, where the type word is matched after lowercasing.
    pub fn from_string(s: &str) -> (r: Result<Self, ComSrvError>)
        ensures
            match point_id_parse(s@) {
                Ok(id) => r == Ok::<Self, ComSrvError>(id),
                Err(m) => r matches Err(ComSrvError::ConfigError(e)) && e@ == m,
            },
    {
        let parts = split_char(s, ':');
        if parts.len() != 2 {
            return Err(ComSrvError::ConfigError(string_of("Invalid point ID format, expected 'type:id'")));
        }
        let word = to_lowercase(parts[0].as_str());
        let telemetry_type = if str_eq(word.as_str(), "telemetry") {
            TelemetryType::Telemetry
        } else if str_eq(word.as_str(), "signaling") {
            TelemetryType::Signaling
        } else if str_eq(word.as_str(), "control") {
            TelemetryType::Control
        } else if str_eq(word.as_str(), "setpoint") {
            TelemetryType::Setpoint
        } else {
            let mut m = String::new();
            push_str(&mut m, "Unknown telemetry type: ");
            push_str(&mut m, parts[0].as_str());
            return Err(ComSrvError::ConfigError(m));
        };
        match parse_u32(parts[1].as_str()) {
            Some(point_id) => Ok(TelemetryPointId { telemetry_type, point_id }),
            None => {
                let mut m = String::new();
                push_str(&mut m, "Invalid point ID: ");
                push_str(&mut m, parts[1].as_str());
                Err(ComSrvError::ConfigError(m))
            },
        }
    }
}

/// The lowercase word that names a telemetry type in point identifiers.
pub open spec fn type_word(t: TelemetryType) -> Seq<char> {
    match t {
        TelemetryType::Telemetry => "telemetry"@,
        TelemetryType::Signaling => "signaling"@,
        TelemetryType::Control => "control"@,
        TelemetryType::Setpoint => "setpoint"@,
    }
}

/// A point identifier written as its lowercase type word, a colon and its decimal
/// number parses back to the same identifier.
pub proof fn lemma_point_id_text_round_trip(t: TelemetryType, n: u32)
    ensures
        point_id_parse(type_word(t) + ":"@ + decimal_of(n as nat)) == Ok::<TelemetryPointId, Seq<char>>(
            TelemetryPointId { telemetry_type: t, point_id: n },
        ),
{
    reveal_strlit(":");
    reveal_strlit("telemetry");
    reveal_strlit("signaling");
    reveal_strlit("control");
    reveal_strlit("setpoint");
    let w = type_word(t);
    let d = decimal_of(n as nat);
    lemma_decimal_digits(n as nat);
    lemma_parse_decimal(n as nat, u32::MAX as nat);
    assert(!d.contains(':')) by {
        if d.contains(':') {
            let i = choose|i: int| 0 <= i < d.len() && d[i] == ':';
            assert(is_digit_char(d[i]));
        }
    }
    assert(!w.contains(':')) by {
        if w.contains(':') {
            let i = choose|i: int| 0 <= i < w.len() && w[i] == ':';
        }
    }
    assert(":"@ =~= seq![':']);
    lemma_split_pair(w, d, ':');
    assert(is_ascii_text(w));
    assert(ascii_lower(w) =~= w);
    assert(lowered(w) == w);
    assert("telemetry"@ != "signaling"@) by {
        assert("telemetry"@[0] != "signaling"@[0]);
    }
    assert("telemetry"@.len() == 9 && "signaling"@.len() == 9 && "control"@.len() == 7 && "setpoint"@.len() == 8);
    assert("telemetry"@ != "control"@ && "telemetry"@ != "setpoint"@);
    assert("signaling"@ != "control"@ && "signaling"@ != "setpoint"@);
    assert("control"@ != "setpoint"@);
    assert(type_of_word(w) == Some(t));
    let parts = split_on(w + ":"@ + d, ':');
    assert(w + ":"@ + d == w + seq![':'] + d);
    assert(parts == seq![w, d]);
}

/// Calculation status.
#[derive(Debug, Clone, Copy, PartialEq, Eq, Structural)]
pub enum CalculationStatus {
    /// Success
    Success,
    /// Incomplete source data
    IncompleteSourceData,
    /// Expression error
    ExpressionError,
    /// Calculation error
    CalculationError,
    /// Target point not found
    TargetPointNotFound,
    /// Result type mismatch
    TypeMismatch,
}

} // verus!
