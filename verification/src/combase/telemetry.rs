//! The four telemetry operations (measurement, signaling, control and
//! regulation): their classification, execution states and point metadata.

use vstd::prelude::*;

verus! {

/// Four telemetry types classification.
#[derive(Debug, Clone, Copy, PartialEq, Eq, Hash, Structural)]
pub enum TelemetryType {
    /// Analog measurements (temperature, pressure, flow, etc.)
    Telemetry,
    /// Digital status signals (switch status, alarm status, etc.)
    Signaling,
    /// Digital control commands (start/stop, on/off, etc.)
    Control,
    /// Analog regulation commands (setpoint adjustment, etc.)
    Setpoint,
}

/// The Chinese name of a telemetry type.
pub open spec fn chinese_name_of(t: TelemetryType) -> Seq<char> {
    match t {
        TelemetryType::Telemetry => "遥测"@,
        TelemetryType::Signaling => "遥信"@,
        TelemetryType::Control => "遥控"@,
        TelemetryType::Setpoint => "遥调"@,
    }
}

/// The English name of a telemetry type.
pub open spec fn english_name_of(t: TelemetryType) -> Seq<char> {
    match t {
        TelemetryType::Telemetry => "Measurement"@,
        TelemetryType::Signaling => "Signaling"@,
        TelemetryType::Control => "Control"@,
        TelemetryType::Setpoint => "Regulation"@,
    }
}

/// Measurement and signaling points are read; control and regulation points are written.
pub open spec fn readable_kind(t: TelemetryType) -> bool {
    t is Telemetry || t is Signaling
}

/// Measurement and regulation carry analog values; signaling and control carry digital ones.
pub open spec fn analog_kind(t: TelemetryType) -> bool {
    t is Telemetry || t is Setpoint
}

impl TelemetryType {
    /// Get Chinese name.
    pub fn chinese_name(&self) -> (r: &'static str)
        ensures
            r@ == chinese_name_of(*self),
    {
        match self {
            TelemetryType::Telemetry => "遥测",
            TelemetryType::Signaling => "遥信",
            TelemetryType::Control => "遥控",
            TelemetryType::Setpoint => "遥调",
        }
    }

    /// Get English name.
    pub fn english_name(&self) -> (r: &'static str)
        ensures
            r@ == english_name_of(*self),
    {
        match self {
            TelemetryType::Telemetry => "Measurement",
            TelemetryType::Signaling => "Signaling",
            TelemetryType::Control => "Control",
            TelemetryType::Setpoint => "Regulation",
        }
    }

    /// Check if this type is readable.
    pub fn is_readable(&self) -> (r: bool)
        ensures
            r == readable_kind(*self),
    {
        match self {
            TelemetryType::Telemetry | TelemetryType::Signaling => true,
            _ => false,
        }
    }

    /// Check if this type is writable.
    pub fn is_writable(&self) -> (r: bool)
        ensures
            r == !readable_kind(*self),
    {
        match self {
            TelemetryType::Control | TelemetryType::Setpoint => true,
            _ => false,
        }
    }

    /// Check if this type is analog.
    pub fn is_analog(&self) -> (r: bool)
        ensures
            r == analog_kind(*self),
    {
        match self {
            TelemetryType::Telemetry | TelemetryType::Setpoint => true,
            _ => false,
        }
    }

    /// Check if this type is digital.
    pub fn is_digital(&self) -> (r: bool)
        ensures
            r == !analog_kind(*self),
    {
        match self {
            TelemetryType::Signaling | TelemetryType::Control => true,
            _ => false,
        }
    }
}

/// Readable and writable split the four types, as do analog and digital; each pair
/// of answers names exactly one type.
pub proof fn lemma_telemetry_kinds_partition(t: TelemetryType)
    ensures
        readable_kind(t) && analog_kind(t) <==> t is Telemetry,
        readable_kind(t) && !analog_kind(t) <==> t is Signaling,
        !readable_kind(t) && !analog_kind(t) <==> t is Control,
        !readable_kind(t) && analog_kind(t) <==> t is Setpoint,
{
}

/// General execution status.
#[derive(Debug, Clone, PartialEq)]
pub enum ExecutionStatus {
    /// Standby
    Standby,
    /// Executing
    Executing,
    /// Completed
    Completed,
    /// Failed
    Failed(String),
}

/// Control operation execution status.
#[derive(Debug, Clone, PartialEq)]
pub enum ControlExecutionStatus {
    /// Standby
    Standby,
    /// Executing
    Executing,
    /// Success
    Success,
    /// Failed
    Failed(String),
    /// Timeout
    Timeout,
}

/// Regulation operation execution status.
#[derive(Debug, Clone, PartialEq)]
pub enum RegulationExecutionStatus {
    /// Standby
    Standby,
    /// Regulating
    Regulating,
    /// Success
    Success,
    /// Failed
    Failed(String),
    /// Timeout
    Timeout,
    /// Out of Range
    OutOfRange,
}

/// Extended telemetry metadata.
#[derive(Debug, Clone, PartialEq)]
pub struct TelemetryMetadata {
    /// For signaling points: text for the true state
    pub true_text: Option<String>,
    /// For signaling points: text for the false state
    pub false_text: Option<String>,
    /// For signaling points: invert the read state
    pub invert_signal: Option<bool>,
    /// For control points: text for the true command
    pub true_command: Option<String>,
    /// For control points: text for the false command
    pub false_command: Option<String>,
    /// For control points: invert the command
    pub invert_control: Option<bool>,
}

} // verus!
