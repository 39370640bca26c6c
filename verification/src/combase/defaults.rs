//! System-wide default values, chosen so that a point or a channel needs as little
//! configuration as possible.

use vstd::prelude::*;
use crate::combase::telemetry::{TelemetryType, analog_kind, readable_kind};
use crate::param_map::ParamMap;
use crate::text::{
    contains_run, is_ascii_or_ideograph_text, lemma_lowered_idempotent, lowered, seq_contains_run, str_eq, string_of,
    to_lowercase,
};

verus! {

/// Default Modbus slave id.
pub const DEFAULT_SLAVE_ID: u8 = 1;
/// Default request timeout in milliseconds.
pub const DEFAULT_TIMEOUT_MS: u32 = 3000;
/// Default number of retries.
pub const DEFAULT_RETRY_COUNT: u32 = 3;
/// Default delay between retries in milliseconds.
pub const DEFAULT_RETRY_INTERVAL_MS: u32 = 1000;
/// Default inversion flag of a point (not inverted).
pub const DEFAULT_REVERSE: u8 = 0;
/// Default polling interval in milliseconds.
pub const DEFAULT_POLLING_INTERVAL_MS: u64 = 1000;
/// Default batch size.
pub const DEFAULT_BATCH_SIZE: u32 = 100;
/// Default number of points read per polling cycle.
pub const DEFAULT_MAX_POINTS_PER_CYCLE: u32 = 100;
/// Default delay between point reads in milliseconds.
pub const DEFAULT_POINT_READ_DELAY_MS: u64 = 10;
/// Modbus function code: read coils.
pub const FC_READ_COILS: u8 = 1;
/// Modbus function code: read discrete inputs.
pub const FC_READ_DISCRETE_INPUTS: u8 = 2;
/// Modbus function code: read holding registers.
pub const FC_READ_HOLDING_REGISTERS: u8 = 3;
/// Modbus function code: read input registers.
pub const FC_READ_INPUT_REGISTERS: u8 = 4;
/// Modbus function code: write single coil.
pub const FC_WRITE_SINGLE_COIL: u8 = 5;
/// Modbus function code: write single register.
pub const FC_WRITE_SINGLE_REGISTER: u8 = 6;
/// Modbus function code: write multiple coils.
pub const FC_WRITE_MULTIPLE_COILS: u8 = 15;
/// Modbus function code: write multiple registers.
pub const FC_WRITE_MULTIPLE_REGISTERS: u8 = 16;
/// Channels are enabled unless configured otherwise.
pub const DEFAULT_CHANNEL_ENABLED: bool = true;
/// Default size limit of a channel log file in bytes (10 MiB).
pub const DEFAULT_MAX_LOG_FILE_SIZE: u64 = 10485760;
/// Default number of kept channel log files.
pub const DEFAULT_MAX_LOG_FILES: u32 = 5;
/// Default retention of channel logs in days.
pub const DEFAULT_LOG_RETENTION_DAYS: u32 = 7;
/// Default Modbus TCP port.
pub const DEFAULT_TCP_PORT: u16 = 502;
/// Default serial baud rate.
pub const DEFAULT_SERIAL_BAUD: u32 = 9600;
/// Default serial data bits.
pub const DEFAULT_SERIAL_DATA_BITS: u8 = 8;
/// Default serial stop bits.
pub const DEFAULT_SERIAL_STOP_BITS: u8 = 1;

/// The Modbus function codes that points are read and written with.
#[derive(Debug, Clone, Copy, PartialEq, Eq, Hash, Structural)]
pub enum ModbusFunctionCode {
    /// Read coils (1)
    Read01,
    /// Read discrete inputs (2)
    Read02,
    /// Read holding registers (3)
    Read03,
    /// Read input registers (4)
    Read04,
    /// Write single coil (5)
    Write05,
    /// Write single register (6)
    Write06,
    /// Write multiple coils (15)
    Write0F,
    /// Write multiple registers (16)
    Write10,
}

/// The number that a function code stands for on the wire.
pub open spec fn function_code_number(f: ModbusFunctionCode) -> u8 {
    match f {
        ModbusFunctionCode::Read01 => 1,
        ModbusFunctionCode::Read02 => 2,
        ModbusFunctionCode::Read03 => 3,
        ModbusFunctionCode::Read04 => 4,
        ModbusFunctionCode::Write05 => 5,
        ModbusFunctionCode::Write06 => 6,
        ModbusFunctionCode::Write0F => 15,
        ModbusFunctionCode::Write10 => 16,
    }
}

impl ModbusFunctionCode {
    /// The function code's number.
    pub fn code(&self) -> (r: u8)
        ensures
            r == function_code_number(*self),
    {
        match self {
            ModbusFunctionCode::Read01 => FC_READ_COILS,
            ModbusFunctionCode::Read02 => FC_READ_DISCRETE_INPUTS,
            ModbusFunctionCode::Read03 => FC_READ_HOLDING_REGISTERS,
            ModbusFunctionCode::Read04 => FC_READ_INPUT_REGISTERS,
            ModbusFunctionCode::Write05 => FC_WRITE_SINGLE_COIL,
            ModbusFunctionCode::Write06 => FC_WRITE_SINGLE_REGISTER,
            ModbusFunctionCode::Write0F => FC_WRITE_MULTIPLE_COILS,
            ModbusFunctionCode::Write10 => FC_WRITE_MULTIPLE_REGISTERS,
        }
    }
}

/// The data type a point of the given kind defaults to.
pub open spec fn default_data_type_of(t: TelemetryType) -> Seq<char> {
    match t {
        TelemetryType::Telemetry | TelemetryType::Setpoint => "float32"@,
        TelemetryType::Signaling | TelemetryType::Control => "bool"@,
    }
}

/// The function code a point of the given kind defaults to: measurements read
/// holding registers, signals read discrete inputs, controls write a coil and
/// regulations write a register.
pub open spec fn default_function_code_of(t: TelemetryType) -> ModbusFunctionCode {
    match t {
        TelemetryType::Telemetry => ModbusFunctionCode::Read03,
        TelemetryType::Signaling => ModbusFunctionCode::Read02,
        TelemetryType::Control => ModbusFunctionCode::Write05,
        TelemetryType::Setpoint => ModbusFunctionCode::Write06,
    }
}

/// Points that are read default to a read function code (1 to 4) and points that
/// are written to a write function code (5 or 6).
pub proof fn lemma_default_code_matches_direction(t: TelemetryType)
    ensures
        readable_kind(t) <==> function_code_number(default_function_code_of(t)) <= 4,
        !readable_kind(t) ==> 5 <= function_code_number(default_function_code_of(t)) <= 6,
        analog_kind(t) <==> default_data_type_of(t) == "float32"@,
{
    reveal_strlit("float32");
    reveal_strlit("bool");
    assert("float32"@.len() == 7 && "bool"@.len() == 4);
}

/// Whether a lowercased name mentions one of two words.
pub open spec fn mentions(n: Seq<char>, a: Seq<char>, b: Seq<char>) -> bool {
    seq_contains_run(n, a) || seq_contains_run(n, b)
}

/// The unit that a lowercased signal name suggests, checked in this order: voltage,
/// current, power (reactive, apparent or active), energy, frequency, temperature,
/// pressure, flow, percentage; each in English or Chinese.
pub open spec fn default_unit_for(n: Seq<char>) -> Option<Seq<char>> {
    if mentions(n, "voltage"@, "电压"@) {
        Some("V"@)
    } else if mentions(n, "current"@, "电流"@) {
        Some("A"@)
    } else if mentions(n, "power"@, "功率"@) {
        if mentions(n, "reactive"@, "无功"@) {
            Some("kVar"@)
        } else if mentions(n, "apparent"@, "视在"@) {
            Some("kVA"@)
        } else {
            Some("kW"@)
        }
    } else if mentions(n, "energy"@, "电能"@) || seq_contains_run(n, "电量"@) {
        Some("kWh"@)
    } else if mentions(n, "frequency"@, "频率"@) {
        Some("Hz"@)
    } else if mentions(n, "temperature"@, "温度"@) {
        Some("°C"@)
    } else if mentions(n, "pressure"@, "压力"@) {
        Some("bar"@)
    } else if mentions(n, "flow"@, "流量"@) {
        Some("m³/h"@)
    } else if mentions(n, "percent"@, "百分"@) || seq_contains_run(n, "率"@) {
        Some("%"@)
    } else {
        None
    }
}

/// The channel parameters that a lowercased protocol name defaults to.
pub open spec fn channel_defaults_for(p: Seq<char>) -> Map<Seq<char>, Seq<char>> {
    if p == "modbus_tcp"@ {
        map![
            "port"@ => "502"@,
            "timeout"@ => "3000"@,
            "retry_count"@ => "3"@,
            "retry_interval"@ => "1000"@,
        ]
    } else if p == "modbus_rtu"@ {
        map![
            "baud_rate"@ => "9600"@,
            "data_bits"@ => "8"@,
            "stop_bits"@ => "1"@,
            "parity"@ => "none"@,
            "timeout"@ => "3000"@,
            "retry_count"@ => "3"@,
        ]
    } else if p == "iec104"@ {
        map![
            "port"@ => "2404"@,
            "k"@ => "12"@,
            "w"@ => "8"@,
            "t1"@ => "15"@,
            "t2"@ => "10"@,
            "t3"@ => "20"@,
        ]
    } else if p == "can"@ {
        map!["bitrate"@ => "500000"@, "timeout"@ => "1000"@]
    } else {
        Map::empty()
    }
}

/// Get default data type for telemetry type.
pub fn get_default_data_type(telemetry_type: &TelemetryType) -> (r: &'static str)
    ensures
        r@ == default_data_type_of(*telemetry_type),
{
    match telemetry_type {
        TelemetryType::Telemetry | TelemetryType::Setpoint => "float32",
        TelemetryType::Signaling | TelemetryType::Control => "bool",
    }
}

/// Get default function code for telemetry type.
pub fn get_default_function_code(telemetry_type: &TelemetryType) -> (r: ModbusFunctionCode)
    ensures
        r == default_function_code_of(*telemetry_type),
{
    match telemetry_type {
        TelemetryType::Telemetry => ModbusFunctionCode::Read03,
        TelemetryType::Signaling => ModbusFunctionCode::Read02,
        TelemetryType::Control => ModbusFunctionCode::Write05,
        TelemetryType::Setpoint => ModbusFunctionCode::Write06,
    }
}

/// Whether `name` contains `a` or `b`.
fn mentions_either(name: &str, a: &str, b: &str) -> (r: bool)
    ensures
        r == mentions(name@, a@, b@),
{
    contains_run(name, a) || contains_run(name, b)
}

/// The default unit does not depend on case: a name of ASCII and CJK ideographs
/// and its lowercase form give the same unit.
pub proof fn lemma_default_unit_ignores_case(name: Seq<char>)
    requires
        is_ascii_or_ideograph_text(name),
    ensures
        is_ascii_or_ideograph_text(lowered(name)),
        default_unit_for(lowered(lowered(name))) == default_unit_for(lowered(name)),
{
    lemma_lowered_idempotent(name);
}

/// Get default unit for common measurement types, from the lowercased signal name.
pub fn get_default_unit(signal_name: &str) -> (r: Option<&'static str>)
    ensures
        match default_unit_for(lowered(signal_name@)) {
            Some(u) => r matches Some(s) && s@ == u,
            None => r is None,
        },
{
    let lowered = to_lowercase(signal_name);
    let n = lowered.as_str();
    if mentions_either(n, "voltage", "电压") {
        return Some("V");
    }
    if mentions_either(n, "current", "电流") {
        return Some("A");
    }
    if mentions_either(n, "power", "功率") {
        if mentions_either(n, "reactive", "无功") {
            return Some("kVar");
        } else if mentions_either(n, "apparent", "视在") {
            return Some("kVA");
        } else {
            return Some("kW");
        }
    }
    if mentions_either(n, "energy", "电能") || contains_run(n, "电量") {
        return Some("kWh");
    }
    if mentions_either(n, "frequency", "频率") {
        return Some("Hz");
    }
    if mentions_either(n, "temperature", "温度") {
        return Some("°C");
    }
    if mentions_either(n, "pressure", "压力") {
        return Some("bar");
    }
    if mentions_either(n, "flow", "流量") {
        return Some("m³/h");
    }
    if mentions_either(n, "percent", "百分") || contains_run(n, "率") {
        return Some("%");
    }
    None
}

/// Stores `value` under `key`.
fn put(params: &mut ParamMap, key: &str, value: &str)
    requires
        old(params).wf(),
    ensures
        final(params).wf(),
        final(params)@ == old(params)@.insert(key@, value@),
{
    params.insert(string_of(key), string_of(value));
}

/// Channel parameter defaults based on protocol, matched after lowercasing its name;
/// an unknown protocol has none.
pub fn get_channel_defaults(protocol: &str) -> (r: ParamMap)
    ensures
        r.wf(),
        r@ == channel_defaults_for(lowered(protocol@)),
{
    let mut params = ParamMap::new();
    let lowered = to_lowercase(protocol);
    let p = lowered.as_str();
    if str_eq(p, "modbus_tcp") {
        put(&mut params, "port", "502");
        put(&mut params, "timeout", "3000");
        put(&mut params, "retry_count", "3");
        put(&mut params, "retry_interval", "1000");
    } else if str_eq(p, "modbus_rtu") {
        put(&mut params, "baud_rate", "9600");
        put(&mut params, "data_bits", "8");
        put(&mut params, "stop_bits", "1");
        put(&mut params, "parity", "none");
        put(&mut params, "timeout", "3000");
        put(&mut params, "retry_count", "3");
    } else if str_eq(p, "iec104") {
        put(&mut params, "port", "2404");
        put(&mut params, "k", "12");
        put(&mut params, "w", "8");
        put(&mut params, "t1", "15");
        put(&mut params, "t2", "10");
        put(&mut params, "t3", "20");
    } else if str_eq(p, "can") {
        put(&mut params, "bitrate", "500000");
        put(&mut params, "timeout", "1000");
    }
    params
}

} // verus!
