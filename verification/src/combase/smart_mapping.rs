//! Protocol mappings that store only what differs from the defaults: a point's
//! Modbus slave, function code, timeout and data format fall back to system
//! defaults when its parameters do not name them.

use vstd::prelude::*;
use crate::combase::defaults::{
    DEFAULT_SLAVE_ID, DEFAULT_TIMEOUT_MS, default_data_type_of, default_function_code_of,
    function_code_number, get_default_data_type, get_default_function_code,
};
use crate::combase::telemetry::TelemetryType;
use crate::error::push_str;
use crate::param_map::ParamMap;
use crate::text::{decimal_of, lemma_parse_decimal, parse_u16, parse_u32, parse_u8, parse_unsigned, push_decimal, string_of, u64_to_decimal};

verus! {

/// Protocol mapping that provides defaults for the parameters it leaves out.
#[derive(Debug, Clone)]
pub struct SmartProtocolMapping {
    /// The point's number.
    pub point_id: u32,
    /// The point's signal name.
    pub signal_name: String,
    /// Protocol parameters; common keys are slave_id, function_code, address and data_format.
    pub protocol_params: ParamMap,
}

/// The number stored under `key`, read as an unsigned integer no larger than `max`;
/// `default` when the key is missing or its text is not such a number.
pub open spec fn number_or(m: Map<Seq<char>, Seq<char>>, key: Seq<char>, max: nat, default: nat) -> nat {
    if m.contains_key(key) {
        match parse_unsigned(m[key], max) {
            Some(v) => v,
            None => default,
        }
    } else {
        default
    }
}

/// The slave id a mapping's parameters give.
pub open spec fn slave_id_of(m: Map<Seq<char>, Seq<char>>) -> nat {
    number_or(m, "slave_id"@, u8::MAX as nat, DEFAULT_SLAVE_ID as nat)
}

/// The function code a mapping's parameters give for a point of kind `t`.
pub open spec fn function_code_of(m: Map<Seq<char>, Seq<char>>, t: TelemetryType) -> nat {
    number_or(m, "function_code"@, u8::MAX as nat, function_code_number(default_function_code_of(t)) as nat)
}

/// The register address a mapping's parameters give: the text under `address`, or
/// else under `register_address`, read as a `u16`; or the message of the failure.
pub open spec fn register_address_of(m: Map<Seq<char>, Seq<char>>) -> Result<u16, Seq<char>> {
    let text = if m.contains_key("address"@) {
        Some(m["address"@])
    } else if m.contains_key("register_address"@) {
        Some(m["register_address"@])
    } else {
        None
    };
    match text {
        None => Err("No address specified in protocol_params"@),
        Some(s) => match parse_unsigned(s, u16::MAX as nat) {
            Some(v) => Ok(v as u16),
            None => Err("Invalid address format: "@ + s),
        },
    }
}

/// The data format a mapping's parameters give for a point of kind `t`.
pub open spec fn data_format_of(m: Map<Seq<char>, Seq<char>>, t: TelemetryType) -> Seq<char> {
    if m.contains_key("data_format"@) {
        m["data_format"@]
    } else {
        default_data_type_of(t)
    }
}

/// The timeout a mapping's parameters give, in milliseconds.
pub open spec fn timeout_of(m: Map<Seq<char>, Seq<char>>) -> nat {
    number_or(m, "timeout"@, u32::MAX as nat, DEFAULT_TIMEOUT_MS as nat)
}

/// The address text `slave_id:function_code:register_address` of a mapping, or the
/// message of the register address failure.
pub open spec fn address_string_of(m: Map<Seq<char>, Seq<char>>, t: TelemetryType) -> Result<Seq<char>, Seq<char>> {
    match register_address_of(m) {
        Ok(a) => Ok(decimal_of(slave_id_of(m)) + ":"@ + decimal_of(function_code_of(m, t)) + ":"@ + decimal_of(a as nat)),
        Err(e) => Err(e),
    }
}

/// The parameters a mapping made from minimal CSV data holds: the address always,
/// the slave id only when it differs from the default, the function code when given.
pub open spec fn minimal_params(register_address: u16, slave_id: Option<u8>, function_code: Option<u8>) -> Map<
    Seq<char>,
    Seq<char>,
> {
    let a = map!["address"@ => decimal_of(register_address as nat)];
    let b = match slave_id {
        Some(sid) => if sid != DEFAULT_SLAVE_ID {
            a.insert("slave_id"@, decimal_of(sid as nat))
        } else {
            a
        },
        None => a,
    };
    match function_code {
        Some(fc) => b.insert("function_code"@, decimal_of(fc as nat)),
        None => b,
    }
}

impl SmartProtocolMapping {
    /// Create a new mapping with minimal required fields.
    pub fn new(point_id: u32, signal_name: String, address: u16) -> (r: Self)
        ensures
            r.point_id == point_id,
            r.signal_name@ == signal_name@,
            r.protocol_params.wf(),
            r.protocol_params@ == map!["address"@ => decimal_of(address as nat)],
    {
        let mut protocol_params = ParamMap::new();
        protocol_params.insert(string_of("address"), u64_to_decimal(address as u64));
        SmartProtocolMapping { point_id, signal_name, protocol_params }
    }

    /// Get slave_id with default.
    pub fn get_slave_id(&self) -> (r: u8)
        requires
            self.protocol_params.wf(),
        ensures
            r == slave_id_of(self.protocol_params@),
    {
        match self.protocol_params.get("slave_id") {
            Some(s) => match parse_u8(s.as_str()) {
                Some(v) => v,
                None => DEFAULT_SLAVE_ID,
            },
            None => DEFAULT_SLAVE_ID,
        }
    }

    /// Get function_code with a default based on the telemetry type.
    pub fn get_function_code(&self, telemetry_type: &TelemetryType) -> (r: u8)
        requires
            self.protocol_params.wf(),
        ensures
            r == function_code_of(self.protocol_params@, *telemetry_type),
    {
        match self.protocol_params.get("function_code") {
            Some(s) => match parse_u8(s.as_str()) {
                Some(v) => v,
                None => get_default_function_code(telemetry_type).code(),
            },
            None => get_default_function_code(telemetry_type).code(),
        }
    }

    /// Get register address.
    pub fn get_register_address(&self) -> (r: Result<u16, String>)
        requires
            self.protocol_params.wf(),
        ensures
            match register_address_of(self.protocol_params@) {
                Ok(a) => r == Ok::<u16, String>(a),
                Err(m) => r matches Err(e) && e@ == m,
            },
    {
        let text = match self.protocol_params.get("address") {
            Some(s) => Some(s),
            None => self.protocol_params.get("register_address"),
        };
        match text {
            None => Err(string_of("No address specified in protocol_params")),
            Some(s) => match parse_u16(s.as_str()) {
                Some(v) => Ok(v),
                None => {
                    let mut m = string_of("Invalid address format: ");
                    push_str(&mut m, s.as_str());
                    Err(m)
                },
            },
        }
    }

    /// Get data format with a default based on the telemetry type.
    pub fn get_data_format(&self, telemetry_type: &TelemetryType) -> (r: String)
        requires
            self.protocol_params.wf(),
        ensures
            r@ == data_format_of(self.protocol_params@, *telemetry_type),
    {
        match self.protocol_params.get("data_format") {
            Some(s) => s.clone(),
            None => string_of(get_default_data_type(telemetry_type)),
        }
    }

    /// Get timeout with default.
    pub fn get_timeout_ms(&self) -> (r: u32)
        requires
            self.protocol_params.wf(),
        ensures
            r == timeout_of(self.protocol_params@),
    {
        match self.protocol_params.get("timeout") {
            Some(s) => match parse_u32(s.as_str()) {
                Some(v) => v,
                None => DEFAULT_TIMEOUT_MS,
            },
            None => DEFAULT_TIMEOUT_MS,
        }
    }

    /// Build address string in format "slave_id:function_code:register_address".
    pub fn build_address_string(&self, telemetry_type: &TelemetryType) -> (r: Result<String, String>)
        requires
            self.protocol_params.wf(),
        ensures
            match address_string_of(self.protocol_params@, *telemetry_type) {
                Ok(s) => r matches Ok(t) && t@ == s,
                Err(m) => r matches Err(e) && e@ == m,
            },
    {
        let slave_id = self.get_slave_id();
        let function_code = self.get_function_code(telemetry_type);
        let register_address = match self.get_register_address() {
            Ok(a) => a,
            Err(e) => {
                return Err(e);
            },
        };
        let mut s = String::new();
        push_decimal(&mut s, slave_id as u64);
        push_str(&mut s, ":");
        push_decimal(&mut s, function_code as u64);
        push_str(&mut s, ":");
        push_decimal(&mut s, register_address as u64);
        assert(s@ =~= decimal_of(slave_id as nat) + ":"@ + decimal_of(function_code as nat) + ":"@ + decimal_of(
            register_address as nat,
        ));
        Ok(s)
    }

    /// Create from minimal CSV data, storing only values that differ from the defaults.
    pub fn from_csv_minimal(
        point_id: u32,
        signal_name: String,
        register_address: u16,
        slave_id: Option<u8>,
        function_code: Option<u8>,
    ) -> (r: Self)
        ensures
            r.point_id == point_id,
            r.signal_name@ == signal_name@,
            r.protocol_params.wf(),
            r.protocol_params@ == minimal_params(register_address, slave_id, function_code),
    {
        let mut protocol_params = ParamMap::new();
        protocol_params.insert(string_of("address"), u64_to_decimal(register_address as u64));
        if let Some(sid) = slave_id {
            if sid != DEFAULT_SLAVE_ID {
                protocol_params.insert(string_of("slave_id"), u64_to_decimal(sid as u64));
            }
        }
        if let Some(fc) = function_code {
            protocol_params.insert(string_of("function_code"), u64_to_decimal(fc as u64));
        }
        SmartProtocolMapping { point_id, signal_name, protocol_params }
    }
}

/// Simplified CSV mapping record.
#[derive(Debug, Clone)]
pub struct SimplifiedMappingRecord {
    /// The point's number.
    pub point_id: u32,
    /// The point's signal name.
    pub signal_name: String,
    /// The register address.
    pub register_address: u16,
    /// Slave id; the default is used when absent.
    pub slave_id: Option<u8>,
    /// Function code; the default for the point's kind is used when absent.
    pub function_code: Option<u8>,
    /// Data format; the default for the point's kind is used when absent.
    pub data_format: Option<String>,
}

impl SimplifiedMappingRecord {
    /// Convert to SmartProtocolMapping: the minimal parameters, and the data format
    /// when the record gives one.
    pub fn to_smart_mapping(&self) -> (r: SmartProtocolMapping)
        ensures
            r.point_id == self.point_id,
            r.signal_name@ == self.signal_name@,
            r.protocol_params.wf(),
            r.protocol_params@ == match self.data_format {
                Some(f) => minimal_params(self.register_address, self.slave_id, self.function_code).insert(
                    "data_format"@,
                    f@,
                ),
                None => minimal_params(self.register_address, self.slave_id, self.function_code),
            },
    {
        let mut m = SmartProtocolMapping::from_csv_minimal(
            self.point_id,
            self.signal_name.clone(),
            self.register_address,
            self.slave_id,
            self.function_code,
        );
        match &self.data_format {
            Some(f) => m.protocol_params.insert(string_of("data_format"), f.clone()),
            None => {},
        }
        m
    }
}

/// A mapping made from minimal CSV data gives back what it was made from: the
/// register address, the slave id (the default when none was given), and the function
/// code (the default for the point's kind when none was given).
pub proof fn lemma_minimal_mapping_round_trip(
    register_address: u16,
    slave_id: Option<u8>,
    function_code: Option<u8>,
    t: TelemetryType,
)
    ensures
        register_address_of(minimal_params(register_address, slave_id, function_code)) == Ok::<u16, Seq<char>>(
            register_address,
        ),
        slave_id_of(minimal_params(register_address, slave_id, function_code)) == match slave_id {
            Some(s) => s as nat,
            None => DEFAULT_SLAVE_ID as nat,
        },
        function_code_of(minimal_params(register_address, slave_id, function_code), t) == match function_code {
            Some(f) => f as nat,
            None => function_code_number(default_function_code_of(t)) as nat,
        },
{
    let m = minimal_params(register_address, slave_id, function_code);
    reveal_strlit("address");
    reveal_strlit("slave_id");
    reveal_strlit("function_code");
    lemma_parse_decimal(register_address as nat, u16::MAX as nat);
    if let Some(sid) = slave_id {
        lemma_parse_decimal(sid as nat, u8::MAX as nat);
    }
    if let Some(fc) = function_code {
        lemma_parse_decimal(fc as nat, u8::MAX as nat);
    }
    assert("address"@.len() == 7 && "slave_id"@.len() == 8 && "function_code"@.len() == 13);
}

} // verus!
