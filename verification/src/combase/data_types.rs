//! Basic data types of the communication service: polling settings, connection
//! states and raw protocol values with their index-checked accessors.

use vstd::prelude::*;
use crate::error::{ComSrvError, text_num_text};
use crate::combase::stats::current_time;
use crate::text::{decimal_of, string_of};
use std::time::SystemTime;

verus! {

/// Polling configuration parameters.
#[derive(Debug, Clone, Copy)]
pub struct PollingConfig {
    /// Enable or disable polling for this channel
    pub enabled: bool,
    /// Polling interval in milliseconds
    pub interval_ms: u64,
    /// Maximum number of points to read per polling cycle
    pub max_points_per_cycle: u32,
    /// Timeout for each polling operation
    pub timeout_ms: u64,
    /// Number of retry attempts on failure
    pub max_retries: u32,
    /// Delay between retries in milliseconds
    pub retry_delay_ms: u64,
    /// Enable batch reading optimization (protocol-specific)
    pub enable_batch_reading: bool,
    /// Minimum delay between individual point reads in milliseconds
    pub point_read_delay_ms: u64,
}

impl Default for PollingConfig {
    fn default() -> (c: Self)
        ensures
            c.enabled,
            c.interval_ms == 1000,
            c.max_points_per_cycle == 100,
            c.timeout_ms == 5000,
            c.max_retries == 3,
            c.retry_delay_ms == 1000,
            c.enable_batch_reading,
            c.point_read_delay_ms == 10,
    {
        PollingConfig {
            enabled: true,
            interval_ms: 1000,
            max_points_per_cycle: 100,
            timeout_ms: 5000,
            max_retries: 3,
            retry_delay_ms: 1000,
            enable_batch_reading: true,
            point_read_delay_ms: 10,
        }
    }
}

/// Connection state enumeration.
#[derive(Debug, Clone, PartialEq, Eq)]
pub enum ConnectionState {
    /// Channel is disconnected.
    Disconnected,
    /// Channel is attempting to establish a connection.
    Connecting,
    /// Channel is connected and operational.
    Connected,
    /// Channel encountered an error during connection.
    Error(String),
}

/// Protocol response data parsing, implemented by each protocol's response type.
pub trait ProtocolResponse {
    /// Parse response data as registers (u16 values).
    fn parse_registers(&self) -> Result<Vec<u16>, ComSrvError>;

    /// Parse response data as bits (bool values).
    fn parse_bits(&self) -> Result<Vec<bool>, ComSrvError>;
}

/// Raw protocol value representation.
#[derive(Debug, Clone, PartialEq)]
pub enum RawProtocolValue {
    /// Register values (u16)
    Registers(Vec<u16>),
    /// Bit values (bool)
    Bits(Vec<bool>),
    /// Single register value
    SingleRegister(u16),
    /// Single bit value
    SingleBit(bool),
}

/// What reading register `index` gives: the register, or the message of the
/// parameter error. A single register answers index 0 only.
pub open spec fn register_at(v: RawProtocolValue, index: usize) -> Result<u16, Seq<char>> {
    match v {
        RawProtocolValue::Registers(regs) => if index < regs@.len() {
            Ok(regs@[index as int])
        } else {
            Err("Register index "@ + decimal_of(index as nat) + " out of bounds"@)
        },
        RawProtocolValue::SingleRegister(r) => if index == 0 {
            Ok(r)
        } else {
            Err("Not a register value"@)
        },
        _ => Err("Not a register value"@),
    }
}

/// What reading bit `index` gives: the bit, or the message of the parameter error.
/// A single bit answers index 0 only.
pub open spec fn bit_at(v: RawProtocolValue, index: usize) -> Result<bool, Seq<char>> {
    match v {
        RawProtocolValue::Bits(bits) => if index < bits@.len() {
            Ok(bits@[index as int])
        } else {
            Err("Bit index "@ + decimal_of(index as nat) + " out of bounds"@)
        },
        RawProtocolValue::SingleBit(b) => if index == 0 {
            Ok(b)
        } else {
            Err("Not a bit value"@)
        },
        _ => Err("Not a bit value"@),
    }
}

/// What reading value `index` as a boolean gives: bits as they are, registers as
/// non-zero.
pub open spec fn bool_at(v: RawProtocolValue, index: usize) -> Result<bool, Seq<char>> {
    match v {
        RawProtocolValue::Bits(_) | RawProtocolValue::SingleBit(_) => bit_at(v, index),
        _ => match register_at(v, index) {
            Ok(w) => Ok(w != 0),
            Err(m) => Err(m),
        },
    }
}

/// A result whose error is a parameter error carrying the given message.
pub open spec fn parameter_result<T>(r: Result<T, ComSrvError>, expected: Result<T, Seq<char>>) -> bool {
    match expected {
        Ok(x) => r == Ok::<T, ComSrvError>(x),
        Err(m) => r matches Err(ComSrvError::InvalidParameter(e)) && e@ == m,
    }
}

impl RawProtocolValue {
    /// The value for a register-parsing outcome: the registers, or the parser's error.
    pub fn from_register_result(parsed: Result<Vec<u16>, ComSrvError>) -> (r: Result<Self, ComSrvError>)
        ensures
            match parsed {
                Ok(regs) => r == Ok::<Self, ComSrvError>(RawProtocolValue::Registers(regs)),
                Err(e) => r == Err::<Self, ComSrvError>(e),
            },
    {
        match parsed {
            Ok(regs) => Ok(RawProtocolValue::Registers(regs)),
            Err(e) => Err(e),
        }
    }

    /// The value for a bit-parsing outcome: the bits, or the parser's error.
    pub fn from_bit_result(parsed: Result<Vec<bool>, ComSrvError>) -> (r: Result<Self, ComSrvError>)
        ensures
            match parsed {
                Ok(bits) => r == Ok::<Self, ComSrvError>(RawProtocolValue::Bits(bits)),
                Err(e) => r == Err::<Self, ComSrvError>(e),
            },
    {
        match parsed {
            Ok(bits) => Ok(RawProtocolValue::Bits(bits)),
            Err(e) => Err(e),
        }
    }

    /// Create from protocol response registers.
    pub fn from_registers(response: &dyn ProtocolResponse) -> (r: Result<Self, ComSrvError>)
        ensures
            r matches Ok(v) ==> v is Registers,
    {
        Self::from_register_result(response.parse_registers())
    }

    /// Create from protocol response bits.
    pub fn from_bits(response: &dyn ProtocolResponse) -> (r: Result<Self, ComSrvError>)
        ensures
            r matches Ok(v) ==> v is Bits,
    {
        Self::from_bit_result(response.parse_bits())
    }

    /// Get register value at index.
    pub fn get_register(&self, index: usize) -> (r: Result<u16, ComSrvError>)
        ensures
            parameter_result(r, register_at(*self, index)),
    {
        match self {
            RawProtocolValue::Registers(regs) => {
                if index < regs.len() {
                    Ok(regs[index])
                } else {
                    Err(ComSrvError::InvalidParameter(text_num_text("Register index ", index as u64, " out of bounds")))
                }
            },
            RawProtocolValue::SingleRegister(val) => {
                if index == 0 {
                    Ok(*val)
                } else {
                    Err(ComSrvError::InvalidParameter(string_of("Not a register value")))
                }
            },
            _ => Err(ComSrvError::InvalidParameter(string_of("Not a register value"))),
        }
    }

    /// Get bit value at index.
    pub fn get_bit(&self, index: usize) -> (r: Result<bool, ComSrvError>)
        ensures
            parameter_result(r, bit_at(*self, index)),
    {
        match self {
            RawProtocolValue::Bits(bits) => {
                if index < bits.len() {
                    Ok(bits[index])
                } else {
                    Err(ComSrvError::InvalidParameter(text_num_text("Bit index ", index as u64, " out of bounds")))
                }
            },
            RawProtocolValue::SingleBit(val) => {
                if index == 0 {
                    Ok(*val)
                } else {
                    Err(ComSrvError::InvalidParameter(string_of("Not a bit value")))
                }
            },
            _ => Err(ComSrvError::InvalidParameter(string_of("Not a bit value"))),
        }
    }

    /// Convert to bool value: bits as they are, registers as non-zero.
    pub fn to_bool(&self, index: usize) -> (r: Result<bool, ComSrvError>)
        ensures
            parameter_result(r, bool_at(*self, index)),
    {
        match self {
            RawProtocolValue::Bits(_) | RawProtocolValue::SingleBit(_) => self.get_bit(index),
            RawProtocolValue::Registers(_) | RawProtocolValue::SingleRegister(_) => {
                match self.get_register(index) {
                    Ok(v) => Ok(v != 0),
                    Err(e) => Err(e),
                }
            },
        }
    }
}

/// Channel status for monitoring.
///
/// The last response time is held as the bits of its `f64` value in milliseconds
/// (`f64::to_bits`).
#[derive(Debug, Clone)]
pub struct ChannelStatus {
    /// Channel identifier
    pub id: String,
    /// Connection status
    pub connected: bool,
    /// Last response time in milliseconds, as the bits of an `f64`
    pub last_response_time_bits: u64,
    /// Last error message
    pub last_error: String,
    /// Last status update time
    pub last_update_time: SystemTime,
}

impl ChannelStatus {
    /// The status of a channel that is not connected, with no response time and no
    /// error, updated now.
    pub fn new(channel_id: &str) -> (s: Self)
        ensures
            s.id@ == channel_id@,
            !s.connected,
            s.last_response_time_bits == 0,
            s.last_error@ == Seq::<char>::empty(),
    {
        ChannelStatus {
            id: string_of(channel_id),
            connected: false,
            last_response_time_bits: 0,
            last_error: String::new(),
            last_update_time: current_time(),
        }
    }

    /// Whether an error is recorded.
    pub fn has_error(&self) -> (r: bool)
        ensures
            r == (self.last_error@.len() > 0),
    {
        self.last_error.as_str().unicode_len() > 0
    }

    /// The recorded error message.
    pub fn error_ref(&self) -> (r: &str)
        ensures
            r@ == self.last_error@,
    {
        self.last_error.as_str()
    }

    /// The channel identifier.
    pub fn id_ref(&self) -> (r: &str)
        ensures
            r@ == self.id@,
    {
        self.id.as_str()
    }

    /// Whether the channel is connected.
    pub fn is_connected(&self) -> (r: bool)
        ensures
            r == self.connected,
    {
        self.connected
    }

    /// The bits of the last response time.
    pub fn response_time_bits(&self) -> (r: u64)
        ensures
            r == self.last_response_time_bits,
    {
        self.last_response_time_bits
    }

    /// The last update time.
    pub fn last_update(&self) -> (r: SystemTime)
        ensures
            r == self.last_update_time,
    {
        self.last_update_time
    }
}

} // verus!
