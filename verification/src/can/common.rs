//! CAN protocol common types: priorities, frame formats, interfaces, bit rates,
//! payload layouts and error kinds.

use vstd::prelude::*;
use std::time::SystemTime;
use crate::error::push_str;
use crate::text::{decimal_of, push_decimal, push_upper_hex, upper_hex_of};

verus! {

/// CAN message ID type
pub type CanId = u32;

/// CAN data payload (0-8 bytes for CAN 2.0, 0-64 bytes for CAN FD)
pub type CanData = Vec<u8>;

/// CAN message priority levels.
#[derive(Debug, Clone, Copy, PartialEq, Eq, Hash, Structural)]
pub enum CanPriority {
    /// Highest priority (0)
    Highest,
    /// High priority (1-3)
    High,
    /// Medium priority (4-5)
    Medium,
    /// Low priority (6-7)
    Low,
}

impl CanPriority {
    /// The lowest priority level that the variant stands for.
    pub fn level(&self) -> (r: u8)
        ensures
            r == match *self {
                CanPriority::Highest => 0u8,
                CanPriority::High => 1u8,
                CanPriority::Medium => 4u8,
                CanPriority::Low => 6u8,
            },
    {
        match self {
            CanPriority::Highest => 0,
            CanPriority::High => 1,
            CanPriority::Medium => 4,
            CanPriority::Low => 6,
        }
    }
}

/// CAN frame format types.
#[derive(Debug, Clone, Copy, PartialEq, Eq, Hash, Structural)]
pub enum CanFrameFormat {
    /// Standard CAN 2.0A (11-bit identifier)
    Standard,
    /// Extended CAN 2.0B (29-bit identifier)
    Extended,
}

/// CAN interface types supported by the system.
#[derive(Debug, Clone, PartialEq, Eq, Hash)]
pub enum CanInterfaceType {
    /// Linux SocketCAN interface
    SocketCan(String),
    /// Peak CAN interface
    PeakCan(String),
    /// Virtual CAN for testing
    Virtual(String),
    /// USB CAN adapter
    UsbCan(String),
}

/// CAN bit rate configurations.
#[derive(Debug, Clone, Copy, PartialEq, Eq, Hash, Structural)]
pub enum CanBitRate {
    /// 10 kbit/s
    Kbps10,
    /// 20 kbit/s
    Kbps20,
    /// 50 kbit/s
    Kbps50,
    /// 100 kbit/s
    Kbps100,
    /// 125 kbit/s
    Kbps125,
    /// 250 kbit/s
    Kbps250,
    /// 500 kbit/s
    Kbps500,
    /// 800 kbit/s
    Kbps800,
    /// 1 Mbit/s
    Mbps1,
}

/// The rate in bits per second that a bit-rate variant stands for.
pub open spec fn bit_rate_value(r: CanBitRate) -> u32 {
    match r {
        CanBitRate::Kbps10 => 10000,
        CanBitRate::Kbps20 => 20000,
        CanBitRate::Kbps50 => 50000,
        CanBitRate::Kbps100 => 100000,
        CanBitRate::Kbps125 => 125000,
        CanBitRate::Kbps250 => 250000,
        CanBitRate::Kbps500 => 500000,
        CanBitRate::Kbps800 => 800000,
        CanBitRate::Mbps1 => 1000000,
    }
}

impl CanBitRate {
    /// The rate in bits per second.
    pub fn bits_per_second(&self) -> (r: u32)
        ensures
            r == bit_rate_value(*self),
    {
        match self {
            CanBitRate::Kbps10 => 10000,
            CanBitRate::Kbps20 => 20000,
            CanBitRate::Kbps50 => 50000,
            CanBitRate::Kbps100 => 100000,
            CanBitRate::Kbps125 => 125000,
            CanBitRate::Kbps250 => 250000,
            CanBitRate::Kbps500 => 500000,
            CanBitRate::Kbps800 => 800000,
            CanBitRate::Mbps1 => 1000000,
        }
    }
}

/// CAN data extraction configuration.
#[derive(Debug, Clone, Copy)]
pub struct CanDataConfig {
    /// Data type for extraction
    pub data_type: CanDataType,
    /// Start byte position (0-based)
    pub start_byte: u8,
    /// Bit offset within start byte (0-7)
    pub bit_offset: u8,
    /// Length in bits for bit-field extraction
    pub bit_length: u8,
    /// Byte order (big endian/little endian)
    pub byte_order: CanByteOrder,
}

/// CAN data types for message payload interpretation.
#[derive(Debug, Clone, Copy, PartialEq, Eq, Hash, Structural)]
pub enum CanDataType {
    /// Boolean (1 bit)
    Bool,
    /// 8-bit unsigned integer
    UInt8,
    /// 8-bit signed integer
    Int8,
    /// 16-bit unsigned integer
    UInt16,
    /// 16-bit signed integer
    Int16,
    /// 32-bit unsigned integer
    UInt32,
    /// 32-bit signed integer
    Int32,
    /// 64-bit unsigned integer
    UInt64,
    /// 64-bit signed integer
    Int64,
    /// 32-bit floating point
    Float32,
    /// 64-bit floating point
    Float64,
    /// Raw byte array
    Raw,
    /// ASCII string
    String(usize),
}

/// The number of payload bytes a data type occupies.
pub open spec fn data_type_size(t: CanDataType) -> usize {
    match t {
        CanDataType::Bool => 1,
        CanDataType::UInt8 => 1,
        CanDataType::Int8 => 1,
        CanDataType::UInt16 => 2,
        CanDataType::Int16 => 2,
        CanDataType::UInt32 => 4,
        CanDataType::Int32 => 4,
        CanDataType::Float32 => 4,
        CanDataType::UInt64 => 8,
        CanDataType::Int64 => 8,
        CanDataType::Float64 => 8,
        CanDataType::Raw => 8,
        CanDataType::String(len) => len,
    }
}

impl CanDataType {
    /// Get the size in bytes for this data type.
    pub fn size_bytes(&self) -> (r: usize)
        ensures
            r == data_type_size(*self),
    {
        match self {
            CanDataType::Bool => 1,
            CanDataType::UInt8 | CanDataType::Int8 => 1,
            CanDataType::UInt16 | CanDataType::Int16 => 2,
            CanDataType::UInt32 | CanDataType::Int32 | CanDataType::Float32 => 4,
            CanDataType::UInt64 | CanDataType::Int64 | CanDataType::Float64 => 8,
            CanDataType::Raw => 8,
            CanDataType::String(len) => *len,
        }
    }
}

/// Byte order for multi-byte data types.
#[derive(Debug, Clone, Copy, PartialEq, Eq, Hash, Structural)]
pub enum CanByteOrder {
    /// Big endian (network byte order)
    BigEndian,
    /// Little endian (Intel byte order)
    LittleEndian,
}

/// CAN error types.
#[derive(Debug, Clone, PartialEq, Eq, Hash)]
pub enum CanError {
    /// Interface not available
    InterfaceNotAvailable(String),
    /// Invalid CAN ID
    InvalidCanId(CanId),
    /// Invalid data length
    InvalidDataLength(usize),
    /// Frame format mismatch
    FrameFormatMismatch,
    /// Bus off error
    BusOff,
    /// Error passive state
    ErrorPassive,
    /// Acknowledgment error
    AckError,
    /// Bit error
    BitError,
    /// Form error
    FormError,
    /// Stuff error
    StuffError,
    /// CRC error
    CrcError,
    /// Timeout error
    Timeout,
    /// General I/O error
    IoError(String),
}

/// The human-readable text of an error.
pub open spec fn can_error_text(e: CanError) -> Seq<char> {
    match e {
        CanError::InterfaceNotAvailable(name) => "CAN interface not available: "@ + name@,
        CanError::InvalidCanId(id) => "Invalid CAN ID: 0x"@ + upper_hex_of(id as nat),
        CanError::InvalidDataLength(len) => "Invalid data length: "@ + decimal_of(len as nat)
            + " bytes"@,
        CanError::FrameFormatMismatch => "CAN frame format mismatch"@,
        CanError::BusOff => "CAN bus off error"@,
        CanError::ErrorPassive => "CAN error passive state"@,
        CanError::AckError => "CAN acknowledgment error"@,
        CanError::BitError => "CAN bit error"@,
        CanError::FormError => "CAN form error"@,
        CanError::StuffError => "CAN stuff error"@,
        CanError::CrcError => "CAN CRC error"@,
        CanError::Timeout => "CAN timeout error"@,
        CanError::IoError(msg) => "CAN I/O error: "@ + msg@,
    }
}

impl CanError {
    /// The human-readable text of the error.
    pub fn to_string(&self) -> (s: String)
        ensures
            s@ == can_error_text(*self),
    {
        let mut s = String::new();
        match self {
            CanError::InterfaceNotAvailable(name) => {
                push_str(&mut s, "CAN interface not available: ");
                push_str(&mut s, name.as_str());
            },
            CanError::InvalidCanId(id) => {
                push_str(&mut s, "Invalid CAN ID: 0x");
                push_upper_hex(&mut s, *id as u64);
            },
            CanError::InvalidDataLength(len) => {
                push_str(&mut s, "Invalid data length: ");
                push_decimal(&mut s, *len as u64);
                push_str(&mut s, " bytes");
            },
            CanError::FrameFormatMismatch => push_str(&mut s, "CAN frame format mismatch"),
            CanError::BusOff => push_str(&mut s, "CAN bus off error"),
            CanError::ErrorPassive => push_str(&mut s, "CAN error passive state"),
            CanError::AckError => push_str(&mut s, "CAN acknowledgment error"),
            CanError::BitError => push_str(&mut s, "CAN bit error"),
            CanError::FormError => push_str(&mut s, "CAN form error"),
            CanError::StuffError => push_str(&mut s, "CAN stuff error"),
            CanError::CrcError => push_str(&mut s, "CAN CRC error"),
            CanError::Timeout => push_str(&mut s, "CAN timeout error"),
            CanError::IoError(msg) => {
                push_str(&mut s, "CAN I/O error: ");
                push_str(&mut s, msg.as_str());
            },
        }
        assert(s@ =~= can_error_text(*self));
        s
    }
}

/// CAN message mapping for point table integration. The scale, offset and
/// transmission rate are the bits of `f64`s.
#[derive(Debug, Clone)]
pub struct CanMessageMapping {
    /// Unique point name/identifier
    pub name: String,
    /// Human-readable display name
    pub display_name: Option<String>,
    /// CAN message ID
    pub can_id: CanId,
    /// Frame format (standard/extended)
    pub frame_format: CanFrameFormat,
    /// Data extraction configuration
    pub data_config: CanDataConfig,
    /// Scaling factor for numeric values
    pub scale_bits: u64,
    /// Offset for numeric values
    pub offset_bits: u64,
    /// Unit of measurement
    pub unit: Option<String>,
    /// Description
    pub description: Option<String>,
    /// Access mode (read/write/read_write)
    pub access_mode: String,
    /// Message transmission rate (Hz, 0 = on-demand)
    pub transmission_rate_bits: u64,
}

/// CAN bus statistics. The bus utilization is the bits of an `f64`.
#[derive(Debug, Clone, Copy)]
pub struct CanStatistics {
    /// Total messages sent
    pub messages_sent: u64,
    /// Total messages received
    pub messages_received: u64,
    /// Messages with errors
    pub error_messages: u64,
    /// Bus utilization as a fraction
    pub bus_utilization_bits: u64,
    /// Last error time
    pub last_error_time: Option<SystemTime>,
}

/// Statistics with every count zero and no error time.
pub open spec fn is_zero_statistics(s: CanStatistics) -> bool {
    &&& s.messages_sent == 0
    &&& s.messages_received == 0
    &&& s.error_messages == 0
    &&& s.bus_utilization_bits == 0
    &&& s.last_error_time is None
}

impl Default for CanStatistics {
    fn default() -> (s: Self)
        ensures
            is_zero_statistics(s),
    {
        CanStatistics {
            messages_sent: 0,
            messages_received: 0,
            error_messages: 0,
            bus_utilization_bits: 0,
            last_error_time: None,
        }
    }
}

} // verus!
