//! The CAN client's decisions: how a frame payload is decoded according to a
//! data layout, how the interface and bit-rate parameters are read, and which
//! identifiers the receive filter keeps.

use vstd::prelude::*;
use crate::can::common::{
    CanBitRate, CanByteOrder, CanDataConfig, CanDataType, CanInterfaceType, CanMessageMapping, CanStatistics,
    bit_rate_value, data_type_size, is_zero_statistics,
};
use crate::can::frame::CanFrame;
use crate::combase::data_types::ChannelStatus;
use crate::combase::point_cache::{PointData, PointDataView};
use crate::combase::service::DefaultProtocol;
use crate::combase::stats::current_time;
use crate::error::{ComSrvError, push_str, text_str_text};
use crate::text::{decimal_of, has_prefix, push_decimal, starts_with, str_eq, string_of, suffix_from};

verus! {

/// A value read out of a frame payload, before any scaling.
#[derive(Debug, Clone, PartialEq)]
pub enum CanRawValue {
    /// A single bit.
    Bool(bool),
    /// An unsigned integer field.
    Unsigned(u64),
    /// A signed integer field.
    Signed(i64),
    /// The bit pattern of a 32-bit IEEE 754 float.
    Float32Bits(u32),
    /// A run of raw bytes.
    Bytes(Vec<u8>),
    /// The bytes of a text field, up to its first zero byte.
    Text(Vec<u8>),
}

/// The Debug name of a data type that the decoder does not handle.
pub open spec fn data_kind_name(t: CanDataType) -> Seq<char> {
    match t {
        CanDataType::Bool => "Bool"@,
        CanDataType::UInt8 => "UInt8"@,
        CanDataType::Int8 => "Int8"@,
        CanDataType::UInt16 => "UInt16"@,
        CanDataType::Int16 => "Int16"@,
        CanDataType::UInt32 => "UInt32"@,
        CanDataType::Int32 => "Int32"@,
        CanDataType::UInt64 => "UInt64"@,
        CanDataType::Int64 => "Int64"@,
        CanDataType::Float32 => "Float32"@,
        CanDataType::Float64 => "Float64"@,
        CanDataType::Raw => "Raw"@,
        CanDataType::String(_) => "String"@,
    }
}

/// Whether the decoder handles a data type.
pub open spec fn decodable(t: CanDataType) -> bool {
    match t {
        CanDataType::Bool | CanDataType::UInt8 | CanDataType::Int8 | CanDataType::UInt16
        | CanDataType::UInt32 | CanDataType::Float32 | CanDataType::Raw | CanDataType::String(_) => true,
        _ => false,
    }
}

/// Two payload bytes read in the given order.
pub open spec fn word16(b0: u8, b1: u8, order: CanByteOrder) -> nat {
    match order {
        CanByteOrder::BigEndian => (b0 as nat) * 256 + (b1 as nat),
        CanByteOrder::LittleEndian => (b1 as nat) * 256 + (b0 as nat),
    }
}

/// Four payload bytes read in the given order.
pub open spec fn word32(b0: u8, b1: u8, b2: u8, b3: u8, order: CanByteOrder) -> nat {
    match order {
        CanByteOrder::BigEndian => (b0 as nat) * 16777216 + (b1 as nat) * 65536 + (b2 as nat) * 256
            + (b3 as nat),
        CanByteOrder::LittleEndian => (b3 as nat) * 16777216 + (b2 as nat) * 65536 + (b1 as nat)
            * 256 + (b0 as nat),
    }
}

/// A byte read as a two's-complement 8-bit integer.
pub open spec fn signed_byte(b: u8) -> int {
    if b < 128 {
        b as int
    } else {
        b as int - 256
    }
}

/// The bytes of `s` before its first zero byte.
pub open spec fn before_nul(s: Seq<u8>) -> Seq<u8>
    decreases s.len(),
{
    if s.len() == 0 {
        s
    } else if s[0] == 0 {
        Seq::empty()
    } else {
        seq![s[0]] + before_nul(s.drop_first())
    }
}

/// The end of a field that starts at `start` and is at most `width` bytes long,
/// cut off at the end of the payload.
pub open spec fn field_end(start: int, width: int, len: int) -> int {
    if start + width < len {
        start + width
    } else {
        len
    }
}

/// Inputs on which decoding completes: a bit read stays within its byte and a text
/// field's end position is representable.
pub open spec fn decode_defined(data: Seq<u8>, config: CanDataConfig) -> bool {
    &&& (config.data_type is Bool && (config.start_byte as int) < data.len()) ==> config.bit_offset < 8
    &&& config.data_type matches CanDataType::String(w) ==> config.start_byte as int + w as int <= usize::MAX
}

/// The text of the error for a field that starts past the payload.
pub open spec fn start_error_text(start: u8, len: nat) -> Seq<char> {
    "Start byte "@ + decimal_of(start as nat) + " exceeds frame data length "@ + decimal_of(len)
}

/// What decoding the payload `data` with layout `config` yields.
pub open spec fn decoded_as(data: Seq<u8>, config: CanDataConfig, v: CanRawValue) -> bool {
    let s = config.start_byte as int;
    match config.data_type {
        CanDataType::Bool => v == CanRawValue::Bool(
            (data[s] as int / pow2(config.bit_offset as nat) as int) % 2 == 1,
        ),
        CanDataType::UInt8 => v == CanRawValue::Unsigned(data[s] as u64),
        CanDataType::Int8 => v == CanRawValue::Signed(signed_byte(data[s]) as i64),
        CanDataType::UInt16 => v == CanRawValue::Unsigned(
            word16(data[s], data[s + 1], config.byte_order) as u64,
        ),
        CanDataType::UInt32 => v == CanRawValue::Unsigned(
            word32(data[s], data[s + 1], data[s + 2], data[s + 3], config.byte_order) as u64,
        ),
        CanDataType::Float32 => v == CanRawValue::Float32Bits(
            word32(data[s], data[s + 1], data[s + 2], data[s + 3], config.byte_order) as u32,
        ),
        CanDataType::Raw => v matches CanRawValue::Bytes(b) && b@ == data.subrange(
            s,
            field_end(s, 8, data.len() as int),
        ),
        CanDataType::String(w) => v matches CanRawValue::Text(b) && b@ == before_nul(
            data.subrange(s, field_end(s, w as int, data.len() as int)),
        ),
        _ => false,
    }
}

/// What decoding the payload `data` with layout `config` gives: success exactly
/// when the field lies in the payload and its type is decodable, the decoded value
/// on success, and otherwise the error for the first check that fails.
pub open spec fn decodes(data: Seq<u8>, config: CanDataConfig, r: Result<CanRawValue, ComSrvError>) -> bool {
    &&& (r is Ok <==> ((config.start_byte as int) < data.len() && decodable(config.data_type)
        && config.start_byte as int + extra_bytes(config.data_type) < data.len()))
    &&& (r matches Ok(v) ==> decoded_as(data, config, v))
    &&& (r matches Err(e) ==> {
        if (config.start_byte as int) >= data.len() {
            e matches ComSrvError::InvalidData(m) && m@ == start_error_text(
                config.start_byte,
                data.len(),
            )
        } else if decodable(config.data_type) {
            e matches ComSrvError::InvalidData(m) && m@ == "Insufficient data for "@
                + data_kind_name(config.data_type)
        } else {
            e matches ComSrvError::InvalidData(m) && m@ == "Unsupported data type: "@
                + data_kind_name(config.data_type)
        }
    })
}

/// The number of payload bytes a fixed-width field needs beyond its first byte.
pub open spec fn extra_bytes(t: CanDataType) -> int {
    match t {
        CanDataType::UInt16 => 1,
        CanDataType::UInt32 | CanDataType::Float32 => 3,
        _ => 0,
    }
}

/// `2` to the power `n`.
pub open spec fn pow2(n: nat) -> nat
    decreases n,
{
    if n == 0 {
        1
    } else {
        2 * pow2((n - 1) as nat)
    }
}

/// Bit `k` of a byte is set exactly when the byte's `k`-th binary digit is one.
proof fn lemma_byte_bit(b: u8, k: u8)
    requires
        k < 8,
    ensures
        ((b & (1u8 << k)) != 0) == ((b as int / pow2(k as nat) as int) % 2 == 1),
{
    assert(pow2(0) == 1);
    assert(pow2(1) == 2);
    assert(pow2(2) == 4);
    assert(pow2(3) == 8);
    assert(pow2(4) == 16);
    assert(pow2(5) == 32);
    assert(pow2(6) == 64);
    assert(pow2(7) == 128);
    if k == 0 {
        assert(((b & (1u8 << 0u8)) != 0) == ((b / 1) % 2 == 1)) by (bit_vector);
    } else if k == 1 {
        assert(((b & (1u8 << 1u8)) != 0) == ((b / 2) % 2 == 1)) by (bit_vector);
    } else if k == 2 {
        assert(((b & (1u8 << 2u8)) != 0) == ((b / 4) % 2 == 1)) by (bit_vector);
    } else if k == 3 {
        assert(((b & (1u8 << 3u8)) != 0) == ((b / 8) % 2 == 1)) by (bit_vector);
    } else if k == 4 {
        assert(((b & (1u8 << 4u8)) != 0) == ((b / 16) % 2 == 1)) by (bit_vector);
    } else if k == 5 {
        assert(((b & (1u8 << 5u8)) != 0) == ((b / 32) % 2 == 1)) by (bit_vector);
    } else if k == 6 {
        assert(((b & (1u8 << 6u8)) != 0) == ((b / 64) % 2 == 1)) by (bit_vector);
    } else {
        assert(((b & (1u8 << 7u8)) != 0) == ((b / 128) % 2 == 1)) by (bit_vector);
    }
}

/// The bytes of `data[start..end]` up to the first zero byte.
fn take_until_nul(data: &Vec<u8>, start: usize, end: usize) -> (r: Vec<u8>)
    requires
        start <= end <= data@.len(),
    ensures
        r@ == before_nul(data@.subrange(start as int, end as int)),
{
    let mut out: Vec<u8> = Vec::new();
    let mut i = start;
    while i < end
        invariant
            start <= i <= end <= data@.len(),
            forall|j: int| start <= j < i ==> data@[j] != 0,
            out@ == data@.subrange(start as int, i as int),
            before_nul(data@.subrange(start as int, end as int)) == out@ + before_nul(
                data@.subrange(i as int, end as int),
            ),
        decreases end - i,
    {
        let b = data[i];
        let ghost rest = data@.subrange(i as int, end as int);
        if b == 0 {
            assert(before_nul(rest) == Seq::<u8>::empty());
            assert(out@ + Seq::<u8>::empty() == out@);
            return out;
        }
        assert(rest.drop_first() == data@.subrange(i + 1, end as int));
        out.push(b);
        assert(out@ == data@.subrange(start as int, i + 1));
        assert(seq![b] + before_nul(rest.drop_first()) == before_nul(rest));
        assert(out@ + before_nul(rest.drop_first()) =~= data@.subrange(start as int, i as int) + (seq![b]
            + before_nul(rest.drop_first())));
        i = i + 1;
    }
    assert(before_nul(data@.subrange(end as int, end as int)) == Seq::<u8>::empty());
    assert(out@ + Seq::<u8>::empty() == out@);
    out
}

/// A copy of `data[start..end]`.
fn copy_range(data: &Vec<u8>, start: usize, end: usize) -> (r: Vec<u8>)
    requires
        start <= end <= data@.len(),
    ensures
        r@ == data@.subrange(start as int, end as int),
{
    let mut out: Vec<u8> = Vec::new();
    let mut i = start;
    while i < end
        invariant
            start <= i <= end <= data@.len(),
            out@ == data@.subrange(start as int, i as int),
        decreases end - i,
    {
        out.push(data[i]);
        i = i + 1;
        assert(out@ =~= data@.subrange(start as int, i as int));
    }
    out
}

/// The error for a field that does not fit in the payload.
fn insufficient(kind_name: &str) -> (e: ComSrvError)
    ensures
        e matches ComSrvError::InvalidData(m) && m@ == "Insufficient data for "@ + kind_name@,
{
    proof {
        reveal_strlit("");
    }
    ComSrvError::InvalidData(crate::error::text_str_text("Insufficient data for ", kind_name, ""))
}

/// Decodes one field of a frame payload according to its layout.
///
/// The field starts at `config.start_byte`, which must lie inside the payload.
/// Multi-byte integers and floats need all their bytes inside the payload; raw
/// fields take up to eight bytes and text fields up to their declared width, both
/// cut off at the end of the payload, and text stops at its first zero byte.
pub fn decode_payload(data: &Vec<u8>, config: &CanDataConfig) -> (r: Result<CanRawValue, ComSrvError>)
    requires
        decode_defined(data@, *config),
    ensures
        decodes(data@, *config, r),
{
    let n = data.len();
    let s = config.start_byte as usize;
    if s >= n {
        let mut m = String::new();
        push_str(&mut m, "Start byte ");
        push_decimal(&mut m, config.start_byte as u64);
        push_str(&mut m, " exceeds frame data length ");
        push_decimal(&mut m, n as u64);
        assert(m@ =~= start_error_text(config.start_byte, data@.len()));
        return Err(ComSrvError::InvalidData(m));
    }
    match config.data_type {
        CanDataType::Bool => {
            let byte_val = data[s];
            let bit_mask: u8 = 1u8 << config.bit_offset;
            proof {
                lemma_byte_bit(byte_val, config.bit_offset);
            }
            Ok(CanRawValue::Bool((byte_val & bit_mask) != 0))
        },
        CanDataType::UInt8 => Ok(CanRawValue::Unsigned(data[s] as u64)),
        CanDataType::Int8 => {
            let b = data[s];
            let v: i64 = if b < 128 {
                b as i64
            } else {
                b as i64 - 256
            };
            Ok(CanRawValue::Signed(v))
        },
        CanDataType::UInt16 => {
            if s + 1 >= n {
                return Err(insufficient("UInt16"));
            }
            let b0 = data[s] as u64;
            let b1 = data[s + 1] as u64;
            let v = match config.byte_order {
                CanByteOrder::BigEndian => b0 * 256 + b1,
                CanByteOrder::LittleEndian => b1 * 256 + b0,
            };
            Ok(CanRawValue::Unsigned(v))
        },
        CanDataType::UInt32 => {
            if s + 3 >= n {
                return Err(insufficient("UInt32"));
            }
            let b0 = data[s] as u64;
            let b1 = data[s + 1] as u64;
            let b2 = data[s + 2] as u64;
            let b3 = data[s + 3] as u64;
            let v = match config.byte_order {
                CanByteOrder::BigEndian => b0 * 16777216 + b1 * 65536 + b2 * 256 + b3,
                CanByteOrder::LittleEndian => b3 * 16777216 + b2 * 65536 + b1 * 256 + b0,
            };
            Ok(CanRawValue::Unsigned(v))
        },
        CanDataType::Float32 => {
            if s + 3 >= n {
                return Err(insufficient("Float32"));
            }
            let b0 = data[s] as u32;
            let b1 = data[s + 1] as u32;
            let b2 = data[s + 2] as u32;
            let b3 = data[s + 3] as u32;
            let v = match config.byte_order {
                CanByteOrder::BigEndian => b0 * 16777216 + b1 * 65536 + b2 * 256 + b3,
                CanByteOrder::LittleEndian => b3 * 16777216 + b2 * 65536 + b1 * 256 + b0,
            };
            Ok(CanRawValue::Float32Bits(v))
        },
        CanDataType::Raw => {
            let end = if s + 8 < n {
                s + 8
            } else {
                n
            };
            Ok(CanRawValue::Bytes(copy_range(data, s, end)))
        },
        CanDataType::String(max_len) => {
            let end = if s + max_len < n {
                s + max_len
            } else {
                n
            };
            Ok(CanRawValue::Text(take_until_nul(data, s, end)))
        },
        _ => {
            let name = match config.data_type {
                CanDataType::Int16 => "Int16",
                CanDataType::Int32 => "Int32",
                CanDataType::UInt64 => "UInt64",
                CanDataType::Int64 => "Int64",
                _ => "Float64",
            };
            let mut m = String::new();
            push_str(&mut m, "Unsupported data type: ");
            push_str(&mut m, name);
            proof {
                reveal_strlit("Int16");
                reveal_strlit("Int32");
                reveal_strlit("UInt64");
                reveal_strlit("Int64");
                reveal_strlit("Float64");
            }
            assert(m@ =~= "Unsupported data type: "@ + data_kind_name(config.data_type));
            Err(ComSrvError::InvalidData(m))
        },
    }
}

/// Multi-byte fields by byte order: little-endian puts the least significant byte
/// first (`from_le_bytes`), big-endian the most significant (`from_be_bytes`).
pub proof fn lemma_payload_byte_order(data: Seq<u8>, config: CanDataConfig, r: Result<CanRawValue, ComSrvError>)
    requires
        decodes(data, config, r),
    ensures
        ({
            let s = config.start_byte as int;
            let le32 = data[s] as int + 256 * data[s + 1] + 65536 * data[s + 2] + 16777216 * data[s + 3];
            let be32 = 16777216 * data[s] + 65536 * data[s + 1] + 256 * data[s + 2] + data[s + 3] as int;
            let le16 = data[s] as int + 256 * data[s + 1];
            let be16 = 256 * data[s] + data[s + 1] as int;
            &&& config.data_type is UInt32 && s + 3 < data.len() && config.byte_order is LittleEndian ==> r
                == Ok::<CanRawValue, ComSrvError>(CanRawValue::Unsigned(le32 as u64))
            &&& config.data_type is UInt32 && s + 3 < data.len() && config.byte_order is BigEndian ==> r
                == Ok::<CanRawValue, ComSrvError>(CanRawValue::Unsigned(be32 as u64))
            &&& config.data_type is Float32 && s + 3 < data.len() && config.byte_order is LittleEndian ==> r
                == Ok::<CanRawValue, ComSrvError>(CanRawValue::Float32Bits(le32 as u32))
            &&& config.data_type is Float32 && s + 3 < data.len() && config.byte_order is BigEndian ==> r
                == Ok::<CanRawValue, ComSrvError>(CanRawValue::Float32Bits(be32 as u32))
            &&& config.data_type is UInt16 && s + 1 < data.len() && config.byte_order is LittleEndian ==> r
                == Ok::<CanRawValue, ComSrvError>(CanRawValue::Unsigned(le16 as u64))
            &&& config.data_type is UInt16 && s + 1 < data.len() && config.byte_order is BigEndian ==> r
                == Ok::<CanRawValue, ComSrvError>(CanRawValue::Unsigned(be16 as u64))
        }),
{
}

/// Single-byte fields: a bit is the byte masked by that bit's position, an
/// unsigned byte is its value, and a signed byte is its two's-complement value.
pub proof fn lemma_payload_single_bytes(data: Seq<u8>, config: CanDataConfig, r: Result<CanRawValue, ComSrvError>)
    requires
        decodes(data, config, r),
        (config.start_byte as int) < data.len(),
    ensures
        ({
            let b = data[config.start_byte as int];
            &&& config.data_type is Bool && config.bit_offset < 8 ==> r == Ok::<CanRawValue, ComSrvError>(
                CanRawValue::Bool((b & (1u8 << config.bit_offset)) != 0),
            )
            &&& config.data_type is UInt8 ==> r == Ok::<CanRawValue, ComSrvError>(CanRawValue::Unsigned(b as u64))
            &&& config.data_type is Int8 ==> (r matches Ok(CanRawValue::Signed(v)) && -128 <= v < 128 && (v
                >= 0 <==> b < 128) && (v == b as int || v == b as int - 256))
        }),
{
    if config.data_type is Bool && config.bit_offset < 8 {
        lemma_byte_bit(data[config.start_byte as int], config.bit_offset);
    }
}

/// A fixed-width field decodes exactly when all the bytes its type occupies lie in
/// the payload; the types the decoder does not handle never decode.
pub proof fn lemma_payload_field_fits(data: Seq<u8>, config: CanDataConfig, r: Result<CanRawValue, ComSrvError>)
    requires
        decodes(data, config, r),
    ensures
        (config.data_type is Bool || config.data_type is UInt8 || config.data_type is Int8 || config.data_type is UInt16
            || config.data_type is UInt32 || config.data_type is Float32) ==> (r is Ok <==> config.start_byte as int
            + data_type_size(config.data_type) <= data.len()),
        (config.data_type is Int16 || config.data_type is Int32 || config.data_type is UInt64 || config.data_type is Int64
            || config.data_type is Float64) ==> r is Err,
{
}

/// Reading four bytes little-endian gives what reading them in reverse order
/// big-endian gives.
pub proof fn lemma_little_endian_is_reversed_big_endian(b0: u8, b1: u8, b2: u8, b3: u8)
    ensures
        word32(b0, b1, b2, b3, CanByteOrder::LittleEndian) == b0 as int + 256 * b1 + 65536 * b2 + 16777216 * b3,
        word32(b0, b1, b2, b3, CanByteOrder::LittleEndian) == word32(b3, b2, b1, b0, CanByteOrder::BigEndian),
        word16(b0, b1, CanByteOrder::LittleEndian) == word16(b1, b0, CanByteOrder::BigEndian),
        word16(b0, b1, CanByteOrder::BigEndian) == 256 * b0 + b1 as int,
{
}

/// The interface that an `interface` parameter names: `socketcan:`, `peak:`,
/// `virtual:` or `usb:` followed by the device name; anything else, or no
/// parameter, means the SocketCAN device `can0`.
pub open spec fn interface_of_param(param: Option<Seq<char>>) -> (Seq<char>, nat) {
    match param {
        Some(p) => if has_prefix(p, "socketcan:"@) {
            (p.subrange(10, p.len() as int), 0)
        } else if has_prefix(p, "peak:"@) {
            (p.subrange(5, p.len() as int), 1)
        } else if has_prefix(p, "virtual:"@) {
            (p.subrange(8, p.len() as int), 2)
        } else if has_prefix(p, "usb:"@) {
            (p.subrange(4, p.len() as int), 3)
        } else {
            ("can0"@, 0)
        },
        None => ("can0"@, 0),
    }
}

/// The kind and device name of an interface.
pub open spec fn interface_parts(t: CanInterfaceType) -> (Seq<char>, nat) {
    match t {
        CanInterfaceType::SocketCan(n) => (n@, 0),
        CanInterfaceType::PeakCan(n) => (n@, 1),
        CanInterfaceType::Virtual(n) => (n@, 2),
        CanInterfaceType::UsbCan(n) => (n@, 3),
    }
}

/// Reads the `interface` channel parameter.
pub fn interface_type_from_param(param: Option<&str>) -> (t: CanInterfaceType)
    ensures
        interface_parts(t) == interface_of_param(
            match param {
                Some(p) => Some(p@),
                None => None,
            },
        ),
{
    proof {
        reveal_strlit("socketcan:");
        reveal_strlit("peak:");
        reveal_strlit("virtual:");
        reveal_strlit("usb:");
    }
    match param {
        Some(p) => {
            if starts_with(p, "socketcan:") {
                CanInterfaceType::SocketCan(suffix_from(p, 10))
            } else if starts_with(p, "peak:") {
                CanInterfaceType::PeakCan(suffix_from(p, 5))
            } else if starts_with(p, "virtual:") {
                CanInterfaceType::Virtual(suffix_from(p, 8))
            } else if starts_with(p, "usb:") {
                CanInterfaceType::UsbCan(suffix_from(p, 4))
            } else {
                CanInterfaceType::SocketCan(string_of("can0"))
            }
        },
        None => CanInterfaceType::SocketCan(string_of("can0")),
    }
}

/// Each interface kind is selected by its prefix, and the rest of the parameter
/// is the device name.
pub proof fn lemma_interface_prefixes(name: String)
    ensures
        interface_of_param(Some("socketcan:"@ + name@)) == interface_parts(CanInterfaceType::SocketCan(name)),
        interface_of_param(Some("peak:"@ + name@)) == interface_parts(CanInterfaceType::PeakCan(name)),
        interface_of_param(Some("virtual:"@ + name@)) == interface_parts(CanInterfaceType::Virtual(name)),
        interface_of_param(Some("usb:"@ + name@)) == interface_parts(CanInterfaceType::UsbCan(name)),
{
    reveal_strlit("socketcan:");
    reveal_strlit("peak:");
    reveal_strlit("virtual:");
    reveal_strlit("usb:");
    let d = name@;
    let sc = "socketcan:"@ + d;
    let pk = "peak:"@ + d;
    let vt = "virtual:"@ + d;
    let us = "usb:"@ + d;
    assert(sc.subrange(0, 10) =~= "socketcan:"@);
    assert(sc.subrange(10, sc.len() as int) =~= d);
    assert(pk.subrange(0, 5) =~= "peak:"@);
    assert(pk.subrange(5, pk.len() as int) =~= d);
    assert(vt.subrange(0, 8) =~= "virtual:"@);
    assert(vt.subrange(8, vt.len() as int) =~= d);
    assert(us.subrange(0, 4) =~= "usb:"@);
    assert(us.subrange(4, us.len() as int) =~= d);
    assert(pk[0] == 'p' && vt[0] == 'v' && us[0] == 'u');
    if has_prefix(pk, "socketcan:"@) {
        assert(pk.subrange(0, 10)[0] == pk[0]);
    }
    if has_prefix(vt, "socketcan:"@) {
        assert(vt.subrange(0, 10)[0] == vt[0]);
    }
    if has_prefix(vt, "peak:"@) {
        assert(vt.subrange(0, 5)[0] == vt[0]);
    }
    if has_prefix(us, "socketcan:"@) {
        assert(us.subrange(0, 10)[0] == us[0]);
    }
    if has_prefix(us, "peak:"@) {
        assert(us.subrange(0, 5)[0] == us[0]);
    }
    if has_prefix(us, "virtual:"@) {
        assert(us.subrange(0, 8)[0] == us[0]);
    }
}

/// Reading a parameter that names a supported bit rate gives back that rate, and
/// no parameter means 500 kbit/s.
pub proof fn lemma_bit_rate_round_trip(r: CanBitRate)
    ensures
        bit_rate_of_param(Some(bit_rate_value(r) as u64)) == r,
        bit_rate_value(bit_rate_of_param(Some(bit_rate_value(r) as u64))) == bit_rate_value(r),
        bit_rate_of_param(None) == CanBitRate::Kbps500,
{
}

/// The bit rate that a `bit_rate` parameter names; unknown values and a missing
/// parameter mean 500 kbit/s.
pub open spec fn bit_rate_of_param(param: Option<u64>) -> CanBitRate {
    match param {
        Some(10000) => CanBitRate::Kbps10,
        Some(20000) => CanBitRate::Kbps20,
        Some(50000) => CanBitRate::Kbps50,
        Some(100000) => CanBitRate::Kbps100,
        Some(125000) => CanBitRate::Kbps125,
        Some(250000) => CanBitRate::Kbps250,
        Some(800000) => CanBitRate::Kbps800,
        Some(1000000) => CanBitRate::Mbps1,
        _ => CanBitRate::Kbps500,
    }
}

/// Reads the `bit_rate` channel parameter.
pub fn bit_rate_from_param(param: Option<u64>) -> (r: CanBitRate)
    ensures
        r == bit_rate_of_param(param),
{
    match param {
        Some(rate) => {
            if rate == 10000 {
                CanBitRate::Kbps10
            } else if rate == 20000 {
                CanBitRate::Kbps20
            } else if rate == 50000 {
                CanBitRate::Kbps50
            } else if rate == 100000 {
                CanBitRate::Kbps100
            } else if rate == 125000 {
                CanBitRate::Kbps125
            } else if rate == 250000 {
                CanBitRate::Kbps250
            } else if rate == 800000 {
                CanBitRate::Kbps800
            } else if rate == 1000000 {
                CanBitRate::Mbps1
            } else {
                CanBitRate::Kbps500
            }
        },
        None => CanBitRate::Kbps500,
    }
}

/// The receive-filter identifiers for a list of mapped identifiers: each distinct
/// identifier once, in the order of its first appearance.
pub open spec fn first_occurrences(ids: Seq<u32>) -> Seq<u32>
    decreases ids.len(),
{
    if ids.len() == 0 {
        ids
    } else {
        let prev = first_occurrences(ids.drop_last());
        if prev.contains(ids.last()) {
            prev
        } else {
            prev.push(ids.last())
        }
    }
}

/// The distinct identifiers of `ids`, each once, in order of first appearance.
pub fn unique_can_ids(ids: &Vec<u32>) -> (r: Vec<u32>)
    ensures
        r@ == first_occurrences(ids@),
{
    let mut out: Vec<u32> = Vec::new();
    let n = ids.len();
    let mut i: usize = 0;
    while i < n
        invariant
            n == ids@.len(),
            i <= n,
            out@ == first_occurrences(ids@.subrange(0, i as int)),
        decreases n - i,
    {
        let id = ids[i];
        let ghost pre = ids@.subrange(0, i as int);
        let ghost cur = ids@.subrange(0, i + 1);
        assert(cur.drop_last() == pre);
        assert(cur.last() == id);
        let mut found = false;
        let mut j: usize = 0;
        while j < out.len()
            invariant
                j <= out@.len(),
                found == (exists|t: int| 0 <= t < j && out@[t] == id),
            decreases out@.len() - j,
        {
            if out[j] == id {
                found = true;
            }
            j = j + 1;
        }
        if !found {
            out.push(id);
        }
        i = i + 1;
    }
    assert(ids@.subrange(0, n as int) == ids@);
    out
}

} // verus!

verus! {

/// The receive-filter identifiers list each mapped identifier exactly once: no
/// identifier repeats, and an identifier is listed exactly when some mapping uses it.
pub proof fn lemma_first_occurrences(ids: Seq<u32>)
    ensures
        forall|a: int, b: int|
            0 <= a < first_occurrences(ids).len() && 0 <= b < first_occurrences(ids).len() && a != b
                ==> first_occurrences(ids)[a] != first_occurrences(ids)[b],
        forall|x: u32| first_occurrences(ids).contains(x) <==> ids.contains(x),
    decreases ids.len(),
{
    if ids.len() > 0 {
        let p = ids.drop_last();
        lemma_first_occurrences(p);
        let prev = first_occurrences(p);
        let last = ids.last();
        assert forall|x: u32| first_occurrences(ids).contains(x) <==> ids.contains(x) by {
            if ids.contains(x) {
                let i = choose|i: int| 0 <= i < ids.len() && ids[i] == x;
                if i < p.len() {
                    assert(p[i] == x);
                    assert(p.contains(x));
                }
            }
            if p.contains(x) {
                let i = choose|i: int| 0 <= i < p.len() && p[i] == x;
                assert(ids[i] == x);
            }
            if !prev.contains(last) && first_occurrences(ids).contains(x) {
                let i = choose|i: int| 0 <= i < prev.push(last).len() && prev.push(last)[i] == x;
                if i < prev.len() {
                    assert(prev[i] == x);
                }
            }
            if !prev.contains(last) && prev.contains(x) {
                let i = choose|i: int| 0 <= i < prev.len() && prev[i] == x;
                assert(prev.push(last)[i] == x);
            }
            if !prev.contains(last) && x == last {
                assert(prev.push(last)[prev.len() as int] == x);
            }
        }
        if !prev.contains(last) {
            let s = prev.push(last);
            assert forall|a: int, b: int| 0 <= a < s.len() && 0 <= b < s.len() && a != b implies s[a] != s[b] by {
                if a == prev.len() {
                    assert(prev.contains(prev[b]));
                } else if b == prev.len() {
                    assert(prev.contains(prev[a]));
                }
            }
        }
    }
}

} // verus!

verus! {

/// The identifiers of a list of mappings, in order.
pub open spec fn mapping_ids(s: Seq<CanMessageMapping>) -> Seq<u32> {
    s.map_values(|m: CanMessageMapping| m.can_id)
}

/// An optional text, empty when absent.
pub open spec fn text_or_empty(t: Option<String>) -> Seq<char> {
    match t {
        Some(s) => s@,
        None => Seq::empty(),
    }
}

/// Position `i` holds the first mapping of `s` named `name`.
pub open spec fn first_named(s: Seq<CanMessageMapping>, name: Seq<char>, i: int) -> bool {
    &&& 0 <= i < s.len()
    &&& s[i].name@ == name
    &&& forall|j: int| 0 <= j < i ==> #[trigger] s[j].name@ != name
}

/// Whether some mapping of `s` is named `name`.
pub open spec fn has_named(s: Seq<CanMessageMapping>, name: Seq<char>) -> bool {
    exists|i: int| 0 <= i < s.len() && #[trigger] s[i].name@ == name
}

/// The data point of a mapping with the value `value`: the mapping's name is its
/// identifier, its display name (or else its name) its name, and its unit and
/// description those of the mapping, empty when absent.
pub open spec fn mapped_point(m: CanMessageMapping, value: Seq<char>, d: PointDataView) -> bool {
    &&& d.id == m.name@
    &&& m.display_name is Some ==> d.name == text_or_empty(m.display_name)
    &&& m.display_name is None ==> d.name == m.name@
    &&& d.value == value
    &&& d.unit == text_or_empty(m.unit)
    &&& d.description == text_or_empty(m.description)
}

/// The statistics after `sent` more messages sent, `received` more received and
/// `errors` more with errors, each count wrapping around as an atomic counter does.
pub open spec fn counted(before: CanStatistics, after: CanStatistics, sent: u64, received: u64, errors: u64) -> bool {
    &&& after.messages_sent == (before.messages_sent + sent) % 0x1_0000_0000_0000_0000
    &&& after.messages_received == (before.messages_received + received) % 0x1_0000_0000_0000_0000
    &&& after.error_messages == (before.error_messages + errors) % 0x1_0000_0000_0000_0000
    &&& after.bus_utilization_bits == before.bus_utilization_bits
    &&& errors > 0 ==> after.last_error_time is Some
    &&& errors == 0 ==> after.last_error_time == before.last_error_time
}

/// A copy of an optional text.
fn copy_text(t: &Option<String>) -> (r: Option<String>)
    ensures
        match (r, *t) {
            (Some(a), Some(b)) => a@ == b@,
            (None, None) => true,
            _ => false,
        },
{
    match t {
        Some(s) => Some(s.clone()),
        None => None,
    }
}

/// The text of an optional text, empty when absent.
fn text_or_empty_string(t: &Option<String>) -> (r: String)
    ensures
        r@ == text_or_empty(*t),
{
    match t {
        Some(s) => s.clone(),
        None => String::new(),
    }
}

/// The data point of a mapping with the value `value`, stamped now.
fn point_of_mapping(m: &CanMessageMapping, value: &str) -> (d: PointData)
    ensures
        mapped_point(*m, value@, d@),
{
    let name = match &m.display_name {
        Some(n) => n.clone(),
        None => m.name.clone(),
    };
    PointData {
        id: m.name.clone(),
        name,
        value: string_of(value),
        timestamp: current_time(),
        unit: text_or_empty_string(&m.unit),
        description: text_or_empty_string(&m.description),
    }
}

/// The base of the CAN clients: the channel's service, the interface, bit rate and
/// timeout read from its parameters, whether it is connected, the message mappings
/// with the receive filter they give, and the bus statistics.
#[derive(Debug)]
pub struct CanClientBase {
    /// Base communication implementation
    pub base: DefaultProtocol,
    interface_type: CanInterfaceType,
    bit_rate: CanBitRate,
    timeout_ms: u64,
    connected: bool,
    message_mappings: Vec<CanMessageMapping>,
    statistics: CanStatistics,
    message_filters: Vec<u32>,
}

impl CanClientBase {
    /// The channel's service.
    pub closed spec fn service(&self) -> DefaultProtocol {
        self.base
    }

    /// The interface.
    pub closed spec fn interface(&self) -> CanInterfaceType {
        self.interface_type
    }

    /// The bit rate.
    pub closed spec fn rate(&self) -> CanBitRate {
        self.bit_rate
    }

    /// The connection timeout in milliseconds.
    pub closed spec fn timeout(&self) -> u64 {
        self.timeout_ms
    }

    /// Whether the client is connected.
    pub closed spec fn runs(&self) -> bool {
        self.connected
    }

    /// The message mappings, in the order they were loaded.
    pub closed spec fn mappings(&self) -> Seq<CanMessageMapping> {
        self.message_mappings@
    }

    /// The identifiers the receive filter keeps.
    pub closed spec fn filters(&self) -> Seq<u32> {
        self.message_filters@
    }

    /// The bus statistics.
    pub closed spec fn stats(&self) -> CanStatistics {
        self.statistics
    }

    /// A disconnected client without mappings, its interface, bit rate and timeout
    /// read from the `interface`, `bit_rate` and `timeout` parameters (a timeout of
    /// 1000 ms without one).
    pub fn new(
        name: &str,
        protocol_type: &str,
        channel_id: u16,
        interface: Option<&str>,
        bit_rate: Option<u64>,
        timeout: Option<u64>,
    ) -> (c: Self)
        ensures
            c.service().identity() == (name@, protocol_type@, channel_id),
            !c.service().runs(),
            interface_parts(c.interface()) == interface_of_param(
                match interface {
                    Some(p) => Some(p@),
                    None => None,
                },
            ),
            c.rate() == bit_rate_of_param(bit_rate),
            c.timeout() == (match timeout {
                Some(t) => t,
                None => 1000,
            }),
            !c.runs(),
            c.mappings().len() == 0,
            c.filters().len() == 0,
            is_zero_statistics(c.stats()),
    {
        let timeout_ms = match timeout {
            Some(t) => t,
            None => 1000,
        };
        CanClientBase {
            base: DefaultProtocol::new(name, protocol_type, channel_id),
            interface_type: interface_type_from_param(interface),
            bit_rate: bit_rate_from_param(bit_rate),
            timeout_ms,
            connected: false,
            message_mappings: Vec::new(),
            statistics: CanStatistics::default(),
            message_filters: Vec::new(),
        }
    }

    /// The client's name, that of its service.
    pub fn name(&self) -> (r: &str)
        ensures
            r@ == self.service().identity().0,
    {
        self.base.name()
    }

    /// The channel identifier the client reports.
    pub fn channel_id(&self) -> (r: String)
        ensures
            r@ == "CAN"@,
    {
        string_of("CAN")
    }

    /// The protocol the client reports.
    pub fn protocol_type(&self) -> (r: &str)
        ensures
            r@ == "CAN"@,
    {
        "CAN"
    }

    /// The CAN interface.
    pub fn interface_type(&self) -> (r: &CanInterfaceType)
        ensures
            *r == self.interface(),
    {
        &self.interface_type
    }

    /// The CAN bit rate.
    pub fn bit_rate(&self) -> (r: CanBitRate)
        ensures
            r == self.rate(),
    {
        self.bit_rate
    }

    /// The connection timeout in milliseconds.
    pub fn timeout_ms(&self) -> (r: u64)
        ensures
            r == self.timeout(),
    {
        self.timeout_ms
    }

    /// Whether the client is connected.
    pub fn is_running(&self) -> (r: bool)
        ensures
            r == self.runs(),
    {
        self.connected
    }

    /// Connects the client.
    pub fn start(&mut self) -> (r: Result<(), ComSrvError>)
        ensures
            r is Ok,
            final(self).runs(),
            final(self).mappings() == old(self).mappings(),
            final(self).filters() == old(self).filters(),
            final(self).stats() == old(self).stats(),
    {
        self.connected = true;
        Ok(())
    }

    /// Disconnects the client.
    pub fn stop(&mut self) -> (r: Result<(), ComSrvError>)
        ensures
            r is Ok,
            !final(self).runs(),
            final(self).mappings() == old(self).mappings(),
            final(self).filters() == old(self).filters(),
            final(self).stats() == old(self).stats(),
    {
        self.connected = false;
        Ok(())
    }

    /// Takes the connection state of a status.
    pub fn update_status(&mut self, status: ChannelStatus) -> (r: Result<(), ComSrvError>)
        ensures
            r is Ok,
            final(self).runs() == status.connected,
            final(self).mappings() == old(self).mappings(),
            final(self).filters() == old(self).filters(),
            final(self).stats() == old(self).stats(),
    {
        self.connected = status.connected;
        Ok(())
    }

    /// The status: the reported channel, the connection state, no response time and
    /// no error, updated now.
    pub fn status(&self) -> (s: ChannelStatus)
        ensures
            s.id@ == "CAN"@,
            s.connected == self.runs(),
            s.last_response_time_bits == 0,
            s.last_error@ == Seq::<char>::empty(),
    {
        let mut s = ChannelStatus::new("CAN");
        s.connected = self.connected;
        s
    }

    /// Replaces the mappings; the receive filter becomes their identifiers, each
    /// once, in order of first appearance.
    pub fn load_message_mappings(&mut self, mappings: Vec<CanMessageMapping>)
        ensures
            final(self).mappings() == mappings@,
            final(self).filters() == first_occurrences(mapping_ids(mappings@)),
            final(self).runs() == old(self).runs(),
            final(self).stats() == old(self).stats(),
            final(self).service() == old(self).service(),
    {
        let mut ids: Vec<u32> = Vec::new();
        let n = mappings.len();
        let mut i: usize = 0;
        while i < n
            invariant
                n == mappings@.len(),
                i <= n,
                ids@ == mapping_ids(mappings@).subrange(0, i as int),
            decreases n - i,
        {
            ids.push(mappings[i].can_id);
            i = i + 1;
            assert(ids@ =~= mapping_ids(mappings@).subrange(0, i as int));
        }
        assert(ids@ =~= mapping_ids(mappings@));
        self.message_filters = unique_can_ids(&ids);
        self.message_mappings = mappings;
    }

    /// The mappings.
    pub fn get_message_mappings(&self) -> (r: &[CanMessageMapping])
        ensures
            r@ == self.mappings(),
    {
        self.message_mappings.as_slice()
    }

    /// The identifiers the receive filter keeps.
    pub fn message_filters(&self) -> (r: &[u32])
        ensures
            r@ == self.filters(),
    {
        self.message_filters.as_slice()
    }

    /// The first mapping with the given name.
    pub fn find_mapping(&self, name: &str) -> (r: Option<&CanMessageMapping>)
        ensures
            match r {
                Some(m) => exists|i: int| #[trigger] first_named(self.mappings(), name@, i) && self.mappings()[i] == *m,
                None => !has_named(self.mappings(), name@),
            },
    {
        let n = self.message_mappings.len();
        let mut i: usize = 0;
        while i < n
            invariant
                n == self.mappings().len(),
                i <= n,
                forall|j: int| 0 <= j < i ==> #[trigger] self.mappings()[j].name@ != name@,
            decreases n - i,
        {
            if str_eq(self.message_mappings[i].name.as_str(), name) {
                assert(first_named(self.mappings(), name@, i as int));
                return Some(&self.message_mappings[i]);
            }
            i = i + 1;
        }
        None
    }

    /// Decodes the mapped field of a frame's payload; scaling is left to the caller.
    pub fn extract_data(&self, frame: &CanFrame, mapping: &CanMessageMapping) -> (r: Result<CanRawValue, ComSrvError>)
        requires
            decode_defined(frame.data@, mapping.data_config),
        ensures
            decodes(frame.data@, mapping.data_config, r),
    {
        decode_payload(&frame.data, &mapping.data_config)
    }

    /// Adds to the message counts, each wrapping around; errors stamp the error time.
    pub fn update_statistics(&mut self, messages_sent: u64, messages_received: u64, error_count: u64)
        ensures
            counted(old(self).stats(), final(self).stats(), messages_sent, messages_received, error_count),
            final(self).runs() == old(self).runs(),
            final(self).mappings() == old(self).mappings(),
            final(self).filters() == old(self).filters(),
    {
        self.statistics.messages_sent = self.statistics.messages_sent.wrapping_add(messages_sent);
        self.statistics.messages_received = self.statistics.messages_received.wrapping_add(messages_received);
        self.statistics.error_messages = self.statistics.error_messages.wrapping_add(error_count);
        if error_count > 0 {
            self.statistics.last_error_time = Some(current_time());
        }
    }

    /// The bus statistics.
    pub fn get_statistics(&self) -> (r: CanStatistics)
        ensures
            r == self.stats(),
    {
        self.statistics
    }

    /// Back to zero statistics.
    pub fn reset_statistics(&mut self)
        ensures
            is_zero_statistics(final(self).stats()),
            final(self).runs() == old(self).runs(),
            final(self).mappings() == old(self).mappings(),
            final(self).filters() == old(self).filters(),
    {
        self.statistics = CanStatistics::default();
    }

    /// A data point for each mapping, in order, with the value `null`.
    pub fn get_all_points(&self) -> (r: Vec<PointData>)
        ensures
            r@.len() == self.mappings().len(),
            forall|i: int| 0 <= i < r@.len() ==> mapped_point(self.mappings()[i], "null"@, #[trigger] r@[i]@),
    {
        let mut points: Vec<PointData> = Vec::new();
        let n = self.message_mappings.len();
        let mut i: usize = 0;
        while i < n
            invariant
                n == self.mappings().len(),
                i <= n,
                points@.len() == i,
                forall|j: int| 0 <= j < i ==> mapped_point(self.mappings()[j], "null"@, #[trigger] points@[j]@),
            decreases n - i,
        {
            points.push(point_of_mapping(&self.message_mappings[i], "null"));
            i = i + 1;
        }
        points
    }

    /// The data point of the first mapping named `point_id`, with the value `0`.
    pub fn read_point(&self, point_id: &str) -> (r: Result<PointData, ComSrvError>)
        ensures
            match r {
                Ok(d) => exists|i: int| #[trigger] first_named(self.mappings(), point_id@, i) && mapped_point(
                    self.mappings()[i],
                    "0"@,
                    d@,
                ),
                Err(e) => !has_named(self.mappings(), point_id@) && (e matches ComSrvError::InvalidParameter(m)
                    && m@ == "Point "@ + point_id@ + " not found"@),
            },
    {
        match self.find_mapping(point_id) {
            Some(m) => Ok(point_of_mapping(m, "0")),
            None => Err(ComSrvError::InvalidParameter(text_str_text("Point ", point_id, " not found"))),
        }
    }

    /// Accepts a write to a mapped point; nothing is sent yet.
    pub fn write_point(&mut self, point_id: &str, value: &str) -> (r: Result<(), ComSrvError>)
        ensures
            *final(self) == *old(self),
            r is Ok <==> has_named(old(self).mappings(), point_id@),
            r matches Err(e) ==> (e matches ComSrvError::InvalidParameter(m) && m@ == "Point "@ + point_id@
                + " not found"@),
    {
        match self.find_mapping(point_id) {
            Some(_) => Ok(()),
            None => Err(ComSrvError::InvalidParameter(text_str_text("Point ", point_id, " not found"))),
        }
    }
}

} // verus!
