//! Raw values that protocol layers hand over after parsing a response: register
//! words and coil bits, and the rules for reading single registers, bits and
//! register bits out of them.

use vstd::prelude::*;
use crate::error::{ComSrvError, text_num_text};
use crate::text::{decimal_of, string_of};

verus! {

/// Protocol response parsing; the protocol layer implements it to hand over parsed data.
pub trait ProtocolResponse {
    /// Parse response data as registers (u16 values).
    fn parse_registers(&self) -> Result<Vec<u16>, ComSrvError>;

    /// Parse response data as bits (bool values).
    fn parse_bits(&self) -> Result<Vec<bool>, ComSrvError>;
}

/// Raw protocol value types from a parsed protocol response.
#[derive(Debug, Clone, PartialEq)]
pub enum RawProtocolValue {
    /// Register values (u16)
    Registers(Vec<u16>),
    /// Bit values (bool)
    Bits(Vec<bool>),
    /// Single register value
    SingleRegister(u16),
    /// Single bit value
    SingleBit(bool),
}

/// What reading register `index` gives: the register, or the message of the
/// conversion error.
pub open spec fn register_at(v: RawProtocolValue, index: usize) -> Result<u16, Seq<char>> {
    match v {
        RawProtocolValue::Registers(regs) => if index < regs@.len() {
            Ok(regs@[index as int])
        } else {
            Err("Register index "@ + decimal_of(index as nat) + " out of range"@)
        },
        RawProtocolValue::SingleRegister(r) => if index == 0 {
            Ok(r)
        } else {
            Err("Single register but requested index "@ + decimal_of(index as nat))
        },
        _ => Err("Cannot extract register from non-register data"@),
    }
}

/// What reading bit `index` gives: the bit, or the message of the conversion error.
pub open spec fn bit_at(v: RawProtocolValue, index: usize) -> Result<bool, Seq<char>> {
    match v {
        RawProtocolValue::Bits(bits) => if index < bits@.len() {
            Ok(bits@[index as int])
        } else {
            Err("Bit index "@ + decimal_of(index as nat) + " out of range"@)
        },
        RawProtocolValue::SingleBit(b) => if index == 0 {
            Ok(b)
        } else {
            Err("Single bit but requested index "@ + decimal_of(index as nat))
        },
        _ => Err("Cannot extract bit from non-bit data"@),
    }
}

/// Whether bit `k` of a register word is set.
pub open spec fn word_bit(w: u16, k: u8) -> bool {
    (w as int / pow2_16(k as nat) as int) % 2 == 1
}

/// `2` to the power `n`.
pub open spec fn pow2_16(n: nat) -> nat
    decreases n,
{
    if n == 0 {
        1
    } else {
        2 * pow2_16((n - 1) as nat)
    }
}

/// What reading bit `bit` of register `index` gives.
pub open spec fn register_bit_at(v: RawProtocolValue, index: usize, bit: u8) -> Result<bool, Seq<char>> {
    if bit > 15 {
        Err("Bit position "@ + decimal_of(bit as nat) + " out of range (0-15)"@)
    } else {
        match register_at(v, index) {
            Ok(w) => Ok(word_bit(w, bit)),
            Err(m) => Err(m),
        }
    }
}

/// What reading value `index` as a boolean gives: bits as they are, registers as
/// non-zero.
pub open spec fn bool_at(v: RawProtocolValue, index: usize) -> Result<bool, Seq<char>> {
    match v {
        RawProtocolValue::Bits(_) | RawProtocolValue::SingleBit(_) => bit_at(v, index),
        _ => match register_at(v, index) {
            Ok(w) => Ok(w != 0),
            Err(m) => Err(m),
        },
    }
}

/// What reading value `index` for analog processing gives: the register, whose
/// number is the analog value; data that is not registers cannot be converted.
pub open spec fn analog_register_at(v: RawProtocolValue, index: usize) -> Result<u16, Seq<char>> {
    match v {
        RawProtocolValue::Registers(_) | RawProtocolValue::SingleRegister(_) => register_at(v, index),
        _ => Err("Cannot convert non-register data to float"@),
    }
}

/// A result whose error is a conversion error carrying the given message.
pub open spec fn conversion_result<T>(r: Result<T, ComSrvError>, expected: Result<T, Seq<char>>) -> bool {
    match expected {
        Ok(x) => r == Ok::<T, ComSrvError>(x),
        Err(m) => r matches Err(ComSrvError::DataConversionError(e)) && e@ == m,
    }
}

/// Bit `k` of a word, read with a mask, agrees with its binary digit.
proof fn lemma_word_bit(w: u16, k: u8)
    requires
        k <= 15,
    ensures
        ((w & (1u16 << k)) != 0) == word_bit(w, k),
{
    reveal_with_fuel(pow2_16, 17);
    let kk = k as u16;
    assert(((w & (1u16 << kk)) != 0) == ((w >> kk) & 1u16 == 1u16)) by (bit_vector)
        requires
            kk <= 15,
    ;
    if k == 0 { assert((w >> 0u16) & 1u16 == (w / 1) % 2) by (bit_vector); }
    else if k == 1 { assert((w >> 1u16) & 1u16 == (w / 2) % 2) by (bit_vector); }
    else if k == 2 { assert((w >> 2u16) & 1u16 == (w / 4) % 2) by (bit_vector); }
    else if k == 3 { assert((w >> 3u16) & 1u16 == (w / 8) % 2) by (bit_vector); }
    else if k == 4 { assert((w >> 4u16) & 1u16 == (w / 16) % 2) by (bit_vector); }
    else if k == 5 { assert((w >> 5u16) & 1u16 == (w / 32) % 2) by (bit_vector); }
    else if k == 6 { assert((w >> 6u16) & 1u16 == (w / 64) % 2) by (bit_vector); }
    else if k == 7 { assert((w >> 7u16) & 1u16 == (w / 128) % 2) by (bit_vector); }
    else if k == 8 { assert((w >> 8u16) & 1u16 == (w / 256) % 2) by (bit_vector); }
    else if k == 9 { assert((w >> 9u16) & 1u16 == (w / 512) % 2) by (bit_vector); }
    else if k == 10 { assert((w >> 10u16) & 1u16 == (w / 1024) % 2) by (bit_vector); }
    else if k == 11 { assert((w >> 11u16) & 1u16 == (w / 2048) % 2) by (bit_vector); }
    else if k == 12 { assert((w >> 12u16) & 1u16 == (w / 4096) % 2) by (bit_vector); }
    else if k == 13 { assert((w >> 13u16) & 1u16 == (w / 8192) % 2) by (bit_vector); }
    else if k == 14 { assert((w >> 14u16) & 1u16 == (w / 16384) % 2) by (bit_vector); }
    else { assert((w >> 15u16) & 1u16 == (w / 32768) % 2) by (bit_vector); }
}

impl RawProtocolValue {
    /// The value for a register-parsing outcome: the registers, or the parser's error.
    pub fn from_register_result(parsed: Result<Vec<u16>, ComSrvError>) -> (r: Result<Self, ComSrvError>)
        ensures
            match parsed {
                Ok(regs) => r == Ok::<Self, ComSrvError>(RawProtocolValue::Registers(regs)),
                Err(e) => r == Err::<Self, ComSrvError>(e),
            },
    {
        match parsed {
            Ok(regs) => Ok(RawProtocolValue::Registers(regs)),
            Err(e) => Err(e),
        }
    }

    /// The value for a bit-parsing outcome: the bits, or the parser's error.
    pub fn from_bit_result(parsed: Result<Vec<bool>, ComSrvError>) -> (r: Result<Self, ComSrvError>)
        ensures
            match parsed {
                Ok(bits) => r == Ok::<Self, ComSrvError>(RawProtocolValue::Bits(bits)),
                Err(e) => r == Err::<Self, ComSrvError>(e),
            },
    {
        match parsed {
            Ok(bits) => Ok(RawProtocolValue::Bits(bits)),
            Err(e) => Err(e),
        }
    }

    /// Create from a response's register parsing; on success the value holds registers.
    pub fn from_registers(response: &dyn ProtocolResponse) -> (r: Result<Self, ComSrvError>)
        ensures
            r matches Ok(v) ==> v is Registers,
    {
        Self::from_register_result(response.parse_registers())
    }

    /// Create from a response's bit parsing; on success the value holds bits.
    pub fn from_bits(response: &dyn ProtocolResponse) -> (r: Result<Self, ComSrvError>)
        ensures
            r matches Ok(v) ==> v is Bits,
    {
        Self::from_bit_result(response.parse_bits())
    }

    /// Extract a specific register value by index.
    pub fn get_register(&self, index: usize) -> (r: Result<u16, ComSrvError>)
        ensures
            conversion_result(r, register_at(*self, index)),
    {
        match self {
            RawProtocolValue::Registers(registers) => {
                if index < registers.len() {
                    Ok(registers[index])
                } else {
                    Err(ComSrvError::DataConversionError(text_num_text("Register index ", index as u64, " out of range")))
                }
            },
            RawProtocolValue::SingleRegister(value) => {
                if index == 0 {
                    Ok(*value)
                } else {
                    proof {
                        reveal_strlit("");
                    }
                    Err(ComSrvError::DataConversionError(text_num_text("Single register but requested index ", index as u64, "")))
                }
            },
            _ => Err(ComSrvError::DataConversionError(string_of("Cannot extract register from non-register data"))),
        }
    }

    /// Extract a specific bit value by index.
    pub fn get_bit(&self, index: usize) -> (r: Result<bool, ComSrvError>)
        ensures
            conversion_result(r, bit_at(*self, index)),
    {
        match self {
            RawProtocolValue::Bits(bits) => {
                if index < bits.len() {
                    Ok(bits[index])
                } else {
                    Err(ComSrvError::DataConversionError(text_num_text("Bit index ", index as u64, " out of range")))
                }
            },
            RawProtocolValue::SingleBit(value) => {
                if index == 0 {
                    Ok(*value)
                } else {
                    proof {
                        reveal_strlit("");
                    }
                    Err(ComSrvError::DataConversionError(text_num_text("Single bit but requested index ", index as u64, "")))
                }
            },
            _ => Err(ComSrvError::DataConversionError(string_of("Cannot extract bit from non-bit data"))),
        }
    }

    /// Extract a bit from a register at the given bit position (0-15).
    pub fn get_register_bit(&self, register_index: usize, bit_position: u8) -> (r: Result<bool, ComSrvError>)
        ensures
            conversion_result(r, register_bit_at(*self, register_index, bit_position)),
    {
        if bit_position > 15 {
            return Err(ComSrvError::DataConversionError(text_num_text("Bit position ", bit_position as u64, " out of range (0-15)")));
        }
        let register_value = match self.get_register(register_index) {
            Ok(v) => v,
            Err(e) => {
                return Err(e);
            },
        };
        let mask: u16 = 1u16 << bit_position;
        proof {
            lemma_word_bit(register_value, bit_position);
        }
        Ok((register_value & mask) != 0)
    }

    /// The register that analog processing converts: registers as they are; other
    /// data cannot be converted.
    pub fn analog_register(&self, index: usize) -> (r: Result<u16, ComSrvError>)
        ensures
            conversion_result(r, analog_register_at(*self, index)),
    {
        match self {
            RawProtocolValue::Registers(_) | RawProtocolValue::SingleRegister(_) => self.get_register(index),
            _ => Err(ComSrvError::DataConversionError(string_of("Cannot convert non-register data to float"))),
        }
    }

    /// Convert to bool for digital processing: bits as they are, registers as non-zero.
    pub fn to_bool(&self, index: usize) -> (r: Result<bool, ComSrvError>)
        ensures
            conversion_result(r, bool_at(*self, index)),
    {
        match self {
            RawProtocolValue::Bits(_) => self.get_bit(index),
            RawProtocolValue::SingleBit(value) => {
                if index == 0 {
                    Ok(*value)
                } else {
                    proof {
                        reveal_strlit("");
                    }
                    Err(ComSrvError::DataConversionError(text_num_text("Single bit but requested index ", index as u64, "")))
                }
            },
            RawProtocolValue::Registers(_) | RawProtocolValue::SingleRegister(_) => {
                match self.get_register(index) {
                    Ok(v) => Ok(v != 0),
                    Err(e) => Err(e),
                }
            },
        }
    }
}

/// Reading bit `k` of a register through the register-bit accessor agrees with reading
/// the register, shifting it right by `k` and masking the lowest bit.
pub proof fn lemma_register_bit_agrees(v: RawProtocolValue, index: usize, bit: u8)
    requires
        bit <= 15,
    ensures
        register_bit_at(v, index, bit) == match register_at(v, index) {
            Ok(w) => Ok((w >> (bit as u16)) & 1u16 == 1u16),
            Err(m) => Err(m),
        },
{
    match register_at(v, index) {
        Ok(w) => {
            lemma_word_bit(w, bit);
            let kk = bit as u16;
            assert(((w & (1u16 << kk)) != 0) == ((w >> kk) & 1u16 == 1u16)) by (bit_vector)
                requires
                    kk <= 15,
            ;
        },
        Err(_) => {},
    }
}

} // verus!
