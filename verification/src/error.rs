//! The service's error type and helpers that build its messages.

use vstd::prelude::*;
use vstd::string::*;

verus! {

/// Errors reported by the communication service.
#[derive(Debug, Clone)]
pub enum ComSrvError {
    /// A configuration value is missing or malformed.
    ConfigError(String),
    /// A parameter is out of its allowed range.
    InvalidParameter(String),
    /// Raw protocol data cannot be converted as requested.
    DataConversionError(String),
    /// Received data is malformed.
    InvalidData(String),
    /// An item that was looked up does not exist.
    NotFound(String),
    /// A point that was looked up does not exist.
    PointNotFound(String),
    /// The operation is not allowed in the current state.
    InvalidOperation(String),
    /// The component is in the wrong state for the request.
    StateError(String),
    /// A connection could not be obtained.
    ConnectionError(String),
    /// The protocol is not known.
    ProtocolNotSupported(String),
    /// A network exchange failed.
    NetworkError(String),
    /// A request did not complete in time.
    TimeoutError(String),
    /// Reading or writing a file failed.
    IoError(String),
    /// Data could not be serialized or parsed.
    SerializationError(String),
}

impl ComSrvError {
    /// The message carried by the error.
    pub open spec fn message(self) -> Seq<char> {
        match self {
            ComSrvError::ConfigError(m) => m@,
            ComSrvError::InvalidParameter(m) => m@,
            ComSrvError::DataConversionError(m) => m@,
            ComSrvError::InvalidData(m) => m@,
            ComSrvError::NotFound(m) => m@,
            ComSrvError::PointNotFound(m) => m@,
            ComSrvError::InvalidOperation(m) => m@,
            ComSrvError::StateError(m) => m@,
            ComSrvError::ConnectionError(m) => m@,
            ComSrvError::ProtocolNotSupported(m) => m@,
            ComSrvError::NetworkError(m) => m@,
            ComSrvError::TimeoutError(m) => m@,
            ComSrvError::IoError(m) => m@,
            ComSrvError::SerializationError(m) => m@,
        }
    }
}

/// Appends the characters of `s` to `out`.
pub fn push_str(out: &mut String, s: &str)
    ensures
        final(out)@ == old(out)@ + s@,
{
    out.append(s);
}

/// `a` followed by the decimal form of `n` followed by `b`.
pub fn text_num_text(a: &str, n: u64, b: &str) -> (r: String)
    ensures
        r@ == a@ + crate::text::decimal_of(n as nat) + b@,
{
    let mut out = String::new();
    push_str(&mut out, a);
    crate::text::push_decimal(&mut out, n);
    push_str(&mut out, b);
    assert(out@ =~= a@ + crate::text::decimal_of(n as nat) + b@);
    out
}

/// `a` followed by `s` followed by `b`.
pub fn text_str_text(a: &str, s: &str, b: &str) -> (r: String)
    ensures
        r@ == a@ + s@ + b@,
{
    let mut out = String::new();
    push_str(&mut out, a);
    push_str(&mut out, s);
    push_str(&mut out, b);
    assert(out@ =~= a@ + s@ + b@);
    out
}

} // verus!
