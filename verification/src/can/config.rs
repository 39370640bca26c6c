//! CAN protocol configuration.

use vstd::prelude::*;
use crate::text::string_of;

verus! {

/// CAN protocol configuration.
#[derive(Debug, Clone)]
pub struct CanConfig {
    /// CAN interface name
    pub interface: String,
    /// Bitrate in bits per second
    pub bitrate: u32,
    /// Use extended (29-bit) CAN IDs
    pub use_extended_id: bool,
    /// Use CAN FD (Flexible Data-rate)
    pub use_fd: bool,
    /// Read timeout in milliseconds
    pub timeout_ms: u64,
    /// Size of the transmit queue
    pub send_queue_size: usize,
}

/// The default configuration: interface `can0` at 500 kbit/s, standard identifiers,
/// classic CAN, a one-second timeout and a queue of 100 frames.
pub open spec fn is_default_can_config(c: CanConfig) -> bool {
    &&& c.interface@ == "can0"@
    &&& c.bitrate == 500000
    &&& !c.use_extended_id
    &&& !c.use_fd
    &&& c.timeout_ms == 1000
    &&& c.send_queue_size == 100
}

impl Default for CanConfig {
    fn default() -> (c: Self)
        ensures
            is_default_can_config(c),
    {
        CanConfig {
            interface: string_of("can0"),
            bitrate: 500000,
            use_extended_id: false,
            use_fd: false,
            timeout_ms: 1000,
            send_queue_size: 100,
        }
    }
}

} // verus!
