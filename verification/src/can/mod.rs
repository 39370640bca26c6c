//! CAN (Controller Area Network) protocol: frames, filters, payload decoding and
//! configuration checks.

pub mod client;
pub mod common;
pub mod config;
pub mod frame;
pub mod plugin;

pub use config::CanConfig;

use vstd::prelude::*;
use crate::combase::packet_parser::{PacketParseResult, ProtocolPacketParser};
use crate::param_map::ParamMap;
use crate::text::hex_joined;

verus! {

/// CAN protocol packet parser: logs frames as hexadecimal bytes.
pub struct CanPacketParser;

impl CanPacketParser {
    /// Create a new CAN packet parser.
    pub fn new() -> (r: Self)
        ensures
            r == CanPacketParser,
    {
        CanPacketParser
    }
}

impl ProtocolPacketParser for CanPacketParser {
    fn protocol_name(&self) -> (r: &str)
        ensures
            r@ == "CAN"@,
    {
        "CAN"
    }

    /// A CAN frame is reported as a successful parse of its hexadecimal bytes; the
    /// frame's fields are not interpreted.
    fn parse_packet(&self, data: &[u8], direction: &str) -> (r: PacketParseResult)
        ensures
            r.protocol@ == "CAN"@,
            r.direction@ == direction@,
            r.hex_data@ == hex_joined(data@),
            r.description@ == "CAN parser disabled"@,
            r.fields.wf(),
            r.fields@ == Map::<Seq<char>, Seq<char>>::empty(),
            r.success,
            r.error is None,
    {
        let hex_data = self.format_hex_data(data);
        PacketParseResult::success("CAN", direction, hex_data.as_str(), "CAN parser disabled", ParamMap::new())
    }
}

} // verus!
