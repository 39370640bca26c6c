//! Human-readable interpretation of protocol packets: parse results, the parser
//! interface each protocol implements, and a registry that routes a packet to the
//! parser registered for its protocol.

use vstd::prelude::*;
use crate::error::push_str;
use crate::param_map::ParamMap;
use crate::text::{format_hex_bytes, hex_joined, str_eq, string_of, to_uppercase, raised};

verus! {

/// Result of parsing one protocol packet.
#[derive(Debug, Clone)]
pub struct PacketParseResult {
    /// Protocol type (e.g., "Modbus", "IEC60870", "CAN")
    pub protocol: String,
    /// Packet direction ("send" or "receive")
    pub direction: String,
    /// Hexadecimal representation of raw data
    pub hex_data: String,
    /// Human-readable description of packet structure
    pub description: String,
    /// Parsed data fields
    pub fields: ParamMap,
    /// Whether parsing was successful
    pub success: bool,
    /// Error message if parsing failed
    pub error: Option<String>,
}

/// The debug log line of a parse result: the direction in capitals in brackets,
/// the hex data, a bar and the description; a failure adds its error (or
/// "Unknown error") in parentheses.
pub open spec fn debug_log_text(r: PacketParseResult) -> Seq<char> {
    let head = "["@ + raised(r.direction@) + "] "@ + r.hex_data@ + " | "@ + r.description@;
    if r.success {
        head
    } else {
        head + " ("@ + match r.error {
            Some(e) => e@,
            None => "Unknown error"@,
        } + ")"@
    }
}

impl PacketParseResult {
    /// Create a new successful parse result.
    pub fn success(protocol: &str, direction: &str, hex_data: &str, description: &str, fields: ParamMap) -> (r: Self)
        ensures
            r.protocol@ == protocol@,
            r.direction@ == direction@,
            r.hex_data@ == hex_data@,
            r.description@ == description@,
            r.fields == fields,
            r.success,
            r.error is None,
    {
        PacketParseResult {
            protocol: string_of(protocol),
            direction: string_of(direction),
            hex_data: string_of(hex_data),
            description: string_of(description),
            fields,
            success: true,
            error: None,
        }
    }

    /// Create a new failed parse result; its description is "Parse error: " and the error.
    pub fn failure(protocol: &str, direction: &str, hex_data: &str, error: &str) -> (r: Self)
        ensures
            r.protocol@ == protocol@,
            r.direction@ == direction@,
            r.hex_data@ == hex_data@,
            r.description@ == "Parse error: "@ + error@,
            r.fields.wf(),
            r.fields@ == Map::<Seq<char>, Seq<char>>::empty(),
            !r.success,
            r.error matches Some(e) && e@ == error@,
    {
        let mut description = string_of("Parse error: ");
        push_str(&mut description, error);
        PacketParseResult {
            protocol: string_of(protocol),
            direction: string_of(direction),
            hex_data: string_of(hex_data),
            description,
            fields: ParamMap::new(),
            success: false,
            error: Some(string_of(error)),
        }
    }

    /// Format as debug log entry.
    pub fn format_debug_log(&self) -> (s: String)
        ensures
            s@ == debug_log_text(*self),
    {
        let mut s = string_of("[");
        let upper = to_uppercase(self.direction.as_str());
        push_str(&mut s, upper.as_str());
        push_str(&mut s, "] ");
        push_str(&mut s, self.hex_data.as_str());
        push_str(&mut s, " | ");
        push_str(&mut s, self.description.as_str());
        if !self.success {
            push_str(&mut s, " (");
            match &self.error {
                Some(e) => push_str(&mut s, e.as_str()),
                None => push_str(&mut s, "Unknown error"),
            }
            push_str(&mut s, ")");
        }
        s
    }
}

/// Protocol packet parser, implemented by each protocol.
pub trait ProtocolPacketParser {
    /// Get the protocol name.
    fn protocol_name(&self) -> &str;

    /// Parse a packet and return a human-readable interpretation.
    fn parse_packet(&self, data: &[u8], direction: &str) -> PacketParseResult;

    /// Convert bytes to hexadecimal text: lowercase pairs separated by spaces.
    fn format_hex_data(&self, data: &[u8]) -> (s: String)
        ensures
            s@ == hex_joined(data@),
    {
        format_hex_bytes(data)
    }
}

/// A parser with the name it is registered under.
pub struct RegisteredParser {
    name: String,
    parser: Box<dyn ProtocolPacketParser>,
}

/// Protocol packet parser registry: at most one parser per protocol name.
pub struct ProtocolParserRegistry {
    parsers: Vec<RegisteredParser>,
}

/// Whether no name occurs twice.
pub open spec fn names_distinct(s: Seq<Seq<char>>) -> bool {
    forall|i: int, j: int| 0 <= i < s.len() && 0 <= j < s.len() && i != j ==> s[i] != s[j]
}

impl ProtocolParserRegistry {
    /// The names under which parsers are registered, in registration order.
    pub closed spec fn names(&self) -> Seq<Seq<char>> {
        Seq::new(self.parsers@.len(), |k: int| self.parsers@[k].name@)
    }

    /// No protocol name is registered twice.
    pub closed spec fn wf(&self) -> bool {
        names_distinct(self.names())
    }

    /// A registry entry for `parser` under `name`.
    fn entry(name: String, parser: Box<dyn ProtocolPacketParser>) -> (r: RegisteredParser)
        ensures
            r.name == name,
    {
        RegisteredParser { name, parser }
    }

    /// Create a new parser registry.
    pub fn new() -> (r: Self)
        ensures
            r.wf(),
            r.names() == Seq::<Seq<char>>::empty(),
    {
        let r = ProtocolParserRegistry { parsers: Vec::new() };
        assert(r.names() =~= Seq::<Seq<char>>::empty());
        r
    }

    /// The position of the parser registered under `name`, if any.
    fn position(&self, name: &str) -> (r: Option<usize>)
        ensures
            match r {
                Some(i) => i < self.names().len() && self.names()[i as int] == name@,
                None => !self.names().contains(name@),
            },
    {
        let n = self.parsers.len();
        let mut i: usize = 0;
        while i < n
            invariant
                n == self.parsers@.len(),
                i <= n,
                forall|j: int| 0 <= j < i ==> #[trigger] self.names()[j] != name@,
            decreases n - i,
        {
            if str_eq(self.parsers[i].name.as_str(), name) {
                return Some(i);
            }
            i = i + 1;
        }
        None
    }

    /// Register a parser under its protocol name, replacing an earlier parser with that name.
    pub fn register_parser<P: ProtocolPacketParser + 'static>(&mut self, parser: P)
        requires
            old(self).wf(),
        ensures
            final(self).wf(),
            exists|n: Seq<char>|
                final(self).names() == if old(self).names().contains(n) {
                    old(self).names()
                } else {
                    old(self).names().push(n)
                },
    {
        let name = string_of(parser.protocol_name());
        let parser: Box<dyn ProtocolPacketParser> = Box::new(parser);
        let ghost before = self.names();
        let ghost entries = self.parsers@;
        match self.position(name.as_str()) {
            Some(i) => {
                let ghost nm = name@;
                let e = Self::entry(name, parser);
                self.parsers.set(i, e);
                proof {
                    assert(self.parsers@.len() == entries.len());
                    assert(self.names().len() == entries.len());
                    assert forall|k: int| 0 <= k < before.len() implies #[trigger] self.names()[k] == before[k] by {
                        assert(self.names()[k] == self.parsers@[k].name@);
                        assert(before[k] == entries[k].name@);
                    }
                    assert(self.names() =~= before);
                    assert(before.contains(nm));
                }
            },
            None => {
                let ghost nm = name@;
                let e = Self::entry(name, parser);
                self.parsers.push(e);
                proof {
                    let after = self.names();
                    assert forall|k: int| 0 <= k < after.len() implies #[trigger] after[k] == before.push(nm)[k] by {
                        assert(after[k] == self.parsers@[k].name@);
                        if k < before.len() {
                            assert(before[k] == entries[k].name@);
                        }
                    }
                    assert(after =~= before.push(nm));
                    assert forall|a: int, b: int| 0 <= a < after.len() && 0 <= b < after.len() && a != b implies after[a]
                        != after[b] by {
                        if a == before.len() {
                            assert(before.contains(before[b]));
                        } else if b == before.len() {
                            assert(before.contains(before[a]));
                        }
                    }
                }
            },
        }
    }

    /// Parse a packet with the parser registered for `protocol`; without one, the
    /// result is a failure that says no parser is registered.
    pub fn parse_packet(&self, protocol: &str, data: &[u8], direction: &str) -> (r: PacketParseResult)
        ensures
            !self.names().contains(protocol@) ==> {
                &&& r.protocol@ == protocol@
                &&& r.direction@ == direction@
                &&& r.hex_data@ == hex_joined(data@)
                &&& !r.success
                &&& r.error matches Some(e) && e@ == "No parser registered for protocol: "@ + protocol@
            },
    {
        match self.position(protocol) {
            Some(i) => self.parsers[i].parser.parse_packet(data, direction),
            None => {
                let hex_data = format_hex_bytes(data);
                let mut message = string_of("No parser registered for protocol: ");
                push_str(&mut message, protocol);
                PacketParseResult::failure(protocol, direction, hex_data.as_str(), message.as_str())
            },
        }
    }

    /// Get list of registered protocols.
    pub fn registered_protocols(&self) -> (r: Vec<String>)
        ensures
            r@.len() == self.names().len(),
            forall|k: int| 0 <= k < r@.len() ==> #[trigger] r@[k]@ == self.names()[k],
    {
        let mut out: Vec<String> = Vec::new();
        let n = self.parsers.len();
        let mut i: usize = 0;
        while i < n
            invariant
                n == self.parsers@.len(),
                i <= n,
                out@.len() == i,
                forall|k: int| 0 <= k < i ==> #[trigger] out@[k]@ == self.names()[k],
            decreases n - i,
        {
            out.push(self.parsers[i].name.clone());
            i = i + 1;
        }
        out
    }
}

} // verus!
