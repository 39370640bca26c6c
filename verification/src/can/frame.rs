//! CAN frame definition, construction rules and acceptance filtering.

use vstd::prelude::*;
use crate::text::string_of;

verus! {

/// The largest standard (11-bit) identifier.
pub const MAX_STANDARD_ID: u16 = 0x7FF;

/// The largest extended (29-bit) identifier.
pub const MAX_EXTENDED_ID: u32 = 0x1FFFFFFF;

/// The largest number of data bytes in a classic CAN frame.
pub const MAX_FRAME_DATA: usize = 8;

/// CAN frame identifier type.
#[derive(Debug, Clone, Copy, PartialEq, Eq, Hash, Structural)]
pub enum CanId {
    /// Standard 11-bit identifier
    Standard(u16),
    /// Extended 29-bit identifier
    Extended(u32),
}

impl CanId {
    /// The numeric value of the identifier.
    pub open spec fn raw_value(self) -> u32 {
        match self {
            CanId::Standard(id) => id as u32,
            CanId::Extended(id) => id,
        }
    }

    /// Get the raw identifier value.
    pub fn raw(&self) -> (r: u32)
        ensures
            r == self.raw_value(),
    {
        match self {
            CanId::Standard(id) => *id as u32,
            CanId::Extended(id) => *id,
        }
    }

    /// Check if this is an extended identifier.
    pub fn is_extended(&self) -> (r: bool)
        ensures
            r == (*self is Extended),
    {
        match self {
            CanId::Standard(_) => false,
            CanId::Extended(_) => true,
        }
    }
}

/// CAN frame data.
#[derive(Debug, Clone, PartialEq, Eq)]
pub struct CanFrame {
    /// Frame identifier
    pub id: CanId,
    /// Frame data (0-8 bytes)
    pub data: Vec<u8>,
    /// Remote transmission request flag
    pub rtr: bool,
    /// Error frame flag
    pub err: bool,
}

/// The message given when a frame is built with more than eight data bytes.
pub open spec fn data_too_long_message() -> Seq<char> {
    "CAN frame data cannot exceed 8 bytes"@
}

/// The message given when a standard identifier is above 0x7FF.
pub open spec fn standard_id_message() -> Seq<char> {
    "Standard CAN ID cannot exceed 0x7FF"@
}

/// The message given when an extended identifier is above 0x1FFFFFFF.
pub open spec fn extended_id_message() -> Seq<char> {
    "Extended CAN ID cannot exceed 0x1FFFFFFF"@
}

/// The message given when a remote frame asks for more than eight bytes.
pub open spec fn dlc_message() -> Seq<char> {
    "DLC cannot exceed 8"@
}

/// A data frame with the given identifier and payload and both flags clear.
pub open spec fn is_data_frame(f: CanFrame, id: CanId, data: Seq<u8>) -> bool {
    &&& f.id == id
    &&& f.data@ == data
    &&& !f.rtr
    &&& !f.err
}

impl CanFrame {
    /// Create a new CAN frame; refused when the payload is longer than eight bytes.
    pub fn new(id: CanId, data: Vec<u8>) -> (r: Result<CanFrame, String>)
        ensures
            r is Ok <==> data@.len() <= 8,
            r matches Ok(f) ==> is_data_frame(f, id, data@),
            r matches Err(e) ==> e@ == data_too_long_message(),
    {
        if data.len() > MAX_FRAME_DATA {
            let e = string_of("CAN frame data cannot exceed 8 bytes");
            proof {
                reveal_strlit("CAN frame data cannot exceed 8 bytes");
            }
            return Err(e);
        }
        Ok(CanFrame { id, data, rtr: false, err: false })
    }

    /// Create a new standard CAN frame; the identifier must not exceed 0x7FF.
    pub fn new_standard(id: u16, data: Vec<u8>) -> (r: Result<CanFrame, String>)
        ensures
            r is Ok <==> (id <= 0x7FF && data@.len() <= 8),
            r matches Ok(f) ==> is_data_frame(f, CanId::Standard(id), data@),
            r matches Err(e) ==> (if id > 0x7FF {
                e@ == standard_id_message()
            } else {
                e@ == data_too_long_message()
            }),
    {
        if id > MAX_STANDARD_ID {
            return Err(string_of("Standard CAN ID cannot exceed 0x7FF"));
        }
        Self::new(CanId::Standard(id), data)
    }

    /// Create a new extended CAN frame; the identifier must not exceed 0x1FFFFFFF.
    pub fn new_extended(id: u32, data: Vec<u8>) -> (r: Result<CanFrame, String>)
        ensures
            r is Ok <==> (id <= 0x1FFFFFFF && data@.len() <= 8),
            r matches Ok(f) ==> is_data_frame(f, CanId::Extended(id), data@),
            r matches Err(e) ==> (if id > 0x1FFFFFFF {
                e@ == extended_id_message()
            } else {
                e@ == data_too_long_message()
            }),
    {
        if id > MAX_EXTENDED_ID {
            return Err(string_of("Extended CAN ID cannot exceed 0x1FFFFFFF"));
        }
        Self::new(CanId::Extended(id), data)
    }

    /// Create a remote transmission request frame carrying `dlc` zero bytes.
    pub fn new_rtr(id: CanId, dlc: u8) -> (r: Result<CanFrame, String>)
        ensures
            r is Ok <==> dlc <= 8,
            r matches Ok(f) ==> {
                &&& f.id == id
                &&& f.data@ == Seq::new(dlc as nat, |i: int| 0u8)
                &&& f.rtr
                &&& !f.err
            },
            r matches Err(e) ==> e@ == dlc_message(),
    {
        if dlc > 8 {
            return Err(string_of("DLC cannot exceed 8"));
        }
        let mut data: Vec<u8> = Vec::new();
        let mut i: u8 = 0;
        while i < dlc
            invariant
                i <= dlc,
                data@ == Seq::new(i as nat, |k: int| 0u8),
            decreases dlc - i,
        {
            data.push(0u8);
            i = i + 1;
            assert(data@ =~= Seq::new(i as nat, |k: int| 0u8));
        }
        Ok(CanFrame { id, data, rtr: true, err: false })
    }

    /// Get the data length code (the payload length, truncated to eight bits).
    pub fn dlc(&self) -> (r: u8)
        ensures
            r as int == self.data@.len() % 256,
    {
        let n = self.data.len();
        #[verifier::truncate]
        let r = n as u8;
        assert(r as int == n % 256) by (bit_vector)
            requires
                r == n as u8,
        ;
        r
    }

    /// Check if this is a remote transmission request.
    pub fn is_rtr(&self) -> (r: bool)
        ensures
            r == self.rtr,
    {
        self.rtr
    }

    /// Check if this is an error frame.
    pub fn is_error(&self) -> (r: bool)
        ensures
            r == self.err,
    {
        self.err
    }
}

/// CAN message filter.
#[derive(Debug, Clone, Copy)]
pub struct CanFilter {
    /// Filter ID
    pub id: u32,
    /// Filter mask
    pub mask: u32,
    /// Apply to extended frames
    pub extended: bool,
}

/// The bits a frame identifier must carry to pass a filter: those set in both the
/// filter's identifier and its mask.
pub open spec fn required_bits(filter: CanFilter) -> u32 {
    filter.id & filter.mask
}

/// Whether a frame with identifier `frame_id` passes a filter: the identifier kinds
/// agree and the frame's identifier has every bit set that the filter's identifier
/// and mask have in common. A filter with id 0x100 and mask 0xFF0 thus passes
/// 0x123 and refuses 0x200.
pub open spec fn filter_accepts(filter: CanFilter, frame_id: CanId) -> bool {
    &&& filter.extended == (frame_id is Extended)
    &&& (frame_id.raw_value() & required_bits(filter)) == required_bits(filter)
}

impl CanFilter {
    /// Create a new CAN filter.
    pub fn new(id: u32, mask: u32, extended: bool) -> (f: CanFilter)
        ensures
            f.id == id,
            f.mask == mask,
            f.extended == extended,
    {
        CanFilter { id, mask, extended }
    }

    /// Check if a frame matches this filter.
    pub fn matches(&self, frame: &CanFrame) -> (r: bool)
        ensures
            r == filter_accepts(*self, frame.id),
    {
        let frame_extended = frame.id.is_extended();
        if self.extended != frame_extended {
            return false;
        }
        let frame_id = frame.id.raw();
        let required = self.id & self.mask;
        (frame_id & required) == required
    }
}

/// A filter whose mask is zero accepts every frame of its identifier kind.
pub proof fn lemma_zero_mask_accepts_all(filter: CanFilter, frame_id: CanId)
    requires
        filter.mask == 0,
        filter.extended == (frame_id is Extended),
    ensures
        filter_accepts(filter, frame_id),
{
    let a = frame_id.raw_value();
    let b = filter.id;
    assert(a & (b & 0) == b & 0) by (bit_vector);
}

/// A filter accepts frames of its kind that carry its own identifier, and frames
/// that carry more bits than its identifier.
pub proof fn lemma_own_identifier_accepted(filter: CanFilter, frame_id: CanId)
    requires
        filter.extended == (frame_id is Extended),
        frame_id.raw_value() & filter.id == filter.id,
    ensures
        filter_accepts(filter, frame_id),
{
    let a = frame_id.raw_value();
    let b = filter.id;
    let m = filter.mask;
    assert(a & (b & m) == b & m) by (bit_vector)
        requires
            a & b == b,
    ;
}

/// A filter never accepts a frame whose identifier kind differs from its own.
pub proof fn lemma_kind_mismatch_rejects(filter: CanFilter, frame_id: CanId)
    requires
        filter.extended != (frame_id is Extended),
    ensures
        !filter_accepts(filter, frame_id),
{
}

} // verus!
