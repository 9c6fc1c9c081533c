//! The 4-byte transport-protocol header that follows the SOME/IP header of a segment.
use vstd::prelude::*;
use crate::error::{Result, SomeIpError};
use crate::header::{be_u32_at, be_u32_bytes, push_be_u32, read_be_u32};

verus! {

/// Size of the segment header in bytes.
pub const TP_HEADER_SIZE: usize = 4;

/// Segment header: offset in 16-byte units and the more-segments flag.
#[derive(Debug, Clone, Copy, PartialEq, Eq, Structural)]
pub struct TpHeader {
    /// Offset of the segment's payload, in 16-byte units (28 bits on the wire).
    pub offset: u32,
    /// Whether more segments follow.
    pub more: bool,
}

impl TpHeader {
    /// The 32-bit word of this header: offset in the upper 28 bits, the flag in bit 0.
    pub open spec fn spec_word(&self) -> u32 {
        ((self.offset % 0x1000_0000) * 16 + if self.more { 1int } else { 0int }) as u32
    }

    /// The header that the word `w` encodes.
    pub open spec fn spec_from_word(w: u32) -> TpHeader {
        TpHeader { offset: w / 16, more: w % 2 == 1 }
    }

    /// The byte offset of the segment's payload.
    pub open spec fn spec_byte_offset(&self) -> int {
        self.offset as int * 16
    }

    /// Create a header.
    pub fn new(offset: u32, more: bool) -> (r: TpHeader)
        ensures
            r == (TpHeader { offset, more }),
    {
        TpHeader { offset, more }
    }

    /// The header of the first segment.
    pub fn first(more: bool) -> (r: TpHeader)
        ensures
            r == (TpHeader { offset: 0, more }),
    {
        TpHeader { offset: 0, more }
    }

    /// The header of a segment starting at `byte_offset` (rounded down to 16).
    pub fn from_byte_offset(byte_offset: usize, more: bool) -> (r: TpHeader)
        ensures
            r == (TpHeader { offset: (byte_offset / 16) as u32, more }),
    {
        TpHeader { offset: (byte_offset / 16) as u32, more }
    }

    /// The byte offset of the segment's payload: `offset * 16`.
    pub fn byte_offset(&self) -> (r: usize)
        requires
            self.spec_byte_offset() <= usize::MAX,
        ensures
            r == self.spec_byte_offset(),
    {
        (self.offset as usize) * 16
    }

    /// Decode a header from the first 4 bytes of `data`.
    pub fn from_bytes(data: &[u8]) -> (r: Result<TpHeader>)
        ensures
            data@.len() < TP_HEADER_SIZE ==> r == Err::<TpHeader, SomeIpError>(
                SomeIpError::MessageTooShort { expected: TP_HEADER_SIZE, actual: data@.len() as usize },
            ),
            data@.len() >= TP_HEADER_SIZE ==> r == Ok::<TpHeader, SomeIpError>(
                Self::spec_from_word(be_u32_at(data@, 0)),
            ),
    {
        if data.len() < TP_HEADER_SIZE {
            return Err(SomeIpError::MessageTooShort { expected: TP_HEADER_SIZE, actual: data.len() });
        }
        let value = read_be_u32(data, 0);
        Ok(TpHeader { offset: value / 16, more: value % 2 == 1 })
    }

    /// Append the 4 wire bytes of this header to `buf`.
    pub fn write_to(&self, buf: &mut Vec<u8>)
        ensures
            final(buf)@ == old(buf)@ + be_u32_bytes(self.spec_word()),
    {
        let flag: u32 = if self.more { 1 } else { 0 };
        let value: u32 = (self.offset % 0x1000_0000) * 16 + flag;
        push_be_u32(buf, value);
    }

    /// Encode this header to its 4 wire bytes.
    pub fn to_bytes(&self) -> (r: Vec<u8>)
        ensures
            r@ == be_u32_bytes(self.spec_word()),
    {
        let mut buf: Vec<u8> = Vec::with_capacity(TP_HEADER_SIZE);
        self.write_to(&mut buf);
        assert(buf@ =~= be_u32_bytes(self.spec_word()));
        buf
    }
}

/// A segment header whose offset fits in 28 bits is recovered from its word.
pub proof fn lemma_tp_header_round_trip(h: TpHeader)
    requires
        h.offset < 0x1000_0000,
    ensures
        TpHeader::spec_from_word(h.spec_word()) == h,
{
}

} // verus!
