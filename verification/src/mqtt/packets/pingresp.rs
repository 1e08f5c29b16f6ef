use vstd::prelude::*;

use crate::error::Error;
use crate::mqtt::fixed_header::FixedHeader;
use crate::mqtt::packets::{PINGRESP_PACKET_TYPE, RESERVED_FIXED_HEADER_FLAGS};
use crate::mqtt::remaining_length::RemainingLength;

verus! {

/// The answer of the server to a PINGREQ.
#[derive(Debug, Default, Clone, Copy, PartialEq, Eq, Structural)]
pub struct Pingresp;

/// The only bytes of a PINGRESP: its fixed header with no remaining length.
pub open spec fn spec_pingresp_bytes() -> Seq<u8> {
    seq![0xD0u8, 0x00u8]
}

impl Pingresp {
    pub fn new() -> (p: Pingresp)
        ensures
            p == Pingresp,
    {
        Pingresp
    }

    /// Builds the packet from its fixed header; the flags must be the
    /// reserved ones.
    pub fn from_bytes(fixed_header: FixedHeader) -> (res: Result<Pingresp, Error>)
        ensures
            fixed_header.spec_first_byte() % 16 == 0 ==> res == Ok::<Pingresp, Error>(Pingresp),
            fixed_header.spec_first_byte() % 16 != 0 ==> res == Err::<Pingresp, Error>(Error::InvalidFixedHeaderFlags),
    {
        let first_byte = fixed_header.first_byte();
        let fixed_header_flags = first_byte & 0b0000_1111;
        assert(first_byte & 0x0f == first_byte % 16) by (bit_vector);
        if fixed_header_flags != RESERVED_FIXED_HEADER_FLAGS {
            return Err(Error::InvalidFixedHeaderFlags);
        }
        Ok(Pingresp::new())
    }

    pub fn to_bytes(&self) -> (bytes: Vec<u8>)
        ensures
            bytes@ == spec_pingresp_bytes(),
    {
        let mut packet_bytes: Vec<u8> = Vec::new();
        packet_bytes.push(PINGRESP_PACKET_TYPE * 16 + RESERVED_FIXED_HEADER_FLAGS);
        let mut remaining_length_bytes = RemainingLength::new(0).to_bytes();
        packet_bytes.append(&mut remaining_length_bytes);
        assert(packet_bytes@ =~= spec_pingresp_bytes());
        packet_bytes
    }
}

} // verus!
