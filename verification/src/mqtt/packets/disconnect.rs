use vstd::prelude::*;

use crate::error::Error;
use crate::mqtt::fixed_header::FixedHeader;
use crate::mqtt::packets::{DISCONNECT_PACKET_TYPE, RESERVED_FIXED_HEADER_FLAGS};
use crate::mqtt::remaining_length::RemainingLength;

verus! {

/// A DISCONNECT: the end of a session.
#[derive(Debug, Default, Clone, Copy, PartialEq, Eq, Structural)]
pub struct Disconnect;

/// The only bytes of a DISCONNECT: its fixed header with no remaining length.
pub open spec fn spec_disconnect_bytes() -> Seq<u8> {
    seq![0xE0u8, 0x00u8]
}

impl Disconnect {
    pub fn new() -> (d: Disconnect)
        ensures
            d == Disconnect,
    {
        Disconnect
    }

    /// Builds the packet from its fixed header; the flags must be the
    /// reserved ones.
    pub fn from_bytes(fixed_header: FixedHeader) -> (res: Result<Disconnect, Error>)
        ensures
            fixed_header.spec_first_byte() % 16 == 0 ==> res == Ok::<Disconnect, Error>(Disconnect),
            fixed_header.spec_first_byte() % 16 != 0 ==> res == Err::<Disconnect, Error>(Error::InvalidFixedHeaderFlags),
    {
        if fixed_header.first_byte() % 16 != RESERVED_FIXED_HEADER_FLAGS {
            return Err(Error::InvalidFixedHeaderFlags);
        }
        Ok(Disconnect::new())
    }

    pub fn to_bytes(&self) -> (bytes: Vec<u8>)
        ensures
            bytes@ == spec_disconnect_bytes(),
    {
        let mut bytes: Vec<u8> = Vec::new();
        bytes.push(DISCONNECT_PACKET_TYPE * 16 + RESERVED_FIXED_HEADER_FLAGS);
        let mut remaining_length_bytes = RemainingLength::new(0).to_bytes();
        bytes.append(&mut remaining_length_bytes);
        assert(bytes@ =~= spec_disconnect_bytes());
        bytes
    }
}

} // verus!
