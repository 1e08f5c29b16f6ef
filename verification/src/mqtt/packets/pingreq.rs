use vstd::prelude::*;

use crate::error::Error;
use crate::mqtt::encryption::{encrypt, spec_decryption, spec_is_encryption_of, KEY_LENGTH};
use crate::mqtt::fixed_header::FixedHeader;
use crate::mqtt::packets::{PINGREQ_PACKET_TYPE, RESERVED_FIXED_HEADER_FLAGS};
use crate::mqtt::remaining_length::RemainingLength;

verus! {

/// A PINGREQ: the client tells the server it is alive.
#[derive(Debug, Default, Clone, Copy, PartialEq, Eq, Structural)]
pub struct Pingreq;

/// The bytes of a PINGREQ before encryption: its fixed header with no
/// remaining length.
pub open spec fn spec_pingreq_bytes() -> Seq<u8> {
    seq![0xC0u8, 0x00u8]
}

impl Pingreq {
    pub fn new() -> (p: Pingreq)
        ensures
            p == Pingreq,
    {
        Pingreq
    }

    /// Builds the packet from its fixed header; the flags must be the
    /// reserved ones.
    pub fn from_bytes(fixed_header: FixedHeader) -> (res: Result<Pingreq, Error>)
        ensures
            fixed_header.spec_first_byte() % 16 == 0 ==> res == Ok::<Pingreq, Error>(Pingreq),
            fixed_header.spec_first_byte() % 16 != 0 ==> res == Err::<Pingreq, Error>(Error::InvalidFixedHeaderFlags),
    {
        let first_byte = fixed_header.first_byte();
        let fixed_header_flags = first_byte & 0b0000_1111;
        assert(first_byte & 0x0f == first_byte % 16) by (bit_vector);
        if fixed_header_flags != RESERVED_FIXED_HEADER_FLAGS {
            return Err(Error::InvalidFixedHeaderFlags);
        }
        Ok(Pingreq::new())
    }

    /// The packet encrypted with `key`: its two header bytes in the clear,
    /// then a random nonce and the (empty) sealed rest.
    pub fn to_bytes(&self, key: &[u8]) -> (bytes: Vec<u8>)
        requires
            key@.len() == KEY_LENGTH,
        ensures
            spec_is_encryption_of(bytes@, spec_pingreq_bytes(), key@),
            spec_decryption(bytes@.skip(2), key@) == Some(Seq::<u8>::empty()),
    {
        let mut packet_bytes: Vec<u8> = Vec::new();
        packet_bytes.push(PINGREQ_PACKET_TYPE * 16 + RESERVED_FIXED_HEADER_FLAGS);
        let mut remaining_length_bytes = RemainingLength::new(0).to_bytes();
        packet_bytes.append(&mut remaining_length_bytes);
        assert(packet_bytes@ =~= spec_pingreq_bytes());
        assert(spec_pingreq_bytes().skip(2) =~= Seq::<u8>::empty());
        encrypt(packet_bytes, key)
    }
}

} // verus!
