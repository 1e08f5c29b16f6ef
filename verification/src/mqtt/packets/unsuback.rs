use vstd::prelude::*;

use crate::byte_reader::ByteReader;
use crate::error::Error;
use crate::mqtt::fixed_header::{spec_encode_fixed_header, FixedHeader};
use crate::mqtt::packets::puback::{spec_u16_bytes, spec_u16_from_bytes, PACKAGE_IDENTIFIER_LENGTH};
use crate::mqtt::packets::{RESERVED_FIXED_HEADER_FLAGS, UNSUBACK_PACKET_TYPE};
use crate::mqtt::remaining_length::RemainingLength;

verus! {

/// An UNSUBACK: the server's answer to an UNSUBSCRIBE.
#[derive(Debug, Clone, Copy, PartialEq, Eq, Structural)]
pub struct Unsuback {
    packet_identifier: u16,
}

/// The bytes of an UNSUBACK: fixed header, then the identifier.
pub open spec fn spec_encode_unsuback(packet_identifier: u16) -> Seq<u8> {
    spec_encode_fixed_header(0xB0, 2) + spec_u16_bytes(packet_identifier)
}

/// Reads the content of an UNSUBACK whose fixed header has `first_byte`: the
/// identifier and the number of bytes taken.
pub open spec fn spec_parse_unsuback(first_byte: u8, s: Seq<u8>) -> Result<(u16, nat), Error> {
    if first_byte % 16 != 0 {
        Err(Error::InvalidFixedHeaderFlags)
    } else if s.len() < 2 {
        Err(Error::UnexpectedEof)
    } else {
        Ok((spec_u16_from_bytes(s[0], s[1]), 2))
    }
}

impl View for Unsuback {
    type V = u16;

    closed spec fn view(&self) -> u16 {
        self.packet_identifier
    }
}

impl Unsuback {
    pub fn new(packet_identifier: u16) -> (u: Unsuback)
        ensures
            u@ == packet_identifier,
    {
        Unsuback { packet_identifier }
    }

    /// Reads the identifier that follows the fixed header. On success its two
    /// bytes are consumed; on an error nothing is.
    pub fn from_bytes(fixed_header: FixedHeader, stream: &mut ByteReader) -> (res: Result<Unsuback, Error>)
        ensures
            match spec_parse_unsuback(fixed_header.spec_first_byte(), old(stream)@) {
                Ok((id, n)) => res matches Ok(u) && u@ == id && final(stream)@ == old(stream)@.skip(n as int),
                Err(e) => res == Err::<Unsuback, Error>(e) && final(stream)@ == old(stream)@,
            },
    {
        if fixed_header.first_byte() % 16 != RESERVED_FIXED_HEADER_FLAGS {
            return Err(Error::InvalidFixedHeaderFlags);
        }
        let buffer = stream.read_exact(PACKAGE_IDENTIFIER_LENGTH)?;
        Ok(Unsuback::new((buffer[0] as u16) * 256 + (buffer[1] as u16)))
    }

    /// The fixed header, then the identifier's two bytes.
    pub fn to_bytes(&self) -> (bytes: Vec<u8>)
        ensures
            bytes@ == spec_encode_unsuback(self@),
    {
        let fixed_header = FixedHeader::new(UNSUBACK_PACKET_TYPE * 16 + RESERVED_FIXED_HEADER_FLAGS, RemainingLength::new(2));
        let mut bytes = fixed_header.to_bytes();
        bytes.push((self.packet_identifier / 256) as u8);
        bytes.push((self.packet_identifier % 256) as u8);
        assert(bytes@ =~= spec_encode_unsuback(self@));
        bytes
    }

    pub fn packet_identifier(&self) -> (id: u16)
        ensures
            id == self@,
    {
        self.packet_identifier
    }
}

} // verus!
