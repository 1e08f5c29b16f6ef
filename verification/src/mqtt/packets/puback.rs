use vstd::prelude::*;

use crate::byte_reader::ByteReader;
use crate::error::Error;
use crate::mqtt::fixed_header::{spec_encode_fixed_header, FixedHeader};
use crate::mqtt::packets::{PUBACK_PACKET_TYPE, RESERVED_FIXED_HEADER_FLAGS};
use crate::mqtt::remaining_length::RemainingLength;

verus! {

/// The number of bytes of a packet identifier.
pub const PACKAGE_IDENTIFIER_LENGTH: usize = 2;

/// A PUBACK: the answer to a PUBLISH with quality of service 1.
#[derive(Debug, Clone, Copy, PartialEq, Eq, Structural)]
pub struct Puback {
    packet_identifier: Option<u16>,
}

/// The two big-endian bytes of a 16-bit number.
pub open spec fn spec_u16_bytes(v: u16) -> Seq<u8> {
    seq![(v / 256) as u8, (v % 256) as u8]
}

/// The number two big-endian bytes stand for.
pub open spec fn spec_u16_from_bytes(hi: u8, lo: u8) -> u16 {
    (hi as nat * 256 + lo as nat) as u16
}

pub proof fn lemma_u16_bytes_roundtrip(v: u16)
    ensures
        spec_u16_from_bytes(spec_u16_bytes(v)[0], spec_u16_bytes(v)[1]) == v,
{
    assert((v / 256) as u8 as nat * 256 + (v % 256) as u8 as nat == v) by (nonlinear_arith);
}

/// The bytes of a PUBACK: fixed header, then the identifier when there is one.
pub open spec fn spec_encode_puback(packet_identifier: Option<u16>) -> Seq<u8> {
    match packet_identifier {
        Some(id) => spec_encode_fixed_header(0x40, 2) + spec_u16_bytes(id),
        None => spec_encode_fixed_header(0x40, 0),
    }
}

/// Reads the content of a PUBACK whose fixed header has `first_byte`: the
/// identifier and the number of bytes taken.
pub open spec fn spec_parse_puback(first_byte: u8, s: Seq<u8>) -> Result<(u16, nat), Error> {
    if first_byte % 16 != 0 {
        Err(Error::InvalidFixedHeaderFlags)
    } else if s.len() < 2 {
        Err(Error::UnexpectedEof)
    } else {
        Ok((spec_u16_from_bytes(s[0], s[1]), 2))
    }
}

impl View for Puback {
    type V = Option<u16>;

    closed spec fn view(&self) -> Option<u16> {
        self.packet_identifier
    }
}

impl Puback {
    pub fn new(packet_identifier: Option<u16>) -> (p: Puback)
        ensures
            p@ == packet_identifier,
    {
        Puback { packet_identifier }
    }

    /// Reads the identifier that follows the fixed header. On success its two
    /// bytes are consumed; on an error nothing is.
    pub fn from_bytes(fixed_header: FixedHeader, stream: &mut ByteReader) -> (res: Result<Puback, Error>)
        ensures
            match spec_parse_puback(fixed_header.spec_first_byte(), old(stream)@) {
                Ok((id, n)) => res matches Ok(p) && p@ == Some(id) && final(stream)@ == old(stream)@.skip(n as int),
                Err(e) => res == Err::<Puback, Error>(e) && final(stream)@ == old(stream)@,
            },
    {
        let first_byte = fixed_header.first_byte();
        let fixed_header_flags = first_byte & 0b0000_1111;
        assert(first_byte & 0x0f == first_byte % 16) by (bit_vector);
        if fixed_header_flags != RESERVED_FIXED_HEADER_FLAGS {
            return Err(Error::InvalidFixedHeaderFlags);
        }
        let buffer = stream.read_exact(PACKAGE_IDENTIFIER_LENGTH)?;
        let packet_identifier = (buffer[0] as u16) * 256 + (buffer[1] as u16);
        Ok(Puback::new(Some(packet_identifier)))
    }

    /// The fixed header, then the identifier's two bytes when there is one.
    pub fn to_bytes(&self) -> (bytes: Vec<u8>)
        ensures
            bytes@ == spec_encode_puback(self@),
    {
        let mut variable_header_bytes: Vec<u8> = Vec::new();
        if let Some(packet_identifier) = self.packet_identifier {
            variable_header_bytes.push((packet_identifier / 256) as u8);
            variable_header_bytes.push((packet_identifier % 256) as u8);
        }
        let fixed_header = FixedHeader::new(
            PUBACK_PACKET_TYPE * 16 + RESERVED_FIXED_HEADER_FLAGS,
            RemainingLength::new(variable_header_bytes.len() as u32),
        );
        let mut packet_bytes = fixed_header.to_bytes();
        packet_bytes.append(&mut variable_header_bytes);
        assert(packet_bytes@ =~= spec_encode_puback(self@));
        packet_bytes
    }

    pub fn packet_identifier(&self) -> (id: Option<u16>)
        ensures
            id == self@,
    {
        self.packet_identifier
    }
}

} // verus!
