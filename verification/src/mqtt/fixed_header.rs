use vstd::prelude::*;

use crate::byte_reader::ByteReader;
use crate::error::Error;
use crate::mqtt::remaining_length::{
    lemma_decode_bounds, lemma_pow128_facts, lemma_remaining_length_roundtrip, spec_encode_remaining_length,
    spec_parse_remaining_length, RemainingLength, MAX_REMAINING_LENGTH,
};

verus! {

/// The fixed header of a control packet: the packet type and flags in one
/// byte, then the remaining length.
#[derive(Debug, Clone, Copy, PartialEq, Eq, Structural)]
pub struct FixedHeader {
    first_byte: u8,
    remaining_length: RemainingLength,
}

/// The bytes of a fixed header.
pub open spec fn spec_encode_fixed_header(first_byte: u8, remaining_length: nat) -> Seq<u8> {
    seq![first_byte] + spec_encode_remaining_length(remaining_length)
}

/// Reads a fixed header off the front of `s`: its first byte, its remaining
/// length and the number of bytes it took.
pub open spec fn spec_parse_fixed_header(s: Seq<u8>) -> Result<(u8, nat, nat), Error> {
    if s.len() == 0 {
        Err(Error::UnexpectedEof)
    } else {
        match spec_parse_remaining_length(s.drop_first()) {
            Ok((v, n)) => Ok((s[0], v, n + 1)),
            Err(e) => Err(e),
        }
    }
}

/// Parsing the bytes of a fixed header gives it back, whatever follows.
pub proof fn lemma_fixed_header_roundtrip(first_byte: u8, remaining_length: nat, rest: Seq<u8>)
    requires
        remaining_length <= MAX_REMAINING_LENGTH,
    ensures
        spec_parse_fixed_header(spec_encode_fixed_header(first_byte, remaining_length) + rest)
            == Ok::<(u8, nat, nat), Error>((first_byte, remaining_length,
                spec_encode_fixed_header(first_byte, remaining_length).len())),
{
    lemma_pow128_facts(4);
    lemma_remaining_length_roundtrip(remaining_length, 4, rest);
    let s = spec_encode_fixed_header(first_byte, remaining_length) + rest;
    assert(s.drop_first() =~= spec_encode_remaining_length(remaining_length) + rest);
}

/// A fixed header takes two to five bytes of its input, and its remaining
/// length fits the encoding.
pub proof fn lemma_fixed_header_bounds(s: Seq<u8>)
    ensures
        spec_parse_fixed_header(s) matches Ok((b, v, n)) ==> 2 <= n <= 5 && n <= s.len() && v <= MAX_REMAINING_LENGTH,
{
    if s.len() > 0 {
        lemma_decode_bounds(s.drop_first(), 4);
        lemma_pow128_facts(4);
    }
}

impl FixedHeader {
    pub fn new(first_byte: u8, remaining_length: RemainingLength) -> (h: FixedHeader)
        ensures
            h.spec_first_byte() == first_byte,
            h.spec_remaining_length() == remaining_length.spec_value(),
    {
        FixedHeader { first_byte, remaining_length }
    }

    pub closed spec fn spec_first_byte(&self) -> u8 {
        self.first_byte
    }

    pub closed spec fn spec_remaining_length(&self) -> u32 {
        self.remaining_length.spec_value()
    }

    /// The packet type in the high nibble, the flags in the low one.
    pub fn first_byte(&self) -> (b: u8)
        ensures
            b == self.spec_first_byte(),
    {
        self.first_byte
    }

    pub fn remaining_length(&self) -> (r: &RemainingLength)
        ensures
            r.spec_value() == self.spec_remaining_length(),
    {
        &self.remaining_length
    }

    /// The first byte followed by the encoded remaining length.
    pub fn to_bytes(&self) -> (bytes: Vec<u8>)
        requires
            self.spec_remaining_length() <= MAX_REMAINING_LENGTH,
        ensures
            bytes@ == spec_encode_fixed_header(self.spec_first_byte(), self.spec_remaining_length() as nat),
    {
        let mut out: Vec<u8> = Vec::new();
        out.push(self.first_byte);
        let mut rl = self.remaining_length.to_bytes();
        out.append(&mut rl);
        out
    }

    /// Reads a fixed header off the front of the stream. On success its bytes
    /// are consumed.
    pub fn from_bytes(stream: &mut ByteReader) -> (res: Result<FixedHeader, Error>)
        ensures
            match spec_parse_fixed_header(old(stream)@) {
                Ok((b, v, n)) => res matches Ok(h) && h.spec_first_byte() == b
                    && h.spec_remaining_length() == v
                    && final(stream)@ == old(stream)@.skip(n as int),
                Err(e) => res == Err::<FixedHeader, Error>(e),
            },
    {
        let ghost s0 = stream@;
        let first_byte = stream.read_byte()?;
        let ghost s1 = stream@;
        assert(s1 == s0.drop_first());
        let remaining_length = RemainingLength::from_bytes(stream)?;
        proof {
            if let Ok((v, n)) = spec_parse_remaining_length(s1) {
                lemma_decode_bounds(s1, 4);
                assert(stream@ == s1.skip(n as int));
                assert(stream@ =~= s0.skip((n + 1) as int));
            }
        }
        Ok(FixedHeader { first_byte, remaining_length })
    }
}

} // verus!
