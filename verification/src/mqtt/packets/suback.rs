use vstd::prelude::*;

use crate::byte_reader::ByteReader;
use crate::error::Error;
use crate::mqtt::fixed_header::{
    lemma_fixed_header_roundtrip, spec_encode_fixed_header, spec_parse_fixed_header, FixedHeader,
};
use crate::mqtt::packets::puback::{lemma_u16_bytes_roundtrip, spec_u16_bytes, spec_u16_from_bytes};
use crate::mqtt::packets::{DEFAULT_VARIABLE_HEADER_LENGTH, RESERVED_FIXED_HEADER_FLAGS, SUBACK_PACKET_TYPE};
use crate::mqtt::remaining_length::{RemainingLength, MAX_REMAINING_LENGTH};
use crate::mqtt::suback_return_code::{
    lemma_return_code_byte_roundtrip, spec_return_code_byte, spec_return_code_from_byte,
    SubackReturnCode,
};

verus! {

/// A SUBACK: the server's answer to a SUBSCRIBE, one return code per filter.
#[derive(Debug, Clone, PartialEq, Eq)]
pub struct Suback {
    packet_identifier: u16,
    suback_return_codes: Vec<SubackReturnCode>,
}

/// The bytes of a list of return codes.
pub open spec fn spec_return_code_bytes(codes: Seq<SubackReturnCode>) -> Seq<u8> {
    Seq::new(codes.len(), |i: int| spec_return_code_byte(codes[i]))
}

/// The return codes a list of bytes stands for, or the error of its first
/// byte that stands for none.
pub open spec fn spec_parse_return_codes(s: Seq<u8>) -> Result<Seq<SubackReturnCode>, Error>
    decreases s.len(),
{
    if s.len() == 0 {
        Ok(Seq::empty())
    } else {
        match spec_parse_return_codes(s.drop_last()) {
            Ok(codes) => match spec_return_code_from_byte(s.last()) {
                Ok(c) => Ok(codes.push(c)),
                Err(e) => Err(e),
            },
            Err(e) => Err(e),
        }
    }
}

/// The bytes of a SUBACK: fixed header, identifier, one byte per code.
pub open spec fn spec_encode_suback(packet_identifier: u16, codes: Seq<SubackReturnCode>) -> Seq<u8> {
    spec_encode_fixed_header(0x90, 2 + codes.len()) + spec_u16_bytes(packet_identifier)
        + spec_return_code_bytes(codes)
}

/// Reads the content of a SUBACK whose fixed header has `first_byte` and
/// announces `remaining_length` bytes: the identifier, the codes, and the
/// number of bytes taken.
pub open spec fn spec_parse_suback(first_byte: u8, remaining_length: nat, s: Seq<u8>)
    -> Result<(u16, Seq<SubackReturnCode>, nat), Error>
{
    if first_byte % 16 != 0 {
        Err(Error::InvalidFixedHeaderFlags)
    } else if s.len() < 2 || s.len() < remaining_length {
        Err(Error::UnexpectedEof)
    } else {
        match spec_parse_return_codes(s.subrange(2, remaining_length as int)) {
            Ok(codes) => Ok((spec_u16_from_bytes(s[0], s[1]), codes, remaining_length)),
            Err(e) => Err(e),
        }
    }
}

/// Every list of codes survives its bytes.
pub proof fn lemma_return_codes_roundtrip(codes: Seq<SubackReturnCode>)
    ensures
        spec_parse_return_codes(spec_return_code_bytes(codes)) == Ok::<Seq<SubackReturnCode>, Error>(codes),
    decreases codes.len(),
{
    if codes.len() > 0 {
        let p = codes.drop_last();
        lemma_return_codes_roundtrip(p);
        lemma_return_code_byte_roundtrip(codes.last(), 0);
        assert(spec_return_code_bytes(codes).drop_last() =~= spec_return_code_bytes(p));
        assert(spec_return_code_bytes(codes).last() == spec_return_code_byte(codes.last()));
        assert(p.push(codes.last()) =~= codes);
    } else {
        assert(codes =~= Seq::<SubackReturnCode>::empty());
        assert(spec_return_code_bytes(codes) =~= Seq::<u8>::empty());
    }
}

/// Reading back the bytes of a SUBACK gives its fixed header, then its
/// identifier and codes, and takes all of its bytes.
pub proof fn lemma_suback_roundtrip(packet_identifier: u16, codes: Seq<SubackReturnCode>, rest: Seq<u8>)
    requires
        2 + codes.len() <= MAX_REMAINING_LENGTH,
    ensures
        ({
            let bytes = spec_encode_suback(packet_identifier, codes) + rest;
            let h = spec_encode_fixed_header(0x90, 2 + codes.len()).len();
            &&& spec_parse_fixed_header(bytes) == Ok::<(u8, nat, nat), Error>((0x90, 2 + codes.len(), h))
            &&& spec_parse_suback(0x90, 2 + codes.len(), bytes.skip(h as int))
                == Ok::<(u16, Seq<SubackReturnCode>, nat), Error>((packet_identifier, codes, 2 + codes.len()))
        }),
{
    let fh = spec_encode_fixed_header(0x90, 2 + codes.len());
    let body = spec_u16_bytes(packet_identifier) + spec_return_code_bytes(codes);
    let bytes = spec_encode_suback(packet_identifier, codes) + rest;
    assert(bytes =~= fh + (body + rest));
    lemma_fixed_header_roundtrip(0x90, 2 + codes.len(), body + rest);
    assert(bytes.skip(fh.len() as int) =~= body + rest);
    assert((body + rest).subrange(2, 2 + codes.len() as int) =~= spec_return_code_bytes(codes));
    lemma_return_codes_roundtrip(codes);
    lemma_u16_bytes_roundtrip(packet_identifier);
}

impl View for Suback {
    type V = (u16, Seq<SubackReturnCode>);

    closed spec fn view(&self) -> (u16, Seq<SubackReturnCode>) {
        (self.packet_identifier, self.suback_return_codes@)
    }
}

impl Suback {
    pub fn new(packet_identifier: u16, suback_return_codes: Vec<SubackReturnCode>) -> (s: Suback)
        ensures
            s@ == (packet_identifier, suback_return_codes@),
    {
        Suback { packet_identifier, suback_return_codes }
    }

    /// Reads the identifier and the return codes that follow the fixed
    /// header: the remaining length, less the identifier's two bytes, is the
    /// number of codes. On success those bytes are consumed.
    #[verifier::loop_isolation(false)]
    pub fn from_bytes(fixed_header: FixedHeader, stream: &mut ByteReader) -> (res: Result<Suback, Error>)
        requires
            fixed_header.spec_first_byte() % 16 == 0 && old(stream)@.len() >= 2
                ==> fixed_header.spec_remaining_length() >= 2,
        ensures
            match spec_parse_suback(fixed_header.spec_first_byte(), fixed_header.spec_remaining_length() as nat, old(stream)@) {
                Ok((id, codes, n)) => res matches Ok(s) && s@ == (id, codes)
                    && final(stream)@ == old(stream)@.skip(n as int),
                Err(e) => res == Err::<Suback, Error>(e)
                    && (fixed_header.spec_first_byte() % 16 != 0 ==> final(stream)@ == old(stream)@),
            },
    {
        let ghost s0 = stream@;
        let first_byte = fixed_header.first_byte();
        let fixed_header_flags = first_byte & 0b0000_1111;
        assert(first_byte & 0x0f == first_byte % 16) by (bit_vector);
        if fixed_header_flags != RESERVED_FIXED_HEADER_FLAGS {
            return Err(Error::InvalidFixedHeaderFlags);
        }
        let remaining_length = fixed_header.remaining_length().value();
        let variable_header_buffer = stream.read_exact(DEFAULT_VARIABLE_HEADER_LENGTH)?;
        let packet_identifier = (variable_header_buffer[0] as u16) * 256 + (variable_header_buffer[1] as u16);
        let payload_buffer = stream.read_exact(remaining_length - DEFAULT_VARIABLE_HEADER_LENGTH)?;
        assert(payload_buffer@ =~= s0.subrange(2, remaining_length as int));
        assert(stream@ =~= s0.skip(remaining_length as int));
        let mut return_codes: Vec<SubackReturnCode> = Vec::new();
        let mut i: usize = 0;
        while i < payload_buffer.len()
            invariant
                i <= payload_buffer@.len(),
                spec_parse_return_codes(payload_buffer@.take(i as int)) == Ok::<Seq<SubackReturnCode>, Error>(return_codes@),
            decreases payload_buffer.len() - i,
        {
            assert(payload_buffer@.take(i + 1).drop_last() =~= payload_buffer@.take(i as int));
            let return_code = match SubackReturnCode::from_byte(payload_buffer[i]) {
                Ok(c) => c,
                Err(e) => {
                    proof {
                        assert(payload_buffer@.take(i + 1).last() == payload_buffer@[i as int]);
                        assert(spec_parse_return_codes(payload_buffer@.take(i + 1)) == Err::<Seq<SubackReturnCode>, Error>(e));
                        lemma_parse_codes_prefix_error(payload_buffer@, (i + 1) as nat);
                    }
                    return Err(e);
                },
            };
            return_codes.push(return_code);
            i = i + 1;
        }
        assert(payload_buffer@.take(i as int) =~= payload_buffer@);
        Ok(Suback::new(packet_identifier, return_codes))
    }

    /// The fixed header, the identifier, then one byte per return code.
    pub fn to_bytes(&self) -> (bytes: Vec<u8>)
        requires
            2 + self@.1.len() <= MAX_REMAINING_LENGTH,
        ensures
            bytes@ == spec_encode_suback(self@.0, self@.1),
    {
        let mut variable_header_bytes: Vec<u8> = Vec::new();
        variable_header_bytes.push((self.packet_identifier / 256) as u8);
        variable_header_bytes.push((self.packet_identifier % 256) as u8);
        let mut i: usize = 0;
        while i < self.suback_return_codes.len()
            invariant
                i <= self@.1.len(),
                variable_header_bytes@ == spec_u16_bytes(self@.0) + spec_return_code_bytes(self@.1.take(i as int)),
            decreases self.suback_return_codes.len() - i,
        {
            variable_header_bytes.push(self.suback_return_codes[i].to_byte());
            i = i + 1;
            assert(variable_header_bytes@ =~= spec_u16_bytes(self@.0) + spec_return_code_bytes(self@.1.take(i as int)));
        }
        assert(self@.1.take(i as int) =~= self@.1);
        let fixed_header = FixedHeader::new(
            SUBACK_PACKET_TYPE * 16 + RESERVED_FIXED_HEADER_FLAGS,
            RemainingLength::new(variable_header_bytes.len() as u32),
        );
        let mut packet_bytes = fixed_header.to_bytes();
        packet_bytes.append(&mut variable_header_bytes);
        packet_bytes
    }

    pub fn packet_identifier(&self) -> (id: u16)
        ensures
            id == self@.0,
    {
        self.packet_identifier
    }

    pub fn suback_return_codes(&self) -> (codes: &Vec<SubackReturnCode>)
        ensures
            codes@ == self@.1,
    {
        &self.suback_return_codes
    }
}

/// When the codes of a prefix fail to parse, so do the codes of anything
/// that extends it, with the same error.
proof fn lemma_parse_codes_prefix_error(s: Seq<u8>, k: nat)
    requires
        k <= s.len(),
        spec_parse_return_codes(s.take(k as int)) is Err,
    ensures
        spec_parse_return_codes(s) == spec_parse_return_codes(s.take(k as int)),
    decreases s.len() - k,
{
    if k < s.len() {
        let t = s.take((k + 1) as int);
        assert(t.drop_last() =~= s.take(k as int));
        lemma_parse_codes_prefix_error(s, k + 1);
    } else {
        assert(s.take(k as int) =~= s);
    }
}

} // verus!
