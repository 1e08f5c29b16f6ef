use vstd::prelude::*;

use crate::byte_reader::ByteReader;
use crate::error::Error;
use crate::mqtt::connect_return_code::{
    lemma_connect_return_code_roundtrip, spec_connect_return_code_byte,
    spec_connect_return_code_from_byte, ConnectReturnCode,
};
use crate::mqtt::fixed_header::{spec_encode_fixed_header, FixedHeader};
use crate::mqtt::packets::{CONNACK_PACKET_TYPE, DEFAULT_VARIABLE_HEADER_LENGTH, RESERVED_FIXED_HEADER_FLAGS};
use crate::mqtt::remaining_length::RemainingLength;

verus! {

/// A CONNACK: the server's answer to a CONNECT.
#[derive(Debug, Clone, Copy, PartialEq, Eq, Structural)]
pub struct Connack {
    session_present: bool,
    connect_return_code: ConnectReturnCode,
}

/// The bytes of a CONNACK: fixed header, acknowledge flags, return code.
pub open spec fn spec_encode_connack(session_present: bool, code: ConnectReturnCode) -> Seq<u8> {
    spec_encode_fixed_header(0x20, 2) + seq![if session_present { 1u8 } else { 0u8 }, spec_connect_return_code_byte(code)]
}

/// Reads the content of a CONNACK whose fixed header has `first_byte`:
/// whether a session is present, the return code, and the bytes taken.
pub open spec fn spec_parse_connack(first_byte: u8, s: Seq<u8>) -> Result<(bool, ConnectReturnCode, nat), Error> {
    if first_byte % 16 != 0 {
        Err(Error::InvalidFixedHeaderFlags)
    } else if s.len() < 2 {
        Err(Error::UnexpectedEof)
    } else if s[0] > 1 {
        Err(Error::InvalidAcknowledgeFlags)
    } else {
        match spec_connect_return_code_from_byte(s[1]) {
            Ok(code) => Ok((s[0] == 1, code, 2)),
            Err(e) => Err(e),
        }
    }
}

/// The content of a CONNACK reads back as the CONNACK.
pub proof fn lemma_connack_roundtrip(session_present: bool, code: ConnectReturnCode, rest: Seq<u8>)
    ensures
        spec_parse_connack(0x20, spec_encode_connack(session_present, code).skip(2) + rest)
            == Ok::<(bool, ConnectReturnCode, nat), Error>((session_present, code, 2)),
{
    lemma_connect_return_code_roundtrip(code, 0);
    assert(spec_encode_fixed_header(0x20, 2).len() == 2) by {
        reveal_with_fuel(crate::mqtt::remaining_length::spec_encode_remaining_length, 2);
    }
}

impl View for Connack {
    type V = (bool, ConnectReturnCode);

    closed spec fn view(&self) -> (bool, ConnectReturnCode) {
        (self.session_present, self.connect_return_code)
    }
}

impl Connack {
    pub fn new(session_present: bool, connect_return_code: ConnectReturnCode) -> (c: Connack)
        ensures
            c@ == (session_present, connect_return_code),
    {
        Connack { session_present, connect_return_code }
    }

    /// Reads the acknowledge flags and the return code that follow the fixed
    /// header. They are consumed once both are there, whether they are valid
    /// or not; when they are not both there, or the flags in the fixed header
    /// are wrong, nothing is.
    pub fn from_bytes(fixed_header: FixedHeader, stream: &mut ByteReader) -> (res: Result<Connack, Error>)
        ensures
            match spec_parse_connack(fixed_header.spec_first_byte(), old(stream)@) {
                Ok((sp, code, n)) => res matches Ok(c) && c@ == (sp, code) && final(stream)@ == old(stream)@.skip(n as int),
                Err(e) => res == Err::<Connack, Error>(e)
                    && (if fixed_header.spec_first_byte() % 16 != 0 || old(stream)@.len() < 2 {
                        final(stream)@ == old(stream)@
                    } else {
                        final(stream)@ == old(stream)@.skip(2)
                    }),
            },
    {
        if fixed_header.first_byte() % 16 != RESERVED_FIXED_HEADER_FLAGS {
            return Err(Error::InvalidFixedHeaderFlags);
        }
        if stream.remaining() < DEFAULT_VARIABLE_HEADER_LENGTH {
            return Err(Error::UnexpectedEof);
        }
        let variable_header = stream.read_exact(DEFAULT_VARIABLE_HEADER_LENGTH)?;
        let acknowledge_flags = variable_header[0];
        if acknowledge_flags > 1 {
            return Err(Error::InvalidAcknowledgeFlags);
        }
        let connect_return_code = ConnectReturnCode::from_byte(variable_header[1])?;
        Ok(Connack::new(acknowledge_flags == 1, connect_return_code))
    }

    /// The fixed header, the acknowledge flags and the return code.
    pub fn to_bytes(&self) -> (bytes: Vec<u8>)
        ensures
            bytes@ == spec_encode_connack(self@.0, self@.1),
    {
        let fixed_header = FixedHeader::new(CONNACK_PACKET_TYPE * 16 + RESERVED_FIXED_HEADER_FLAGS, RemainingLength::new(2));
        let mut bytes = fixed_header.to_bytes();
        bytes.push(if self.session_present { 1u8 } else { 0u8 });
        bytes.push(self.connect_return_code.to_byte());
        assert(bytes@ =~= spec_encode_connack(self@.0, self@.1));
        bytes
    }

    pub fn session_present(&self) -> (b: bool)
        ensures
            b == self@.0,
    {
        self.session_present
    }

    pub fn connect_return_code(&self) -> (c: &ConnectReturnCode)
        ensures
            *c == self@.1,
    {
        &self.connect_return_code
    }
}

} // verus!
