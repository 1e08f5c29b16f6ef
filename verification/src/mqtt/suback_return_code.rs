use vstd::prelude::*;

use crate::error::Error;

verus! {

/// The answer of the server to one topic filter of a SUBSCRIBE.
#[derive(Debug, Clone, Copy, PartialEq, Eq, Structural)]
pub enum SubackReturnCode {
    SuccessMaximumQoS0,
    SuccessMaximumQoS1,
    SuccessMaximumQoS2,
    Failure,
}

/// The byte of a return code.
pub open spec fn spec_return_code_byte(c: SubackReturnCode) -> u8 {
    match c {
        SubackReturnCode::SuccessMaximumQoS0 => 0x00,
        SubackReturnCode::SuccessMaximumQoS1 => 0x01,
        SubackReturnCode::SuccessMaximumQoS2 => 0x02,
        SubackReturnCode::Failure => 0x80,
    }
}

/// The return code a byte stands for, if any.
pub open spec fn spec_return_code_from_byte(b: u8) -> Result<SubackReturnCode, Error> {
    if b == 0x00 {
        Ok(SubackReturnCode::SuccessMaximumQoS0)
    } else if b == 0x01 {
        Ok(SubackReturnCode::SuccessMaximumQoS1)
    } else if b == 0x02 {
        Ok(SubackReturnCode::SuccessMaximumQoS2)
    } else if b == 0x80 {
        Ok(SubackReturnCode::Failure)
    } else {
        Err(Error::InvalidSubackReturnCode(b))
    }
}

/// Every return code survives its byte, and every byte that decodes is the
/// byte of what it decodes to.
pub proof fn lemma_return_code_byte_roundtrip(c: SubackReturnCode, b: u8)
    ensures
        spec_return_code_from_byte(spec_return_code_byte(c)) == Ok::<SubackReturnCode, Error>(c),
        spec_return_code_from_byte(b) matches Ok(d) ==> spec_return_code_byte(d) == b,
{
}

impl SubackReturnCode {
    pub fn to_byte(&self) -> (b: u8)
        ensures
            b == spec_return_code_byte(*self),
    {
        match self {
            SubackReturnCode::SuccessMaximumQoS0 => 0x00,
            SubackReturnCode::SuccessMaximumQoS1 => 0x01,
            SubackReturnCode::SuccessMaximumQoS2 => 0x02,
            SubackReturnCode::Failure => 0x80,
        }
    }

    pub fn from_byte(byte: u8) -> (res: Result<SubackReturnCode, Error>)
        ensures
            res == spec_return_code_from_byte(byte),
    {
        match byte {
            0x00 => Ok(SubackReturnCode::SuccessMaximumQoS0),
            0x01 => Ok(SubackReturnCode::SuccessMaximumQoS1),
            0x02 => Ok(SubackReturnCode::SuccessMaximumQoS2),
            0x80 => Ok(SubackReturnCode::Failure),
            _ => Err(Error::InvalidSubackReturnCode(byte)),
        }
    }
}

} // verus!
