use vstd::prelude::*;

use crate::error::Error;

verus! {

/// The answer of the server to a CONNECT.
#[derive(Debug, Clone, Copy, PartialEq, Eq, Structural)]
pub enum ConnectReturnCode {
    ConnectionAccepted,
    UnacceptableProtocolVersion,
    IdentifierRejected,
    ServerUnavailable,
    BadUsernameOrPassword,
    NotAuthorized,
}

/// The byte of a return code.
pub open spec fn spec_connect_return_code_byte(c: ConnectReturnCode) -> u8 {
    match c {
        ConnectReturnCode::ConnectionAccepted => 0x00,
        ConnectReturnCode::UnacceptableProtocolVersion => 0x01,
        ConnectReturnCode::IdentifierRejected => 0x02,
        ConnectReturnCode::ServerUnavailable => 0x03,
        ConnectReturnCode::BadUsernameOrPassword => 0x04,
        ConnectReturnCode::NotAuthorized => 0x05,
    }
}

/// The return code a byte stands for, if any.
pub open spec fn spec_connect_return_code_from_byte(b: u8) -> Result<ConnectReturnCode, Error> {
    if b == 0x00 {
        Ok(ConnectReturnCode::ConnectionAccepted)
    } else if b == 0x01 {
        Ok(ConnectReturnCode::UnacceptableProtocolVersion)
    } else if b == 0x02 {
        Ok(ConnectReturnCode::IdentifierRejected)
    } else if b == 0x03 {
        Ok(ConnectReturnCode::ServerUnavailable)
    } else if b == 0x04 {
        Ok(ConnectReturnCode::BadUsernameOrPassword)
    } else if b == 0x05 {
        Ok(ConnectReturnCode::NotAuthorized)
    } else {
        Err(Error::InvalidConnectReturnCode(b))
    }
}

/// Every return code survives its byte, and every byte that decodes is the
/// byte of what it decodes to.
pub proof fn lemma_connect_return_code_roundtrip(c: ConnectReturnCode, b: u8)
    ensures
        spec_connect_return_code_from_byte(spec_connect_return_code_byte(c)) == Ok::<ConnectReturnCode, Error>(c),
        spec_connect_return_code_from_byte(b) matches Ok(d) ==> spec_connect_return_code_byte(d) == b,
{
}

impl ConnectReturnCode {
    pub fn to_byte(&self) -> (b: u8)
        ensures
            b == spec_connect_return_code_byte(*self),
    {
        match self {
            ConnectReturnCode::ConnectionAccepted => 0x00,
            ConnectReturnCode::UnacceptableProtocolVersion => 0x01,
            ConnectReturnCode::IdentifierRejected => 0x02,
            ConnectReturnCode::ServerUnavailable => 0x03,
            ConnectReturnCode::BadUsernameOrPassword => 0x04,
            ConnectReturnCode::NotAuthorized => 0x05,
        }
    }

    pub fn from_byte(byte: u8) -> (res: Result<ConnectReturnCode, Error>)
        ensures
            res == spec_connect_return_code_from_byte(byte),
    {
        match byte {
            0x00 => Ok(ConnectReturnCode::ConnectionAccepted),
            0x01 => Ok(ConnectReturnCode::UnacceptableProtocolVersion),
            0x02 => Ok(ConnectReturnCode::IdentifierRejected),
            0x03 => Ok(ConnectReturnCode::ServerUnavailable),
            0x04 => Ok(ConnectReturnCode::BadUsernameOrPassword),
            0x05 => Ok(ConnectReturnCode::NotAuthorized),
            _ => Err(Error::InvalidConnectReturnCode(byte)),
        }
    }
}

} // verus!
