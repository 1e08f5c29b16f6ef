use vstd::prelude::*;

use crate::error::Error;

verus! {

/// Quality of service: how hard the network tries to deliver a message.
#[derive(Debug, Clone, Copy, PartialEq, Eq, PartialOrd, Ord, Hash, Structural)]
pub enum QoS {
    AtMost,
    AtLeast,
    Exactly,
}

/// The byte of a quality-of-service level.
pub open spec fn spec_qos_byte(q: QoS) -> u8 {
    match q {
        QoS::AtMost => 0x00,
        QoS::AtLeast => 0x01,
        QoS::Exactly => 0x02,
    }
}

/// The level a byte stands for, if any.
pub open spec fn spec_qos_from_byte(b: u8) -> Result<QoS, Error> {
    if b == 0x00 {
        Ok(QoS::AtMost)
    } else if b == 0x01 {
        Ok(QoS::AtLeast)
    } else if b == 0x02 {
        Ok(QoS::Exactly)
    } else {
        Err(Error::InvalidQoS(b))
    }
}

/// Every level survives its byte, and every byte that decodes is the byte of
/// what it decodes to.
pub proof fn lemma_qos_byte_roundtrip(q: QoS, b: u8)
    ensures
        spec_qos_from_byte(spec_qos_byte(q)) == Ok::<QoS, Error>(q),
        spec_qos_from_byte(b) matches Ok(p) ==> spec_qos_byte(p) == b,
{
}

impl QoS {
    pub fn to_byte(&self) -> (b: u8)
        ensures
            b == spec_qos_byte(*self),
    {
        match self {
            QoS::AtMost => 0x00,
            QoS::AtLeast => 0x01,
            QoS::Exactly => 0x02,
        }
    }

    pub fn from_byte(byte: u8) -> (res: Result<QoS, Error>)
        ensures
            res == spec_qos_from_byte(byte),
    {
        match byte {
            0x00 => Ok(QoS::AtMost),
            0x01 => Ok(QoS::AtLeast),
            0x02 => Ok(QoS::Exactly),
            _ => Err(Error::InvalidQoS(byte)),
        }
    }
}

} // verus!
