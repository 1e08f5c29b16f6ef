use vstd::prelude::*;

verus! {

/// The ways decoding or handling a message can fail.
#[derive(Debug, Clone, Copy, PartialEq, Eq, Structural)]
pub enum Error {
    /// The stream ended before the bytes a field needs.
    UnexpectedEof,
    /// A remaining-length field kept its continuation bit past four bytes.
    MalformedRemainingLength,
    /// The low nibble of a fixed header held flags that the packet forbids.
    InvalidFixedHeaderFlags,
    /// A packet's content did not fill its remaining length exactly.
    InvalidRemainingLength,
    /// The packet type of a fixed header is not one this library decodes.
    InvalidPacketType(u8),
    /// A byte that is no quality-of-service level.
    InvalidQoS(u8),
    /// A byte that is no SUBACK return code.
    InvalidSubackReturnCode(u8),
    /// A text record that does not have the fields an incident needs.
    InvalidIncident,
    /// A byte that is no CONNACK return code.
    InvalidConnectReturnCode(u8),
    /// The acknowledge flags of a CONNACK set a reserved bit.
    InvalidAcknowledgeFlags,
    /// A topic level holding a wildcard character beside other characters.
    InvalidTopicLevel,
    /// A CONNECT that does not name the MQTT protocol.
    InvalidProtocolName,
    /// A CONNECT for a protocol level other than MQTT 3.1.1's.
    InvalidProtocolLevel(u8),
    /// CONNECT flags that set the reserved bit, a password without a user
    /// name, or will options without a will.
    InvalidConnectFlags,
}

} // verus!
