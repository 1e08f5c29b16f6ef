//! The control packets this library reads and writes, and the numbers that
//! name packet types in the high nibble of a fixed header.

pub mod connack;
pub mod connect;
pub mod disconnect;
pub mod pingreq;
pub mod pingresp;
pub mod puback;
pub mod publish;
pub mod suback;
pub mod subscribe;
pub mod unsuback;
pub mod unsubscribe;

use vstd::prelude::*;

verus! {

pub const CONNECT_PACKET_TYPE: u8 = 0x01;
pub const CONNACK_PACKET_TYPE: u8 = 0x02;
pub const PUBLISH_PACKET_TYPE: u8 = 0x03;
pub const PUBACK_PACKET_TYPE: u8 = 0x04;
pub const SUBSCRIBE_PACKET_TYPE: u8 = 0x08;
pub const SUBACK_PACKET_TYPE: u8 = 0x09;
pub const UNSUBSCRIBE_PACKET_TYPE: u8 = 0x0A;
pub const UNSUBACK_PACKET_TYPE: u8 = 0x0B;
pub const PINGREQ_PACKET_TYPE: u8 = 0x0C;
pub const PINGRESP_PACKET_TYPE: u8 = 0x0D;
pub const DISCONNECT_PACKET_TYPE: u8 = 0x0E;

/// The flags of packets whose fixed header reserves them.
pub const RESERVED_FIXED_HEADER_FLAGS: u8 = 0x00;

/// The length of a variable header that holds only a packet identifier.
pub const DEFAULT_VARIABLE_HEADER_LENGTH: usize = 2;

} // verus!
