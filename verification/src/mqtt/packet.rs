use vstd::prelude::*;

use crate::byte_reader::ByteReader;
use crate::error::Error;
use crate::mqtt::encryption::{spec_decryption, spec_is_encryption_of, KEY_LENGTH};
use crate::mqtt::fixed_header::{
    lemma_fixed_header_bounds, lemma_fixed_header_roundtrip, spec_encode_fixed_header,
    spec_parse_fixed_header, FixedHeader,
};
use crate::mqtt::connect_return_code::{lemma_connect_return_code_roundtrip, ConnectReturnCode};
use crate::mqtt::packets::connack::{spec_encode_connack, spec_parse_connack, Connack};
use crate::mqtt::packets::connect::{
    lemma_connect_roundtrip, spec_connect_fits, spec_connect_payload, spec_connect_variable_header,
    spec_connect_well_formed, spec_encode_connect, spec_parse_connect, Connect, ConnectView,
};
use crate::mqtt::packets::disconnect::{spec_disconnect_bytes, Disconnect};
use crate::mqtt::packets::subscribe::{
    lemma_subscribe_roundtrip, spec_encode_subscribe, spec_parse_subscribe, spec_subscribe_payload, Subscribe,
};
use crate::mqtt::qos::QoS;
use crate::mqtt::topic_filter::spec_filter_well_formed;
use crate::mqtt::topic_level::TopicLevelView;
use crate::mqtt::packets::unsuback::{spec_encode_unsuback, spec_parse_unsuback, Unsuback};
use crate::mqtt::packets::unsubscribe::{
    lemma_unsubscribe_roundtrip, spec_encode_unsubscribe, spec_parse_unsubscribe, spec_unsubscribe_payload,
    Unsubscribe,
};
use crate::mqtt::topic_filter::spec_filter_text;
use crate::mqtt::packets::pingreq::{spec_pingreq_bytes, Pingreq};
use crate::mqtt::packets::pingresp::{spec_pingresp_bytes, Pingresp};
use crate::mqtt::packets::puback::{
    lemma_u16_bytes_roundtrip, spec_encode_puback, spec_parse_puback, spec_u16_bytes, Puback,
};
use crate::mqtt::packets::publish::{
    lemma_publish_roundtrip, spec_encode_publish, spec_parse_publish, spec_publish_content,
    spec_publish_first_byte, spec_publish_well_formed, Publish, PublishView,
};
use crate::mqtt::packets::suback::{lemma_suback_roundtrip, spec_encode_suback, spec_parse_suback, Suback};
use crate::mqtt::packets::{
    CONNACK_PACKET_TYPE, CONNECT_PACKET_TYPE, DISCONNECT_PACKET_TYPE, PINGREQ_PACKET_TYPE,
    PINGRESP_PACKET_TYPE, PUBACK_PACKET_TYPE, PUBLISH_PACKET_TYPE, SUBACK_PACKET_TYPE,
    SUBSCRIBE_PACKET_TYPE, UNSUBACK_PACKET_TYPE, UNSUBSCRIBE_PACKET_TYPE,
};
use crate::mqtt::encoded_string::MAX_ENCODED_STRING_LENGTH;
use crate::mqtt::topic_name::spec_topic_text;
use crate::mqtt::remaining_length::MAX_REMAINING_LENGTH;
use crate::mqtt::suback_return_code::SubackReturnCode;

verus! {

/// A control packet sent over the network.
#[derive(Debug)]
pub enum Packet {
    Connect(Connect),
    Connack(Connack),
    Publish(Publish),
    Puback(Puback),
    Subscribe(Subscribe),
    Suback(Suback),
    Unsubscribe(Unsubscribe),
    Unsuback(Unsuback),
    Pingreq(Pingreq),
    Pingresp(Pingresp),
    Disconnect(Disconnect),
}

/// What decoding the `content` of a packet whose fixed header has
/// `first_byte` and announces `remaining_length` bytes must give.
pub open spec fn spec_packet_from_content(
    res: Result<Packet, Error>,
    first_byte: u8,
    remaining_length: nat,
    content: Seq<u8>,
) -> bool {
    let packet_type = first_byte / 16;
    if packet_type == 1 {
        match spec_parse_connect(first_byte, content) {
            Ok((c, n)) => if n == remaining_length {
                res matches Ok(Packet::Connect(r)) && r@ == c
            } else {
                res == Err::<Packet, Error>(Error::InvalidRemainingLength)
            },
            Err(e) => res == Err::<Packet, Error>(e),
        }
    } else if packet_type == 2 {
        match spec_parse_connack(first_byte, content) {
            Ok((session_present, code, n)) => if n == remaining_length {
                res matches Ok(Packet::Connack(c)) && c@ == (session_present, code)
            } else {
                res == Err::<Packet, Error>(Error::InvalidRemainingLength)
            },
            Err(e) => res == Err::<Packet, Error>(e),
        }
    } else if packet_type == 3 {
        match spec_parse_publish(first_byte, remaining_length, content) {
            Ok((p, n)) => res matches Ok(Packet::Publish(q)) && q@ == p,
            Err(e) => res == Err::<Packet, Error>(e),
        }
    } else if packet_type == 4 {
        match spec_parse_puback(first_byte, content) {
            Ok((id, n)) => if n == remaining_length {
                res matches Ok(Packet::Puback(p)) && p@ == Some(id)
            } else {
                res == Err::<Packet, Error>(Error::InvalidRemainingLength)
            },
            Err(e) => res == Err::<Packet, Error>(e),
        }
    } else if packet_type == 8 {
        match spec_parse_subscribe(first_byte, remaining_length, content) {
            Ok((id, filters, n)) => res matches Ok(Packet::Subscribe(s)) && s@ == (id, filters),
            Err(e) => res == Err::<Packet, Error>(e),
        }
    } else if packet_type == 9 {
        match spec_parse_suback(first_byte, remaining_length, content) {
            Ok((id, codes, n)) => res matches Ok(Packet::Suback(s)) && s@ == (id, codes),
            Err(e) => res == Err::<Packet, Error>(e),
        }
    } else if packet_type == 10 {
        match spec_parse_unsubscribe(first_byte, remaining_length, content) {
            Ok((id, filters, n)) => res matches Ok(Packet::Unsubscribe(u)) && u@ == (id, filters),
            Err(e) => res == Err::<Packet, Error>(e),
        }
    } else if packet_type == 11 {
        match spec_parse_unsuback(first_byte, content) {
            Ok((id, n)) => if n == remaining_length {
                res matches Ok(Packet::Unsuback(u)) && u@ == id
            } else {
                res == Err::<Packet, Error>(Error::InvalidRemainingLength)
            },
            Err(e) => res == Err::<Packet, Error>(e),
        }
    } else if packet_type == 12 || packet_type == 13 || packet_type == 14 {
        if first_byte % 16 != 0 {
            res == Err::<Packet, Error>(Error::InvalidFixedHeaderFlags)
        } else if remaining_length != 0 {
            res == Err::<Packet, Error>(Error::InvalidRemainingLength)
        } else if packet_type == 12 {
            res == Ok::<Packet, Error>(Packet::Pingreq(Pingreq))
        } else if packet_type == 13 {
            res == Ok::<Packet, Error>(Packet::Pingresp(Pingresp))
        } else {
            res == Ok::<Packet, Error>(Packet::Disconnect(Disconnect))
        }
    } else {
        res == Err::<Packet, Error>(Error::InvalidPacketType(packet_type as u8))
    }
}

impl Packet {
    /// Reads a packet off the stream: its fixed header, then exactly as many
    /// bytes as the header announces, which the packet's own decoder must use
    /// up. Once the whole announced content is there, header and content are
    /// consumed whether the packet then decodes or not; when the content is
    /// short, only the header is.
    pub fn from_bytes(stream: &mut ByteReader) -> (res: Result<Packet, Error>)
        ensures
            match spec_parse_fixed_header(old(stream)@) {
                Err(e) => res == Err::<Packet, Error>(e),
                Ok((first_byte, remaining_length, h)) => if old(stream)@.len() < h + remaining_length {
                    &&& res == Err::<Packet, Error>(Error::UnexpectedEof)
                    &&& final(stream)@ == old(stream)@.skip(h as int)
                } else {
                    &&& spec_packet_from_content(res, first_byte, remaining_length,
                        old(stream)@.subrange(h as int, (h + remaining_length) as int))
                    &&& final(stream)@ == old(stream)@.skip((h + remaining_length) as int)
                },
            },
    {
        let ghost s0 = stream@;
        proof { lemma_fixed_header_bounds(s0); }
        let fixed_header = FixedHeader::from_bytes(stream)?;
        let ghost s1 = stream@;
        let first_byte = fixed_header.first_byte();
        let packet_type = first_byte / 16;
        let remaining_length_value = fixed_header.remaining_length().value();
        let ghost h = spec_parse_fixed_header(s0)->Ok_0.2 as int;
        assert(s1 =~= s0.skip(h));
        let content = stream.read_exact(remaining_length_value)?;
        assert(content@ =~= s0.subrange(h, h + remaining_length_value));
        assert(stream@ =~= s0.skip(h + remaining_length_value));
        let mut inner = ByteReader::new(content);
        let packet = if packet_type == CONNECT_PACKET_TYPE {
            Packet::Connect(Connect::from_bytes(fixed_header, &mut inner)?)
        } else if packet_type == CONNACK_PACKET_TYPE {
            Packet::Connack(Connack::from_bytes(fixed_header, &mut inner)?)
        } else if packet_type == PUBLISH_PACKET_TYPE {
            Packet::Publish(Publish::from_bytes(fixed_header, &mut inner)?)
        } else if packet_type == PUBACK_PACKET_TYPE {
            Packet::Puback(Puback::from_bytes(fixed_header, &mut inner)?)
        } else if packet_type == SUBSCRIBE_PACKET_TYPE {
            Packet::Subscribe(Subscribe::from_bytes(fixed_header, &mut inner)?)
        } else if packet_type == SUBACK_PACKET_TYPE {
            Packet::Suback(Suback::from_bytes(fixed_header, &mut inner)?)
        } else if packet_type == UNSUBSCRIBE_PACKET_TYPE {
            Packet::Unsubscribe(Unsubscribe::from_bytes(fixed_header, &mut inner)?)
        } else if packet_type == UNSUBACK_PACKET_TYPE {
            Packet::Unsuback(Unsuback::from_bytes(fixed_header, &mut inner)?)
        } else if packet_type == PINGREQ_PACKET_TYPE {
            Packet::Pingreq(Pingreq::from_bytes(fixed_header)?)
        } else if packet_type == PINGRESP_PACKET_TYPE {
            Packet::Pingresp(Pingresp::from_bytes(fixed_header)?)
        } else if packet_type == DISCONNECT_PACKET_TYPE {
            Packet::Disconnect(Disconnect::from_bytes(fixed_header)?)
        } else {
            return Err(Error::InvalidPacketType(packet_type));
        };
        if inner.remaining() != 0 {
            return Err(Error::InvalidRemainingLength);
        }
        Ok(packet)
    }

    /// The packet's type number followed by the packet's own bytes; a
    /// PINGREQ's own bytes are encrypted with `key`.
    pub fn to_bytes(&self, key: &[u8]) -> (bytes: Vec<u8>)
        requires
            key@.len() == KEY_LENGTH,
            self matches Packet::Suback(s) ==> 2 + s@.1.len() <= MAX_REMAINING_LENGTH,
            self matches Packet::Publish(p) ==> spec_topic_text(p@.topic.0).len() <= MAX_ENCODED_STRING_LENGTH
                && spec_publish_content(p@).len() <= MAX_REMAINING_LENGTH,
            self matches Packet::Connect(c) ==> spec_connect_fits(c@),
            self matches Packet::Subscribe(s) ==> 2 + spec_subscribe_payload(s@.1).len() <= MAX_REMAINING_LENGTH
                && forall|i: int| 0 <= i < s@.1.len() ==> spec_filter_text(#[trigger] s@.1[i].0.0).len() <= MAX_ENCODED_STRING_LENGTH,
            self matches Packet::Unsubscribe(u) ==> 2 + spec_unsubscribe_payload(u@.1).len() <= MAX_REMAINING_LENGTH
                && forall|i: int| 0 <= i < u@.1.len() ==> spec_filter_text(#[trigger] u@.1[i].0).len() <= MAX_ENCODED_STRING_LENGTH,
        ensures
            match self {
                Packet::Connect(c) => bytes@ == seq![1u8] + spec_encode_connect(c@),
                Packet::Connack(c) => bytes@ == seq![2u8] + spec_encode_connack(c@.0, c@.1),
                Packet::Subscribe(s) => bytes@ == seq![8u8] + spec_encode_subscribe(s@.0, s@.1),
                Packet::Unsubscribe(u) => bytes@ == seq![10u8] + spec_encode_unsubscribe(u@.0, u@.1),
                Packet::Unsuback(u) => bytes@ == seq![11u8] + spec_encode_unsuback(u@),
                Packet::Disconnect(_) => bytes@ == seq![14u8] + spec_disconnect_bytes(),
                Packet::Publish(p) => bytes@ == seq![3u8] + spec_encode_publish(p@),
                Packet::Puback(p) => bytes@ == seq![4u8] + spec_encode_puback(p@),
                Packet::Suback(s) => bytes@ == seq![9u8] + spec_encode_suback(s@.0, s@.1),
                Packet::Pingreq(_) => bytes@.len() >= 1 && bytes@[0] == 12
                    && spec_is_encryption_of(bytes@.skip(1), spec_pingreq_bytes(), key@)
                    && spec_decryption(bytes@.skip(3), key@) == Some(Seq::<u8>::empty()),
                Packet::Pingresp(_) => bytes@ == seq![13u8] + spec_pingresp_bytes(),
            },
    {
        let mut packet_bytes: Vec<u8> = Vec::new();
        match self {
            Packet::Connect(connect_packet) => {
                packet_bytes.push(CONNECT_PACKET_TYPE);
                let mut b = connect_packet.to_bytes();
                packet_bytes.append(&mut b);
            },
            Packet::Connack(connack_packet) => {
                packet_bytes.push(CONNACK_PACKET_TYPE);
                let mut b = connack_packet.to_bytes();
                packet_bytes.append(&mut b);
            },
            Packet::Subscribe(subscribe_packet) => {
                packet_bytes.push(SUBSCRIBE_PACKET_TYPE);
                let mut b = subscribe_packet.to_bytes();
                packet_bytes.append(&mut b);
            },
            Packet::Unsubscribe(unsubscribe_packet) => {
                packet_bytes.push(UNSUBSCRIBE_PACKET_TYPE);
                let mut b = unsubscribe_packet.to_bytes();
                packet_bytes.append(&mut b);
            },
            Packet::Unsuback(unsuback_packet) => {
                packet_bytes.push(UNSUBACK_PACKET_TYPE);
                let mut b = unsuback_packet.to_bytes();
                packet_bytes.append(&mut b);
            },
            Packet::Disconnect(disconnect_packet) => {
                packet_bytes.push(DISCONNECT_PACKET_TYPE);
                let mut b = disconnect_packet.to_bytes();
                packet_bytes.append(&mut b);
            },
            Packet::Publish(publish_packet) => {
                packet_bytes.push(PUBLISH_PACKET_TYPE);
                let mut b = publish_packet.to_bytes();
                packet_bytes.append(&mut b);
            },
            Packet::Puback(puback_packet) => {
                packet_bytes.push(PUBACK_PACKET_TYPE);
                let mut b = puback_packet.to_bytes();
                packet_bytes.append(&mut b);
            },
            Packet::Suback(suback_packet) => {
                packet_bytes.push(SUBACK_PACKET_TYPE);
                let mut b = suback_packet.to_bytes();
                packet_bytes.append(&mut b);
            },
            Packet::Pingreq(pingreq_packet) => {
                packet_bytes.push(PINGREQ_PACKET_TYPE);
                let mut b = pingreq_packet.to_bytes(key);
                let ghost e = b@;
                packet_bytes.append(&mut b);
                assert(packet_bytes@.skip(1) =~= e);
                assert(packet_bytes@.skip(3) =~= e.skip(2));
            },
            Packet::Pingresp(pingresp_packet) => {
                packet_bytes.push(PINGRESP_PACKET_TYPE);
                let mut b = pingresp_packet.to_bytes();
                packet_bytes.append(&mut b);
            },
        }
        packet_bytes
    }
}

/// How many bytes the packet that starts with `prefix` takes in all, once
/// `prefix` holds its whole fixed header: nothing yet while the fixed header
/// is incomplete, and the error of a malformed remaining length.
pub fn packet_length(prefix: &Vec<u8>) -> (res: Result<Option<usize>, Error>)
    ensures
        match spec_parse_fixed_header(prefix@) {
            Ok((first_byte, remaining_length, h)) => res == Ok::<Option<usize>, Error>(Some((h + remaining_length) as usize)),
            Err(Error::UnexpectedEof) => res == Ok::<Option<usize>, Error>(None),
            Err(e) => res == Err::<Option<usize>, Error>(e),
        },
{
    proof { lemma_fixed_header_bounds(prefix@); }
    let mut stream = ByteReader::new(prefix.clone());
    match FixedHeader::from_bytes(&mut stream) {
        Ok(fixed_header) => {
            let header_length = prefix.len() - stream.remaining();
            Ok(Some(header_length + fixed_header.remaining_length().value()))
        },
        Err(Error::UnexpectedEof) => Ok(None),
        Err(e) => Err(e),
    }
}

/// Reading a packet from the bytes a SUBACK writes gives that SUBACK back and
/// takes all of its bytes, whatever follows them.
pub proof fn lemma_packet_reads_suback(
    packet_identifier: u16,
    codes: Seq<SubackReturnCode>,
    rest: Seq<u8>,
    res: Result<Packet, Error>,
)
    requires
        2 + codes.len() <= MAX_REMAINING_LENGTH,
    ensures
        ({
            let bytes = spec_encode_suback(packet_identifier, codes) + rest;
            let h = spec_encode_fixed_header(0x90, 2 + codes.len()).len();
            let n = 2 + codes.len();
            &&& spec_parse_fixed_header(bytes) == Ok::<(u8, nat, nat), Error>((0x90, n, h))
            &&& bytes.len() >= h + n
            &&& spec_packet_from_content(res, 0x90, n, bytes.subrange(h as int, (h + n) as int))
                ==> (res matches Ok(Packet::Suback(s)) && s@ == (packet_identifier, codes))
        }),
{
    let bytes = spec_encode_suback(packet_identifier, codes) + rest;
    let h = spec_encode_fixed_header(0x90, 2 + codes.len()).len();
    let n = 2 + codes.len();
    lemma_suback_roundtrip(packet_identifier, codes, rest);
    lemma_suback_roundtrip(packet_identifier, codes, Seq::empty());
    let content = bytes.subrange(h as int, (h + n) as int);
    assert(bytes.skip(h as int).len() >= n);
    assert(content =~= (spec_encode_suback(packet_identifier, codes) + Seq::<u8>::empty()).skip(h as int));
}

/// Reading a packet from the bytes a PUBACK with an identifier writes gives
/// that PUBACK back and takes all of its bytes, whatever follows them.
pub proof fn lemma_packet_reads_puback(packet_identifier: u16, rest: Seq<u8>, res: Result<Packet, Error>)
    ensures
        ({
            let bytes = spec_encode_puback(Some(packet_identifier)) + rest;
            &&& spec_parse_fixed_header(bytes) == Ok::<(u8, nat, nat), Error>((0x40, 2, 2))
            &&& bytes.len() >= 4
            &&& spec_packet_from_content(res, 0x40, 2, bytes.subrange(2, 4))
                ==> (res matches Ok(Packet::Puback(p)) && p@ == Some(packet_identifier))
        }),
{
    let body = spec_u16_bytes(packet_identifier) + rest;
    let bytes = spec_encode_puback(Some(packet_identifier)) + rest;
    assert(bytes =~= spec_encode_fixed_header(0x40, 2) + body);
    lemma_fixed_header_roundtrip(0x40, 2, body);
    assert(spec_encode_fixed_header(0x40, 2).len() == 2) by {
        reveal_with_fuel(crate::mqtt::remaining_length::spec_encode_remaining_length, 2);
    }
    lemma_u16_bytes_roundtrip(packet_identifier);
    assert(bytes.subrange(2, 4) =~= spec_u16_bytes(packet_identifier));
}

/// Reading a packet from the bytes a well-formed PUBLISH writes gives that
/// PUBLISH back and takes all of its bytes, whatever follows them.
pub proof fn lemma_packet_reads_publish(p: PublishView, rest: Seq<u8>, res: Result<Packet, Error>)
    requires
        spec_publish_well_formed(p),
    ensures
        ({
            let bytes = spec_encode_publish(p) + rest;
            let first_byte = spec_publish_first_byte(p.dup, p.qos, p.retain);
            let n = spec_publish_content(p).len();
            let h = spec_encode_fixed_header(first_byte, n).len();
            &&& spec_parse_fixed_header(bytes) == Ok::<(u8, nat, nat), Error>((first_byte, n, h))
            &&& bytes.len() >= h + n
            &&& spec_packet_from_content(res, first_byte, n, bytes.subrange(h as int, (h + n) as int))
                ==> (res matches Ok(Packet::Publish(q)) && q@ == p)
        }),
{
    let bytes = spec_encode_publish(p) + rest;
    let first_byte = spec_publish_first_byte(p.dup, p.qos, p.retain);
    let n = spec_publish_content(p).len();
    let h = spec_encode_fixed_header(first_byte, n).len();
    lemma_publish_roundtrip(p, rest);
    lemma_publish_roundtrip(p, Seq::empty());
    assert(bytes.subrange(h as int, (h + n) as int) =~= (spec_encode_publish(p) + Seq::<u8>::empty()).skip(h as int));
}

/// Reading a packet from the bytes a well-formed CONNECT writes gives that
/// CONNECT back, whatever follows its bytes.
pub proof fn lemma_packet_reads_connect(c: ConnectView, rest: Seq<u8>, res: Result<Packet, Error>)
    requires
        spec_connect_well_formed(c),
    ensures
        ({
            let bytes = spec_encode_connect(c) + rest;
            let n = (spec_connect_variable_header(c) + spec_connect_payload(c)).len();
            let h = spec_encode_fixed_header(0x10, n).len();
            &&& spec_parse_fixed_header(bytes) == Ok::<(u8, nat, nat), Error>((0x10, n, h))
            &&& bytes.len() >= h + n
            &&& spec_packet_from_content(res, 0x10, n, bytes.subrange(h as int, (h + n) as int))
                ==> (res matches Ok(Packet::Connect(r)) && r@ == c)
        }),
{
    let bytes = spec_encode_connect(c) + rest;
    let n = (spec_connect_variable_header(c) + spec_connect_payload(c)).len();
    let h = spec_encode_fixed_header(0x10, n).len();
    lemma_connect_roundtrip(c, rest);
    lemma_connect_roundtrip(c, Seq::empty());
    assert(bytes.subrange(h as int, (h + n) as int) =~= (spec_encode_connect(c) + Seq::<u8>::empty()).skip(h as int));
}

/// Reading a packet from the bytes a SUBSCRIBE with well-formed filters
/// writes gives that SUBSCRIBE back, whatever follows its bytes.
pub proof fn lemma_packet_reads_subscribe(
    packet_identifier: u16,
    filters: Seq<((Seq<TopicLevelView>, bool), QoS)>,
    rest: Seq<u8>,
    res: Result<Packet, Error>,
)
    requires
        forall|i: int| 0 <= i < filters.len() ==> spec_filter_well_formed(#[trigger] filters[i].0.0, filters[i].0.1),
        2 + spec_subscribe_payload(filters).len() <= MAX_REMAINING_LENGTH,
    ensures
        ({
            let bytes = spec_encode_subscribe(packet_identifier, filters) + rest;
            let n = 2 + spec_subscribe_payload(filters).len();
            let h = spec_encode_fixed_header(0x82, n).len();
            &&& spec_parse_fixed_header(bytes) == Ok::<(u8, nat, nat), Error>((0x82, n, h))
            &&& bytes.len() >= h + n
            &&& spec_packet_from_content(res, 0x82, n, bytes.subrange(h as int, (h + n) as int))
                ==> (res matches Ok(Packet::Subscribe(s)) && s@ == (packet_identifier, filters))
        }),
{
    let bytes = spec_encode_subscribe(packet_identifier, filters) + rest;
    let n = 2 + spec_subscribe_payload(filters).len();
    let h = spec_encode_fixed_header(0x82, n).len();
    lemma_subscribe_roundtrip(packet_identifier, filters, rest);
    lemma_subscribe_roundtrip(packet_identifier, filters, Seq::empty());
    assert(bytes.subrange(h as int, (h + n) as int)
        =~= (spec_encode_subscribe(packet_identifier, filters) + Seq::<u8>::empty()).skip(h as int));
}

/// Reading a packet from the bytes an UNSUBSCRIBE with well-formed filters
/// writes gives that UNSUBSCRIBE back, whatever follows its bytes.
pub proof fn lemma_packet_reads_unsubscribe(
    packet_identifier: u16,
    filters: Seq<(Seq<TopicLevelView>, bool)>,
    rest: Seq<u8>,
    res: Result<Packet, Error>,
)
    requires
        forall|i: int| 0 <= i < filters.len() ==> spec_filter_well_formed(#[trigger] filters[i].0, filters[i].1),
        2 + spec_unsubscribe_payload(filters).len() <= MAX_REMAINING_LENGTH,
    ensures
        ({
            let bytes = spec_encode_unsubscribe(packet_identifier, filters) + rest;
            let n = 2 + spec_unsubscribe_payload(filters).len();
            let h = spec_encode_fixed_header(0xA2, n).len();
            &&& spec_parse_fixed_header(bytes) == Ok::<(u8, nat, nat), Error>((0xA2, n, h))
            &&& bytes.len() >= h + n
            &&& spec_packet_from_content(res, 0xA2, n, bytes.subrange(h as int, (h + n) as int))
                ==> (res matches Ok(Packet::Unsubscribe(u)) && u@ == (packet_identifier, filters))
        }),
{
    let bytes = spec_encode_unsubscribe(packet_identifier, filters) + rest;
    let n = 2 + spec_unsubscribe_payload(filters).len();
    let h = spec_encode_fixed_header(0xA2, n).len();
    lemma_unsubscribe_roundtrip(packet_identifier, filters, rest);
    lemma_unsubscribe_roundtrip(packet_identifier, filters, Seq::empty());
    assert(bytes.subrange(h as int, (h + n) as int)
        =~= (spec_encode_unsubscribe(packet_identifier, filters) + Seq::<u8>::empty()).skip(h as int));
}

/// Reading a packet from the bytes a CONNACK writes gives that CONNACK back.
pub proof fn lemma_packet_reads_connack(session_present: bool, code: ConnectReturnCode, rest: Seq<u8>, res: Result<Packet, Error>)
    ensures
        ({
            let bytes = spec_encode_connack(session_present, code) + rest;
            &&& spec_parse_fixed_header(bytes) == Ok::<(u8, nat, nat), Error>((0x20, 2, 2))
            &&& bytes.len() >= 4
            &&& spec_packet_from_content(res, 0x20, 2, bytes.subrange(2, 4))
                ==> (res matches Ok(Packet::Connack(c)) && c@ == (session_present, code))
        }),
{
    let flags: u8 = if session_present { 1u8 } else { 0u8 };
    let body = seq![flags, crate::mqtt::connect_return_code::spec_connect_return_code_byte(code)] + rest;
    let bytes = spec_encode_connack(session_present, code) + rest;
    assert(bytes =~= spec_encode_fixed_header(0x20, 2) + body);
    lemma_fixed_header_roundtrip(0x20, 2, body);
    assert(spec_encode_fixed_header(0x20, 2).len() == 2) by {
        reveal_with_fuel(crate::mqtt::remaining_length::spec_encode_remaining_length, 2);
    }
    lemma_connect_return_code_roundtrip(code, 0);
    assert(bytes.subrange(2, 4) =~= seq![flags, crate::mqtt::connect_return_code::spec_connect_return_code_byte(code)]);
}

/// Reading a packet from the bytes an UNSUBACK writes gives that UNSUBACK back.
pub proof fn lemma_packet_reads_unsuback(packet_identifier: u16, rest: Seq<u8>, res: Result<Packet, Error>)
    ensures
        ({
            let bytes = spec_encode_unsuback(packet_identifier) + rest;
            &&& spec_parse_fixed_header(bytes) == Ok::<(u8, nat, nat), Error>((0xB0, 2, 2))
            &&& bytes.len() >= 4
            &&& spec_packet_from_content(res, 0xB0, 2, bytes.subrange(2, 4))
                ==> (res matches Ok(Packet::Unsuback(u)) && u@ == packet_identifier)
        }),
{
    let body = spec_u16_bytes(packet_identifier) + rest;
    let bytes = spec_encode_unsuback(packet_identifier) + rest;
    assert(bytes =~= spec_encode_fixed_header(0xB0, 2) + body);
    lemma_fixed_header_roundtrip(0xB0, 2, body);
    assert(spec_encode_fixed_header(0xB0, 2).len() == 2) by {
        reveal_with_fuel(crate::mqtt::remaining_length::spec_encode_remaining_length, 2);
    }
    lemma_u16_bytes_roundtrip(packet_identifier);
    assert(bytes.subrange(2, 4) =~= spec_u16_bytes(packet_identifier));
}

/// Reading a packet from the bytes a PINGRESP writes gives a PINGRESP.
pub proof fn lemma_packet_reads_pingresp(rest: Seq<u8>, res: Result<Packet, Error>)
    ensures
        ({
            let bytes = spec_pingresp_bytes() + rest;
            &&& spec_parse_fixed_header(bytes) == Ok::<(u8, nat, nat), Error>((0xD0, 0, 2))
            &&& spec_packet_from_content(res, 0xD0, 0, bytes.subrange(2, 2))
                ==> res == Ok::<Packet, Error>(Packet::Pingresp(Pingresp))
        }),
{
    let bytes = spec_pingresp_bytes() + rest;
    assert(spec_pingresp_bytes() =~= spec_encode_fixed_header(0xD0, 0)) by {
        reveal_with_fuel(crate::mqtt::remaining_length::spec_encode_remaining_length, 2);
    }
    lemma_fixed_header_roundtrip(0xD0, 0, rest);
}

} // verus!
