use vstd::prelude::*;

use crate::byte_reader::ByteReader;
use crate::error::Error;
use crate::mqtt::encoded_string::MAX_ENCODED_STRING_LENGTH;
use crate::mqtt::fixed_header::{
    lemma_fixed_header_roundtrip, spec_encode_fixed_header, spec_parse_fixed_header, FixedHeader,
};
use crate::mqtt::packets::puback::{
    lemma_u16_bytes_roundtrip, spec_u16_bytes, spec_u16_from_bytes, PACKAGE_IDENTIFIER_LENGTH,
};
use crate::mqtt::packets::PUBLISH_PACKET_TYPE;
use crate::mqtt::qos::{spec_qos_byte, spec_qos_from_byte, QoS};
use crate::mqtt::remaining_length::{RemainingLength, MAX_REMAINING_LENGTH};
use crate::mqtt::topic_name::{
    lemma_topic_name_roundtrip, spec_encode_topic_name, spec_parse_topic_name, spec_topic_text,
    spec_topic_well_formed, TopicName,
};

verus! {

/// A PUBLISH as the specifications see it: its flags, its topic (levels and
/// whether the server reserves it), its identifier and its message.
pub struct PublishView {
    pub dup: bool,
    pub qos: QoS,
    pub retain: bool,
    pub topic: (Seq<Seq<u8>>, bool),
    pub package_identifier: Option<u16>,
    pub message: Seq<u8>,
}

/// The first byte of a PUBLISH: its type, then the duplicate flag, the
/// quality of service and the retain flag.
pub open spec fn spec_publish_first_byte(dup: bool, qos: QoS, retain: bool) -> u8 {
    (48 + (if dup { 8int } else { 0int }) + 2 * spec_qos_byte(qos) + (if retain { 1int } else { 0int })) as u8
}

/// The identifier's bytes: present only when the quality of service is above
/// "at most once" and there is an identifier.
pub open spec fn spec_identifier_bytes(qos: QoS, package_identifier: Option<u16>) -> Seq<u8> {
    match package_identifier {
        Some(id) => if qos != QoS::AtMost { spec_u16_bytes(id) } else { Seq::empty() },
        None => Seq::empty(),
    }
}

/// What follows the fixed header: the topic name, the identifier, the message.
pub open spec fn spec_publish_content(p: PublishView) -> Seq<u8> {
    spec_encode_topic_name(p.topic.0) + spec_identifier_bytes(p.qos, p.package_identifier) + p.message
}

/// The bytes of a PUBLISH.
pub open spec fn spec_encode_publish(p: PublishView) -> Seq<u8> {
    spec_encode_fixed_header(spec_publish_first_byte(p.dup, p.qos, p.retain), spec_publish_content(p).len())
        + spec_publish_content(p)
}

/// Reads the content of a PUBLISH whose fixed header has `first_byte` and
/// announces `remaining_length` bytes: the packet and the number of bytes
/// taken. The identifier is read when the quality of service is above "at
/// most once"; the message is the rest of the remaining length.
pub open spec fn spec_parse_publish(first_byte: u8, remaining_length: nat, s: Seq<u8>) -> Result<(PublishView, nat), Error> {
    let flags = first_byte % 16;
    match spec_qos_from_byte(flags / 2 % 4) {
        Err(e) => Err(e),
        Ok(qos) => match spec_parse_topic_name(s) {
            Err(e) => Err(e),
            Ok((levels, reserved, n)) => {
                let header = if qos == QoS::AtMost { n } else { n + 2 };
                if s.len() < header {
                    Err(Error::UnexpectedEof)
                } else if remaining_length < header {
                    Err(Error::InvalidRemainingLength)
                } else if s.len() < remaining_length {
                    Err(Error::UnexpectedEof)
                } else {
                    Ok((PublishView {
                        dup: flags / 8 == 1,
                        qos,
                        retain: flags % 2 == 1,
                        topic: (levels, reserved),
                        package_identifier: if qos == QoS::AtMost {
                            None
                        } else {
                            Some(spec_u16_from_bytes(s[n as int], s[(n + 1) as int]))
                        },
                        message: s.subrange(header as int, remaining_length as int),
                    }, remaining_length))
                }
            },
        },
    }
}

/// A PUBLISH that survives its bytes: a well-formed topic, an identifier
/// exactly when the quality of service asks for one, and a content that fits
/// the remaining length.
pub open spec fn spec_publish_well_formed(p: PublishView) -> bool {
    &&& spec_topic_well_formed(p.topic.0, p.topic.1)
    &&& (p.qos != QoS::AtMost) == (p.package_identifier is Some)
    &&& spec_publish_content(p).len() <= MAX_REMAINING_LENGTH
}

/// The flags of a PUBLISH's first byte give back its duplicate flag, its
/// quality of service and its retain flag.
pub proof fn lemma_publish_flags(dup: bool, qos: QoS, retain: bool)
    ensures
        ({
            let flags = spec_publish_first_byte(dup, qos, retain) % 16;
            &&& spec_publish_first_byte(dup, qos, retain) / 16 == PUBLISH_PACKET_TYPE
            &&& spec_qos_from_byte(flags / 2 % 4) == Ok::<QoS, Error>(qos)
            &&& (flags / 8 == 1) == dup
            &&& (flags % 2 == 1) == retain
        }),
{
}

proof fn lemma_publish_content_roundtrip(p: PublishView, rest: Seq<u8>)
    requires
        spec_publish_well_formed(p),
    ensures
        spec_parse_publish(spec_publish_first_byte(p.dup, p.qos, p.retain), spec_publish_content(p).len(),
            spec_publish_content(p) + rest) == Ok::<(PublishView, nat), Error>((p, spec_publish_content(p).len())),
{
    lemma_publish_flags(p.dup, p.qos, p.retain);
    let n = spec_publish_content(p).len();
    let topic = spec_encode_topic_name(p.topic.0);
    let id_bytes = spec_identifier_bytes(p.qos, p.package_identifier);
    let after_topic = id_bytes + p.message + rest;
    let s = spec_publish_content(p) + rest;
    assert(s =~= topic + after_topic);
    lemma_topic_name_roundtrip(p.topic.0, p.topic.1, after_topic);
    let t = topic.len();
    let header = if p.qos == QoS::AtMost { t } else { t + 2 };
    assert(header == topic.len() + id_bytes.len());
    assert(s.subrange(header as int, n as int) =~= p.message);
    if p.qos != QoS::AtMost {
        let id = p.package_identifier->Some_0;
        lemma_u16_bytes_roundtrip(id);
        assert(s[t as int] == spec_u16_bytes(id)[0]);
        assert(s[(t + 1) as int] == spec_u16_bytes(id)[1]);
    }
}

/// Reading back the bytes of a well-formed PUBLISH gives its fixed header,
/// then the packet itself, and takes all of its bytes, whatever follows.
pub proof fn lemma_publish_roundtrip(p: PublishView, rest: Seq<u8>)
    requires
        spec_publish_well_formed(p),
    ensures
        ({
            let first_byte = spec_publish_first_byte(p.dup, p.qos, p.retain);
            let n = spec_publish_content(p).len();
            let bytes = spec_encode_publish(p) + rest;
            let h = spec_encode_fixed_header(first_byte, n).len();
            &&& spec_parse_fixed_header(bytes) == Ok::<(u8, nat, nat), Error>((first_byte, n, h))
            &&& spec_parse_publish(first_byte, n, bytes.skip(h as int)) == Ok::<(PublishView, nat), Error>((p, n))
        }),
{
    let first_byte = spec_publish_first_byte(p.dup, p.qos, p.retain);
    let content = spec_publish_content(p);
    let n = content.len();
    let fh = spec_encode_fixed_header(first_byte, n);
    let bytes = spec_encode_publish(p) + rest;
    assert(bytes =~= fh + (content + rest));
    lemma_fixed_header_roundtrip(first_byte, n, content + rest);
    assert(bytes.skip(fh.len() as int) =~= content + rest);
    lemma_publish_content_roundtrip(p, rest);
}

/// A PUBLISH: a message sent to a topic.
#[derive(Debug, Clone, PartialEq, Eq)]
pub struct Publish {
    dup: bool,
    qos: QoS,
    retain: bool,
    topic: TopicName,
    package_identifier: Option<u16>,
    message: Vec<u8>,
}

impl View for Publish {
    type V = PublishView;

    closed spec fn view(&self) -> PublishView {
        PublishView {
            dup: self.dup,
            qos: self.qos,
            retain: self.retain,
            topic: self.topic@,
            package_identifier: self.package_identifier,
            message: self.message@,
        }
    }
}

impl Publish {
    pub fn new(
        dup: bool,
        qos: QoS,
        retain: bool,
        topic: TopicName,
        package_identifier: Option<u16>,
        message: Vec<u8>,
    ) -> (p: Publish)
        ensures
            p@ == (PublishView { dup, qos, retain, topic: topic@, package_identifier, message: message@ }),
    {
        Publish { dup, qos, retain, topic, package_identifier, message }
    }

    /// Reads the topic, the identifier and the message that follow the fixed
    /// header. On success the remaining length's bytes are consumed.
    pub fn from_bytes(fixed_header: FixedHeader, stream: &mut ByteReader) -> (res: Result<Publish, Error>)
        ensures
            match spec_parse_publish(fixed_header.spec_first_byte(), fixed_header.spec_remaining_length() as nat, old(stream)@) {
                Ok((p, n)) => res matches Ok(q) && q@ == p && final(stream)@ == old(stream)@.skip(n as int),
                Err(e) => res == Err::<Publish, Error>(e)
                    && (spec_qos_from_byte(fixed_header.spec_first_byte() % 16 / 2 % 4) is Err
                        ==> final(stream)@ == old(stream)@),
            },
    {
        let ghost s0 = stream@;
        let first_byte = fixed_header.first_byte();
        let flags = first_byte % 16;
        let qos = QoS::from_byte(flags / 2 % 4)?;
        let dup = flags / 8 == 1;
        let retain = flags % 2 == 1;
        let remaining_length = fixed_header.remaining_length().value();
        let before = stream.remaining();
        let topic = TopicName::from_bytes(stream)?;
        let ghost n = s0.len() - stream@.len();
        let package_identifier = if qos == QoS::AtMost {
            None
        } else {
            let id_bytes = stream.read_exact(PACKAGE_IDENTIFIER_LENGTH)?;
            assert(id_bytes@[0] == s0[n] && id_bytes@[1] == s0[n + 1]);
            Some((id_bytes[0] as u16) * 256 + (id_bytes[1] as u16))
        };
        let header = before - stream.remaining();
        if remaining_length < header {
            return Err(Error::InvalidRemainingLength);
        }
        let message = stream.read_exact(remaining_length - header)?;
        assert(message@ =~= s0.subrange(header as int, remaining_length as int));
        assert(stream@ =~= s0.skip(remaining_length as int));
        Ok(Publish { dup, qos, retain, topic, package_identifier, message })
    }

    /// The fixed header, the topic name, the identifier when the quality of
    /// service asks for one, then the message.
    pub fn to_bytes(&self) -> (bytes: Vec<u8>)
        requires
            spec_topic_text(self@.topic.0).len() <= MAX_ENCODED_STRING_LENGTH,
            spec_publish_content(self@).len() <= MAX_REMAINING_LENGTH,
        ensures
            bytes@ == spec_encode_publish(self@),
    {
        let mut content = self.topic.to_bytes();
        match self.package_identifier {
            Some(id) => {
                if self.qos != QoS::AtMost {
                    content.push((id / 256) as u8);
                    content.push((id % 256) as u8);
                }
            },
            None => {},
        }
        let ghost head = content@;
        content.extend_from_slice(self.message.as_slice());
        assert(content@ =~= head + self@.message);
        let first_byte: u8 = PUBLISH_PACKET_TYPE * 16 + (if self.dup { 8u8 } else { 0u8 }) + 2 * self.qos.to_byte()
            + (if self.retain { 1u8 } else { 0u8 });
        let fixed_header = FixedHeader::new(first_byte, RemainingLength::new(content.len() as u32));
        let mut bytes = fixed_header.to_bytes();
        bytes.append(&mut content);
        assert(bytes@ =~= spec_encode_publish(self@));
        bytes
    }

    pub fn dup(&self) -> (b: bool)
        ensures
            b == self@.dup,
    {
        self.dup
    }

    pub fn qos(&self) -> (q: &QoS)
        ensures
            *q == self@.qos,
    {
        &self.qos
    }

    pub fn retain(&self) -> (b: bool)
        ensures
            b == self@.retain,
    {
        self.retain
    }

    pub fn topic(&self) -> (t: &TopicName)
        ensures
            t@ == self@.topic,
    {
        &self.topic
    }

    pub fn package_identifier(&self) -> (id: Option<u16>)
        ensures
            id == self@.package_identifier,
    {
        self.package_identifier
    }

    pub fn message(&self) -> (m: &Vec<u8>)
        ensures
            m@ == self@.message,
    {
        &self.message
    }
}

} // verus!
