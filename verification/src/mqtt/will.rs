use vstd::prelude::*;

use crate::byte_reader::ByteReader;
use crate::error::Error;
use crate::mqtt::encoded_string::{
    lemma_encoded_string_roundtrip, spec_encode_string, spec_parse_string, spec_string_error_rest, EncodedString,
    MAX_ENCODED_STRING_LENGTH,
};
use crate::mqtt::qos::QoS;
use crate::mqtt::topic_name::{
    lemma_topic_name_roundtrip, spec_encode_topic_name, spec_parse_topic_name, spec_topic_text,
    spec_topic_well_formed, TopicName,
};

verus! {

/// A message the server publishes when its client disconnects unexpectedly.
#[derive(Debug, PartialEq)]
pub struct Will {
    qos: QoS,
    retain: bool,
    topic: TopicName,
    message: EncodedString,
}

/// The bytes of a will: its topic, then its message.
pub open spec fn spec_encode_will(levels: Seq<Seq<u8>>, message: Seq<u8>) -> Seq<u8> {
    spec_encode_topic_name(levels) + spec_encode_string(message)
}

/// Reads a will's topic and message off the front of `s`: the levels, the
/// topic's flag, the message and the number of bytes they took.
pub open spec fn spec_parse_will(s: Seq<u8>) -> Result<(Seq<Seq<u8>>, bool, Seq<u8>, nat), Error> {
    match spec_parse_topic_name(s) {
        Ok((levels, reserved, n)) => match spec_parse_string(s.skip(n as int)) {
            Ok((message, m)) => Ok((levels, reserved, message, n + m)),
            Err(e) => Err(e),
        },
        Err(e) => Err(e),
    }
}

impl Will {
    pub fn new(qos: QoS, retain: bool, topic: TopicName, message: EncodedString) -> (w: Will)
        ensures
            w.spec_qos() == qos,
            w.spec_retain() == retain,
            w.spec_topic() == topic@,
            w.spec_message() == message@,
    {
        Will { qos, retain, topic, message }
    }

    pub closed spec fn spec_qos(&self) -> QoS {
        self.qos
    }

    pub closed spec fn spec_retain(&self) -> bool {
        self.retain
    }

    pub closed spec fn spec_topic(&self) -> (Seq<Seq<u8>>, bool) {
        self.topic@
    }

    pub closed spec fn spec_message(&self) -> Seq<u8> {
        self.message@
    }

    /// Reads a will's topic and message off the stream; the quality of
    /// service and the retain flag come from the CONNECT flags. On success the
    /// bytes are consumed; on an error, the topic if it was read, then what a
    /// failed string read takes.
    pub fn from_bytes(stream: &mut ByteReader, qos: QoS, retain: bool) -> (res: Result<Will, Error>)
        ensures
            match spec_parse_will(old(stream)@) {
                Ok((levels, reserved, message, n)) => res matches Ok(w) && w.spec_qos() == qos
                    && w.spec_retain() == retain && w.spec_topic() == (levels, reserved)
                    && w.spec_message() == message && final(stream)@ == old(stream)@.skip(n as int),
                Err(e) => res == Err::<Will, Error>(e) && final(stream)@ == match spec_parse_topic_name(old(stream)@) {
                    Ok((_, _, n)) => spec_string_error_rest(old(stream)@.skip(n as int)),
                    Err(_) => spec_string_error_rest(old(stream)@),
                },
            },
    {
        let ghost s0 = stream@;
        let topic = TopicName::from_bytes(stream)?;
        let ghost s1 = stream@;
        let message = EncodedString::from_bytes(stream)?;
        proof {
            if let Ok((levels, reserved, n)) = spec_parse_topic_name(s0) {
                assert(s1 == s0.skip(n as int));
                if let Ok((msg, m)) = spec_parse_string(s1) {
                    assert(m <= s1.len());
                    assert(stream@ =~= s0.skip((n + m) as int));
                }
            }
        }
        Ok(Will::new(qos, retain, topic, message))
    }

    /// The topic followed by the message.
    pub fn to_bytes(&self) -> (bytes: Vec<u8>)
        requires
            spec_topic_text(self.spec_topic().0).len() <= MAX_ENCODED_STRING_LENGTH,
            self.spec_message().len() <= MAX_ENCODED_STRING_LENGTH,
        ensures
            bytes@ == spec_encode_will(self.spec_topic().0, self.spec_message()),
    {
        let mut bytes = self.topic.to_bytes();
        let mut message = self.message.to_bytes();
        bytes.append(&mut message);
        bytes
    }

    pub fn qos(&self) -> (q: &QoS)
        ensures
            *q == self.spec_qos(),
    {
        &self.qos
    }

    pub fn retain(&self) -> (r: bool)
        ensures
            r == self.spec_retain(),
    {
        self.retain
    }

    pub fn topic(&self) -> (t: &TopicName)
        ensures
            t@ == self.spec_topic(),
    {
        &self.topic
    }

    pub fn message(&self) -> (m: &EncodedString)
        ensures
            m@ == self.spec_message(),
    {
        &self.message
    }
}

/// Reading back the bytes of a will whose topic is well formed gives its
/// topic and message back, whatever follows.
pub proof fn lemma_will_roundtrip(levels: Seq<Seq<u8>>, reserved: bool, message: Seq<u8>, rest: Seq<u8>)
    requires
        spec_topic_well_formed(levels, reserved),
        message.len() <= MAX_ENCODED_STRING_LENGTH,
    ensures
        spec_parse_will(spec_encode_will(levels, message) + rest)
            == Ok::<(Seq<Seq<u8>>, bool, Seq<u8>, nat), Error>((levels, reserved, message,
                spec_encode_will(levels, message).len())),
{
    let t = spec_encode_topic_name(levels);
    let m = spec_encode_string(message);
    let s = t + m + rest;
    assert(s =~= t + (m + rest));
    lemma_topic_name_roundtrip(levels, reserved, m + rest);
    assert(s.skip(t.len() as int) =~= m + rest);
    lemma_encoded_string_roundtrip(message, rest);
}

} // verus!
