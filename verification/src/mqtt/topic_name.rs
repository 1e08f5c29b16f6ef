use vstd::prelude::*;

use crate::byte_reader::ByteReader;
use crate::error::Error;
use crate::mqtt::encoded_string::{
    lemma_encoded_string_roundtrip, spec_encode_string, spec_parse_string, spec_string_error_rest, EncodedString,
    MAX_ENCODED_STRING_LENGTH,
};
use crate::text::{
    byte_parts, join_bytes, lemma_split_join, parts_free_of, spec_join,
    spec_split, split_bytes,
};

verus! {

/// The byte between two levels of a topic.
pub const FORWARD_SLASH: u8 = 0x2F;

/// The first byte of a topic reserved for the server.
pub const SERVER_RESERVED: u8 = 0x24;

/// The name of a topic a message is published to: its levels, and whether it
/// is reserved for the server (it begins with `$`).
#[derive(Debug, Clone, PartialEq, Eq)]
pub struct TopicName {
    levels: Vec<Vec<u8>>,
    server_reserved: bool,
}

/// The bytes a topic's levels stand for: the levels with `/` between them.
pub open spec fn spec_topic_text(levels: Seq<Seq<u8>>) -> Seq<u8> {
    spec_join(levels, FORWARD_SLASH)
}

/// A topic name as MQTT carries it.
pub open spec fn spec_encode_topic_name(levels: Seq<Seq<u8>>) -> Seq<u8> {
    spec_encode_string(spec_topic_text(levels))
}

/// Reads a topic name off the front of `s`: its levels, whether it is
/// reserved for the server, and the number of bytes it took.
pub open spec fn spec_parse_topic_name(s: Seq<u8>) -> Result<(Seq<Seq<u8>>, bool, nat), Error> {
    match spec_parse_string(s) {
        Ok((text, n)) => Ok((spec_split(text, FORWARD_SLASH), text.len() > 0 && text[0] == SERVER_RESERVED, n)),
        Err(e) => Err(e),
    }
}

/// A topic that survives its encoding: at least one level, no level holding a
/// slash, the flag in agreement with the first byte, and short enough for a
/// two-byte length.
pub open spec fn spec_topic_well_formed(levels: Seq<Seq<u8>>, server_reserved: bool) -> bool {
    &&& levels.len() >= 1
    &&& parts_free_of(levels, FORWARD_SLASH)
    &&& spec_topic_text(levels).len() <= MAX_ENCODED_STRING_LENGTH
    &&& server_reserved == (spec_topic_text(levels).len() > 0 && spec_topic_text(levels)[0] == SERVER_RESERVED)
}

/// Parsing the encoding of a well-formed topic gives back its levels and its
/// flag, whatever follows.
pub proof fn lemma_topic_name_roundtrip(levels: Seq<Seq<u8>>, server_reserved: bool, rest: Seq<u8>)
    requires
        spec_topic_well_formed(levels, server_reserved),
    ensures
        spec_parse_topic_name(spec_encode_topic_name(levels) + rest)
            == Ok::<(Seq<Seq<u8>>, bool, nat), Error>((levels, server_reserved, spec_encode_topic_name(levels).len())),
{
    lemma_encoded_string_roundtrip(spec_topic_text(levels), rest);
    lemma_split_join(levels, FORWARD_SLASH);
}

impl View for TopicName {
    type V = (Seq<Seq<u8>>, bool);

    closed spec fn view(&self) -> (Seq<Seq<u8>>, bool) {
        (byte_parts(self.levels@), self.server_reserved)
    }
}

impl TopicName {
    pub fn new(levels: Vec<Vec<u8>>, server_reserved: bool) -> (t: TopicName)
        ensures
            t@ == (byte_parts(levels@), server_reserved),
    {
        TopicName { levels, server_reserved }
    }

    /// The levels, in order.
    pub fn levels(&self) -> (l: &Vec<Vec<u8>>)
        ensures
            byte_parts(l@) == self@.0,
    {
        &self.levels
    }

    /// Whether the topic is reserved for the server.
    pub fn server_reserved(&self) -> (b: bool)
        ensures
            b == self@.1,
    {
        self.server_reserved
    }

    /// The levels with `/` between them, as a length-prefixed string.
    pub fn to_bytes(&self) -> (bytes: Vec<u8>)
        requires
            spec_topic_text(self@.0).len() <= MAX_ENCODED_STRING_LENGTH,
        ensures
            bytes@ == spec_encode_topic_name(self@.0),
    {
        let text = join_bytes(&self.levels, FORWARD_SLASH);
        EncodedString::new(text).to_bytes()
    }

    /// Reads a topic name off the front of the stream: its levels are the
    /// parts of the string between slashes; it is reserved for the server
    /// when it begins with `$`. On success its bytes are consumed; on an
    /// error, what a failed string read takes.
    pub fn from_bytes(stream: &mut ByteReader) -> (res: Result<TopicName, Error>)
        ensures
            match spec_parse_topic_name(old(stream)@) {
                Ok((levels, reserved, n)) => res matches Ok(t) && t@ == (levels, reserved)
                    && final(stream)@ == old(stream)@.skip(n as int),
                Err(e) => res == Err::<TopicName, Error>(e)
                    && final(stream)@ == spec_string_error_rest(old(stream)@),
            },
    {
        let string = EncodedString::from_bytes(stream)?;
        let content = string.content();
        let server_reserved = content.len() > 0 && content[0] == SERVER_RESERVED;
        let levels = split_bytes(content, FORWARD_SLASH);
        Ok(TopicName { levels, server_reserved })
    }
}

} // verus!
