use vstd::prelude::*;

use crate::byte_reader::ByteReader;
use crate::error::Error;
use crate::mqtt::encoded_string::{
    lemma_encoded_string_roundtrip, spec_encode_string, spec_parse_string, EncodedString,
    MAX_ENCODED_STRING_LENGTH,
};
use crate::mqtt::topic_level::{
    lemma_level_roundtrip, spec_level_bytes, spec_level_well_formed, spec_parse_level, TopicLevel,
    TopicLevelView,
};
use crate::mqtt::topic_name::{FORWARD_SLASH, SERVER_RESERVED};
use crate::text::{byte_parts, free_of, join_bytes, lemma_split_join, parts_free_of, spec_join, spec_split, split_bytes};

verus! {

/// A filter a client subscribes with: its levels, and whether it is reserved
/// for the server.
#[derive(Debug, Clone, PartialEq, Eq)]
pub struct TopicFilter {
    levels: Vec<TopicLevel>,
    server_reserved: bool,
}

/// The views of a list of levels.
pub open spec fn level_views(levels: Seq<TopicLevel>) -> Seq<TopicLevelView> {
    Seq::new(levels.len(), |i: int| levels[i]@)
}

/// The bytes a filter's levels stand for: the levels with `/` between them.
pub open spec fn spec_filter_text(levels: Seq<TopicLevelView>) -> Seq<u8> {
    spec_join(Seq::new(levels.len(), |i: int| spec_level_bytes(levels[i])), FORWARD_SLASH)
}

/// A topic filter as MQTT carries it.
pub open spec fn spec_encode_topic_filter(levels: Seq<TopicLevelView>) -> Seq<u8> {
    spec_encode_string(spec_filter_text(levels))
}

/// The levels some parts stand for, or the error of the first part that
/// stands for none.
pub open spec fn spec_parse_levels(parts: Seq<Seq<u8>>) -> Result<Seq<TopicLevelView>, Error>
    decreases parts.len(),
{
    if parts.len() == 0 {
        Ok(Seq::empty())
    } else {
        match spec_parse_levels(parts.drop_last()) {
            Ok(levels) => match spec_parse_level(parts.last()) {
                Ok(level) => Ok(levels.push(level)),
                Err(e) => Err(e),
            },
            Err(e) => Err(e),
        }
    }
}

/// Reads a topic filter off the front of `s`: its levels, whether it is
/// reserved for the server (it begins with `$`), and the bytes it took.
pub open spec fn spec_parse_topic_filter(s: Seq<u8>) -> Result<(Seq<TopicLevelView>, bool, nat), Error> {
    match spec_parse_string(s) {
        Ok((text, n)) => match spec_parse_levels(spec_split(text, FORWARD_SLASH)) {
            Ok(levels) => Ok((levels, text.len() > 0 && text[0] == SERVER_RESERVED, n)),
            Err(e) => Err(e),
        },
        Err(e) => Err(e),
    }
}

/// A filter that survives its encoding: at least one level, each one
/// well-formed and free of slashes, the flag in agreement with the first
/// byte, and short enough for a two-byte length.
pub open spec fn spec_filter_well_formed(levels: Seq<TopicLevelView>, server_reserved: bool) -> bool {
    &&& levels.len() >= 1
    &&& forall|i: int| 0 <= i < levels.len() ==> spec_level_well_formed(#[trigger] levels[i])
        && free_of(spec_level_bytes(levels[i]), FORWARD_SLASH)
    &&& spec_filter_text(levels).len() <= MAX_ENCODED_STRING_LENGTH
    &&& server_reserved == (spec_filter_text(levels).len() > 0 && spec_filter_text(levels)[0] == SERVER_RESERVED)
}

proof fn lemma_parse_levels_prefix_error(parts: Seq<Seq<u8>>, k: nat)
    requires
        k <= parts.len(),
        spec_parse_levels(parts.take(k as int)) is Err,
    ensures
        spec_parse_levels(parts) == spec_parse_levels(parts.take(k as int)),
    decreases parts.len() - k,
{
    if k < parts.len() {
        assert(parts.take((k + 1) as int).drop_last() =~= parts.take(k as int));
        lemma_parse_levels_prefix_error(parts, k + 1);
    } else {
        assert(parts.take(k as int) =~= parts);
    }
}

proof fn lemma_parse_levels_of_bytes(levels: Seq<TopicLevelView>)
    requires
        forall|i: int| 0 <= i < levels.len() ==> spec_level_well_formed(#[trigger] levels[i]),
    ensures
        spec_parse_levels(Seq::new(levels.len(), |i: int| spec_level_bytes(levels[i])))
            == Ok::<Seq<TopicLevelView>, Error>(levels),
    decreases levels.len(),
{
    let parts = Seq::new(levels.len(), |i: int| spec_level_bytes(levels[i]));
    if levels.len() > 0 {
        let prefix = levels.drop_last();
        assert forall|i: int| 0 <= i < prefix.len() implies spec_level_well_formed(#[trigger] prefix[i]) by {
            assert(prefix[i] == levels[i]);
        }
        lemma_parse_levels_of_bytes(prefix);
        assert(parts.drop_last() =~= Seq::new(prefix.len(), |i: int| spec_level_bytes(prefix[i])));
        assert(spec_level_well_formed(levels[levels.len() - 1]));
        lemma_level_roundtrip(levels.last());
        assert(prefix.push(levels.last()) =~= levels);
    } else {
        assert(levels =~= Seq::<TopicLevelView>::empty());
    }
}

/// Parsing the encoding of a well-formed filter gives back its levels and
/// its flag, whatever follows.
pub proof fn lemma_topic_filter_roundtrip(levels: Seq<TopicLevelView>, server_reserved: bool, rest: Seq<u8>)
    requires
        spec_filter_well_formed(levels, server_reserved),
    ensures
        spec_parse_topic_filter(spec_encode_topic_filter(levels) + rest)
            == Ok::<(Seq<TopicLevelView>, bool, nat), Error>((levels, server_reserved, spec_encode_topic_filter(levels).len())),
{
    let parts = Seq::new(levels.len(), |i: int| spec_level_bytes(levels[i]));
    lemma_encoded_string_roundtrip(spec_filter_text(levels), rest);
    assert(parts_free_of(parts, FORWARD_SLASH)) by {
        assert forall|i: int| 0 <= i < parts.len() implies free_of(#[trigger] parts[i], FORWARD_SLASH) by {
            assert(spec_level_well_formed(levels[i]) && free_of(spec_level_bytes(levels[i]), FORWARD_SLASH));
        }
    }
    lemma_split_join(parts, FORWARD_SLASH);
    lemma_parse_levels_of_bytes(levels);
}

impl View for TopicFilter {
    type V = (Seq<TopicLevelView>, bool);

    closed spec fn view(&self) -> (Seq<TopicLevelView>, bool) {
        (level_views(self.levels@), self.server_reserved)
    }
}

impl TopicFilter {
    pub fn new(levels: Vec<TopicLevel>, server_reserved: bool) -> (f: TopicFilter)
        ensures
            f@ == (level_views(levels@), server_reserved),
    {
        TopicFilter { levels, server_reserved }
    }

    /// The levels, in order.
    pub fn levels(&self) -> (l: &Vec<TopicLevel>)
        ensures
            level_views(l@) == self@.0,
    {
        &self.levels
    }

    /// Whether the filter is reserved for the server.
    pub fn server_reserved(&self) -> (b: bool)
        ensures
            b == self@.1,
    {
        self.server_reserved
    }

    /// Reads a topic filter off the front of the stream: its levels are the
    /// parts of the string between slashes; it is reserved for the server
    /// when it begins with `$`. On success its bytes are consumed.
    #[verifier::loop_isolation(false)]
    pub fn from_bytes(stream: &mut ByteReader) -> (res: Result<TopicFilter, Error>)
        ensures
            match spec_parse_topic_filter(old(stream)@) {
                Ok((levels, reserved, n)) => res matches Ok(f) && f@ == (levels, reserved)
                    && final(stream)@ == old(stream)@.skip(n as int),
                Err(e) => res == Err::<TopicFilter, Error>(e),
            },
    {
        let string = EncodedString::from_bytes(stream)?;
        let content = string.content();
        let server_reserved = content.len() > 0 && content[0] == SERVER_RESERVED;
        let parts = split_bytes(content, FORWARD_SLASH);
        let ghost all = byte_parts(parts@);
        let mut levels: Vec<TopicLevel> = Vec::new();
        let mut i: usize = 0;
        assert(all.take(0) =~= Seq::<Seq<u8>>::empty());
        assert(level_views(levels@) =~= Seq::<TopicLevelView>::empty());
        while i < parts.len()
            invariant
                all == byte_parts(parts@),
                i <= parts@.len(),
                spec_parse_levels(all.take(i as int)) == Ok::<Seq<TopicLevelView>, Error>(level_views(levels@)),
            decreases parts.len() - i,
        {
            assert(all.take(i + 1).drop_last() =~= all.take(i as int));
            assert(all.take(i + 1).last() == parts@[i as int]@);
            match TopicLevel::from_bytes(parts[i].clone()) {
                Ok(level) => {
                    let ghost before = levels@;
                    levels.push(level);
                    assert(level_views(levels@) =~= level_views(before).push(level@));
                },
                Err(e) => {
                    proof { lemma_parse_levels_prefix_error(all, (i + 1) as nat); }
                    return Err(e);
                },
            }
            i = i + 1;
        }
        assert(all.take(i as int) =~= all);
        Ok(TopicFilter { levels, server_reserved })
    }

    /// The levels with `/` between them, as a length-prefixed string.
    pub fn to_bytes(&self) -> (bytes: Vec<u8>)
        requires
            spec_filter_text(self@.0).len() <= MAX_ENCODED_STRING_LENGTH,
        ensures
            bytes@ == spec_encode_topic_filter(self@.0),
    {
        let mut parts: Vec<Vec<u8>> = Vec::new();
        let mut i: usize = 0;
        while i < self.levels.len()
            invariant
                i <= self.levels@.len(),
                parts@.len() == i,
                forall|k: int| 0 <= k < i ==> (#[trigger] parts@[k])@ == spec_level_bytes(self.levels@[k]@),
            decreases self.levels.len() - i,
        {
            let level_bytes = self.levels[i].to_bytes();
            assert(level_bytes@ == spec_level_bytes(self.levels@[i as int]@));
            parts.push(level_bytes);
            i = i + 1;
        }
        assert(byte_parts(parts@) =~= Seq::new(self@.0.len(), |k: int| spec_level_bytes(self@.0[k])));
        let text = join_bytes(&parts, FORWARD_SLASH);
        EncodedString::new(text).to_bytes()
    }
}

} // verus!
