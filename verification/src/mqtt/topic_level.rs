use vstd::prelude::*;

use crate::error::Error;

verus! {

/// The character of the single-level wildcard.
pub const SINGLE_LEVEL_WILDCARD: u8 = 0x2B;

/// The character of the multi-level wildcard.
pub const MULTI_LEVEL_WILDCARD: u8 = 0x23;

/// One level of a topic filter: a literal name, or a wildcard that matches
/// one level (`+`) or every remaining level (`#`).
#[derive(Debug, Clone, PartialEq, Eq)]
pub enum TopicLevel {
    Literal(Vec<u8>),
    SingleLevelWildcard,
    MultiLevelWildcard,
}

/// A topic level as the specifications see it.
pub enum TopicLevelView {
    Literal(Seq<u8>),
    SingleLevelWildcard,
    MultiLevelWildcard,
}

/// The bytes of a level.
pub open spec fn spec_level_bytes(level: TopicLevelView) -> Seq<u8> {
    match level {
        TopicLevelView::Literal(bytes) => bytes,
        TopicLevelView::SingleLevelWildcard => seq![SINGLE_LEVEL_WILDCARD],
        TopicLevelView::MultiLevelWildcard => seq![MULTI_LEVEL_WILDCARD],
    }
}

/// Whether a wildcard character occurs in the bytes.
pub open spec fn holds_wildcard(bytes: Seq<u8>) -> bool {
    exists|i: int| 0 <= i < bytes.len() && (bytes[i] == SINGLE_LEVEL_WILDCARD || bytes[i] == MULTI_LEVEL_WILDCARD)
}

/// The level some bytes stand for: a wildcard alone is that wildcard, bytes
/// with no wildcard are a literal, and a wildcard beside other bytes is an
/// error.
pub open spec fn spec_parse_level(bytes: Seq<u8>) -> Result<TopicLevelView, Error> {
    if bytes == seq![SINGLE_LEVEL_WILDCARD] {
        Ok(TopicLevelView::SingleLevelWildcard)
    } else if bytes == seq![MULTI_LEVEL_WILDCARD] {
        Ok(TopicLevelView::MultiLevelWildcard)
    } else if holds_wildcard(bytes) {
        Err(Error::InvalidTopicLevel)
    } else {
        Ok(TopicLevelView::Literal(bytes))
    }
}

/// A level that survives its bytes: a wildcard, or a literal with no
/// wildcard character.
pub open spec fn spec_level_well_formed(level: TopicLevelView) -> bool {
    level matches TopicLevelView::Literal(bytes) ==> !holds_wildcard(bytes)
}

/// Every well-formed level survives its bytes.
pub proof fn lemma_level_roundtrip(level: TopicLevelView)
    requires
        spec_level_well_formed(level),
    ensures
        spec_parse_level(spec_level_bytes(level)) == Ok::<TopicLevelView, Error>(level),
{
    assert(seq![MULTI_LEVEL_WILDCARD] != seq![SINGLE_LEVEL_WILDCARD]) by {
        assert(seq![MULTI_LEVEL_WILDCARD][0] != seq![SINGLE_LEVEL_WILDCARD][0]);
    }
    if let TopicLevelView::Literal(bytes) = level {
        if bytes == seq![SINGLE_LEVEL_WILDCARD] {
            assert(bytes[0] == SINGLE_LEVEL_WILDCARD);
        }
        if bytes == seq![MULTI_LEVEL_WILDCARD] {
            assert(bytes[0] == MULTI_LEVEL_WILDCARD);
        }
    }
}

impl View for TopicLevel {
    type V = TopicLevelView;

    open spec fn view(&self) -> TopicLevelView {
        match self {
            TopicLevel::Literal(bytes) => TopicLevelView::Literal(bytes@),
            TopicLevel::SingleLevelWildcard => TopicLevelView::SingleLevelWildcard,
            TopicLevel::MultiLevelWildcard => TopicLevelView::MultiLevelWildcard,
        }
    }
}

impl TopicLevel {
    /// The level's bytes.
    pub fn to_bytes(&self) -> (bytes: Vec<u8>)
        ensures
            bytes@ == spec_level_bytes(self@),
    {
        match self {
            TopicLevel::Literal(bytes) => bytes.clone(),
            TopicLevel::SingleLevelWildcard => {
                let v = vec![SINGLE_LEVEL_WILDCARD];
                assert(v@ =~= seq![SINGLE_LEVEL_WILDCARD]);
                v
            },
            TopicLevel::MultiLevelWildcard => {
                let v = vec![MULTI_LEVEL_WILDCARD];
                assert(v@ =~= seq![MULTI_LEVEL_WILDCARD]);
                v
            },
        }
    }

    /// The level some bytes stand for.
    pub fn from_bytes(bytes: Vec<u8>) -> (res: Result<TopicLevel, Error>)
        ensures
            match spec_parse_level(bytes@) {
                Ok(level) => res matches Ok(l) && l@ == level,
                Err(e) => res == Err::<TopicLevel, Error>(e),
            },
    {
        if bytes.len() == 1 && bytes[0] == SINGLE_LEVEL_WILDCARD {
            assert(bytes@ =~= seq![SINGLE_LEVEL_WILDCARD]);
            return Ok(TopicLevel::SingleLevelWildcard);
        }
        if bytes.len() == 1 && bytes[0] == MULTI_LEVEL_WILDCARD {
            assert(bytes@ =~= seq![MULTI_LEVEL_WILDCARD]);
            return Ok(TopicLevel::MultiLevelWildcard);
        }
        assert(bytes@ != seq![SINGLE_LEVEL_WILDCARD]) by {
            if bytes@ == seq![SINGLE_LEVEL_WILDCARD] {
                assert(bytes@.len() == 1 && bytes@[0] == SINGLE_LEVEL_WILDCARD);
            }
        }
        assert(bytes@ != seq![MULTI_LEVEL_WILDCARD]) by {
            if bytes@ == seq![MULTI_LEVEL_WILDCARD] {
                assert(bytes@.len() == 1 && bytes@[0] == MULTI_LEVEL_WILDCARD);
            }
        }
        let mut i: usize = 0;
        while i < bytes.len()
            invariant
                i <= bytes@.len(),
                bytes@ != seq![SINGLE_LEVEL_WILDCARD],
                bytes@ != seq![MULTI_LEVEL_WILDCARD],
                forall|j: int| 0 <= j < i ==> bytes@[j] != SINGLE_LEVEL_WILDCARD && bytes@[j] != MULTI_LEVEL_WILDCARD,
            decreases bytes.len() - i,
        {
            if bytes[i] == SINGLE_LEVEL_WILDCARD || bytes[i] == MULTI_LEVEL_WILDCARD {
                assert(holds_wildcard(bytes@)) by {
                    assert(bytes@[i as int] == SINGLE_LEVEL_WILDCARD || bytes@[i as int] == MULTI_LEVEL_WILDCARD);
                }
                return Err(Error::InvalidTopicLevel);
            }
            i = i + 1;
        }
        Ok(TopicLevel::Literal(bytes))
    }
}

} // verus!
