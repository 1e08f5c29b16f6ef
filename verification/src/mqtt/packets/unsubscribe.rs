use vstd::prelude::*;

use crate::byte_reader::ByteReader;
use crate::error::Error;
use crate::mqtt::encoded_string::MAX_ENCODED_STRING_LENGTH;
use crate::mqtt::fixed_header::{
    lemma_fixed_header_roundtrip, spec_encode_fixed_header, spec_parse_fixed_header, FixedHeader,
};
use crate::mqtt::packets::puback::{lemma_u16_bytes_roundtrip, spec_u16_bytes, spec_u16_from_bytes};
use crate::mqtt::packets::UNSUBSCRIBE_PACKET_TYPE;
use crate::mqtt::remaining_length::{RemainingLength, MAX_REMAINING_LENGTH};
use crate::mqtt::topic_filter::{
    lemma_topic_filter_roundtrip, spec_encode_topic_filter, spec_filter_text, spec_filter_well_formed,
    spec_parse_topic_filter, TopicFilter,
};
use crate::mqtt::topic_level::TopicLevelView;

verus! {

/// The flags the fixed header of an UNSUBSCRIBE must carry.
pub const UNSUBSCRIBE_FIXED_HEADER_FLAGS: u8 = 0x02;

/// An UNSUBSCRIBE: the filters a client no longer wants the messages of.
#[derive(Debug, Clone, PartialEq, Eq)]
pub struct Unsubscribe {
    packet_identifier: u16,
    topic_filters: Vec<TopicFilter>,
}

/// The views of a list of filters.
pub open spec fn filter_views(filters: Seq<TopicFilter>) -> Seq<(Seq<TopicLevelView>, bool)> {
    Seq::new(filters.len(), |i: int| filters[i]@)
}

/// Each filter, in order.
pub open spec fn spec_unsubscribe_payload(filters: Seq<(Seq<TopicLevelView>, bool)>) -> Seq<u8>
    decreases filters.len(),
{
    if filters.len() == 0 {
        Seq::empty()
    } else {
        spec_unsubscribe_payload(filters.drop_last()) + spec_encode_topic_filter(filters.last().0)
    }
}

/// The bytes of an UNSUBSCRIBE.
pub open spec fn spec_encode_unsubscribe(packet_identifier: u16, filters: Seq<(Seq<TopicLevelView>, bool)>) -> Seq<u8> {
    spec_encode_fixed_header(0xA2, 2 + spec_unsubscribe_payload(filters).len())
        + spec_u16_bytes(packet_identifier) + spec_unsubscribe_payload(filters)
}

/// The filters that follow one another to the end of `s`, or the error of
/// the first that cannot be read.
pub open spec fn spec_parse_unsubscriptions(s: Seq<u8>) -> Result<Seq<(Seq<TopicLevelView>, bool)>, Error>
    decreases s.len(),
{
    if s.len() == 0 {
        Ok(Seq::empty())
    } else {
        match spec_parse_topic_filter(s) {
            Err(e) => Err(e),
            Ok((levels, reserved, n)) => match spec_parse_unsubscriptions(s.skip(n as int)) {
                Ok(rest) => Ok(seq![(levels, reserved)] + rest),
                Err(e) => Err(e),
            },
        }
    }
}

/// Reads the content of an UNSUBSCRIBE whose fixed header has `first_byte`
/// and announces `remaining_length` bytes: the identifier, the filters, and
/// the bytes taken.
pub open spec fn spec_parse_unsubscribe(first_byte: u8, remaining_length: nat, s: Seq<u8>)
    -> Result<(u16, Seq<(Seq<TopicLevelView>, bool)>, nat), Error>
{
    if first_byte % 16 != UNSUBSCRIBE_FIXED_HEADER_FLAGS {
        Err(Error::InvalidFixedHeaderFlags)
    } else if remaining_length < 2 {
        Err(Error::InvalidRemainingLength)
    } else if s.len() < remaining_length {
        Err(Error::UnexpectedEof)
    } else {
        match spec_parse_unsubscriptions(s.subrange(2, remaining_length as int)) {
            Ok(filters) => Ok((spec_u16_from_bytes(s[0], s[1]), filters, remaining_length)),
            Err(e) => Err(e),
        }
    }
}

proof fn lemma_unsubscribe_payload_front(filters: Seq<(Seq<TopicLevelView>, bool)>)
    requires
        filters.len() >= 1,
    ensures
        spec_unsubscribe_payload(filters) == spec_encode_topic_filter(filters[0].0)
            + spec_unsubscribe_payload(filters.drop_first()),
    decreases filters.len(),
{
    if filters.len() == 1 {
        assert(filters.drop_last() =~= Seq::<(Seq<TopicLevelView>, bool)>::empty());
        assert(filters.drop_first() =~= Seq::<(Seq<TopicLevelView>, bool)>::empty());
        assert(spec_unsubscribe_payload(filters) =~= spec_encode_topic_filter(filters[0].0)
            + spec_unsubscribe_payload(filters.drop_first()));
    } else {
        let front = filters.drop_last();
        lemma_unsubscribe_payload_front(front);
        assert(front.drop_first() =~= filters.drop_first().drop_last());
        assert(filters.drop_first().last() == filters.last());
        assert(front[0] == filters[0]);
        assert(spec_unsubscribe_payload(filters) =~= spec_encode_topic_filter(filters[0].0)
            + spec_unsubscribe_payload(filters.drop_first()));
    }
}

/// Every list of well-formed filters survives its bytes.
pub proof fn lemma_unsubscriptions_roundtrip(filters: Seq<(Seq<TopicLevelView>, bool)>)
    requires
        forall|i: int| 0 <= i < filters.len() ==> spec_filter_well_formed(#[trigger] filters[i].0, filters[i].1),
    ensures
        spec_parse_unsubscriptions(spec_unsubscribe_payload(filters))
            == Ok::<Seq<(Seq<TopicLevelView>, bool)>, Error>(filters),
    decreases filters.len(),
{
    if filters.len() == 0 {
        assert(filters =~= Seq::<(Seq<TopicLevelView>, bool)>::empty());
    } else {
        let tail = filters.drop_first();
        assert forall|i: int| 0 <= i < tail.len() implies spec_filter_well_formed(#[trigger] tail[i].0, tail[i].1) by {
            assert(tail[i] == filters[i + 1]);
        }
        lemma_unsubscriptions_roundtrip(tail);
        lemma_unsubscribe_payload_front(filters);
        let f = filters[0];
        let encoded = spec_encode_topic_filter(f.0);
        let s = spec_unsubscribe_payload(filters);
        assert(s =~= encoded + spec_unsubscribe_payload(tail));
        assert(spec_filter_well_formed(filters[0].0, filters[0].1));
        lemma_topic_filter_roundtrip(f.0, f.1, spec_unsubscribe_payload(tail));
        assert(s.skip(encoded.len() as int) =~= spec_unsubscribe_payload(tail));
        assert(seq![f] + tail =~= filters);
    }
}

/// Reading back the bytes of an UNSUBSCRIBE with well-formed filters gives
/// its fixed header, then its identifier and filters, whatever follows.
pub proof fn lemma_unsubscribe_roundtrip(packet_identifier: u16, filters: Seq<(Seq<TopicLevelView>, bool)>, rest: Seq<u8>)
    requires
        forall|i: int| 0 <= i < filters.len() ==> spec_filter_well_formed(#[trigger] filters[i].0, filters[i].1),
        2 + spec_unsubscribe_payload(filters).len() <= MAX_REMAINING_LENGTH,
    ensures
        ({
            let n = 2 + spec_unsubscribe_payload(filters).len();
            let bytes = spec_encode_unsubscribe(packet_identifier, filters) + rest;
            let h = spec_encode_fixed_header(0xA2, n).len();
            &&& spec_parse_fixed_header(bytes) == Ok::<(u8, nat, nat), Error>((0xA2, n, h))
            &&& spec_parse_unsubscribe(0xA2, n, bytes.skip(h as int))
                == Ok::<(u16, Seq<(Seq<TopicLevelView>, bool)>, nat), Error>((packet_identifier, filters, n))
        }),
{
    let payload = spec_unsubscribe_payload(filters);
    let n = 2 + payload.len();
    let fh = spec_encode_fixed_header(0xA2, n);
    let body = spec_u16_bytes(packet_identifier) + payload;
    let bytes = spec_encode_unsubscribe(packet_identifier, filters) + rest;
    assert(bytes =~= fh + (body + rest));
    lemma_fixed_header_roundtrip(0xA2, n, body + rest);
    assert(bytes.skip(fh.len() as int) =~= body + rest);
    assert((body + rest).subrange(2, n as int) =~= payload);
    lemma_unsubscriptions_roundtrip(filters);
    lemma_u16_bytes_roundtrip(packet_identifier);
}

impl View for Unsubscribe {
    type V = (u16, Seq<(Seq<TopicLevelView>, bool)>);

    closed spec fn view(&self) -> (u16, Seq<(Seq<TopicLevelView>, bool)>) {
        (self.packet_identifier, filter_views(self.topic_filters@))
    }
}

impl Unsubscribe {
    pub fn new(packet_identifier: u16, topic_filters: Vec<TopicFilter>) -> (u: Unsubscribe)
        ensures
            u@ == (packet_identifier, filter_views(topic_filters@)),
    {
        Unsubscribe { packet_identifier, topic_filters }
    }

    /// Reads the identifier, then filters to the end of the remaining length.
    /// On success those bytes are consumed.
    #[verifier::loop_isolation(false)]
    pub fn from_bytes(fixed_header: FixedHeader, stream: &mut ByteReader) -> (res: Result<Unsubscribe, Error>)
        ensures
            match spec_parse_unsubscribe(fixed_header.spec_first_byte(), fixed_header.spec_remaining_length() as nat, old(stream)@) {
                Ok((id, filters, n)) => res matches Ok(u) && u@ == (id, filters) && final(stream)@ == old(stream)@.skip(n as int),
                Err(e) => res == Err::<Unsubscribe, Error>(e)
                    && (if fixed_header.spec_first_byte() % 16 != UNSUBSCRIBE_FIXED_HEADER_FLAGS
                        || fixed_header.spec_remaining_length() < 2
                        || old(stream)@.len() < fixed_header.spec_remaining_length() {
                        final(stream)@ == old(stream)@
                    } else {
                        final(stream)@ == old(stream)@.skip(fixed_header.spec_remaining_length() as int)
                    }),
            },
    {
        if fixed_header.first_byte() % 16 != UNSUBSCRIBE_FIXED_HEADER_FLAGS {
            return Err(Error::InvalidFixedHeaderFlags);
        }
        let remaining_length = fixed_header.remaining_length().value();
        if remaining_length < 2 {
            return Err(Error::InvalidRemainingLength);
        }
        let ghost s0 = stream@;
        let content = stream.read_exact(remaining_length)?;
        let packet_identifier = (content[0] as u16) * 256 + (content[1] as u16);
        let body = vstd::slice::slice_to_vec(vstd::slice::slice_subrange(content.as_slice(), 2, remaining_length));
        let ghost whole = body@;
        assert(whole =~= s0.subrange(2, remaining_length as int));
        let mut payload = ByteReader::new(body);
        let mut topic_filters: Vec<TopicFilter> = Vec::new();
        proof {
            match spec_parse_unsubscriptions(whole) {
                Ok(rest) => assert(filter_views(topic_filters@) + rest =~= rest),
                Err(e) => {},
            }
        }
        while payload.remaining() > 0
            invariant
                match spec_parse_unsubscriptions(payload@) {
                    Ok(rest) => spec_parse_unsubscriptions(whole) == Ok::<Seq<(Seq<TopicLevelView>, bool)>, Error>(
                        filter_views(topic_filters@) + rest),
                    Err(e) => spec_parse_unsubscriptions(whole) == Err::<Seq<(Seq<TopicLevelView>, bool)>, Error>(e),
                },
            decreases payload@.len(),
        {
            let ghost p0 = payload@;
            let filter = TopicFilter::from_bytes(&mut payload)?;
            let ghost before = topic_filters@;
            topic_filters.push(filter);
            assert(filter_views(topic_filters@) =~= filter_views(before).push(topic_filters@.last()@));
            proof {
                match spec_parse_unsubscriptions(payload@) {
                    Ok(rest) => {
                        assert(filter_views(before) + (seq![topic_filters@.last()@] + rest)
                            =~= filter_views(topic_filters@) + rest);
                    },
                    Err(e) => {},
                }
            }
        }
        assert(filter_views(topic_filters@) + Seq::empty() =~= filter_views(topic_filters@));
        Ok(Unsubscribe { packet_identifier, topic_filters })
    }

    /// The fixed header, the identifier, then each filter.
    pub fn to_bytes(&self) -> (bytes: Vec<u8>)
        requires
            forall|i: int| 0 <= i < self@.1.len() ==> spec_filter_text(#[trigger] self@.1[i].0).len() <= MAX_ENCODED_STRING_LENGTH,
            2 + spec_unsubscribe_payload(self@.1).len() <= MAX_REMAINING_LENGTH,
        ensures
            bytes@ == spec_encode_unsubscribe(self@.0, self@.1),
    {
        let ghost filters = self@.1;
        let mut content: Vec<u8> = Vec::new();
        content.push((self.packet_identifier / 256) as u8);
        content.push((self.packet_identifier % 256) as u8);
        let mut i: usize = 0;
        while i < self.topic_filters.len()
            invariant
                filters == filter_views(self.topic_filters@),
                i <= filters.len(),
                forall|k: int| 0 <= k < filters.len() ==> spec_filter_text(#[trigger] filters[k].0).len() <= MAX_ENCODED_STRING_LENGTH,
                content@ == spec_u16_bytes(self.packet_identifier) + spec_unsubscribe_payload(filters.take(i as int)),
            decreases self.topic_filters.len() - i,
        {
            assert(filters.take(i + 1).drop_last() =~= filters.take(i as int));
            assert(filters[i as int] == self.topic_filters@[i as int]@);
            let mut filter_bytes = self.topic_filters[i].to_bytes();
            content.append(&mut filter_bytes);
            i = i + 1;
            assert(content@ =~= spec_u16_bytes(self.packet_identifier) + spec_unsubscribe_payload(filters.take(i as int)));
        }
        assert(filters.take(i as int) =~= filters);
        let fixed_header = FixedHeader::new(
            UNSUBSCRIBE_PACKET_TYPE * 16 + UNSUBSCRIBE_FIXED_HEADER_FLAGS,
            RemainingLength::new(content.len() as u32),
        );
        let mut bytes = fixed_header.to_bytes();
        bytes.append(&mut content);
        assert(bytes@ =~= spec_encode_unsubscribe(self@.0, self@.1));
        bytes
    }

    pub fn packet_identifier(&self) -> (id: u16)
        ensures
            id == self@.0,
    {
        self.packet_identifier
    }

    pub fn topic_filters(&self) -> (f: &Vec<TopicFilter>)
        ensures
            filter_views(f@) == self@.1,
    {
        &self.topic_filters
    }
}

} // verus!
