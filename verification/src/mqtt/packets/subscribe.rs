use vstd::prelude::*;

use crate::byte_reader::ByteReader;
use crate::error::Error;
use crate::mqtt::encoded_string::MAX_ENCODED_STRING_LENGTH;
use crate::mqtt::fixed_header::{
    lemma_fixed_header_roundtrip, spec_encode_fixed_header, spec_parse_fixed_header, FixedHeader,
};
use crate::mqtt::packets::puback::{lemma_u16_bytes_roundtrip, spec_u16_bytes, spec_u16_from_bytes};
use crate::mqtt::packets::SUBSCRIBE_PACKET_TYPE;
use crate::mqtt::qos::{lemma_qos_byte_roundtrip, spec_qos_byte, spec_qos_from_byte, QoS};
use crate::mqtt::remaining_length::{RemainingLength, MAX_REMAINING_LENGTH};
use crate::mqtt::topic_filter::{
    lemma_topic_filter_roundtrip, spec_encode_topic_filter, spec_filter_text, spec_filter_well_formed,
    spec_parse_topic_filter, TopicFilter,
};
use crate::mqtt::topic_level::TopicLevelView;

verus! {

/// The flags the fixed header of a SUBSCRIBE must carry.
pub const SUBSCRIBE_FIXED_HEADER_FLAGS: u8 = 0x02;

/// A SUBSCRIBE: the filters a client wants the messages of, each with the
/// highest quality of service it accepts.
#[derive(Debug, Clone, PartialEq, Eq)]
pub struct Subscribe {
    packet_identifier: u16,
    topic_filters: Vec<(TopicFilter, QoS)>,
}

/// The views of a list of filters with their qualities of service.
pub open spec fn filter_qos_views(filters: Seq<(TopicFilter, QoS)>) -> Seq<((Seq<TopicLevelView>, bool), QoS)> {
    Seq::new(filters.len(), |i: int| (filters[i].0@, filters[i].1))
}

/// Each filter followed by its quality of service, in order.
pub open spec fn spec_subscribe_payload(filters: Seq<((Seq<TopicLevelView>, bool), QoS)>) -> Seq<u8>
    decreases filters.len(),
{
    if filters.len() == 0 {
        Seq::empty()
    } else {
        spec_subscribe_payload(filters.drop_last()) + spec_encode_topic_filter(filters.last().0.0)
            + seq![spec_qos_byte(filters.last().1)]
    }
}

/// The bytes of a SUBSCRIBE.
pub open spec fn spec_encode_subscribe(packet_identifier: u16, filters: Seq<((Seq<TopicLevelView>, bool), QoS)>) -> Seq<u8> {
    spec_encode_fixed_header(0x82, 2 + spec_subscribe_payload(filters).len())
        + spec_u16_bytes(packet_identifier) + spec_subscribe_payload(filters)
}

/// The filters and qualities of service that follow one another to the end
/// of `s`, or the error of the first that cannot be read.
pub open spec fn spec_parse_subscriptions(s: Seq<u8>) -> Result<Seq<((Seq<TopicLevelView>, bool), QoS)>, Error>
    decreases s.len(),
{
    if s.len() == 0 {
        Ok(Seq::empty())
    } else {
        match spec_parse_topic_filter(s) {
            Err(e) => Err(e),
            Ok((levels, reserved, n)) => if s.len() < n + 1 {
                Err(Error::UnexpectedEof)
            } else {
                match spec_qos_from_byte(s[n as int]) {
                    Err(e) => Err(e),
                    Ok(qos) => match spec_parse_subscriptions(s.skip((n + 1) as int)) {
                        Ok(rest) => Ok(seq![((levels, reserved), qos)] + rest),
                        Err(e) => Err(e),
                    },
                }
            },
        }
    }
}

/// Reads the content of a SUBSCRIBE whose fixed header has `first_byte` and
/// announces `remaining_length` bytes: the identifier, the filters with their
/// qualities of service, and the bytes taken.
pub open spec fn spec_parse_subscribe(first_byte: u8, remaining_length: nat, s: Seq<u8>)
    -> Result<(u16, Seq<((Seq<TopicLevelView>, bool), QoS)>, nat), Error>
{
    if first_byte % 16 != SUBSCRIBE_FIXED_HEADER_FLAGS {
        Err(Error::InvalidFixedHeaderFlags)
    } else if remaining_length < 2 {
        Err(Error::InvalidRemainingLength)
    } else if s.len() < remaining_length {
        Err(Error::UnexpectedEof)
    } else {
        match spec_parse_subscriptions(s.subrange(2, remaining_length as int)) {
            Ok(filters) => Ok((spec_u16_from_bytes(s[0], s[1]), filters, remaining_length)),
            Err(e) => Err(e),
        }
    }
}

proof fn lemma_subscribe_payload_front(filters: Seq<((Seq<TopicLevelView>, bool), QoS)>)
    requires
        filters.len() >= 1,
    ensures
        spec_subscribe_payload(filters) == spec_encode_topic_filter(filters[0].0.0) + seq![spec_qos_byte(filters[0].1)]
            + spec_subscribe_payload(filters.drop_first()),
    decreases filters.len(),
{
    if filters.len() == 1 {
        assert(filters.drop_last() =~= Seq::<((Seq<TopicLevelView>, bool), QoS)>::empty());
        assert(filters.drop_first() =~= Seq::<((Seq<TopicLevelView>, bool), QoS)>::empty());
        assert(spec_subscribe_payload(filters) =~= spec_encode_topic_filter(filters[0].0.0) + seq![spec_qos_byte(filters[0].1)]
            + spec_subscribe_payload(filters.drop_first()));
    } else {
        let front = filters.drop_last();
        lemma_subscribe_payload_front(front);
        assert(front.drop_first() =~= filters.drop_first().drop_last());
        assert(filters.drop_first().last() == filters.last());
        assert(front[0] == filters[0]);
        assert(spec_subscribe_payload(filters) =~= spec_encode_topic_filter(filters[0].0.0) + seq![spec_qos_byte(filters[0].1)]
            + spec_subscribe_payload(filters.drop_first()));
    }
}

/// Every list of well-formed filters survives its bytes.
pub proof fn lemma_subscriptions_roundtrip(filters: Seq<((Seq<TopicLevelView>, bool), QoS)>)
    requires
        forall|i: int| 0 <= i < filters.len() ==> spec_filter_well_formed(#[trigger] filters[i].0.0, filters[i].0.1),
    ensures
        spec_parse_subscriptions(spec_subscribe_payload(filters))
            == Ok::<Seq<((Seq<TopicLevelView>, bool), QoS)>, Error>(filters),
    decreases filters.len(),
{
    if filters.len() == 0 {
        assert(filters =~= Seq::<((Seq<TopicLevelView>, bool), QoS)>::empty());
    } else {
        let tail = filters.drop_first();
        assert forall|i: int| 0 <= i < tail.len() implies spec_filter_well_formed(#[trigger] tail[i].0.0, tail[i].0.1) by {
            assert(tail[i] == filters[i + 1]);
        }
        lemma_subscriptions_roundtrip(tail);
        lemma_subscribe_payload_front(filters);
        let f = filters[0];
        let encoded = spec_encode_topic_filter(f.0.0);
        let after = seq![spec_qos_byte(f.1)] + spec_subscribe_payload(tail);
        let s = spec_subscribe_payload(filters);
        assert(s =~= encoded + after);
        assert(spec_filter_well_formed(filters[0].0.0, filters[0].0.1));
        lemma_topic_filter_roundtrip(f.0.0, f.0.1, after);
        lemma_qos_byte_roundtrip(f.1, 0);
        let n = encoded.len();
        assert(s[n as int] == spec_qos_byte(f.1));
        assert(s.skip((n + 1) as int) =~= spec_subscribe_payload(tail));
        assert(seq![f] + tail =~= filters);
    }
}

/// Reading back the bytes of a SUBSCRIBE with well-formed filters gives its
/// fixed header, then its identifier and filters, whatever follows.
pub proof fn lemma_subscribe_roundtrip(
    packet_identifier: u16,
    filters: Seq<((Seq<TopicLevelView>, bool), QoS)>,
    rest: Seq<u8>,
)
    requires
        forall|i: int| 0 <= i < filters.len() ==> spec_filter_well_formed(#[trigger] filters[i].0.0, filters[i].0.1),
        2 + spec_subscribe_payload(filters).len() <= MAX_REMAINING_LENGTH,
    ensures
        ({
            let n = 2 + spec_subscribe_payload(filters).len();
            let bytes = spec_encode_subscribe(packet_identifier, filters) + rest;
            let h = spec_encode_fixed_header(0x82, n).len();
            &&& spec_parse_fixed_header(bytes) == Ok::<(u8, nat, nat), Error>((0x82, n, h))
            &&& spec_parse_subscribe(0x82, n, bytes.skip(h as int))
                == Ok::<(u16, Seq<((Seq<TopicLevelView>, bool), QoS)>, nat), Error>((packet_identifier, filters, n))
        }),
{
    let payload = spec_subscribe_payload(filters);
    let n = 2 + payload.len();
    let fh = spec_encode_fixed_header(0x82, n);
    let body = spec_u16_bytes(packet_identifier) + payload;
    let bytes = spec_encode_subscribe(packet_identifier, filters) + rest;
    assert(bytes =~= fh + (body + rest));
    lemma_fixed_header_roundtrip(0x82, n, body + rest);
    assert(bytes.skip(fh.len() as int) =~= body + rest);
    assert((body + rest).subrange(2, n as int) =~= payload);
    lemma_subscriptions_roundtrip(filters);
    lemma_u16_bytes_roundtrip(packet_identifier);
}

impl View for Subscribe {
    type V = (u16, Seq<((Seq<TopicLevelView>, bool), QoS)>);

    closed spec fn view(&self) -> (u16, Seq<((Seq<TopicLevelView>, bool), QoS)>) {
        (self.packet_identifier, filter_qos_views(self.topic_filters@))
    }
}

impl Subscribe {
    pub fn new(packet_identifier: u16, topic_filters: Vec<(TopicFilter, QoS)>) -> (s: Subscribe)
        ensures
            s@ == (packet_identifier, filter_qos_views(topic_filters@)),
    {
        Subscribe { packet_identifier, topic_filters }
    }

    /// Reads the identifier, then filters and their qualities of service to
    /// the end of the remaining length. On success those bytes are consumed.
    #[verifier::loop_isolation(false)]
    pub fn from_bytes(fixed_header: FixedHeader, stream: &mut ByteReader) -> (res: Result<Subscribe, Error>)
        ensures
            match spec_parse_subscribe(fixed_header.spec_first_byte(), fixed_header.spec_remaining_length() as nat, old(stream)@) {
                Ok((id, filters, n)) => res matches Ok(s) && s@ == (id, filters) && final(stream)@ == old(stream)@.skip(n as int),
                Err(e) => res == Err::<Subscribe, Error>(e)
                    && (if fixed_header.spec_first_byte() % 16 != SUBSCRIBE_FIXED_HEADER_FLAGS
                        || fixed_header.spec_remaining_length() < 2
                        || old(stream)@.len() < fixed_header.spec_remaining_length() {
                        final(stream)@ == old(stream)@
                    } else {
                        final(stream)@ == old(stream)@.skip(fixed_header.spec_remaining_length() as int)
                    }),
            },
    {
        if fixed_header.first_byte() % 16 != SUBSCRIBE_FIXED_HEADER_FLAGS {
            return Err(Error::InvalidFixedHeaderFlags);
        }
        let remaining_length = fixed_header.remaining_length().value();
        if remaining_length < 2 {
            return Err(Error::InvalidRemainingLength);
        }
        let ghost s0 = stream@;
        let content = stream.read_exact(remaining_length)?;
        let packet_identifier = (content[0] as u16) * 256 + (content[1] as u16);
        let body = vstd::slice::slice_to_vec(vstd::slice::slice_subrange(content.as_slice(), 2, remaining_length));
        let ghost whole = body@;
        assert(whole =~= s0.subrange(2, remaining_length as int));
        let mut payload = ByteReader::new(body);
        let mut topic_filters: Vec<(TopicFilter, QoS)> = Vec::new();
        proof {
            match spec_parse_subscriptions(whole) {
                Ok(rest) => assert(filter_qos_views(topic_filters@) + rest =~= rest),
                Err(e) => {},
            }
        }
        while payload.remaining() > 0
            invariant
                match spec_parse_subscriptions(payload@) {
                    Ok(rest) => spec_parse_subscriptions(whole) == Ok::<Seq<((Seq<TopicLevelView>, bool), QoS)>, Error>(
                        filter_qos_views(topic_filters@) + rest),
                    Err(e) => spec_parse_subscriptions(whole) == Err::<Seq<((Seq<TopicLevelView>, bool), QoS)>, Error>(e),
                },
            decreases payload@.len(),
        {
            let ghost p0 = payload@;
            let filter = TopicFilter::from_bytes(&mut payload)?;
            let qos_byte = payload.read_byte()?;
            let qos = QoS::from_byte(qos_byte)?;
            let ghost n = p0.len() - payload@.len();
            assert(payload@ =~= p0.skip(n));
            let ghost before = topic_filters@;
            topic_filters.push((filter, qos));
            assert(filter_qos_views(topic_filters@) =~= filter_qos_views(before).push((filter@, qos)));
            proof {
                match spec_parse_subscriptions(payload@) {
                    Ok(rest) => {
                        assert(filter_qos_views(before) + (seq![(filter@, qos)] + rest)
                            =~= filter_qos_views(topic_filters@) + rest);
                    },
                    Err(e) => {},
                }
            }
        }
        assert(filter_qos_views(topic_filters@) + Seq::empty() =~= filter_qos_views(topic_filters@));
        Ok(Subscribe { packet_identifier, topic_filters })
    }

    /// The fixed header, the identifier, then each filter and its quality of
    /// service.
    pub fn to_bytes(&self) -> (bytes: Vec<u8>)
        requires
            forall|i: int| 0 <= i < self@.1.len() ==> spec_filter_text(#[trigger] self@.1[i].0.0).len() <= MAX_ENCODED_STRING_LENGTH,
            2 + spec_subscribe_payload(self@.1).len() <= MAX_REMAINING_LENGTH,
        ensures
            bytes@ == spec_encode_subscribe(self@.0, self@.1),
    {
        let ghost filters = self@.1;
        let mut content: Vec<u8> = Vec::new();
        content.push((self.packet_identifier / 256) as u8);
        content.push((self.packet_identifier % 256) as u8);
        let mut i: usize = 0;
        while i < self.topic_filters.len()
            invariant
                filters == filter_qos_views(self.topic_filters@),
                i <= filters.len(),
                forall|k: int| 0 <= k < filters.len() ==> spec_filter_text(#[trigger] filters[k].0.0).len() <= MAX_ENCODED_STRING_LENGTH,
                content@ == spec_u16_bytes(self.packet_identifier) + spec_subscribe_payload(filters.take(i as int)),
            decreases self.topic_filters.len() - i,
        {
            assert(filters.take(i + 1).drop_last() =~= filters.take(i as int));
            assert(filters[i as int].0.0 == self.topic_filters@[i as int].0@.0);
            let mut filter_bytes = self.topic_filters[i].0.to_bytes();
            content.append(&mut filter_bytes);
            content.push(self.topic_filters[i].1.to_byte());
            i = i + 1;
            assert(content@ =~= spec_u16_bytes(self.packet_identifier) + spec_subscribe_payload(filters.take(i as int)));
        }
        assert(filters.take(i as int) =~= filters);
        let fixed_header = FixedHeader::new(
            SUBSCRIBE_PACKET_TYPE * 16 + SUBSCRIBE_FIXED_HEADER_FLAGS,
            RemainingLength::new(content.len() as u32),
        );
        let mut bytes = fixed_header.to_bytes();
        bytes.append(&mut content);
        assert(bytes@ =~= spec_encode_subscribe(self@.0, self@.1));
        bytes
    }

    pub fn packet_identifier(&self) -> (id: u16)
        ensures
            id == self@.0,
    {
        self.packet_identifier
    }

    pub fn topic_filters(&self) -> (f: &Vec<(TopicFilter, QoS)>)
        ensures
            filter_qos_views(f@) == self@.1,
    {
        &self.topic_filters
    }
}

} // verus!
