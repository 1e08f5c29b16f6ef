use sauron::byte_reader::ByteReader;
use sauron::error::Error;
use sauron::mqtt::encoded_string::EncodedString;
use sauron::mqtt::fixed_header::FixedHeader;
use sauron::mqtt::qos::QoS;
use sauron::mqtt::remaining_length::RemainingLength;
use sauron::mqtt::suback_return_code::SubackReturnCode;
use sauron::mqtt::topic_name::TopicName;
use sauron::mqtt::will::Will;

fn from_slice(bytes: &[u8]) -> ByteReader {
    let encoded_string = EncodedString::new(bytes.to_vec());
    ByteReader::new(encoded_string.to_bytes())
}

#[test]
fn test_qos_to_byte() {
    assert_eq!(QoS::AtMost.to_byte(), 0x00);
    assert_eq!(QoS::AtLeast.to_byte(), 0x01);
    assert_eq!(QoS::Exactly.to_byte(), 0x02);
}

#[test]
fn test_qos_from_byte() {
    assert_eq!(QoS::from_byte(0x00).unwrap(), QoS::AtMost);
    assert_eq!(QoS::from_byte(0x01).unwrap(), QoS::AtLeast);
    assert_eq!(QoS::from_byte(0x02).unwrap(), QoS::Exactly);
}

#[test]
fn qos_from_invalid_byte_is_an_error() {
    assert_eq!(QoS::from_byte(0x03), Err(Error::InvalidQoS(0x03)));
    assert_eq!(QoS::from_byte(0xFF), Err(Error::InvalidQoS(0xFF)));
}

#[test]
fn qos_byte_roundtrip() {
    for qos in [QoS::AtMost, QoS::AtLeast, QoS::Exactly] {
        assert_eq!(QoS::from_byte(qos.to_byte()).unwrap(), qos);
    }
}

#[test]
fn suback_return_code_bytes() {
    assert_eq!(SubackReturnCode::Failure.to_byte(), 0x80);
    assert_eq!(SubackReturnCode::from_byte(0x80).unwrap(), SubackReturnCode::Failure);
    assert_eq!(SubackReturnCode::from_byte(0x03), Err(Error::InvalidSubackReturnCode(0x03)));
    for code in [
        SubackReturnCode::SuccessMaximumQoS0,
        SubackReturnCode::SuccessMaximumQoS1,
        SubackReturnCode::SuccessMaximumQoS2,
        SubackReturnCode::Failure,
    ] {
        assert_eq!(SubackReturnCode::from_byte(code.to_byte()).unwrap(), code);
    }
}

#[test]
fn test_will_to_bytes() {
    let qos = QoS::AtLeast;
    let retain = true;
    let topic_bytes = &mut from_slice(b"home/livingroom");
    let topic = TopicName::from_bytes(topic_bytes).unwrap();
    let message = EncodedString::from_string(&"message".to_string());
    let will = Will::new(qos, retain, topic, message);

    let bytes = will.to_bytes();

    assert_eq!(
        bytes,
        vec![0, 15, b'h', b'o', b'm', b'e', b'/', b'l', b'i', b'v', b'i', b'n', b'g', b'r', b'o', b'o', b'm', 0, 7, b'm', b'e', b's', b's', b'a', b'g', b'e']
    );
}

#[test]
fn will_roundtrip_through_bytes() {
    let topic = TopicName::new(vec![b"home".to_vec(), b"kitchen".to_vec()], false);
    let message = EncodedString::new(b"gone".to_vec());
    let will = Will::new(QoS::Exactly, false, topic, message);
    let mut stream = ByteReader::new(will.to_bytes());
    let read = Will::from_bytes(&mut stream, QoS::Exactly, false).unwrap();
    assert_eq!(read, will);
    assert_eq!(stream.remaining(), 0);
}

#[test]
fn topic_name_levels_and_reserved_flag() {
    let mut stream = from_slice(b"$SYS/broker/load");
    let topic = TopicName::from_bytes(&mut stream).unwrap();
    assert_eq!(topic.levels(), &vec![b"$SYS".to_vec(), b"broker".to_vec(), b"load".to_vec()]);
    assert!(topic.server_reserved());
    let mut stream = from_slice(b"a//b");
    let topic = TopicName::from_bytes(&mut stream).unwrap();
    assert_eq!(topic.levels(), &vec![b"a".to_vec(), vec![], b"b".to_vec()]);
    assert!(!topic.server_reserved());
}

#[test]
fn encoded_string_reading() {
    let mut stream = ByteReader::new(vec![0, 3, b'a', b'b', b'c', 9]);
    let s = EncodedString::from_bytes(&mut stream).unwrap();
    assert_eq!(s.content(), &b"abc".to_vec());
    assert_eq!(stream.remaining(), 1);
    let mut short = ByteReader::new(vec![0, 4, b'a']);
    assert_eq!(EncodedString::from_bytes(&mut short), Err(Error::UnexpectedEof));
    let mut empty = ByteReader::new(vec![0]);
    assert_eq!(EncodedString::from_bytes(&mut empty), Err(Error::UnexpectedEof));
}

#[test]
fn remaining_length_encodings() {
    assert_eq!(RemainingLength::new(0).to_bytes(), vec![0x00]);
    assert_eq!(RemainingLength::new(127).to_bytes(), vec![0x7F]);
    assert_eq!(RemainingLength::new(128).to_bytes(), vec![0x80, 0x01]);
    assert_eq!(RemainingLength::new(16_383).to_bytes(), vec![0xFF, 0x7F]);
    assert_eq!(RemainingLength::new(16_384).to_bytes(), vec![0x80, 0x80, 0x01]);
    assert_eq!(RemainingLength::new(268_435_455).to_bytes(), vec![0xFF, 0xFF, 0xFF, 0x7F]);
}

#[test]
fn remaining_length_roundtrip_and_errors() {
    for v in [0u32, 1, 127, 128, 321, 16_383, 16_384, 2_097_151, 2_097_152, 268_435_455] {
        let mut stream = ByteReader::new(RemainingLength::new(v).to_bytes());
        assert_eq!(RemainingLength::from_bytes(&mut stream).unwrap().value(), v as usize);
        assert_eq!(stream.remaining(), 0);
    }
    let mut too_long = ByteReader::new(vec![0x80, 0x80, 0x80, 0x80, 0x01]);
    assert_eq!(RemainingLength::from_bytes(&mut too_long), Err(Error::MalformedRemainingLength));
    let mut cut = ByteReader::new(vec![0x80, 0x80]);
    assert_eq!(RemainingLength::from_bytes(&mut cut), Err(Error::UnexpectedEof));
}

#[test]
fn fixed_header_roundtrip() {
    let header = FixedHeader::new(0x90, RemainingLength::new(321));
    let bytes = header.to_bytes();
    assert_eq!(bytes, vec![0x90, 0xC1, 0x02]);
    let mut stream = ByteReader::new(bytes);
    let read = FixedHeader::from_bytes(&mut stream).unwrap();
    assert_eq!(read.first_byte(), 0x90);
    assert_eq!(read.remaining_length().value(), 321);
}

#[test]
fn string_readers_take_only_the_length_of_a_short_string() {
    let mut stream = ByteReader::new(vec![0x00, 0x05, b'a']);
    assert_eq!(EncodedString::from_bytes(&mut stream).unwrap_err(), Error::UnexpectedEof);
    assert_eq!(stream.remaining(), 1);
    let mut stream = ByteReader::new(vec![0x00]);
    assert_eq!(TopicName::from_bytes(&mut stream).unwrap_err(), Error::UnexpectedEof);
    assert_eq!(stream.remaining(), 1);
    // A will whose topic reads but whose message is short: the topic and the
    // message's length are taken.
    let mut stream = ByteReader::new(vec![0x00, 0x01, b't', 0x00, 0x03, b'm']);
    assert_eq!(Will::from_bytes(&mut stream, QoS::AtMost, false).unwrap_err(), Error::UnexpectedEof);
    assert_eq!(stream.remaining(), 1);
}
