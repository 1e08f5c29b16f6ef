use sauron::byte_reader::ByteReader;
use sauron::error::Error;
use sauron::mqtt::connect_return_code::ConnectReturnCode;
use sauron::mqtt::encoded_string::EncodedString;
use sauron::mqtt::login::Login;
use sauron::mqtt::packet::Packet;
use sauron::mqtt::packets::connack::Connack;
use sauron::mqtt::packets::connect::Connect;
use sauron::mqtt::packets::disconnect::Disconnect;
use sauron::mqtt::packets::subscribe::Subscribe;
use sauron::mqtt::packets::unsuback::Unsuback;
use sauron::mqtt::packets::unsubscribe::Unsubscribe;
use sauron::mqtt::qos::QoS;
use sauron::mqtt::topic_filter::TopicFilter;
use sauron::mqtt::topic_level::TopicLevel;
use sauron::mqtt::topic_name::TopicName;
use sauron::mqtt::will::Will;

const KEY: &[u8; 32] = &[0; 32];

fn text(s: &str) -> EncodedString {
    EncodedString::new(s.as_bytes().to_vec())
}

#[test]
fn connect_without_will_or_login() {
    let connect = Connect::new(false, 0, text("monitor"), None, None);
    let mut expected = vec![0x10, 19, 0, 4, b'M', b'Q', b'T', b'T', 4, 0x00, 0, 0, 0, 7];
    expected.extend_from_slice(b"monitor");
    assert_eq!(connect.to_bytes(), expected);
}

#[test]
fn connect_with_will_and_login() {
    let will = Will::new(QoS::AtLeast, true, TopicName::new(vec![b"w".to_vec()], false), text("bye"));
    let login = Login::new(text("u"), Some(text("p")));
    let connect = Connect::new(true, 60, text("c"), Some(will), Some(login));
    let bytes = connect.to_bytes();
    assert_eq!(bytes[0], 0x10);
    assert_eq!(bytes[9], 0b1110_1110);
    assert_eq!(&bytes[10..12], &[0, 60]);
    assert_eq!(
        &bytes[12..],
        &[0, 1, b'c', 0, 1, b'w', 0, 3, b'b', b'y', b'e', 0, 1, b'u', 0, 1, b'p']
    );
    assert_eq!(bytes[1] as usize, bytes.len() - 2);
}

#[test]
fn connect_with_user_name_only() {
    let login = Login::new(text("u"), None);
    let bytes = Connect::new(false, 5, text("c"), None, Some(login)).to_bytes();
    assert_eq!(bytes[9], 0b1000_0000);
}

#[test]
fn connack_reads_back() {
    let connack = Connack::new(true, ConnectReturnCode::NotAuthorized);
    assert_eq!(connack.to_bytes(), vec![0x20, 2, 1, 5]);
    let mut stream = ByteReader::new(connack.to_bytes());
    match Packet::from_bytes(&mut stream).unwrap() {
        Packet::Connack(read) => {
            assert!(read.session_present());
            assert_eq!(read.connect_return_code(), &ConnectReturnCode::NotAuthorized);
        }
        other => panic!("unexpected {:?}", other),
    }
}

#[test]
fn connack_errors() {
    let mut stream = ByteReader::new(vec![0x20, 2, 2, 0]);
    assert_eq!(Packet::from_bytes(&mut stream).unwrap_err(), Error::InvalidAcknowledgeFlags);
    let mut stream = ByteReader::new(vec![0x20, 2, 0, 6]);
    assert_eq!(Packet::from_bytes(&mut stream).unwrap_err(), Error::InvalidConnectReturnCode(6));
    let mut stream = ByteReader::new(vec![0x21, 2, 0, 0]);
    assert_eq!(Packet::from_bytes(&mut stream).unwrap_err(), Error::InvalidFixedHeaderFlags);
    let mut stream = ByteReader::new(vec![0x20, 3, 0, 0, 0]);
    assert_eq!(Packet::from_bytes(&mut stream).unwrap_err(), Error::InvalidRemainingLength);
}

#[test]
fn return_codes_round_trip() {
    for b in 0u8..=5 {
        assert_eq!(ConnectReturnCode::from_byte(b).unwrap().to_byte(), b);
    }
    assert_eq!(ConnectReturnCode::from_byte(9), Err(Error::InvalidConnectReturnCode(9)));
}

#[test]
fn unsuback_and_disconnect_read_back() {
    let mut stream = ByteReader::new(Unsuback::new(300).to_bytes());
    match Packet::from_bytes(&mut stream).unwrap() {
        Packet::Unsuback(read) => assert_eq!(read.packet_identifier(), 300),
        other => panic!("unexpected {:?}", other),
    }
    assert_eq!(Disconnect::new().to_bytes(), vec![0xE0, 0]);
    let mut stream = ByteReader::new(vec![0xE0, 0]);
    assert!(matches!(Packet::from_bytes(&mut stream).unwrap(), Packet::Disconnect(_)));
}

#[test]
fn topic_levels() {
    assert_eq!(TopicLevel::from_bytes(b"+".to_vec()), Ok(TopicLevel::SingleLevelWildcard));
    assert_eq!(TopicLevel::from_bytes(b"#".to_vec()), Ok(TopicLevel::MultiLevelWildcard));
    assert_eq!(TopicLevel::from_bytes(b"abc".to_vec()), Ok(TopicLevel::Literal(b"abc".to_vec())));
    assert_eq!(TopicLevel::from_bytes(b"a+".to_vec()), Err(Error::InvalidTopicLevel));
    assert_eq!(TopicLevel::SingleLevelWildcard.to_bytes(), b"+".to_vec());
}

#[test]
fn subscribe_and_unsubscribe_bytes() {
    let filter = TopicFilter::new(
        vec![TopicLevel::Literal(b"close-incident".to_vec()), TopicLevel::SingleLevelWildcard],
        false,
    );
    let subscribe = Subscribe::new(1, vec![(filter.clone(), QoS::AtLeast)]);
    let mut expected = vec![0x82, 21, 0, 1, 0, 16];
    expected.extend_from_slice(b"close-incident/+");
    expected.push(1);
    assert_eq!(subscribe.to_bytes(), expected);

    let unsubscribe = Unsubscribe::new(2, vec![filter]);
    let mut expected = vec![0xA2, 20, 0, 2, 0, 16];
    expected.extend_from_slice(b"close-incident/+");
    assert_eq!(unsubscribe.to_bytes(), expected);
}

#[test]
fn packet_to_bytes_of_session_packets() {
    let bytes = Packet::Disconnect(Disconnect::new()).to_bytes(KEY);
    assert_eq!(bytes, vec![14, 0xE0, 0]);
    let bytes = Packet::Unsuback(Unsuback::new(1)).to_bytes(KEY);
    assert_eq!(bytes, vec![11, 0xB0, 2, 0, 1]);
}

fn read(bytes: Vec<u8>) -> Result<Packet, Error> {
    Packet::from_bytes(&mut ByteReader::new(bytes))
}

#[test]
fn connect_reads_back() {
    let will = Will::new(QoS::AtLeast, false, TopicName::new(vec![b"a".to_vec(), b"b".to_vec()], false), text("x"));
    let login = Login::new(text("user"), Some(text("secret")));
    let bytes = Connect::new(true, 30, text("drone-1"), Some(will), Some(login)).to_bytes();
    let expected = Connect::new(
        true,
        30,
        text("drone-1"),
        Some(Will::new(QoS::AtLeast, false, TopicName::new(vec![b"a".to_vec(), b"b".to_vec()], false), text("x"))),
        Some(Login::new(text("user"), Some(text("secret")))),
    );
    match read(bytes).unwrap() {
        Packet::Connect(c) => assert_eq!(c, expected),
        other => panic!("unexpected {:?}", other),
    }
    match read(Connect::new(false, 0, text(""), None, None).to_bytes()).unwrap() {
        Packet::Connect(c) => assert_eq!(c, Connect::new(false, 0, text(""), None, None)),
        other => panic!("unexpected {:?}", other),
    }
}

#[test]
fn connect_errors() {
    let good = Connect::new(false, 0, text("c"), None, None).to_bytes();
    let mut bad_name = good.clone();
    bad_name[4] = b'X';
    assert_eq!(read(bad_name).unwrap_err(), Error::InvalidProtocolName);
    let mut bad_level = good.clone();
    bad_level[8] = 3;
    assert_eq!(read(bad_level).unwrap_err(), Error::InvalidProtocolLevel(3));
    let mut reserved = good.clone();
    reserved[9] = 0x01;
    assert_eq!(read(reserved).unwrap_err(), Error::InvalidConnectFlags);
    let mut password_only = good.clone();
    password_only[9] = 0x40;
    assert_eq!(read(password_only).unwrap_err(), Error::InvalidConnectFlags);
    let mut will_qos_without_will = good.clone();
    will_qos_without_will[9] = 0x08;
    assert_eq!(read(will_qos_without_will).unwrap_err(), Error::InvalidConnectFlags);
    let mut missing_user = good.clone();
    missing_user[9] = 0x80;
    assert_eq!(read(missing_user).unwrap_err(), Error::UnexpectedEof);
}

#[test]
fn subscribe_and_unsubscribe_read_back() {
    let filter = TopicFilter::new(
        vec![TopicLevel::Literal(b"drone-data".to_vec()), TopicLevel::SingleLevelWildcard],
        false,
    );
    let other = TopicFilter::new(vec![TopicLevel::MultiLevelWildcard], false);
    let subscribe = Subscribe::new(5, vec![(filter.clone(), QoS::AtLeast), (other.clone(), QoS::AtMost)]);
    match read(subscribe.to_bytes()).unwrap() {
        Packet::Subscribe(s) => assert_eq!(s, subscribe),
        p => panic!("unexpected {:?}", p),
    }
    let unsubscribe = Unsubscribe::new(6, vec![filter, other]);
    match read(unsubscribe.to_bytes()).unwrap() {
        Packet::Unsubscribe(u) => assert_eq!(u, unsubscribe),
        p => panic!("unexpected {:?}", p),
    }
}

#[test]
fn subscribe_errors() {
    assert_eq!(read(vec![0x80, 2, 0, 1]).unwrap_err(), Error::InvalidFixedHeaderFlags);
    assert_eq!(read(vec![0x82, 1, 0]).unwrap_err(), Error::InvalidRemainingLength);
    assert_eq!(read(vec![0x82, 5, 0, 1, 0, 1, b'a']).unwrap_err(), Error::UnexpectedEof);
    assert_eq!(read(vec![0x82, 6, 0, 1, 0, 1, b'a', 3]).unwrap_err(), Error::InvalidQoS(3));
    assert_eq!(read(vec![0x82, 7, 0, 1, 0, 2, b'a', b'+', 0]).unwrap_err(), Error::InvalidTopicLevel);
    assert_eq!(read(vec![0xA2, 4, 0, 1, 0, 3]).unwrap_err(), Error::UnexpectedEof);
}

#[test]
fn topic_filter_reads_levels() {
    let mut stream = ByteReader::new(vec![0, 6, b'$', b'a', b'/', b'+', b'/', b'#']);
    let filter = TopicFilter::from_bytes(&mut stream).unwrap();
    assert!(filter.server_reserved());
    assert_eq!(
        filter.levels(),
        &vec![
            TopicLevel::Literal(b"$a".to_vec()),
            TopicLevel::SingleLevelWildcard,
            TopicLevel::MultiLevelWildcard
        ]
    );
}
