use sauron::byte_reader::ByteReader;
use sauron::error::Error;
use sauron::mqtt::fixed_header::FixedHeader;
use sauron::mqtt::packet::Packet;
use sauron::mqtt::packets::publish::Publish;
use sauron::mqtt::qos::QoS;
use sauron::mqtt::remaining_length::RemainingLength;
use sauron::mqtt::topic_name::TopicName;

const KEY: &[u8; 32] = &[0; 32];

fn topic(levels: &[&str]) -> TopicName {
    TopicName::new(levels.iter().map(|l| l.as_bytes().to_vec()).collect(), false)
}

#[test]
fn publish_bytes_at_least_once() {
    let p = Publish::new(false, QoS::AtLeast, false, topic(&["a", "b"]), Some(10), b"hi".to_vec());
    assert_eq!(
        p.to_bytes(),
        vec![0x32, 9, 0x00, 0x03, b'a', b'/', b'b', 0x00, 0x0A, b'h', b'i']
    );
}

#[test]
fn publish_bytes_at_most_once_carry_no_identifier() {
    let p = Publish::new(true, QoS::AtMost, true, topic(&["x"]), Some(1), vec![7]);
    assert_eq!(p.to_bytes(), vec![0x39, 4, 0x00, 0x01, b'x', 7]);
}

#[test]
fn publish_round_trip_through_packet() {
    let p = Publish::new(false, QoS::AtLeast, true, topic(&["drone-data", "3"]), Some(258), b"1;2;0;99".to_vec());
    let mut stream = ByteReader::new(p.to_bytes());
    match Packet::from_bytes(&mut stream).unwrap() {
        Packet::Publish(read) => {
            assert_eq!(read, p);
            assert_eq!(read.package_identifier(), Some(258));
            assert_eq!(read.message(), &b"1;2;0;99".to_vec());
            assert_eq!(read.topic().levels(), &vec![b"drone-data".to_vec(), b"3".to_vec()]);
            assert!(read.retain());
            assert!(!read.dup());
            assert_eq!(read.qos(), &QoS::AtLeast);
        }
        other => panic!("unexpected packet {:?}", other),
    }
    assert_eq!(stream.remaining(), 0);
}

#[test]
fn publish_from_bytes_reads_the_flags() {
    let header = FixedHeader::new(0x3B, RemainingLength::new(5));
    let mut stream = ByteReader::new(vec![0x00, 0x01, b't', 0x00, 0x05]);
    let p = Publish::from_bytes(header, &mut stream).unwrap();
    assert!(p.dup());
    assert!(p.retain());
    assert_eq!(p.qos(), &QoS::AtLeast);
    assert_eq!(p.package_identifier(), Some(5));
    assert!(p.message().is_empty());
}

#[test]
fn publish_from_bytes_errors() {
    let header = FixedHeader::new(0x36, RemainingLength::new(3));
    let mut stream = ByteReader::new(vec![0x00, 0x01, b't']);
    assert_eq!(Publish::from_bytes(header, &mut stream), Err(Error::InvalidQoS(3)));

    let header = FixedHeader::new(0x32, RemainingLength::new(3));
    let mut stream = ByteReader::new(vec![0x00, 0x01, b't']);
    assert_eq!(Publish::from_bytes(header, &mut stream), Err(Error::UnexpectedEof));

    let header = FixedHeader::new(0x30, RemainingLength::new(2));
    let mut stream = ByteReader::new(vec![0x00, 0x01, b't']);
    assert_eq!(Publish::from_bytes(header, &mut stream), Err(Error::InvalidRemainingLength));

    let header = FixedHeader::new(0x30, RemainingLength::new(9));
    let mut stream = ByteReader::new(vec![0x00, 0x01, b't', 1]);
    assert_eq!(Publish::from_bytes(header, &mut stream), Err(Error::UnexpectedEof));
}

#[test]
fn packet_to_bytes_prefixes_publish_type() {
    let p = Publish::new(false, QoS::AtMost, false, topic(&["t"]), None, vec![]);
    let bytes = Packet::Publish(p.clone()).to_bytes(KEY);
    assert_eq!(bytes[0], 3);
    assert_eq!(&bytes[1..], p.to_bytes().as_slice());
}
