use sauron::byte_reader::ByteReader;
use sauron::error::Error;
use sauron::mqtt::encryption::{decrypt, encrypt};
use sauron::mqtt::fixed_header::FixedHeader;
use sauron::mqtt::packet::{packet_length, Packet};
use sauron::mqtt::packets::pingreq::Pingreq;
use sauron::mqtt::packets::pingresp::Pingresp;
use sauron::mqtt::packets::puback::Puback;
use sauron::mqtt::packets::suback::Suback;
use sauron::mqtt::remaining_length::RemainingLength;
use sauron::mqtt::suback_return_code::SubackReturnCode;

const KEY: &[u8; 32] = &[0; 32];

#[test]
fn test_pingreq_from_bytes() {
    let remaining_length = RemainingLength::new(2_u32);
    let fixed_header = FixedHeader::new(0xC << 4, remaining_length);
    let pingreq = Pingreq::from_bytes(fixed_header).unwrap();
    assert_eq!(pingreq, Pingreq::new());
}

#[test]
fn test_pingreq_to_bytes() {
    let pingreq = Pingreq::new();
    let bytes = pingreq.to_bytes(KEY);

    let expected_bytes: Vec<u8> = vec![0b1100_0000, 0x00];
    let encrypted_bytes = encrypt(expected_bytes, KEY);

    // Each encryption draws its own nonce: the two agree in length, in the
    // clear header and in what they decrypt to.
    assert_eq!(bytes.len(), encrypted_bytes.len());
    assert_eq!(&bytes[..2], &encrypted_bytes[..2]);
    assert_eq!(decrypt(&bytes[2..], KEY).unwrap(), decrypt(&encrypted_bytes[2..], KEY).unwrap());
    assert_eq!(decrypt(&bytes[2..], KEY).unwrap(), Vec::<u8>::new());
}

#[test]
fn test_pingresp_to_bytes() {
    let pingresp = Pingresp::new();
    let expected_bytes: Vec<u8> = vec![0b1101_0000, 0x00];
    assert_eq!(pingresp.to_bytes(), expected_bytes);
}

#[test]
fn test_pingresp_from_bytes() {
    let remaining_length = RemainingLength::new(2_u32);
    let fixed_header = FixedHeader::new(0xD << 4, remaining_length);
    let pingresp = Pingresp::from_bytes(fixed_header).unwrap();
    assert_eq!(pingresp, Pingresp::new());
}

#[test]
fn ping_packets_reject_flags() {
    let fixed_header = FixedHeader::new(0xD1, RemainingLength::new(0));
    assert_eq!(Pingresp::from_bytes(fixed_header), Err(Error::InvalidFixedHeaderFlags));
    let fixed_header = FixedHeader::new(0xC2, RemainingLength::new(0));
    assert_eq!(Pingreq::from_bytes(fixed_header), Err(Error::InvalidFixedHeaderFlags));
}

#[test]
fn test_suback_to_bytes() {
    let suback = Suback::new(
        42,
        vec![
            SubackReturnCode::SuccessMaximumQoS0,
            SubackReturnCode::SuccessMaximumQoS1,
            SubackReturnCode::SuccessMaximumQoS2,
        ],
    );

    let expected_bytes: Vec<u8> = vec![144 as u8, 5 as u8, 0 as u8, 42 as u8, 0x00 as u8, 0x01 as u8, 0x02 as u8];

    let bytes = suback.to_bytes();

    assert_eq!(bytes, expected_bytes);
}

#[test]
fn test_suback_from_bytes() {
    let bytes: Vec<u8> = vec![0 as u8, 42 as u8, 0x00 as u8, 0x01 as u8, 0x02 as u8];

    let mut stream = ByteReader::new(bytes);

    let fixed_header = FixedHeader::new(0b1001_0000, RemainingLength::new(5));
    let suback = Suback::from_bytes(fixed_header, &mut stream).unwrap();

    let return_codes = suback.suback_return_codes();
    assert_eq!(suback.packet_identifier(), 42);
    assert_eq!(return_codes.len(), 3);
    assert_eq!(return_codes[0], SubackReturnCode::SuccessMaximumQoS0);
    assert_eq!(return_codes[1], SubackReturnCode::SuccessMaximumQoS1);
    assert_eq!(return_codes[2], SubackReturnCode::SuccessMaximumQoS2);
}

#[test]
fn suback_from_bytes_errors() {
    let fixed_header = FixedHeader::new(0x91, RemainingLength::new(3));
    let mut stream = ByteReader::new(vec![0, 1, 0]);
    assert_eq!(Suback::from_bytes(fixed_header, &mut stream).unwrap_err(), Error::InvalidFixedHeaderFlags);
    let fixed_header = FixedHeader::new(0x90, RemainingLength::new(4));
    let mut stream = ByteReader::new(vec![0, 1, 0x80, 0x07]);
    assert_eq!(Suback::from_bytes(fixed_header, &mut stream).unwrap_err(), Error::InvalidSubackReturnCode(0x07));
    let fixed_header = FixedHeader::new(0x90, RemainingLength::new(4));
    let mut stream = ByteReader::new(vec![0, 1, 0x00]);
    assert_eq!(Suback::from_bytes(fixed_header, &mut stream).unwrap_err(), Error::UnexpectedEof);
}

#[test]
fn puback_bytes() {
    assert_eq!(Puback::new(Some(0x1234)).to_bytes(), vec![0x40, 0x02, 0x12, 0x34]);
    assert_eq!(Puback::new(None).to_bytes(), vec![0x40, 0x00]);
    let mut stream = ByteReader::new(vec![0x12, 0x34]);
    let puback = Puback::from_bytes(FixedHeader::new(0x40, RemainingLength::new(2)), &mut stream).unwrap();
    assert_eq!(puback.packet_identifier(), Some(0x1234));
}

#[test]
fn packet_reads_what_packets_write() {
    let suback = Suback::new(7, vec![SubackReturnCode::Failure, SubackReturnCode::SuccessMaximumQoS1]);
    let mut stream = ByteReader::new(suback.to_bytes());
    match Packet::from_bytes(&mut stream).unwrap() {
        Packet::Suback(read) => assert_eq!(read, suback),
        other => panic!("unexpected packet {:?}", other),
    }
    let mut stream = ByteReader::new(Puback::new(Some(513)).to_bytes());
    match Packet::from_bytes(&mut stream).unwrap() {
        Packet::Puback(read) => assert_eq!(read.packet_identifier(), Some(513)),
        other => panic!("unexpected packet {:?}", other),
    }
    let mut stream = ByteReader::new(Pingresp::new().to_bytes());
    assert!(matches!(Packet::from_bytes(&mut stream).unwrap(), Packet::Pingresp(_)));
}

#[test]
fn packet_from_bytes_errors() {
    let mut stream = ByteReader::new(vec![0xF0, 0x00]);
    assert_eq!(Packet::from_bytes(&mut stream).unwrap_err(), Error::InvalidPacketType(15));
    let mut stream = ByteReader::new(vec![0xD0, 0x01, 0x00]);
    assert_eq!(Packet::from_bytes(&mut stream).unwrap_err(), Error::InvalidRemainingLength);
    let mut stream = ByteReader::new(vec![0x40, 0x03, 0x00, 0x01, 0x02]);
    assert_eq!(Packet::from_bytes(&mut stream).unwrap_err(), Error::InvalidRemainingLength);
    let mut stream = ByteReader::new(vec![0x90, 0x05, 0x00]);
    assert_eq!(Packet::from_bytes(&mut stream).unwrap_err(), Error::UnexpectedEof);
    let mut stream = ByteReader::new(vec![]);
    assert_eq!(Packet::from_bytes(&mut stream).unwrap_err(), Error::UnexpectedEof);
}

#[test]
fn packet_to_bytes_prefixes_the_type() {
    let packet = Packet::Pingresp(Pingresp::new());
    assert_eq!(packet.to_bytes(KEY), vec![13, 0xD0, 0x00]);
    let packet = Packet::Puback(Puback::new(Some(1)));
    assert_eq!(packet.to_bytes(KEY), vec![4, 0x40, 0x02, 0x00, 0x01]);
    let packet = Packet::Pingreq(Pingreq::new());
    let bytes = packet.to_bytes(KEY);
    assert_eq!(&bytes[..3], &[12, 0xC0, 0x00]);
    assert_eq!(decrypt(&bytes[3..], KEY).unwrap(), Vec::<u8>::new());
}

#[test]
fn test_encrypt_decrypt() {
    let key = b"01234567890123456789012345678901";

    let data = b"00hello world";
    let encrypted_data = encrypt(data.to_vec(), key);
    let decrypted_data = decrypt(&encrypted_data[2..], key).unwrap();

    assert_eq!(data[2..], decrypted_data);
}

#[test]
fn encryption_keeps_the_header_and_draws_fresh_nonces() {
    let key = b"01234567890123456789012345678901";
    let data = vec![0x30, 0x05, 1, 2, 3, 4, 5];
    let first = encrypt(data.clone(), key);
    let second = encrypt(data.clone(), key);
    assert_eq!(first.len(), data.len() + 28);
    assert_eq!(&first[..2], &data[..2]);
    assert_ne!(&first[2..14], &second[2..14]);
    assert_eq!(sauron::mqtt::encryption::try_decrypt(&first[2..], key), Some(data[2..].to_vec()));
    let mut tampered = first.clone();
    let last = tampered.len() - 1;
    tampered[last] ^= 1;
    assert_eq!(sauron::mqtt::encryption::try_decrypt(&tampered[2..], key), None);
    assert_eq!(sauron::mqtt::encryption::try_decrypt(&first[2..8], key), None);
}

#[test]
fn packet_length_waits_for_the_whole_fixed_header() {
    assert_eq!(packet_length(&vec![]), Ok(None));
    assert_eq!(packet_length(&vec![0x30]), Ok(None));
    assert_eq!(packet_length(&vec![0x30, 0x05]), Ok(Some(7)));
    assert_eq!(packet_length(&vec![0x30, 0x80]), Ok(None));
    assert_eq!(packet_length(&vec![0x30, 0x80, 0x01]), Ok(Some(131)));
    assert_eq!(
        packet_length(&vec![0x30, 0xFF, 0xFF, 0xFF, 0xFF]),
        Err(Error::MalformedRemainingLength)
    );
}

#[test]
fn packet_reader_moves_past_each_announced_packet() {
    let mut stream = ByteReader::new(vec![0xD0, 0x00, 0xC0, 0x00]);
    assert!(matches!(Packet::from_bytes(&mut stream).unwrap(), Packet::Pingresp(_)));
    assert!(matches!(Packet::from_bytes(&mut stream).unwrap(), Packet::Pingreq(_)));
    assert_eq!(stream.remaining(), 0);
}

#[test]
fn packet_reader_skips_a_packet_it_refuses() {
    // A PUBACK with wrong flags, then a PINGRESP: the PUBACK's header and
    // content are taken although it is refused.
    let mut stream = ByteReader::new(vec![0x41, 0x02, 0x00, 0x01, 0xD0, 0x00]);
    assert_eq!(Packet::from_bytes(&mut stream).unwrap_err(), Error::InvalidFixedHeaderFlags);
    assert_eq!(stream.remaining(), 2);
    assert!(matches!(Packet::from_bytes(&mut stream).unwrap(), Packet::Pingresp(_)));
    // A packet whose content does not use up its remaining length.
    let mut stream = ByteReader::new(vec![0x40, 0x03, 0x00, 0x01, 0x02, 0xD0, 0x00]);
    assert_eq!(Packet::from_bytes(&mut stream).unwrap_err(), Error::InvalidRemainingLength);
    assert_eq!(stream.remaining(), 2);
    // A short content: only the fixed header is taken.
    let mut stream = ByteReader::new(vec![0x90, 0x05, 0x00]);
    assert_eq!(Packet::from_bytes(&mut stream).unwrap_err(), Error::UnexpectedEof);
    assert_eq!(stream.remaining(), 1);
}

#[test]
fn puback_reader_takes_nothing_on_an_error() {
    let mut stream = ByteReader::new(vec![0x12, 0x34]);
    let fixed_header = FixedHeader::new(0x42, RemainingLength::new(2));
    assert_eq!(Puback::from_bytes(fixed_header, &mut stream).unwrap_err(), Error::InvalidFixedHeaderFlags);
    assert_eq!(stream.remaining(), 2);
    let mut stream = ByteReader::new(vec![0x12]);
    let fixed_header = FixedHeader::new(0x40, RemainingLength::new(2));
    assert_eq!(Puback::from_bytes(fixed_header, &mut stream).unwrap_err(), Error::UnexpectedEof);
    assert_eq!(stream.remaining(), 1);
}
