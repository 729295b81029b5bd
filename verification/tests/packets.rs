use std::io::Cursor;

use crypto::digest::Digest;
use fskmodem::packet::{stripe_v1, stripe_v2, Controller};
use fskmodem::protocol::ProtocolVersion;

fn murmur(data: &[u8], seed: u32) -> u32 {
    murmur3::murmur3_32(&mut Cursor::new(data), seed).unwrap()
}

fn md5_bytes(data: &[u8]) -> [u8; 16] {
    let mut hasher = crypto::md5::Md5::new();
    let mut out = [0u8; 16];
    hasher.input(data);
    hasher.result(&mut out);
    out
}

#[test]
fn test_as_num() {
    assert_eq!(ProtocolVersion::V1.as_num(), 1);
    assert_eq!(ProtocolVersion::V2.as_num(), 2);
}

#[test]
fn test_control_packet_layout() {
    let payload = b"hello world";
    let mut c = Controller::new(false, ProtocolVersion::V2);
    let packet = c.make_control_packet(payload);
    assert_eq!(packet.len(), 40);
    // preamble
    assert_eq!(&packet[0..7], &[0x00, 0x00, 0x00, 0x00, 0xaa, 0x55, 0x42]);
    // version and type
    assert_eq!(packet[7], 2);
    assert_eq!(packet[8], 1);
    assert_eq!(&packet[9..11], &[0x00, 0x00]);
    // payload length, little-endian
    assert_eq!(&packet[11..15], &[11, 0, 0, 0]);
    // whole-payload hash under the program seed
    let program_hash = murmur(payload, 0x32d0_babe);
    assert_eq!(&packet[15..19], &program_hash.to_le_bytes());
    // 16-byte payload digest
    assert_eq!(&packet[19..35], &md5_bytes(payload));
    // footer: checksum of bytes [7, 35) under the footer seed
    let footer = murmur(&packet[7..35], 0xdead_beef);
    assert_eq!(&packet[35..39], &footer.to_le_bytes());
    // stop byte
    assert_eq!(packet[39], 0xff);
}

#[test]
fn test_control_packet_empty_payload_digest() {
    // The MD5 digest of the empty input is a fixed, well-known value: the
    // digest field must differ from the (empty) input itself.
    let mut c = Controller::new(false, ProtocolVersion::V1);
    let packet = c.make_control_packet(&[]);
    let expected = [
        0xd4, 0x1d, 0x8c, 0xd9, 0x8f, 0x00, 0xb2, 0x04, 0xe9, 0x80, 0x09, 0x98, 0xec, 0xf8,
        0x42, 0x7e,
    ];
    assert_eq!(&packet[19..35], &expected);
    assert_eq!(&packet[11..15], &[0, 0, 0, 0]);
}

#[test]
fn test_control_packet_os_type() {
    let mut c = Controller::new(true, ProtocolVersion::V1);
    let packet = c.make_control_packet(b"x");
    assert_eq!(packet[7], 1);
    assert_eq!(packet[8], 3);
}

#[test]
fn test_data_packet_v1_layout() {
    let chunk = vec![0xabu8; 100];
    let mut c = Controller::new(false, ProtocolVersion::V1);
    let packet = c.make_data_packet(&chunk, 5);
    assert_eq!(packet.len(), 272);
    assert_eq!(&packet[0..7], &[0x00, 0x00, 0x00, 0x00, 0xaa, 0x55, 0x42]);
    assert_eq!(packet[7], 1);
    assert_eq!(packet[8], 2);
    // block number, little-endian
    assert_eq!(packet[9], 5);
    assert_eq!(packet[10], 0);

    // un-stripe by re-applying the pattern (XOR is self-inverse)
    let mut unstriped = packet.clone();
    stripe_v1(&mut unstriped);
    for i in 0..100 {
        assert_eq!(unstriped[11 + i], 0xab);
    }
    for i in 100..256 {
        assert_eq!(unstriped[11 + i], 0xff);
    }
    // footer reflects the un-striped bytes
    let footer = murmur(&unstriped[7..267], 0xdead_beef);
    assert_eq!(&unstriped[267..271], &footer.to_le_bytes());
    // the stripe pass does not touch footer or stop byte
    assert_eq!(&packet[267..272], &unstriped[267..272]);
    assert_eq!(packet[271], 0xff);
    // the pattern did flip the marked positions
    assert_eq!(packet[11 + 3], 0xab ^ 0x55);
    assert_eq!(packet[11 + 11], 0xab ^ 0xaa);
    assert_eq!(packet[11 + 16 + 3], 0xab ^ 0x55);
    assert_eq!(packet[11 + 4], 0xab);
}

#[test]
fn test_data_packet_os_type() {
    let chunk = vec![0u8; 256];
    let mut c = Controller::new(true, ProtocolVersion::V1);
    let packet = c.make_data_packet(&chunk, 0);
    assert_eq!(packet[8], 4);
}

#[test]
fn test_data_packet_v2_footer_round_trip() {
    let chunk: Vec<u8> = (0..256u32).map(|i| (i * 7 + 3) as u8).collect();
    let mut c = Controller::new(false, ProtocolVersion::V2);
    let packet = c.make_data_packet(&chunk, 9);
    assert_eq!(packet.len(), 272);
    let mut unstriped = packet.clone();
    stripe_v2(&mut unstriped);
    assert_eq!(&unstriped[11..267], &chunk[..]);
    let footer = murmur(&unstriped[7..267], 0xdead_beef);
    assert_eq!(&unstriped[267..271], &footer.to_le_bytes());
    assert_eq!(&packet[267..272], &unstriped[267..272]);
}

#[test]
fn test_stripe_v1_involution() {
    let original: Vec<u8> = (0..272u32).map(|i| (i * 31 + 5) as u8).collect();
    let mut buf = original.clone();
    stripe_v1(&mut buf);
    // one application changes the marked positions
    assert_eq!(buf[11 + 3], original[11 + 3] ^ 0x55);
    assert_eq!(buf[11 + 11], original[11 + 11] ^ 0xaa);
    assert_ne!(buf, original);
    stripe_v1(&mut buf);
    assert_eq!(buf, original);
}

#[test]
fn test_stripe_v2_involution() {
    let original: Vec<u8> = (0..272u32).map(|i| (i * 13 + 1) as u8).collect();
    let mut buf = original.clone();
    stripe_v2(&mut buf);
    assert_ne!(buf, original);
    stripe_v2(&mut buf);
    assert_eq!(buf, original);
}

#[test]
fn test_stripe_v2_range_bounds() {
    let original: Vec<u8> = (0..272u32).map(|i| (i * 11 + 2) as u8).collect();
    let mut buf = original.clone();
    stripe_v2(&mut buf);
    // bytes before index 9 are never modified
    assert_eq!(&buf[0..9], &original[0..9]);
    // the last 4 + 1 bytes are never modified
    assert_eq!(&buf[267..272], &original[267..272]);
    // the rotation starts right after the type byte: (9 - 9 + 2) % 3 == 2
    assert_eq!(buf[9], original[9] ^ 0x95);
    assert_eq!(buf[10], original[10] ^ 0x35);
    assert_eq!(buf[11], original[11] ^ 0xac);
    assert_eq!(buf[266], original[266] ^ ([0x35, 0xac, 0x95][(266 - 9 + 2) % 3]));
}
