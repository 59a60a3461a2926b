use bose_nc::bmap::{Packet, PacketError, OP_GET, OP_SET_GET};

#[test]
fn roundtrip_packet() {
    let original = Packet::new(0x01, 0x05, OP_GET, vec![]);
    let bytes = original.to_bytes();
    let parsed = Packet::parse(&bytes).unwrap();
    assert_eq!(parsed.function_block, 0x01);
    assert_eq!(parsed.function, 0x05);
    assert_eq!(parsed.operator, OP_GET);
    assert!(parsed.payload.is_empty());
}

#[test]
fn parse_too_short() {
    assert!(Packet::parse(&[0x01, 0x05]).is_err());
}

#[test]
fn parse_truncated_payload() {
    assert!(Packet::parse(&[0x01, 0x05, 0x02, 0x03, 0xFF]).is_err());
}

#[test]
fn dpo_byte_encodes_correctly() {
    let mut pkt = Packet::new(0x00, 0x00, OP_SET_GET, vec![]);
    pkt.device_id = 0x02;
    pkt.port_num = 0x01;
    let bytes = pkt.to_bytes();
    assert_eq!(bytes[2], 0b1001_0010);
}

#[test]
fn parse_errors_name_the_lengths() {
    assert_eq!(Packet::parse(&[0x01, 0x05]).unwrap_err(), PacketError::TooShort(2, 4));
    assert_eq!(
        Packet::parse(&[0x01, 0x05, 0x02, 0x03, 0xFF]).unwrap_err(),
        PacketError::PayloadTruncated(1, 3)
    );
}

#[test]
fn parse_splits_header_byte() {
    let parsed = Packet::parse(&[0x1f, 0x06, 0b1110_0100, 0x01, 0x2A, 0x99]).unwrap();
    assert_eq!(parsed.device_id, 3);
    assert_eq!(parsed.port_num, 2);
    assert_eq!(parsed.operator, 4);
    // bytes after the announced payload are not part of the packet
    assert_eq!(parsed.payload, vec![0x2A]);
}

#[test]
fn serialize_parse_serialize_keeps_bytes() {
    let data = [0x01, 0x05, 0x93, 0x02, 0x07, 0x08];
    let parsed = Packet::parse(&data).unwrap();
    assert_eq!(parsed.to_bytes(), data.to_vec());
    assert_eq!(parsed.dpo_byte(), 0x93);
}

#[test]
fn to_bytes_writes_payload_length() {
    let pkt = Packet::new(0x1f, 0x03, 0x05, vec![0x02, 0x01]);
    assert_eq!(pkt.to_bytes(), vec![0x1f, 0x03, 0x05, 0x02, 0x02, 0x01]);
}
