use bose_nc::bmap::{self, Packet};
use bose_nc::device::nc700::{Nc700, FB, FN};
use bose_nc::device::DeviceProfile;

fn profile() -> Nc700 {
    Nc700
}

#[test]
fn nc700_get_packet_format() {
    let bytes = profile().build_nc_get();
    assert_eq!(bytes[0], FB);
    assert_eq!(bytes[1], FN);
    assert_eq!(bytes[2] & 0x0F, bmap::OP_GET);
    assert_eq!(bytes[3], 0x00);
}

#[test]
fn set_packet_roundtrip() {
    let bytes = profile().build_nc_set(7);
    let parsed = Packet::parse(&bytes).unwrap();
    assert_eq!(parsed.function_block, FB);
    assert_eq!(parsed.function, FN);
    assert_eq!(parsed.operator, bmap::OP_SET_GET);
    assert_eq!(parsed.payload, vec![3, 1]); // wire_level = 10 - 7
}

#[test]
fn off_packet_format() {
    let bytes = profile().build_nc_off().unwrap();
    let parsed = Packet::parse(&bytes).unwrap();
    assert_eq!(parsed.payload, vec![0x00, 0x00]);
}

#[test]
fn nc700_parse_status() {
    // num_steps=11 (0x0B), wire_level=5, enabled=1
    let status = profile().parse_nc_status(&[0x0B, 0x05, 0x01]).unwrap();
    assert_eq!(status.max_level, 10);
    assert_eq!(status.level, 5);
    assert!(status.enabled);
}

#[test]
fn parse_status_disabled() {
    let status = profile().parse_nc_status(&[0x0B, 0x00, 0x00]).unwrap();
    assert_eq!(status.level, 10);
    assert!(!status.enabled);
}

#[test]
fn nc700_parse_status_too_short() {
    assert!(profile().parse_nc_status(&[0x0B, 0x05]).is_err());
}

#[test]
fn nc700_set_saturates_above_max() {
    let parsed = Packet::parse(&profile().build_nc_set(200)).unwrap();
    assert_eq!(parsed.payload, vec![0, 1]);
}

#[test]
fn nc700_status_saturates() {
    // zero steps and a wire level above the maximum read as level 0 of 0
    let status = profile().parse_nc_status(&[0x00, 0x09, 0x01]).unwrap();
    assert_eq!(status.max_level, 0);
    assert_eq!(status.level, 0);
}

#[test]
fn nc700_set_then_status_reads_back() {
    for level in 0..=10u8 {
        let parsed = Packet::parse(&profile().build_nc_set(level)).unwrap();
        let status = profile().parse_nc_status(&[0x0B, parsed.payload[0], 0x01]).unwrap();
        assert_eq!(status.level, level);
    }
}

#[test]
fn nc700_writes_twice_and_names_itself() {
    assert_eq!(profile().nc_set_repeat_count(), 2);
    assert_eq!(profile().product_name(), "Bose NC 700");
    assert_eq!(profile().max_nc_level(), 10);
    assert_eq!(profile().capabilities().len(), 3);
}
