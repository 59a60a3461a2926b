use bose_nc::bmap::Packet;
use bose_nc::device::qc35::{user_to_wire, wire_to_user, Qc35, MAX_LEVEL};
use bose_nc::device::DeviceProfile;

fn profile() -> Qc35 {
    Qc35
}

#[test]
fn set_high() {
    let bytes = profile().build_nc_set(3);
    let parsed = Packet::parse(&bytes).unwrap();
    assert_eq!(parsed.payload, vec![0x01]); // High
}

#[test]
fn qc35_set_medium() {
    let bytes = profile().build_nc_set(2);
    let parsed = Packet::parse(&bytes).unwrap();
    assert_eq!(parsed.payload, vec![0x02]); // Medium
}

#[test]
fn set_low() {
    let bytes = profile().build_nc_set(1);
    let parsed = Packet::parse(&bytes).unwrap();
    assert_eq!(parsed.payload, vec![0x03]); // Low
}

#[test]
fn set_off() {
    let bytes = profile().build_nc_set(0);
    let parsed = Packet::parse(&bytes).unwrap();
    assert_eq!(parsed.payload, vec![0x00]); // Off
}

#[test]
fn parse_status_high() {
    let status = profile().parse_nc_status(&[0x01, 0x0b]).unwrap();
    assert_eq!(status.level, 3);
    assert!(status.enabled);
}

#[test]
fn parse_status_off() {
    let status = profile().parse_nc_status(&[0x00, 0x0b]).unwrap();
    assert_eq!(status.level, 0);
    assert!(!status.enabled);
}

#[test]
fn wire_roundtrip() {
    for level in 0..=MAX_LEVEL {
        assert_eq!(wire_to_user(user_to_wire(level)), level);
    }
}

#[test]
fn qc35_parse_status_too_short() {
    assert!(profile().parse_nc_status(&[0x01]).is_err());
}

#[test]
fn qc35_has_no_off_command() {
    assert!(profile().build_nc_off().is_none());
    assert_eq!(profile().nc_set_repeat_count(), 1);
}

#[test]
fn qc35_accepts_only_known_wire_values() {
    assert!(profile().accepts_status_payload(&[0x04, 0x0b]));
    assert!(!profile().accepts_status_payload(&[0x05, 0x0b]));
    assert!(profile().accepts_status_payload(&[0x05]));
}
