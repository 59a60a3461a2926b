use bose_nc::bmap::Packet;
use bose_nc::device::qc_earbuds::{
    level_to_mode, mode_to_level, QcEarbuds, MAX_LEVEL, MODE_AWARE, MODE_QUIET, MODE_USER1,
    MODE_USER2,
};
use bose_nc::device::DeviceProfile;

fn profile() -> QcEarbuds {
    QcEarbuds
}

#[test]
fn qc_earbuds_set_quiet() {
    let bytes = profile().build_nc_set(2);
    let parsed = Packet::parse(&bytes).unwrap();
    assert_eq!(parsed.payload, vec![MODE_QUIET, 0x01]);
}

#[test]
fn qc_earbuds_set_medium() {
    let bytes = profile().build_nc_set(1);
    let parsed = Packet::parse(&bytes).unwrap();
    assert_eq!(parsed.payload, vec![MODE_USER1, 0x01]);
}

#[test]
fn qc_earbuds_set_aware() {
    let bytes = profile().build_nc_set(0);
    let parsed = Packet::parse(&bytes).unwrap();
    assert_eq!(parsed.payload, vec![MODE_AWARE, 0x01]);
}

#[test]
fn off_sends_user2() {
    let bytes = profile().build_nc_off().unwrap();
    let parsed = Packet::parse(&bytes).unwrap();
    assert_eq!(parsed.payload, vec![MODE_USER2, 0x01]);
}

#[test]
fn off_differs_from_set_0() {
    assert_ne!(profile().build_nc_set(0), profile().build_nc_off().unwrap());
}

#[test]
fn mode_roundtrip() {
    for level in 0..=MAX_LEVEL {
        let mode = level_to_mode(level);
        let (back, enabled) = mode_to_level(mode);
        assert_eq!(back, level);
        assert!(enabled);
    }
}

#[test]
fn earbuds_off_differs_from_every_set() {
    let off = profile().build_nc_off().unwrap();
    for level in 0..=255u8 {
        assert_ne!(profile().build_nc_set(level), off);
    }
}

#[test]
fn earbuds_user2_reads_as_off() {
    let status = profile().parse_nc_status(&[MODE_USER2]).unwrap();
    assert_eq!((status.level, status.enabled, status.max_level), (0, false, 2));
    assert_eq!(mode_to_level(0x7F), (0, false));
    assert_eq!(level_to_mode(9), MODE_QUIET);
}
