use bose_nc::bmap;
use bose_nc::device::qc_ultra::{QcUltra, FB, FN};
use bose_nc::device::DeviceProfile;

fn profile() -> QcUltra {
    QcUltra
}

#[test]
fn qc_ultra_get_packet_format() {
    let bytes = profile().build_nc_get();
    assert_eq!(bytes, vec![0x1f, 0x06, 0x01, 0x01, 0x03]);
}

#[test]
fn set_packet_format() {
    let bytes = profile().build_nc_set(2);
    assert_eq!(bytes[0], FB);
    assert_eq!(bytes[1], FN);
    assert_eq!(bytes[2] & 0x0F, bmap::OP_SET_GET);
    assert_eq!(bytes[3], 39); // payload length
    assert_eq!(&bytes[4..7], &[0x03, 0x00, 0x0b]);
    assert_eq!(&bytes[7..11], b"None");
    assert_eq!(bytes[39], 8); // wire_level = 10 - 2
}

#[test]
fn set_packet_matches_wire_dump() {
    let bytes = profile().build_nc_set(10);
    assert_eq!(bytes[0], 0x1f);
    assert_eq!(bytes[1], 0x06);
    assert_eq!(bytes[2], 0x02);
    assert_eq!(bytes[3], 0x27);
    assert_eq!(bytes.len(), 4 + 39);
    assert_eq!(bytes[39], 0); // wire_level = 10 - 10
}

#[test]
fn qc_ultra_parse_status() {
    // wire_level=8 at offset 42 → user_level = 10 - 8 = 2
    let mut payload = vec![0x03, 0x00, 0x0b, 0x01, 0x01, 0x01];
    payload.extend_from_slice(b"None");
    payload.resize(6 + 32, 0x00);
    payload.extend_from_slice(&[0x00, 0x00, 0x00, 0x0d, 0x08, 0x00, 0x00, 0x01, 0x00]);
    assert_eq!(payload.len(), 47);

    let status = profile().parse_nc_status(&payload).unwrap();
    assert_eq!(status.max_level, 10);
    assert_eq!(status.level, 2);
    assert!(status.enabled);
}

#[test]
fn qc_ultra_parse_status_too_short() {
    assert!(profile().parse_nc_status(&[0x03, 0x00, 0x0b]).is_err());
}

#[test]
fn qc_ultra_set_padding_is_zero() {
    let bytes = profile().build_nc_set(0);
    assert!(bytes[11..39].iter().all(|b| *b == 0));
    assert_eq!(bytes[39], 10);
    assert_eq!(&bytes[40..43], &[0, 0, 0]);
}
