use bose_nc::bmap::Packet;
use bose_nc::device::qc45::{Qc45, FB, FN, MODE_AWARE, MODE_QUIET, OP_MODE_SET};
use bose_nc::device::DeviceProfile;

fn profile() -> Qc45 {
    Qc45
}

#[test]
fn qc45_set_quiet() {
    let bytes = profile().build_nc_set(1);
    let parsed = Packet::parse(&bytes).unwrap();
    assert_eq!(parsed.function_block, FB);
    assert_eq!(parsed.function, FN);
    assert_eq!(parsed.operator, OP_MODE_SET);
    assert_eq!(parsed.payload, vec![MODE_QUIET, 0x01]);
}

#[test]
fn qc45_set_aware() {
    let bytes = profile().build_nc_set(0);
    let parsed = Packet::parse(&bytes).unwrap();
    assert_eq!(parsed.payload, vec![MODE_AWARE, 0x01]);
}

#[test]
fn off_not_supported() {
    assert!(profile().build_nc_off().is_none());
}

#[test]
fn qc45_status_modes() {
    let quiet = profile().parse_nc_status(&[MODE_QUIET]).unwrap();
    assert_eq!((quiet.level, quiet.enabled, quiet.max_level), (1, true, 1));
    let aware = profile().parse_nc_status(&[MODE_AWARE, 0x01]).unwrap();
    assert_eq!((aware.level, aware.enabled), (0, false));
    assert!(profile().parse_nc_status(&[]).is_err());
}
