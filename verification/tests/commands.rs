use bose_nc::bluetooth::rfcomm::RfcommError;
use bose_nc::bluetooth::system_profiler::{BluetoothDevice, SystemProfilerError};
use bose_nc::bmap::{Packet, OP_ERROR, OP_STATUS};
use bose_nc::commands::{
    find_device, off_transfer, run_off, run_scan, run_set, run_status, set_transfer, summarize,
    SelectedDevice,
};
use bose_nc::device::{
    connect_device, device_info, list_bose_devices, resolve_device_profile, resolve_profile,
    status_reply_in_domain, DeviceError, DeviceProfile, Model, BOSE_VENDOR_ID,
};
use bose_nc::error::AppError;
use bose_nc::output::{Report, SelectionNotice};

fn dev(name: &str, address: &str, vendor: Option<u16>, product: Option<u16>) -> BluetoothDevice {
    BluetoothDevice {
        name: name.to_string(),
        address: address.to_string(),
        vendor_id: vendor,
        product_id: product,
    }
}

fn bose(name: &str, address: &str, product: u16) -> BluetoothDevice {
    dev(name, address, Some(BOSE_VENDOR_ID), Some(product))
}

fn listing(devices: Vec<BluetoothDevice>) -> Result<Vec<BluetoothDevice>, SystemProfilerError> {
    Ok(devices)
}

fn select(devices: Vec<BluetoothDevice>, filter: Option<&str>) -> SelectedDevice {
    find_device(listing(devices), filter).unwrap()
}

#[test]
fn resolves_known_products() {
    assert_eq!(resolve_profile(0x4024), Some(Model::Nc700));
    assert_eq!(resolve_profile(0x4066), Some(Model::QcUltra));
    assert_eq!(resolve_profile(0x400C), Some(Model::Qc35));
    assert_eq!(resolve_profile(0x4039), Some(Model::Qc45));
    assert_eq!(resolve_profile(0x402F), Some(Model::QcEarbuds));
    assert_eq!(resolve_profile(0x1234), None);
    assert!(matches!(
        resolve_device_profile(&dev("x", "a", Some(BOSE_VENDOR_ID), None)),
        Err(DeviceError::UnsupportedDevice(0))
    ));
    assert!(matches!(
        resolve_device_profile(&bose("x", "a", 0x1234)),
        Err(DeviceError::UnsupportedDevice(0x1234))
    ));
}

#[test]
fn device_info_of_known_model() {
    let info = device_info(&bose("NC", "a", 0x4024)).unwrap();
    assert_eq!(info.product_name, "Bose NC 700");
    assert_eq!(info.max_nc_level, 10);
    assert_eq!(info.capabilities.len(), 3);
    assert!(device_info(&bose("?", "a", 0x0001)).is_none());
}

#[test]
fn bose_devices_are_kept_in_order() {
    let kept = list_bose_devices(listing(vec![
        bose("A", "1", 0x4024),
        dev("Mouse", "2", Some(0x004C), Some(1)),
        dev("NoVendor", "3", None, None),
        bose("B", "4", 0x4066),
    ]));
    let names: Vec<&str> = kept.iter().map(|d| d.name.as_str()).collect();
    assert_eq!(names, vec!["A", "B"]);
    assert!(list_bose_devices(Err(SystemProfilerError::TypeNotFound)).is_empty());
}

#[test]
fn no_device_found() {
    assert!(matches!(find_device(listing(vec![]), None), Err(AppError::NoDeviceFound)));
    let only_other = vec![dev("Mouse", "2", Some(0x004C), Some(1))];
    assert!(matches!(find_device(listing(only_other), None), Err(AppError::NoDeviceFound)));
}

#[test]
fn no_match_lists_available() {
    let r = find_device(
        listing(vec![bose("Bose NC 700", "1", 0x4024), bose("Bose QC45", "2", 0x4039)]),
        Some("Ultra"),
    );
    match r {
        Err(AppError::NoMatch { filter, available }) => {
            assert_eq!(filter, "Ultra");
            assert_eq!(available, "Bose NC 700, Bose QC45");
        }
        _ => panic!("expected NoMatch"),
    }
}

#[test]
fn filter_is_case_insensitive() {
    let sel = select(
        vec![bose("Bose NC 700", "1", 0x4024), bose("BOSE QC ULTRA", "2", 0x4066)],
        Some("qc ultra"),
    );
    assert_eq!(sel.device.profile(), Model::QcUltra);
    assert_eq!(sel.device.handle().address(), "2");
    assert!(sel.notices.is_empty());
}

#[test]
fn single_device_without_filter() {
    let sel = select(vec![bose("Bose NC 700", "AC:80", 0x4024)], None);
    assert_eq!(sel.device.profile(), Model::Nc700);
    assert_eq!(sel.device.product_name(), "Bose NC 700");
    assert!(sel.notices.is_empty());
}

#[test]
fn multiple_matches_use_first_with_notice() {
    let sel = select(
        vec![bose("Bose NC 700", "1", 0x4024), bose("Bose QC45", "2", 0x4039)],
        Some("bose"),
    );
    assert_eq!(sel.device.profile(), Model::Nc700);
    assert_eq!(sel.notices.len(), 1);
    let SelectionNotice::MultipleMatches { matched, selected } = &sel.notices[0];
    assert_eq!(matched.len(), 2);
    assert_eq!(matched[1].name, "Bose QC45");
    assert_eq!(matched[1].address, "2");
    assert_eq!(selected.name, "Bose NC 700");
}

#[test]
fn unsupported_first_match_fails() {
    let r = find_device(listing(vec![bose("Bose Sport", "1", 0x1234)]), None);
    assert!(matches!(r, Err(AppError::Device(DeviceError::UnsupportedDevice(0x1234)))));
}

#[test]
fn invalid_address_fails_connection() {
    assert!(matches!(
        connect_device(&bose("NC", "A\0B", 0x4024)),
        Err(DeviceError::RfcommError(RfcommError::InvalidAddress(_)))
    ));
}

#[test]
fn summary_copies_name_and_address() {
    let s = summarize(&bose("NC", "AC", 0x4024));
    assert_eq!((s.name.as_str(), s.address.as_str()), ("NC", "AC"));
}

#[test]
fn scan_describes_devices() {
    let report = run_scan(listing(vec![
        bose("Bose NC 700", "1", 0x4024),
        bose("Bose Sport", "2", 0x1234),
        dev("Mouse", "3", Some(0x004C), Some(1)),
    ]));
    let Report::Scan(scan) = report else { panic!("not a scan") };
    assert_eq!(scan.items.len(), 2);
    assert_eq!(scan.items[0].product.as_deref(), Some("Bose NC 700"));
    assert_eq!(scan.items[0].max_level, Some(10));
    assert_eq!(scan.items[0].capabilities, vec!["nc_get", "nc_set", "nc_off"]);
    assert_eq!(scan.items[1].name, "Bose Sport");
    assert_eq!(scan.items[1].product, None);
    assert_eq!(scan.items[1].max_level, None);
    assert!(scan.items[1].capabilities.is_empty());
}

fn nc700() -> SelectedDevice {
    select(vec![bose("Bose NC 700", "1", 0x4024)], None)
}

fn reply(packet: Packet) -> (i32, Vec<u8>) {
    let mut buf = packet.to_bytes();
    let n = buf.len() as i32;
    buf.resize(256, 0);
    (n, buf)
}

#[test]
fn status_from_reply() {
    let sel = nc700();
    assert_eq!(sel.device.nc_status_request(), vec![0x01, 0x05, 0x01, 0x00]);
    let (code, buf) = reply(Packet::new(0x01, 0x05, OP_STATUS, vec![0x0B, 0x03, 0x01]));
    assert!(status_reply_in_domain(sel.device.profile(), code, &buf));
    match run_status(sel, code, &buf).unwrap() {
        Report::Status(s) => {
            assert_eq!((s.level, s.max_level, s.enabled), (7, 10, true));
        }
        _ => panic!("not a status report"),
    }
}

#[test]
fn status_error_response_is_hex() {
    let (code, buf) = reply(Packet::new(0x01, 0x05, OP_ERROR, vec![0x0B, 0x05]));
    match run_status(nc700(), code, &buf) {
        Err(AppError::Device(DeviceError::ResponseError(s))) => assert_eq!(s, "[0b, 05]"),
        _ => panic!("expected a response error"),
    }
}

#[test]
fn status_transport_failures() {
    let buf = [0u8; 256];
    assert!(matches!(
        run_status(nc700(), 0, &buf),
        Err(AppError::Device(DeviceError::RfcommError(RfcommError::NoResponse)))
    ));
    assert!(matches!(
        run_status(nc700(), -2, &buf),
        Err(AppError::Device(DeviceError::RfcommError(RfcommError::InvalidResponse)))
    ));
    assert!(matches!(
        run_status(nc700(), 2, &buf),
        Err(AppError::Device(DeviceError::BmapParsing(_)))
    ));
}

#[test]
fn qc35_status_reply_domain() {
    let sel = select(vec![bose("QC35", "1", 0x400C)], None);
    let (code, buf) = reply(Packet::new(0x01, 0x06, OP_STATUS, vec![0x09, 0x0b]));
    assert!(!status_reply_in_domain(sel.device.profile(), code, &buf));
    let (code, buf) = reply(Packet::new(0x01, 0x06, OP_STATUS, vec![0x02, 0x0b]));
    assert!(status_reply_in_domain(sel.device.profile(), code, &buf));
    assert!(!status_reply_in_domain(sel.device.profile(), 300, &buf));
    assert!(status_reply_in_domain(sel.device.profile(), -9, &buf));
}

#[test]
fn set_checks_level_against_model() {
    let sel = select(vec![bose("QC45", "1", 0x4039)], None);
    match set_transfer(&sel, 2) {
        Err(AppError::NcLevelExceeded { level, max, product }) => {
            assert_eq!((level, max, product.as_str()), (2, 1, "Bose QC45"));
        }
        _ => panic!("expected NcLevelExceeded"),
    }
    assert!(matches!(run_set(sel, 2, 0), Err(AppError::NcLevelExceeded { .. })));
}

#[test]
fn set_sends_command_and_reports() {
    let sel = nc700();
    let t = set_transfer(&sel, 4).unwrap();
    assert_eq!(t.bytes, vec![0x01, 0x05, 0x02, 0x02, 0x06, 0x01]);
    assert_eq!(t.repeat, 2);
    match run_set(sel, 4, 0).unwrap() {
        Report::SetLevel(s) => assert_eq!(s.level, 4),
        _ => panic!("not a set report"),
    }
    assert!(matches!(
        run_set(nc700(), 4, -4),
        Err(AppError::Device(DeviceError::RfcommError(RfcommError::FailedToWrite)))
    ));
}

#[test]
fn off_only_where_supported() {
    let qc45 = select(vec![bose("QC45", "1", 0x4039)], None);
    assert!(matches!(
        off_transfer(&qc45),
        Err(AppError::Device(DeviceError::NcDisableNotSupported))
    ));
    assert!(matches!(
        run_off(qc45, 0),
        Err(AppError::Device(DeviceError::NcDisableNotSupported))
    ));
    let buds = select(vec![bose("Buds", "1", 0x402F)], None);
    let t = off_transfer(&buds).unwrap();
    assert_eq!(t.bytes, vec![0x1f, 0x03, 0x05, 0x02, 0x03, 0x01]);
    assert!(matches!(run_off(buds, 0), Ok(Report::Off(_))));
    assert!(matches!(
        run_set(nc700(), 4, -5),
        Err(AppError::Device(DeviceError::RfcommError(RfcommError::InvalidResponse)))
    ));
    assert!(matches!(
        run_off(nc700(), -1),
        Err(AppError::Device(DeviceError::RfcommError(RfcommError::NoResponse)))
    ));
}

#[test]
fn every_model_frames_its_commands() {
    for m in [Model::Nc700, Model::QcUltra, Model::Qc35, Model::Qc45, Model::QcEarbuds] {
        let get = m.build_nc_get();
        assert_eq!(Packet::parse(&get).unwrap().to_bytes(), get);
        for level in 0..=m.max_nc_level() {
            let set = m.build_nc_set(level);
            assert_eq!(Packet::parse(&set).unwrap().to_bytes(), set);
        }
        if let Some(off) = m.build_nc_off() {
            assert_eq!(Packet::parse(&off).unwrap().to_bytes(), off);
        }
    }
}
