use bose_nc::bluetooth::rfcomm::{check_rfcomm_result, RfcommError, RfcommHandle};
use bose_nc::bluetooth::system_profiler::{
    devices_from_json, list_connected_devices, parse_device, parse_id, SystemProfilerError,
};
use bose_nc::json::JsonValue;

fn s(t: &str) -> String {
    t.to_string()
}

fn obj(members: Vec<(&str, JsonValue)>) -> JsonValue {
    JsonValue::Object(members.into_iter().map(|(k, v)| (s(k), v)).collect())
}

fn device(name: &str, address: Option<&str>, vendor: &str, product: &str) -> JsonValue {
    let mut props = vec![
        ("device_productID", JsonValue::String(s(product))),
        ("device_vendorID", JsonValue::String(s(vendor))),
    ];
    if let Some(a) = address {
        props.insert(0, ("device_address", JsonValue::String(s(a))));
    }
    obj(vec![(name, obj(props))])
}

fn profiler(entries: Vec<JsonValue>) -> JsonValue {
    obj(vec![("SPBluetoothDataType", JsonValue::Array(entries))])
}

#[test]
fn rfcomm_codes() {
    assert!(matches!(check_rfcomm_result(-1), Err(RfcommError::NoResponse)));
    assert!(matches!(check_rfcomm_result(-2), Err(RfcommError::InvalidResponse)));
    assert!(matches!(check_rfcomm_result(-3), Err(RfcommError::FailedToOpenChannel)));
    assert!(matches!(check_rfcomm_result(-4), Err(RfcommError::FailedToWrite)));
    assert!(matches!(check_rfcomm_result(0), Ok(0)));
    assert!(matches!(check_rfcomm_result(12), Ok(12)));
    assert!(matches!(check_rfcomm_result(-5), Err(RfcommError::InvalidResponse)));
    assert!(matches!(check_rfcomm_result(i32::MIN), Err(RfcommError::InvalidResponse)));
}

#[test]
fn handle_refuses_nul_in_address() {
    match RfcommHandle::new("AA-BB\0CC") {
        Err(RfcommError::InvalidAddress(a)) => assert_eq!(a, "AA-BB\0CC"),
        _ => panic!("address with NUL accepted"),
    }
    let h = RfcommHandle::new("AC-80-0A-11-22-33").unwrap();
    assert_eq!(h.address(), "AC-80-0A-11-22-33");
}

#[test]
fn handle_received_slices_buffer() {
    let h = RfcommHandle::new("AC-80").unwrap();
    let buf = [1u8, 2, 3, 4, 5];
    assert_eq!(h.received(3, &buf).unwrap(), vec![1, 2, 3]);
    assert!(matches!(h.received(0, &buf), Err(RfcommError::NoResponse)));
    assert!(matches!(h.received(-3, &buf), Err(RfcommError::FailedToOpenChannel)));
    assert!(h.sent(7).is_ok());
    assert!(matches!(h.sent(-4), Err(RfcommError::FailedToWrite)));
    assert!(matches!(h.sent(-7), Err(RfcommError::InvalidResponse)));
    assert!(matches!(h.received(-9, &buf), Err(RfcommError::InvalidResponse)));
}

#[test]
fn parse_id_hex() {
    assert_eq!(parse_id("0x4024"), Some(0x4024));
    assert_eq!(parse_id("0x009E"), Some(0x009E));
    assert_eq!(parse_id("400c"), Some(0x400C));
    assert_eq!(parse_id("0x0x12"), Some(0x12));
    assert_eq!(parse_id("+ff"), Some(0xFF));
    assert_eq!(parse_id("0xFFFF"), Some(0xFFFF));
    assert_eq!(parse_id("0x10000"), None);
    assert_eq!(parse_id("0x"), None);
    assert_eq!(parse_id(""), None);
    assert_eq!(parse_id("+"), None);
    assert_eq!(parse_id("-1"), None);
    assert_eq!(parse_id("0xZZ"), None);
    assert_eq!(parse_id("0X12"), None);
}

#[test]
fn parse_id_agrees_with_std() {
    for text in ["0x4024", "12", "0x", "+", "+0", "ffff", "10000", "0x0x0x7", "g", "0x00000000001"] {
        let expected = u16::from_str_radix(text.trim_start_matches("0x"), 16).ok();
        assert_eq!(parse_id(text), expected, "{text}");
    }
}

#[test]
fn parse_device_reads_first_member() {
    let raw = device("Bose NC 700", Some("AC:80"), "0x009E", "0x4024");
    let d = parse_device(&raw).unwrap();
    assert_eq!(d.name, "Bose NC 700");
    assert_eq!(d.address, "AC:80");
    assert_eq!(d.vendor_id, Some(0x009E));
    assert_eq!(d.product_id, Some(0x4024));
}

#[test]
fn parse_device_without_address_is_none() {
    assert!(parse_device(&device("X", None, "0x009E", "0x4024")).is_none());
    assert!(parse_device(&JsonValue::Null).is_none());
    assert!(parse_device(&obj(vec![])).is_none());
}

#[test]
fn parse_device_with_bad_ids() {
    let d = parse_device(&device("X", Some("A"), "nope", "0x")).unwrap();
    assert_eq!(d.vendor_id, None);
    assert_eq!(d.product_id, None);
}

#[test]
fn listing_reads_connected_devices() {
    let entry = obj(vec![(
        "device_connected",
        JsonValue::Array(vec![
            device("A", Some("01"), "0x009E", "0x4024"),
            device("B", None, "0x009E", "0x4024"),
            device("C", Some("03"), "0x004C", "0x0001"),
        ]),
    )]);
    let devices = devices_from_json(&profiler(vec![entry])).unwrap();
    assert_eq!(devices.len(), 2);
    assert_eq!(devices[0].name, "A");
    assert_eq!(devices[1].name, "C");
}

#[test]
fn listing_errors() {
    assert!(matches!(
        devices_from_json(&obj(vec![])),
        Err(SystemProfilerError::TypeNotFound)
    ));
    assert!(matches!(
        devices_from_json(&profiler(vec![obj(vec![]), obj(vec![])])),
        Err(SystemProfilerError::WrongDataCount(2))
    ));
    assert!(devices_from_json(&profiler(vec![obj(vec![])])).unwrap().is_empty());
}

#[test]
fn listing_from_profiler_output() {
    let stdout = br#"{"SPBluetoothDataType": [{"device_connected": [
        {"Bose NC 700": {"device_address": "AC:80", "device_vendorID": "0x009E", "device_productID": "0x4024"}},
        {"Keyboard": {"device_vendorID": "0x004C"}}
    ], "controller_properties": {"controller_state": "attrib_on"}}]}"#;
    let devices = list_connected_devices(stdout).unwrap();
    assert_eq!(devices.len(), 1);
    assert_eq!(devices[0].name, "Bose NC 700");
    assert_eq!(devices[0].address, "AC:80");
    assert_eq!(devices[0].product_id, Some(0x4024));
}

#[test]
fn profiler_output_that_is_not_json() {
    assert!(matches!(list_connected_devices(b"not json"), Err(SystemProfilerError::ParseError(_))));
    assert!(matches!(list_connected_devices(b"[1, 2]"), Err(SystemProfilerError::TypeNotFound)));
}

#[test]
fn parse_id_reads_hex_of_every_id() {
    for v in 0..=u16::MAX {
        assert_eq!(parse_id(&format!("0x{:04X}", v)), Some(v));
        assert_eq!(parse_id(&format!("{:x}", v)), Some(v));
    }
}
