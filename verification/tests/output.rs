use bose_nc::json::JsonValue;
use bose_nc::output::{
    print, print_scan, DeviceSummary, Line, OffReport, OutputFormat, Printout, Report, ScanItem,
    ScanReport, SelectionNotice, SetReport, StatusReport, VersionReport,
};

fn text(p: Result<Printout, bose_nc::error::AppError>) -> Vec<(bool, String)> {
    match p.unwrap() {
        Printout::Text(lines) => lines
            .into_iter()
            .map(|l| match l {
                Line::Stdout(s) => (false, s),
                Line::Stderr(s) => (true, s),
            })
            .collect(),
        Printout::Json { .. } => panic!("expected text"),
    }
}

fn json(p: Result<Printout, bose_nc::error::AppError>) -> JsonValue {
    match p.unwrap() {
        Printout::Json { value, .. } => value,
        Printout::Text(_) => panic!("expected JSON"),
    }
}

fn out(s: &str) -> (bool, String) {
    (false, s.to_string())
}

fn err(s: &str) -> (bool, String) {
    (true, s.to_string())
}

fn summary(name: &str, address: &str) -> DeviceSummary {
    DeviceSummary { name: name.to_string(), address: address.to_string() }
}

fn item(name: &str, product: Option<&str>, max: Option<u8>, caps: &[&str]) -> ScanItem {
    ScanItem {
        name: name.to_string(),
        address: "AA".to_string(),
        product: product.map(str::to_string),
        max_level: max,
        capabilities: caps.iter().map(|c| c.to_string()).collect(),
    }
}

#[test]
fn status_text() {
    let on = Report::Status(StatusReport { notices: vec![], enabled: true, level: 7, max_level: 10 });
    assert_eq!(text(print(on, OutputFormat::Text)), vec![out("Noise cancellation: ON (level 7/10)")]);
    let off = Report::Status(StatusReport { notices: vec![], enabled: false, level: 7, max_level: 10 });
    assert_eq!(text(print(off, OutputFormat::Text)), vec![out("Noise cancellation: OFF")]);
}

#[test]
fn notices_go_to_stderr_first() {
    let notice = SelectionNotice::MultipleMatches {
        matched: vec![summary("A", "1"), summary("B", "2")],
        selected: summary("A", "1"),
    };
    let report = Report::SetLevel(SetReport { notices: vec![notice], level: 3 });
    assert_eq!(
        text(print(report, OutputFormat::Text)),
        vec![
            err("Multiple Bose devices found:"),
            err("  A (1)"),
            err("  B (2)"),
            err("Using first: A"),
            out("Noise cancellation: ON (level 3)"),
        ]
    );
}

#[test]
fn off_and_version_text() {
    assert_eq!(
        text(print(Report::Off(OffReport { notices: vec![] }), OutputFormat::Text)),
        vec![out("Noise cancellation: OFF")]
    );
    assert_eq!(
        text(print(Report::Version(VersionReport { version: "0.3.1" }), OutputFormat::Text)),
        vec![out("bose-nc 0.3.1")]
    );
}

#[test]
fn scan_text_lines() {
    let empty = ScanReport { items: vec![] };
    assert_eq!(text(print_scan(&empty, OutputFormat::Text)), vec![out("No connected Bose devices found.")]);
    let report = ScanReport {
        items: vec![
            item("Bose NC 700", Some("Bose NC 700"), Some(10), &["nc_get", "nc_set", "nc_off"]),
            item("Other", None, None, &[]),
        ],
    };
    assert_eq!(
        text(print_scan(&report, OutputFormat::Text)),
        vec![
            out("  Bose NC 700 (AA)"),
            out("    NC levels: 0-10"),
            out("    Capabilities: nc_get, nc_set, nc_off"),
            out("  Other (AA)"),
            out("    (unsupported model)"),
        ]
    );
}

fn members(v: &JsonValue) -> Vec<(String, &JsonValue)> {
    match v {
        JsonValue::Object(m) => m.iter().map(|(k, v)| (k.clone(), v)).collect(),
        _ => panic!("not an object"),
    }
}

fn is_num(v: &JsonValue, n: &str) -> bool {
    matches!(v, JsonValue::Number(s) if s == n)
}

fn is_str(v: &JsonValue, t: &str) -> bool {
    matches!(v, JsonValue::String(s) if s == t)
}

#[test]
fn status_json() {
    let notice = SelectionNotice::MultipleMatches { matched: vec![], selected: summary("A", "1") };
    let report = Report::Status(StatusReport { notices: vec![notice], enabled: true, level: 2, max_level: 10 });
    let v = json(print(report, OutputFormat::Json));
    let m = members(&v);
    assert_eq!(m.len(), 3);
    assert_eq!(m[0].0, "enabled");
    assert!(matches!(m[0].1, JsonValue::Bool(true)));
    assert_eq!(m[1].0, "level");
    assert!(is_num(m[1].1, "2"));
    assert_eq!(m[2].0, "max_level");
    assert!(is_num(m[2].1, "10"));
}

#[test]
fn set_off_version_json() {
    let v = json(print(Report::SetLevel(SetReport { notices: vec![], level: 5 }), OutputFormat::Json));
    let m = members(&v);
    assert_eq!(m.len(), 1);
    assert!(m[0].0 == "level" && is_num(m[0].1, "5"));
    let v = json(print(Report::Off(OffReport { notices: vec![] }), OutputFormat::Json));
    let m = members(&v);
    assert!(m.len() == 1 && m[0].0 == "enabled" && matches!(m[0].1, JsonValue::Bool(false)));
    let v = json(print(Report::Version(VersionReport { version: "1.2" }), OutputFormat::Json));
    let m = members(&v);
    assert!(m.len() == 1 && m[0].0 == "version" && is_str(m[0].1, "1.2"));
}

#[test]
fn scan_json_items() {
    let report = ScanReport {
        items: vec![
            item("Bose QC45", Some("Bose QC45"), Some(1), &["nc_get", "nc_set"]),
            item("Other", None, None, &[]),
        ],
    };
    let v = json(print(Report::Scan(report), OutputFormat::Json));
    let JsonValue::Array(items) = v else { panic!("not an array") };
    assert_eq!(items.len(), 2);
    let first = members(&items[0]);
    let keys: Vec<&str> = first.iter().map(|(k, _)| k.as_str()).collect();
    assert_eq!(keys, vec!["name", "address", "product", "max_level", "capabilities"]);
    assert!(is_str(first[0].1, "Bose QC45"));
    assert!(is_num(first[3].1, "1"));
    match first[4].1 {
        JsonValue::Array(cs) => {
            assert_eq!(cs.len(), 2);
            assert!(is_str(&cs[1], "nc_set"));
        }
        _ => panic!("capabilities not an array"),
    }
    let second = members(&items[1]);
    let keys: Vec<&str> = second.iter().map(|(k, _)| k.as_str()).collect();
    assert_eq!(keys, vec!["name", "address"]);
}

fn pretty(p: Result<Printout, bose_nc::error::AppError>) -> String {
    match p.unwrap() {
        Printout::Json { text, .. } => text,
        Printout::Text(_) => panic!("expected JSON"),
    }
}

#[test]
fn status_json_text() {
    let report = Report::Status(StatusReport { notices: vec![], enabled: true, level: 2, max_level: 10 });
    assert_eq!(
        pretty(print(report, OutputFormat::Json)),
        "{\n  \"enabled\": true,\n  \"level\": 2,\n  \"max_level\": 10\n}"
    );
    let off = Report::Off(OffReport { notices: vec![] });
    assert_eq!(pretty(print(off, OutputFormat::Json)), "{\n  \"enabled\": false\n}");
}

#[test]
fn scan_json_text_sorts_keys() {
    let report = ScanReport {
        items: vec![item("Bose QC45", Some("Bose QC45"), Some(1), &["nc_get", "nc_set"])],
    };
    let expected = "[\n  {\n    \"address\": \"AA\",\n    \"capabilities\": [\n      \"nc_get\",\n      \"nc_set\"\n    ],\n    \"max_level\": 1,\n    \"name\": \"Bose QC45\",\n    \"product\": \"Bose QC45\"\n  }\n]";
    assert_eq!(pretty(print_scan(&report, OutputFormat::Json)), expected);
    assert_eq!(pretty(print_scan(&ScanReport { items: vec![] }, OutputFormat::Json)), "[]");
}
