use bose_nc::json::{parse_json, to_pretty_string, JsonValue};
use bose_nc::text::{contains, decimal_string, hex_list_string, join_strings, to_lowercase};

#[test]
fn decimals() {
    assert_eq!(decimal_string(0), "0");
    assert_eq!(decimal_string(7), "7");
    assert_eq!(decimal_string(10), "10");
    assert_eq!(decimal_string(99), "99");
    assert_eq!(decimal_string(100), "100");
    assert_eq!(decimal_string(255), "255");
    for n in 0..=255u8 {
        assert_eq!(decimal_string(n), n.to_string());
    }
}

#[test]
fn hex_lists_match_debug_format() {
    assert_eq!(hex_list_string(&[]), "[]");
    assert_eq!(hex_list_string(&[0x0b, 0x05, 0xff]), "[0b, 05, ff]");
    let bytes: Vec<u8> = (0..=255u8).collect();
    assert_eq!(hex_list_string(&bytes), format!("{:02x?}", bytes));
}

#[test]
fn substring_search() {
    assert!(contains("bose nc 700", "nc 7"));
    assert!(contains("abc", ""));
    assert!(contains("", ""));
    assert!(!contains("", "a"));
    assert!(!contains("abc", "abcd"));
    assert!(contains("aab", "ab"));
    assert!(!contains("abc", "ac"));
    assert!(contains("ÄÖü", "Öü"));
}

#[test]
fn lowercase_folds_case() {
    assert_eq!(to_lowercase("Bose QC Ultra"), "bose qc ultra");
    assert_eq!(to_lowercase("ÄB"), "äb");
}

#[test]
fn join_with_separator() {
    assert_eq!(join_strings(&vec![], ", "), "");
    assert_eq!(join_strings(&vec!["a".to_string()], ", "), "a");
    assert_eq!(join_strings(&vec!["a".to_string(), "b".to_string(), "c".to_string()], ", "), "a, b, c");
}

#[test]
fn json_parse_and_pretty_text() {
    let v = parse_json(br#"{"b": [1, "x", null], "a": true}"#).unwrap();
    match &v {
        JsonValue::Object(m) => {
            assert_eq!(m[0].0, "a");
            assert!(matches!(m[0].1, JsonValue::Bool(true)));
            match &m[1].1 {
                JsonValue::Array(items) => {
                    assert!(matches!(&items[0], JsonValue::Number(n) if n == "1"));
                    assert!(matches!(&items[1], JsonValue::String(s) if s == "x"));
                    assert!(matches!(&items[2], JsonValue::Null));
                }
                _ => panic!("not an array"),
            }
        }
        _ => panic!("not an object"),
    }
    assert!(parse_json(b"{").is_err());
    assert_eq!(
        to_pretty_string(&v).unwrap(),
        "{\n  \"a\": true,\n  \"b\": [\n    1,\n    \"x\",\n    null\n  ]\n}"
    );
    assert!(to_pretty_string(&JsonValue::Number("1e".to_string())).is_err());
}
