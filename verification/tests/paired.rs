use bose_nc::bluetooth::paired::{from_utf8_lossy, list_connected_bose};

fn listing(text: &[u8], capacity: usize) -> Vec<u8> {
    let mut buf = text.to_vec();
    buf.resize(capacity, 0);
    buf
}

fn pairs(count: i32, buf: &[u8]) -> Vec<(String, String)> {
    list_connected_bose(count, buf).into_iter().map(|d| (d.address, d.name)).collect()
}

fn p(a: &str, n: &str) -> (String, String) {
    (a.to_string(), n.to_string())
}

#[test]
fn paired_lines_are_read() {
    let buf = listing(b"AC-80\tBose NC 700\r\n04-52\tBose QC45\n", 64);
    assert_eq!(pairs(2, &buf), vec![p("AC-80", "Bose NC 700"), p("04-52", "Bose QC45")]);
}

#[test]
fn paired_nothing_for_count_zero_or_less() {
    let buf = listing(b"AC-80\tBose NC 700\n", 64);
    assert!(pairs(0, &buf).is_empty());
    assert!(pairs(-1, &buf).is_empty());
}

#[test]
fn paired_skips_lines_without_tab_and_duplicates() {
    let buf = listing(b"\nno tab here\nAA\tOne\nAA\tTwo\nBB\tName\twith tab\nCC\tlast\r", 80);
    assert_eq!(
        pairs(3, &buf),
        vec![p("AA", "One"), p("BB", "Name\twith tab"), p("CC", "last\r")]
    );
}

#[test]
fn paired_stops_at_nul() {
    let mut buf = b"AA\tOne\n".to_vec();
    buf.push(0);
    buf.extend_from_slice(b"BB\tTwo\n");
    assert_eq!(pairs(1, &buf), vec![p("AA", "One")]);
    // no NUL at all: the whole buffer is the text
    assert_eq!(pairs(1, b"AA\tOne"), vec![p("AA", "One")]);
}

#[test]
fn paired_matches_std_reading() {
    let text = b"X\ty\r\n\r\n\tempty address\nX\tdup\nZ\tz\xff\n";
    let buf = listing(text, 64);
    let end = buf.iter().position(|&b| b == 0).unwrap_or(buf.len());
    let lossy = String::from_utf8_lossy(&buf[..end]);
    let mut seen = std::collections::HashSet::new();
    let expected: Vec<(String, String)> = lossy
        .lines()
        .filter(|l| !l.is_empty())
        .filter_map(|line| {
            let mut parts = line.splitn(2, '\t');
            let address = parts.next()?.to_string();
            let name = parts.next()?.to_string();
            if seen.insert(address.clone()) { Some((address, name)) } else { None }
        })
        .collect();
    assert_eq!(pairs(5, &buf), expected);
}

#[test]
fn lossy_text_replaces_invalid_bytes() {
    assert_eq!(from_utf8_lossy(b"ok"), "ok");
    assert_eq!(from_utf8_lossy(b"a\xffb"), "a\u{FFFD}b");
}
