//! Reports and what is printed for them, as text lines or as a JSON value.
use vstd::prelude::*;

use crate::error::AppError;
use crate::json::{integer_numbers, pretty_json, to_pretty_string, JsonValue};
use crate::text::{decimal, join, join_strings, push_decimal, strings_view};

verus! {

#[derive(Clone, Copy)]
pub enum OutputFormat {
    Text,
    Json,
}

#[derive(Debug)]
pub struct DeviceSummary {
    pub name: String,
    pub address: String,
}

#[derive(Debug)]
pub enum SelectionNotice {
    MultipleMatches { matched: Vec<DeviceSummary>, selected: DeviceSummary },
}

pub struct ScanItem {
    pub name: String,
    pub address: String,
    pub product: Option<String>,
    pub max_level: Option<u8>,
    pub capabilities: Vec<String>,
}

pub struct ScanReport {
    pub items: Vec<ScanItem>,
}

pub struct StatusReport {
    pub notices: Vec<SelectionNotice>,
    pub enabled: bool,
    pub level: u8,
    pub max_level: u8,
}

pub struct SetReport {
    pub notices: Vec<SelectionNotice>,
    pub level: u8,
}

pub struct OffReport {
    pub notices: Vec<SelectionNotice>,
}

pub struct VersionReport {
    pub version: &'static str,
}

pub enum Report {
    Scan(ScanReport),
    Status(StatusReport),
    SetLevel(SetReport),
    Off(OffReport),
    Version(VersionReport),
}

/// One printed line, for standard output or standard error.
pub enum Line {
    Stdout(String),
    Stderr(String),
}

pub enum LineView {
    Stdout(Seq<char>),
    Stderr(Seq<char>),
}

impl View for Line {
    type V = LineView;

    open spec fn view(&self) -> LineView {
        match self {
            Line::Stdout(s) => LineView::Stdout(s@),
            Line::Stderr(s) => LineView::Stderr(s@),
        }
    }
}

/// What printing a report produces: text lines, or a JSON value and its
/// pretty text, which goes to standard output.
pub enum Printout {
    Text(Vec<Line>),
    Json { value: JsonValue, text: String },
}

/// The pretty text of a JSON value whose numbers are integers.
fn pretty(value: JsonValue) -> (r: Result<Printout, AppError>)
    requires
        integer_numbers(value),
    ensures
        r matches Ok(Printout::Json { value: v, text }) && v == value && pretty_json(value) == Some(
            text@,
        ),
{
    match to_pretty_string(&value) {
        Ok(text) => Ok(Printout::Json { value, text }),
        Err(message) => Err(AppError::Output(message)),
    }
}

pub open spec fn lines_view(lines: Seq<Line>) -> Seq<LineView> {
    lines.map_values(|l: Line| l@)
}

/// `  name (address)`
pub open spec fn device_line(name: Seq<char>, address: Seq<char>) -> Seq<char> {
    "  "@ + name + " ("@ + address + ")"@
}

pub open spec fn matched_lines(matched: Seq<DeviceSummary>) -> Seq<LineView>
    decreases matched.len(),
{
    if matched.len() == 0 {
        seq![]
    } else {
        matched_lines(matched.drop_last()) + seq![
            LineView::Stderr(device_line(matched.last().name@, matched.last().address@)),
        ]
    }
}

pub open spec fn notice_lines(notice: SelectionNotice) -> Seq<LineView> {
    match notice {
        SelectionNotice::MultipleMatches { matched, selected } => seq![
            LineView::Stderr("Multiple Bose devices found:"@),
        ] + matched_lines(matched@) + seq![LineView::Stderr("Using first: "@ + selected.name@)],
    }
}

pub open spec fn notices_lines(notices: Seq<SelectionNotice>) -> Seq<LineView>
    decreases notices.len(),
{
    if notices.len() == 0 {
        seq![]
    } else {
        notices_lines(notices.drop_last()) + notice_lines(notices.last())
    }
}

pub open spec fn item_lines(item: ScanItem) -> Seq<LineView> {
    seq![LineView::Stdout(device_line(item.name@, item.address@))] + match item.max_level {
        Some(m) => seq![
            LineView::Stdout("    NC levels: 0-"@ + decimal(m as nat)),
            LineView::Stdout(
                "    Capabilities: "@ + join(strings_view(item.capabilities@), ", "@),
            ),
        ],
        None => seq![LineView::Stdout("    (unsupported model)"@)],
    }
}

pub open spec fn items_lines(items: Seq<ScanItem>) -> Seq<LineView>
    decreases items.len(),
{
    if items.len() == 0 {
        seq![]
    } else {
        items_lines(items.drop_last()) + item_lines(items.last())
    }
}

/// The text of a scan.
pub open spec fn scan_text(items: Seq<ScanItem>) -> Seq<LineView> {
    if items.len() == 0 {
        seq![LineView::Stdout("No connected Bose devices found."@)]
    } else {
        items_lines(items)
    }
}

/// The text of a report: selection notices on standard error, then the
/// result on standard output.
pub open spec fn report_text(report: Report) -> Seq<LineView> {
    match report {
        Report::Scan(r) => scan_text(r.items@),
        Report::Status(r) => notices_lines(r.notices@) + if r.enabled {
            seq![
                LineView::Stdout(
                    "Noise cancellation: ON (level "@ + decimal(r.level as nat) + "/"@ + decimal(
                        r.max_level as nat,
                    ) + ")"@,
                ),
            ]
        } else {
            seq![LineView::Stdout("Noise cancellation: OFF"@)]
        },
        Report::SetLevel(r) => notices_lines(r.notices@) + seq![
            LineView::Stdout("Noise cancellation: ON (level "@ + decimal(r.level as nat) + ")"@),
        ],
        Report::Off(r) => notices_lines(r.notices@) + seq![LineView::Stdout("Noise cancellation: OFF"@)],
        Report::Version(r) => seq![LineView::Stdout("bose-nc "@ + r.version@)],
    }
}

/// `v` is the JSON string `s`.
pub open spec fn is_json_str(v: JsonValue, s: Seq<char>) -> bool {
    v matches JsonValue::String(x) && x@ == s
}

/// `v` is the JSON number `n`.
pub open spec fn is_json_num(v: JsonValue, n: nat) -> bool {
    v matches JsonValue::Number(x) && x@ == decimal(n)
}

/// `m` is the member `key`.
pub open spec fn has_key(m: (String, JsonValue), key: Seq<char>) -> bool {
    m.0@ == key
}

/// The JSON form of one scanned device: name and address, then, for a known
/// model, product, maximum level and capabilities.
pub open spec fn item_json(v: JsonValue, item: ScanItem) -> bool {
    v matches JsonValue::Object(members) && {
        let m = members@;
        &&& m.len() >= 2
        &&& has_key(m[0], "name"@) && is_json_str(m[0].1, item.name@)
        &&& has_key(m[1], "address"@) && is_json_str(m[1].1, item.address@)
        &&& match item.product {
            None => m.len() == 2,
            Some(p) => {
                &&& m.len() == 5
                &&& has_key(m[2], "product"@) && is_json_str(m[2].1, p@)
                &&& has_key(m[3], "max_level"@) && is_json_num(
                    m[3].1,
                    match item.max_level {
                        Some(l) => l as nat,
                        None => 0,
                    },
                )
                &&& has_key(m[4], "capabilities"@)
                &&& m[4].1 matches JsonValue::Array(cs) && cs@.len() == item.capabilities@.len()
                    && forall|j: int|
                    0 <= j < cs@.len() ==> is_json_str(
                        #[trigger] cs@[j],
                        item.capabilities@[j]@,
                    )
            },
        }
    }
}

/// The JSON form of a scan: one object per device.
pub open spec fn scan_json(v: JsonValue, items: Seq<ScanItem>) -> bool {
    v matches JsonValue::Array(vs) && vs@.len() == items.len() && forall|i: int|
        0 <= i < items.len() ==> item_json(#[trigger] vs@[i], items[i])
}

/// The JSON form of a report (notices are not part of it).
pub open spec fn report_json(v: JsonValue, report: Report) -> bool {
    match report {
        Report::Scan(r) => scan_json(v, r.items@),
        Report::Status(r) => v matches JsonValue::Object(m) && m@.len() == 3 && has_key(
            m@[0],
            "enabled"@,
        ) && m@[0].1 == JsonValue::Bool(r.enabled) && has_key(m@[1], "level"@) && is_json_num(
            m@[1].1,
            r.level as nat,
        ) && has_key(m@[2], "max_level"@) && is_json_num(m@[2].1, r.max_level as nat),
        Report::SetLevel(r) => v matches JsonValue::Object(m) && m@.len() == 1 && has_key(
            m@[0],
            "level"@,
        ) && is_json_num(m@[0].1, r.level as nat),
        Report::Off(_) => v matches JsonValue::Object(m) && m@.len() == 1 && has_key(
            m@[0],
            "enabled"@,
        ) && m@[0].1 == JsonValue::Bool(false),
        Report::Version(r) => v matches JsonValue::Object(m) && m@.len() == 1 && has_key(
            m@[0],
            "version"@,
        ) && is_json_str(m@[0].1, r.version@),
    }
}

proof fn lemma_item_json_integer(v: JsonValue, item: ScanItem)
    requires
        item_json(v, item),
    ensures
        integer_numbers(v),
{
    if let JsonValue::Object(members) = v {
        let m = members@;
        assert forall|i: int| 0 <= i < m.len() implies integer_numbers(#[trigger] m[i].1) by {
            if i == 3 {
                let l: nat = match item.max_level {
                    Some(l) => l as nat,
                    None => 0,
                };
                assert(m[3].1 matches JsonValue::Number(x) && x@ == decimal(l));
            }
            if i == 4 {
                if let JsonValue::Array(cs) = m[4].1 {
                    assert forall|j: int| 0 <= j < cs@.len() implies integer_numbers(
                        #[trigger] cs@[j],
                    ) by {
                        assert(is_json_str(cs@[j], item.capabilities@[j]@));
                    }
                }
            }
        }
    }
}

proof fn lemma_scan_json_integer(v: JsonValue, items: Seq<ScanItem>)
    requires
        scan_json(v, items),
    ensures
        integer_numbers(v),
{
    if let JsonValue::Array(vs) = v {
        assert forall|i: int| 0 <= i < vs@.len() implies integer_numbers(#[trigger] vs@[i]) by {
            lemma_item_json_integer(vs@[i], items[i]);
        }
    }
}

proof fn lemma_report_json_integer(v: JsonValue, report: Report)
    requires
        report_json(v, report),
    ensures
        integer_numbers(v),
{
    match report {
        Report::Scan(r) => lemma_scan_json_integer(v, r.items@),
        Report::Status(r) => {
            if let JsonValue::Object(members) = v {
                let m = members@;
                assert(m[1].1 matches JsonValue::Number(x) && x@ == decimal(r.level as nat));
                assert(m[2].1 matches JsonValue::Number(x) && x@ == decimal(r.max_level as nat));
                assert forall|i: int| 0 <= i < m.len() implies integer_numbers(#[trigger] m[i].1) by {}
            }
        },
        Report::SetLevel(r) => {
            if let JsonValue::Object(members) = v {
                let m = members@;
                assert(m[0].1 matches JsonValue::Number(x) && x@ == decimal(r.level as nat));
                assert forall|i: int| 0 <= i < m.len() implies integer_numbers(#[trigger] m[i].1) by {}
            }
        },
        _ => {
            if let JsonValue::Object(members) = v {
                let m = members@;
                assert forall|i: int| 0 <= i < m.len() implies integer_numbers(#[trigger] m[i].1) by {}
            }
        },
    }
}

fn device_line_string(name: &String, address: &String) -> (s: String)
    ensures
        s@ == device_line(name@, address@),
{
    let mut s = String::from_str("  ");
    s.append(name.as_str());
    s.append(" (");
    s.append(address.as_str());
    s.append(")");
    s
}

fn push_notice_lines(out: &mut Vec<Line>, notices: &Vec<SelectionNotice>)
    ensures
        lines_view(final(out)@) == lines_view(old(out)@) + notices_lines(notices@),
{
    let mut i: usize = 0;
    let ghost start = lines_view(out@);
    assert(notices@.take(0) =~= Seq::<SelectionNotice>::empty());
    while i < notices.len()
        invariant
            i <= notices@.len(),
            lines_view(out@) == start + notices_lines(notices@.take(i as int)),
        decreases notices.len() - i,
    {
        let ghost before = lines_view(out@);
        match &notices[i] {
            SelectionNotice::MultipleMatches { matched, selected } => {
                out.push(Line::Stderr(String::from_str("Multiple Bose devices found:")));
                let ghost head = lines_view(out@);
                assert(head =~= before + seq![LineView::Stderr("Multiple Bose devices found:"@)]);
                let mut j: usize = 0;
                assert(matched@.take(0) =~= Seq::<DeviceSummary>::empty());
                while j < matched.len()
                    invariant
                        j <= matched@.len(),
                        lines_view(out@) == head + matched_lines(matched@.take(j as int)),
                    decreases matched.len() - j,
                {
                    let ghost b = lines_view(out@);
                    out.push(Line::Stderr(device_line_string(&matched[j].name, &matched[j].address)));
                    proof {
                        let t = matched@.take(j + 1);
                        assert(t.drop_last() =~= matched@.take(j as int));
                        assert(lines_view(out@) =~= b + seq![
                            LineView::Stderr(device_line(t.last().name@, t.last().address@)),
                        ]);
                    }
                    j = j + 1;
                }
                assert(matched@.take(matched@.len() as int) =~= matched@);
                let ghost mid = lines_view(out@);
                let mut last = String::from_str("Using first: ");
                last.append(selected.name.as_str());
                out.push(Line::Stderr(last));
                proof {
                    assert(lines_view(out@) =~= mid + seq![LineView::Stderr("Using first: "@ + selected.name@)]);
                    assert(notices@[i as int] == SelectionNotice::MultipleMatches { matched: *matched, selected: *selected });
                    assert(lines_view(out@) =~= before + notice_lines(notices@[i as int]));
                }
            },
        }
        proof {
            let t = notices@.take(i + 1);
            assert(t.drop_last() =~= notices@.take(i as int));
            assert(lines_view(out@) =~= start + notices_lines(t));
        }
        i = i + 1;
    }
    assert(notices@.take(notices@.len() as int) =~= notices@);
}

fn push_item_lines(out: &mut Vec<Line>, item: &ScanItem)
    ensures
        lines_view(final(out)@) == lines_view(old(out)@) + item_lines(*item),
{
    out.push(Line::Stdout(device_line_string(&item.name, &item.address)));
    match item.max_level {
        Some(m) => {
            let mut levels = String::from_str("    NC levels: 0-");
            push_decimal(&mut levels, m);
            out.push(Line::Stdout(levels));
            let mut caps = String::from_str("    Capabilities: ");
            let joined = join_strings(&item.capabilities, ", ");
            caps.append(joined.as_str());
            out.push(Line::Stdout(caps));
        },
        None => {
            out.push(Line::Stdout(String::from_str("    (unsupported model)")));
        },
    }
    assert(lines_view(final(out)@) =~= lines_view(old(out)@) + item_lines(*item));
}

fn print_scan_text(items: &Vec<ScanItem>) -> (lines: Vec<Line>)
    ensures
        lines_view(lines@) == scan_text(items@),
{
    let mut out: Vec<Line> = Vec::new();
    if items.len() == 0 {
        out.push(Line::Stdout(String::from_str("No connected Bose devices found.")));
        assert(lines_view(out@) =~= scan_text(items@));
        return out;
    }
    let mut i: usize = 0;
    assert(items@.take(0) =~= Seq::<ScanItem>::empty());
    assert(lines_view(out@) =~= Seq::<LineView>::empty());
    while i < items.len()
        invariant
            i <= items@.len(),
            lines_view(out@) == items_lines(items@.take(i as int)),
        decreases items.len() - i,
    {
        push_item_lines(&mut out, &items[i]);
        proof {
            let t = items@.take(i + 1);
            assert(t.drop_last() =~= items@.take(i as int));
        }
        i = i + 1;
    }
    assert(items@.take(items@.len() as int) =~= items@);
    out
}

fn json_str(s: &String) -> (v: JsonValue)
    ensures
        is_json_str(v, s@),
{
    JsonValue::String(s.clone())
}

fn json_num(n: u8) -> (v: JsonValue)
    ensures
        is_json_num(v, n as nat),
{
    JsonValue::Number(crate::text::decimal_string(n))
}

fn item_json_value(item: &ScanItem) -> (v: JsonValue)
    ensures
        item_json(v, *item),
{
    let mut members: Vec<(String, JsonValue)> = Vec::new();
    members.push((String::from_str("name"), json_str(&item.name)));
    members.push((String::from_str("address"), json_str(&item.address)));
    match &item.product {
        Some(product) => {
            members.push((String::from_str("product"), json_str(product)));
            let max_level = match item.max_level {
                Some(l) => l,
                None => 0,
            };
            members.push((String::from_str("max_level"), json_num(max_level)));
            let mut caps: Vec<JsonValue> = Vec::new();
            let mut j: usize = 0;
            while j < item.capabilities.len()
                invariant
                    j <= item.capabilities@.len(),
                    caps@.len() == j,
                    forall|k: int| 0 <= k < j ==> is_json_str(#[trigger] caps@[k], item.capabilities@[k]@),
                decreases item.capabilities.len() - j,
            {
                caps.push(json_str(&item.capabilities[j]));
                j = j + 1;
            }
            members.push((String::from_str("capabilities"), JsonValue::Array(caps)));
        },
        None => {},
    }
    JsonValue::Object(members)
}

fn print_scan_json(items: &Vec<ScanItem>) -> (v: JsonValue)
    ensures
        scan_json(v, items@),
{
    let mut vs: Vec<JsonValue> = Vec::new();
    let mut i: usize = 0;
    while i < items.len()
        invariant
            i <= items@.len(),
            vs@.len() == i,
            forall|k: int| 0 <= k < i ==> item_json(#[trigger] vs@[k], items@[k]),
        decreases items.len() - i,
    {
        vs.push(item_json_value(&items[i]));
        i = i + 1;
    }
    JsonValue::Array(vs)
}

/// What is printed for a scan, in either format; the JSON form is the pretty
/// text of the value.
pub fn print_scan(report: &ScanReport, format: OutputFormat) -> (r: Result<Printout, AppError>)
    ensures
        match format {
            OutputFormat::Text => r matches Ok(Printout::Text(lines)) && lines_view(lines@)
                == scan_text(report.items@),
            OutputFormat::Json => r matches Ok(Printout::Json { value, text }) && scan_json(
                value,
                report.items@,
            ) && pretty_json(value) == Some(text@),
        },
{
    match format {
        OutputFormat::Text => Ok(Printout::Text(print_scan_text(&report.items))),
        OutputFormat::Json => {
            let value = print_scan_json(&report.items);
            proof {
                lemma_scan_json_integer(value, report.items@);
            }
            pretty(value)
        },
    }
}

fn print_text(report: &Report) -> (lines: Vec<Line>)
    ensures
        lines_view(lines@) == report_text(*report),
{
    let mut out: Vec<Line> = Vec::new();
    assert(lines_view(out@) =~= Seq::<LineView>::empty());
    match report {
        Report::Scan(r) => {
            return print_scan_text(&r.items);
        },
        Report::Status(r) => {
            push_notice_lines(&mut out, &r.notices);
            if r.enabled {
                let mut s = String::from_str("Noise cancellation: ON (level ");
                push_decimal(&mut s, r.level);
                s.append("/");
                push_decimal(&mut s, r.max_level);
                s.append(")");
                out.push(Line::Stdout(s));
            } else {
                out.push(Line::Stdout(String::from_str("Noise cancellation: OFF")));
            }
        },
        Report::SetLevel(r) => {
            push_notice_lines(&mut out, &r.notices);
            let mut s = String::from_str("Noise cancellation: ON (level ");
            push_decimal(&mut s, r.level);
            s.append(")");
            out.push(Line::Stdout(s));
        },
        Report::Off(r) => {
            push_notice_lines(&mut out, &r.notices);
            out.push(Line::Stdout(String::from_str("Noise cancellation: OFF")));
        },
        Report::Version(r) => {
            let mut s = String::from_str("bose-nc ");
            s.append(r.version);
            out.push(Line::Stdout(s));
        },
    }
    assert(lines_view(out@) =~= report_text(*report));
    out
}

fn member(key: &str, value: JsonValue) -> (m: (String, JsonValue))
    ensures
        m.0@ == key@,
        m.1 == value,
{
    (key.to_owned(), value)
}

fn print_json(report: &Report) -> (v: JsonValue)
    ensures
        report_json(v, *report),
{
    match report {
        Report::Scan(r) => print_scan_json(&r.items),
        Report::Status(r) => {
            let mut m: Vec<(String, JsonValue)> = Vec::new();
            m.push(member("enabled", JsonValue::Bool(r.enabled)));
            m.push(member("level", json_num(r.level)));
            m.push(member("max_level", json_num(r.max_level)));
            JsonValue::Object(m)
        },
        Report::SetLevel(r) => {
            let mut m: Vec<(String, JsonValue)> = Vec::new();
            m.push(member("level", json_num(r.level)));
            JsonValue::Object(m)
        },
        Report::Off(_) => {
            let mut m: Vec<(String, JsonValue)> = Vec::new();
            m.push(member("enabled", JsonValue::Bool(false)));
            JsonValue::Object(m)
        },
        Report::Version(r) => {
            let mut m: Vec<(String, JsonValue)> = Vec::new();
            m.push(member("version", JsonValue::String(r.version.to_owned())));
            JsonValue::Object(m)
        },
    }
}

/// What is printed for a report: text lines, or the pretty text of its JSON
/// value on standard output.
pub fn print(report: Report, format: OutputFormat) -> (r: Result<Printout, AppError>)
    ensures
        match format {
            OutputFormat::Text => r matches Ok(Printout::Text(lines)) && lines_view(lines@)
                == report_text(report),
            OutputFormat::Json => r matches Ok(Printout::Json { value, text }) && report_json(
                value,
                report,
            ) && pretty_json(value) == Some(text@),
        },
{
    match format {
        OutputFormat::Text => Ok(Printout::Text(print_text(&report))),
        OutputFormat::Json => {
            let value = print_json(&report);
            proof {
                lemma_report_json_integer(value, report);
            }
            pretty(value)
        },
    }
}


/// The status text's last line says "ON" exactly when noise cancellation is
/// enabled, at whatever level, and then gives the level and its maximum;
/// "OFF" exactly when it is not. The selection notices come before it.
pub proof fn lemma_status_text_follows_enabled(r: StatusReport)
    ensures
        report_text(Report::Status(r)).len() == notices_lines(r.notices@).len() + 1,
        report_text(Report::Status(r)).drop_last() == notices_lines(r.notices@),
        r.enabled ==> report_text(Report::Status(r)).last() == LineView::Stdout(
            "Noise cancellation: ON (level "@ + decimal(r.level as nat) + "/"@ + decimal(
                r.max_level as nat,
            ) + ")"@,
        ),
        !r.enabled ==> report_text(Report::Status(r)).last() == LineView::Stdout(
            "Noise cancellation: OFF"@,
        ),
        report_text(Report::Status(r)).last() matches LineView::Stdout(t) && (t.len() >= 22
            && t.subrange(0, 22) == "Noise cancellation: ON"@) == r.enabled,
{
    reveal_strlit("Noise cancellation: ON (level ");
    reveal_strlit("Noise cancellation: OFF");
    reveal_strlit("Noise cancellation: ON");
    let lines = report_text(Report::Status(r));
    let prefix = notices_lines(r.notices@);
    if r.enabled {
        let t = "Noise cancellation: ON (level "@ + decimal(r.level as nat) + "/"@ + decimal(
            r.max_level as nat,
        ) + ")"@;
        assert(lines =~= prefix + seq![LineView::Stdout(t)]);
        assert(t.subrange(0, 22) =~= "Noise cancellation: ON"@);
    } else {
        assert(lines =~= prefix + seq![LineView::Stdout("Noise cancellation: OFF"@)]);
        assert("Noise cancellation: OFF"@[21] != "Noise cancellation: ON"@[21]);
    }
    assert(lines.drop_last() =~= prefix);
}

} // verus!
