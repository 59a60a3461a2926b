//! The Bluetooth device listing of macOS' `system_profiler -json
//! SPBluetoothDataType`, read from its parsed JSON document.
use vstd::prelude::*;

use crate::json::{json_document, parse_json, spec_array_field, spec_str_field, JsonValue};
use crate::text::str_chars;

verus! {

pub const SP_BLUETOOTH_TYPE: &'static str = "SPBluetoothDataType";

/// Errors that can occur when listing Bluetooth devices through the system
/// profiler.
#[derive(Debug)]
pub enum SystemProfilerError {
    /// The profiler could not be started; the operating system's message.
    FailedToRun(String),
    /// The profiler exited unsuccessfully; its exit status.
    ProcessError(String),
    /// The profiler's output is not JSON; the parser's message.
    ParseError(String),
    TypeNotFound,
    WrongDataCount(usize),
}

/// Represents a Bluetooth device information.
#[derive(Debug)]
pub struct BluetoothDevice {
    pub name: String,
    pub address: String,
    pub vendor_id: Option<u16>,
    pub product_id: Option<u16>,
}

pub struct BluetoothDeviceView {
    pub name: Seq<char>,
    pub address: Seq<char>,
    pub vendor_id: Option<u16>,
    pub product_id: Option<u16>,
}

impl View for BluetoothDevice {
    type V = BluetoothDeviceView;

    open spec fn view(&self) -> BluetoothDeviceView {
        BluetoothDeviceView {
            name: self.name@,
            address: self.address@,
            vendor_id: self.vendor_id,
            product_id: self.product_id,
        }
    }
}

/// The string with every leading "0x" removed.
pub open spec fn strip_hex_prefix(s: Seq<char>) -> Seq<char>
    decreases s.len(),
{
    if s.len() >= 2 && s[0] == '0' && s[1] == 'x' {
        strip_hex_prefix(s.subrange(2, s.len() as int))
    } else {
        s
    }
}

pub open spec fn is_hex_digit(c: char) -> bool {
    let u = c as u32;
    (48 <= u <= 57) || (97 <= u <= 102) || (65 <= u <= 70)
}

pub open spec fn hex_digit_value(c: char) -> nat {
    let u = c as u32;
    if 48 <= u <= 57 {
        (u - 48) as nat
    } else if 97 <= u <= 102 {
        (u - 87) as nat
    } else {
        (u - 55) as nat
    }
}

/// The number that a string of hexadecimal digits stands for.
pub open spec fn hex_value(s: Seq<char>) -> nat
    decreases s.len(),
{
    if s.len() == 0 {
        0
    } else {
        hex_value(s.drop_last()) * 16 + hex_digit_value(s.last())
    }
}

/// The string without a leading `+`.
pub open spec fn without_plus(s: Seq<char>) -> Seq<char> {
    if s.len() > 0 && s[0] == '+' {
        s.drop_first()
    } else {
        s
    }
}

/// Every character is a hexadecimal digit.
pub open spec fn all_hex(s: Seq<char>) -> bool {
    forall|i: int| 0 <= i < s.len() ==> is_hex_digit(#[trigger] s[i])
}

/// What `u16::from_str_radix(s, 16)` accepts: an optional `+`, then one or
/// more hexadecimal digits whose value fits 16 bits.
pub open spec fn spec_u16_from_hex(s: Seq<char>) -> Option<u16> {
    let digits = without_plus(s);
    if digits.len() > 0 && all_hex(digits) && hex_value(digits) <= 0xFFFF {
        Some(hex_value(digits) as u16)
    } else {
        None
    }
}

/// The id that a hexadecimal id string such as `0x4024` stands for.
pub open spec fn spec_parse_id(s: Seq<char>) -> Option<u16> {
    spec_u16_from_hex(strip_hex_prefix(s))
}

proof fn lemma_hex_value_prefix(s: Seq<char>, k: int)
    requires
        0 <= k <= s.len(),
    ensures
        hex_value(s.take(k)) <= hex_value(s),
    decreases s.len(),
{
    if k < s.len() {
        assert(s.drop_last().take(k) =~= s.take(k));
        lemma_hex_value_prefix(s.drop_last(), k);
    } else {
        assert(s.take(k) =~= s);
    }
}

/// `u16::from_str_radix(&s[start..], 16)`, on the characters of `s`.
fn u16_from_hex(s: &Vec<char>, start: usize) -> (r: Option<u16>)
    requires
        start <= s@.len(),
    ensures
        r == spec_u16_from_hex(s@.skip(start as int)),
{
    let ghost t = s@.skip(start as int);
    let mut i = start;
    if i < s.len() && s[i] == '+' {
        i = i + 1;
    }
    let ghost digits = s@.skip(i as int);
    assert(digits =~= without_plus(t));
    if i == s.len() {
        return None;
    }
    let mut acc: u32 = 0;
    let mut j = i;
    while j < s.len()
        invariant
            i <= j <= s@.len(),
            i < s@.len(),
            t == s@.skip(start as int),
            digits == s@.skip(i as int),
            digits == without_plus(t),
            acc <= 0xFFFF,
            acc == hex_value(digits.take(j - i)),
            forall|k: int| 0 <= k < j - i ==> is_hex_digit(#[trigger] digits[k]),
        decreases s.len() - j,
    {
        let c = s[j];
        let u = c as u32;
        let d: u32 = if 48 <= u && u <= 57 {
            u - 48
        } else if 97 <= u && u <= 102 {
            u - 87
        } else if 65 <= u && u <= 70 {
            u - 55
        } else {
            assert(digits[j - i] == c);
            assert(!is_hex_digit(digits[j - i]));
            assert(!all_hex(digits));
            return None;
        };
        proof {
            let p = digits.take(j - i + 1);
            assert(p.drop_last() =~= digits.take(j - i));
            assert(p.last() == c);
        }
        if acc * 16 + d > 0xFFFF {
            proof {
                lemma_hex_value_prefix(digits, j - i + 1);
            }
            return None;
        }
        acc = acc * 16 + d;
        j = j + 1;
    }
    assert(digits.take(j - i) =~= digits);
    Some(acc as u16)
}

/// Parses a hexadecimal id such as `0x4024`: every leading "0x" is removed,
/// then the rest is read as `u16::from_str_radix(.., 16)` reads it.
pub fn parse_id(s: &str) -> (r: Option<u16>)
    ensures
        r == spec_parse_id(s@),
{
    let chars = str_chars(s);
    let mut i: usize = 0;
    assert(chars@.skip(0) =~= chars@);
    while chars.len() - i > 1 && chars[i] == '0' && chars[i + 1] == 'x'
        invariant
            i <= chars@.len(),
            strip_hex_prefix(s@) == strip_hex_prefix(chars@.skip(i as int)),
            chars@ == s@,
        decreases chars.len() - i,
    {
        let ghost rest = chars@.skip(i as int);
        assert(rest.subrange(2, rest.len() as int) =~= chars@.skip(i + 2));
        i = i + 2;
    }
    assert(strip_hex_prefix(chars@.skip(i as int)) == chars@.skip(i as int));
    u16_from_hex(&chars, i)
}

/// The hexadecimal digit `d` (0 to 15), in upper or lower case.
pub open spec fn hex_digit_char(d: nat, upper: bool) -> char {
    if d < 10 {
        (48 + d) as char
    } else if upper {
        (55 + d) as char
    } else {
        (87 + d) as char
    }
}

/// The hexadecimal text of `n` without leading zeros, as `{:x}` (or `{:X}`)
/// writes it.
pub open spec fn hex_text(n: nat, upper: bool) -> Seq<char>
    decreases n,
{
    if n < 16 {
        seq![hex_digit_char(n, upper)]
    } else {
        hex_text(n / 16, upper).push(hex_digit_char(n % 16, upper))
    }
}

/// `k` zero characters.
pub open spec fn zeros(k: nat) -> Seq<char> {
    Seq::new(k, |i: int| '0')
}

proof fn lemma_hex_digit(d: nat, upper: bool)
    requires
        d < 16,
    ensures
        is_hex_digit(hex_digit_char(d, upper)),
        hex_digit_value(hex_digit_char(d, upper)) == d,
{
}

proof fn lemma_hex_text(n: nat, upper: bool)
    ensures
        hex_text(n, upper).len() >= 1,
        all_hex(hex_text(n, upper)),
        hex_value(hex_text(n, upper)) == n,
    decreases n,
{
    let t = hex_text(n, upper);
    if n < 16 {
        lemma_hex_digit(n, upper);
        assert(t.drop_last() =~= Seq::<char>::empty());
        assert(t.last() == hex_digit_char(n, upper));
        assert(hex_value(t) == hex_value(t.drop_last()) * 16 + hex_digit_value(t.last()));
    } else {
        lemma_hex_text(n / 16, upper);
        lemma_hex_digit(n % 16, upper);
        assert(t.drop_last() =~= hex_text(n / 16, upper));
        assert(t.last() == hex_digit_char(n % 16, upper));
        assert(hex_value(t) == hex_value(t.drop_last()) * 16 + hex_digit_value(t.last()));
        assert((n / 16) * 16 + n % 16 == n) by (nonlinear_arith);
        assert forall|i: int| 0 <= i < t.len() implies is_hex_digit(#[trigger] t[i]) by {
            if i < t.len() - 1 {
                assert(t[i] == hex_text(n / 16, upper)[i]);
            }
        }
    }
}

proof fn lemma_zeros_value(k: nat)
    ensures
        hex_value(zeros(k)) == 0,
    decreases k,
{
    if k > 0 {
        assert(zeros(k).drop_last() =~= zeros((k - 1) as nat));
        lemma_zeros_value((k - 1) as nat);
    }
}

proof fn lemma_leading_zeros(k: nat, s: Seq<char>)
    ensures
        hex_value(zeros(k) + s) == hex_value(s),
        all_hex(s) ==> all_hex(zeros(k) + s),
    decreases s.len(),
{
    if s.len() == 0 {
        assert(zeros(k) + s =~= zeros(k));
        lemma_zeros_value(k);
    } else {
        lemma_leading_zeros(k, s.drop_last());
        assert((zeros(k) + s).drop_last() =~= zeros(k) + s.drop_last());
    }
    if all_hex(s) {
        assert forall|i: int| 0 <= i < (zeros(k) + s).len() implies is_hex_digit(
            #[trigger] (zeros(k) + s)[i],
        ) by {
            if i >= k {
                assert((zeros(k) + s)[i] == s[i - k]);
            }
        }
    }
}

/// The hexadecimal text of every id, in upper or lower case, after any
/// number of leading zeros and with or without a "0x" prefix, reads back as
/// that id.
pub proof fn lemma_parse_id_reads_hex(id: u16, leading_zeros: nat, upper: bool, prefixed: bool)
    ensures
        spec_parse_id(
            (if prefixed {
                seq!['0', 'x']
            } else {
                Seq::<char>::empty()
            }) + zeros(leading_zeros) + hex_text(id as nat, upper),
        ) == Some(id),
{
    let digits = hex_text(id as nat, upper);
    let t = zeros(leading_zeros) + digits;
    lemma_hex_text(id as nat, upper);
    lemma_leading_zeros(leading_zeros, digits);
    assert(is_hex_digit(t[0]));
    if t.len() >= 2 {
        assert(is_hex_digit(t[1]));
    }
    assert(strip_hex_prefix(t) == t);
    assert(without_plus(t) == t);
    assert(hex_value(t) == id);
    assert(spec_u16_from_hex(t) == Some(id));
    assert(spec_parse_id(t) == Some(id));
    if prefixed {
        let p = seq!['0', 'x'] + t;
        assert(p.subrange(2, p.len() as int) =~= t);
        assert(strip_hex_prefix(p) == strip_hex_prefix(t));
        assert((seq!['0', 'x'] + zeros(leading_zeros)) + digits =~= p);
    } else {
        assert((Seq::<char>::empty() + zeros(leading_zeros)) + digits =~= t);
    }
}

/// What a raw device entry describes: an object whose first member is named
/// after the device and holds its properties; entries without an address
/// describe nothing.
pub open spec fn spec_parse_device(raw: JsonValue) -> Option<BluetoothDeviceView> {
    match raw {
        JsonValue::Object(members) => if members@.len() == 0 {
            None
        } else {
            let props = members@[0].1;
            match spec_str_field(props, "device_address"@) {
                Some(address) => Some(
                    BluetoothDeviceView {
                        name: members@[0].0@,
                        address,
                        vendor_id: match spec_str_field(props, "device_vendorID"@) {
                            Some(s) => spec_parse_id(s),
                            None => None,
                        },
                        product_id: match spec_str_field(props, "device_productID"@) {
                            Some(s) => spec_parse_id(s),
                            None => None,
                        },
                    },
                ),
                None => None,
            }
        },
        _ => None,
    }
}

fn parse_optional_id(s: Option<&String>) -> (r: Option<u16>)
    ensures
        r == match s {
            Some(s) => spec_parse_id(s@),
            None => None,
        },
{
    match s {
        Some(s) => parse_id(s.as_str()),
        None => None,
    }
}

/// Parses a raw device entry into a [`BluetoothDevice`].
pub fn parse_device(raw: &JsonValue) -> (r: Option<BluetoothDevice>)
    ensures
        match r {
            Some(d) => spec_parse_device(*raw) == Some(d@),
            None => spec_parse_device(*raw) is None,
        },
{
    match raw {
        JsonValue::Object(members) => {
            if members.len() == 0 {
                return None;
            }
            let name = &members[0].0;
            let props = &members[0].1;
            let address = match props.str_field("device_address") {
                Some(a) => a.clone(),
                None => {
                    return None;
                },
            };
            let vendor_id = parse_optional_id(props.str_field("device_vendorID"));
            let product_id = parse_optional_id(props.str_field("device_productID"));
            Some(BluetoothDevice { name: name.clone(), address, product_id, vendor_id })
        },
        _ => None,
    }
}

/// The devices described by raw entries, in order, skipping the entries
/// that describe none.
pub open spec fn spec_parse_devices(raw: Seq<JsonValue>) -> Seq<BluetoothDeviceView>
    decreases raw.len(),
{
    if raw.len() == 0 {
        seq![]
    } else {
        spec_parse_devices(raw.drop_last()) + match spec_parse_device(raw.last()) {
            Some(d) => seq![d],
            None => seq![],
        }
    }
}

/// What the profiler document says: the single `SPBluetoothDataType` entry's
/// connected devices.
pub open spec fn spec_list_connected_devices(json: JsonValue) -> Result<
    Seq<BluetoothDeviceView>,
    SystemProfilerError,
> {
    match spec_array_field(json, SP_BLUETOOTH_TYPE@) {
        None => Err(SystemProfilerError::TypeNotFound),
        Some(entries) => if entries.len() != 1 {
            Err(SystemProfilerError::WrongDataCount(entries.len() as usize))
        } else {
            match spec_array_field(entries[0], "device_connected"@) {
                None => Ok(seq![]),
                Some(raw) => Ok(spec_parse_devices(raw)),
            }
        },
    }
}

/// The devices of a listing result.
pub open spec fn devices_view(devices: Seq<BluetoothDevice>) -> Seq<BluetoothDeviceView> {
    devices.map_values(|d: BluetoothDevice| d@)
}

/// The model of a listing result.
pub open spec fn listing_view(r: Result<Vec<BluetoothDevice>, SystemProfilerError>) -> Result<
    Seq<BluetoothDeviceView>,
    SystemProfilerError,
> {
    match r {
        Ok(v) => Ok(devices_view(v@)),
        Err(e) => Err(e),
    }
}

/// The connected Bluetooth devices of the profiler's JSON document.
pub fn devices_from_json(json: &JsonValue) -> (r: Result<Vec<BluetoothDevice>, SystemProfilerError>)
    ensures
        listing_view(r) == spec_list_connected_devices(*json),
{
    let entries = match json.array_field(SP_BLUETOOTH_TYPE) {
        Some(e) => e,
        None => {
            return Err(SystemProfilerError::TypeNotFound);
        },
    };
    if entries.len() != 1 {
        return Err(SystemProfilerError::WrongDataCount(entries.len()));
    }
    let entry = &entries[0];
    let mut devices: Vec<BluetoothDevice> = Vec::new();
    let raw_devices = match entry.array_field("device_connected") {
        Some(r) => r,
        None => {
            assert(devices_view(devices@) =~= seq![]);
            return Ok(devices);
        },
    };
    let mut i: usize = 0;
    while i < raw_devices.len()
        invariant
            i <= raw_devices@.len(),
            devices_view(devices@) == spec_parse_devices(raw_devices@.take(i as int)),
        decreases raw_devices.len() - i,
    {
        let ghost before = devices@;
        let parsed = parse_device(&raw_devices[i]);
        proof {
            let t = raw_devices@.take(i + 1);
            assert(t.drop_last() =~= raw_devices@.take(i as int));
            assert(t.last() == raw_devices@[i as int]);
        }
        match parsed {
            Some(d) => {
                devices.push(d);
                assert(devices_view(devices@) =~= devices_view(before) + seq![d@]);
            },
            None => {},
        }
        i = i + 1;
    }
    assert(raw_devices@.take(raw_devices@.len() as int) =~= raw_devices@);
    Ok(devices)
}

/// Lists connected Bluetooth devices from the standard output of
/// `system_profiler -json SPBluetoothDataType`: output that is not JSON is a
/// parse error, a document is read as [`devices_from_json`] reads it.
pub fn list_connected_devices(stdout: &[u8]) -> (r: Result<Vec<BluetoothDevice>, SystemProfilerError>)
    ensures
        match json_document(stdout@) {
            None => r matches Err(SystemProfilerError::ParseError(_)),
            Some(json) => listing_view(r) == spec_list_connected_devices(json),
        },
{
    match parse_json(stdout) {
        Ok(json) => devices_from_json(&json),
        Err(message) => Err(SystemProfilerError::ParseError(message)),
    }
}


/// Every device parsed from raw entries is the parse of one of them.
proof fn lemma_parsed_devices_come_from_entries(raw: Seq<JsonValue>)
    ensures
        forall|k: int|
            #![trigger spec_parse_devices(raw)[k]]
            0 <= k < spec_parse_devices(raw).len() ==> exists|i: int|
                0 <= i < raw.len() && spec_parse_device(#[trigger] raw[i]) == Some(
                    spec_parse_devices(raw)[k],
                ),
    decreases raw.len(),
{
    if raw.len() > 0 {
        let init = raw.drop_last();
        lemma_parsed_devices_come_from_entries(init);
        assert forall|k: int|
            #![trigger spec_parse_devices(raw)[k]]
            0 <= k < spec_parse_devices(raw).len() implies exists|i: int|
            0 <= i < raw.len() && spec_parse_device(#[trigger] raw[i]) == Some(
                spec_parse_devices(raw)[k],
            ) by {
            if k < spec_parse_devices(init).len() {
                let i = choose|i: int|
                    0 <= i < init.len() && spec_parse_device(#[trigger] init[i]) == Some(
                        spec_parse_devices(init)[k],
                    );
                assert(raw[i] == init[i]);
            } else {
                assert(raw[raw.len() - 1] == raw.last());
            }
        }
    }
}

/// The listing reads the connected devices only: with a single profiler
/// entry, it is the devices parsed from the entry's `device_connected`
/// array, none where that array is missing, and each listed device is the
/// parse of an element of that array.
pub proof fn lemma_listing_reads_connected_only(json: JsonValue)
    requires
        spec_array_field(json, SP_BLUETOOTH_TYPE@) matches Some(entries) && entries.len() == 1,
    ensures
        ({
            let entry = spec_array_field(json, SP_BLUETOOTH_TYPE@)->Some_0[0];
            match spec_array_field(entry, "device_connected"@) {
                None => spec_list_connected_devices(json) == Ok::<
                    Seq<BluetoothDeviceView>,
                    SystemProfilerError,
                >(seq![]),
                Some(raw) => spec_list_connected_devices(json) matches Ok(devices) && devices
                    == spec_parse_devices(raw) && forall|k: int|
                    #![trigger devices[k]]
                    0 <= k < devices.len() ==> exists|i: int|
                        0 <= i < raw.len() && spec_parse_device(#[trigger] raw[i]) == Some(
                            devices[k],
                        ),
            }
        }),
{
    let entry = spec_array_field(json, SP_BLUETOOTH_TYPE@)->Some_0[0];
    match spec_array_field(entry, "device_connected"@) {
        None => {},
        Some(raw) => lemma_parsed_devices_come_from_entries(raw),
    }
}

/// Two profiler documents whose single entries hold the same
/// `device_connected` member list the same devices, whatever else the
/// entries hold (such as the devices that are not connected).
pub proof fn lemma_listing_ignores_other_members(a: JsonValue, b: JsonValue)
    requires
        spec_array_field(a, SP_BLUETOOTH_TYPE@) matches Some(entries) && entries.len() == 1,
        spec_array_field(b, SP_BLUETOOTH_TYPE@) matches Some(entries) && entries.len() == 1,
        spec_array_field(spec_array_field(a, SP_BLUETOOTH_TYPE@)->Some_0[0], "device_connected"@)
            == spec_array_field(
            spec_array_field(b, SP_BLUETOOTH_TYPE@)->Some_0[0],
            "device_connected"@,
        ),
    ensures
        spec_list_connected_devices(a) == spec_list_connected_devices(b),
{
}

} // verus!
