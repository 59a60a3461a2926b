//! The paired-device listing of the Bluetooth helper: a NUL-terminated text
//! of `address<TAB>name` lines.
use vstd::prelude::*;

use crate::text::str_chars;

verus! {

/// A paired device as the helper lists it.
#[derive(Debug)]
pub struct PairedDevice {
    pub address: String,
    pub name: String,
}

pub struct PairedDeviceView {
    pub address: Seq<char>,
    pub name: Seq<char>,
}

impl View for PairedDevice {
    type V = PairedDeviceView;

    open spec fn view(&self) -> PairedDeviceView {
        PairedDeviceView { address: self.address@, name: self.name@ }
    }
}

/// What `String::from_utf8_lossy` makes of the bytes.
pub uninterp spec fn utf8_lossy(bytes: Seq<u8>) -> Seq<char>;

/// Calls `String::from_utf8_lossy`: the text of the bytes, with each invalid
/// sequence replaced by U+FFFD. Its result is named [`utf8_lossy`] of the
/// bytes; of valid UTF-8 it is the decoded text, as the documentation says.
#[verifier::external_body]
pub fn from_utf8_lossy(bytes: &[u8]) -> (s: String)
    ensures
        s@ == utf8_lossy(bytes@),
        vstd::utf8::valid_utf8(bytes@) ==> s@ == vstd::utf8::decode_utf8(bytes@),
{
    String::from_utf8_lossy(bytes).into_owned()
}

/// The index of the first `x` in `s`, or its length where there is none.
pub open spec fn first_index<T>(s: Seq<T>, x: T) -> int
    decreases s.len(),
{
    if s.len() == 0 {
        0
    } else if s[0] == x {
        0
    } else {
        1 + first_index(s.drop_first(), x)
    }
}

proof fn lemma_first_index<T>(s: Seq<T>, x: T, i: int)
    requires
        0 <= i <= s.len(),
        forall|k: int| 0 <= k < i ==> s[k] != x,
        i == s.len() || s[i] == x,
    ensures
        first_index(s, x) == i,
    decreases i,
{
    if i > 0 {
        let t = s.drop_first();
        assert forall|k: int| 0 <= k < i - 1 implies t[k] != x by {
            assert(t[k] == s[k + 1]);
        }
        if i < s.len() {
            assert(t[i - 1] == s[i]);
        }
        lemma_first_index(t, x, i - 1);
    }
}

/// The line without a final carriage return.
pub open spec fn strip_cr(line: Seq<char>) -> Seq<char> {
    if line.len() > 0 && line.last() == '\r' {
        line.drop_last()
    } else {
        line
    }
}

/// The lines of `text` after a line begun with `cur`, as `str::lines` yields
/// them: each `\n` (with a `\r` just before it) ends a line, and a last line
/// without a line ending counts where it is not empty.
pub open spec fn lines_from(text: Seq<char>, cur: Seq<char>) -> Seq<Seq<char>>
    decreases text.len(),
{
    if text.len() == 0 {
        if cur.len() > 0 {
            seq![cur]
        } else {
            seq![]
        }
    } else if text[0] == '\n' {
        seq![strip_cr(cur)] + lines_from(text.drop_first(), seq![])
    } else {
        lines_from(text.drop_first(), cur.push(text[0]))
    }
}

/// The devices that the lines list: a line `address<TAB>name` (the name is
/// everything after the first tab) lists a device unless its address was
/// listed before; lines without a tab list nothing.
pub open spec fn devices_of_lines(lines: Seq<Seq<char>>, seen: Set<Seq<char>>) -> Seq<PairedDeviceView>
    decreases lines.len(),
{
    if lines.len() == 0 {
        seq![]
    } else {
        let line = lines[0];
        let tab = first_index(line, '\t');
        let address = line.take(tab);
        if tab == line.len() || seen.contains(address) {
            devices_of_lines(lines.drop_first(), seen)
        } else {
            seq![PairedDeviceView { address, name: line.skip(tab + 1) }] + devices_of_lines(
                lines.drop_first(),
                seen.insert(address),
            )
        }
    }
}

/// The devices of the helper's listing: none for a count of 0 or less, else
/// those of the lines of the text before the first NUL byte.
pub open spec fn spec_list_connected_bose(count: i32, buf: Seq<u8>) -> Seq<PairedDeviceView> {
    if count <= 0 {
        seq![]
    } else {
        devices_of_lines(
            lines_from(utf8_lossy(buf.take(first_index(buf, 0u8))), seq![]),
            Set::empty(),
        )
    }
}

pub open spec fn paired_view(devices: Seq<PairedDevice>) -> Seq<PairedDeviceView> {
    devices.map_values(|d: PairedDevice| d@)
}

/// The character ranges of the lines of `chars`.
fn line_ranges(chars: &Vec<char>) -> (r: Vec<(usize, usize)>)
    ensures
        forall|k: int| 0 <= k < r@.len() ==> (#[trigger] r@[k]).0 <= r@[k].1 <= chars@.len(),
        r@.map_values(|p: (usize, usize)| chars@.subrange(p.0 as int, p.1 as int)) == lines_from(
            chars@,
            seq![],
        ),
{
    let ghost text = chars@;
    let n = chars.len();
    let mut r: Vec<(usize, usize)> = Vec::new();
    let mut start: usize = 0;
    let mut i: usize = 0;
    assert(text.skip(0) =~= text);
    assert(text.subrange(0, 0) =~= Seq::<char>::empty());
    while i < n
        invariant
            n == text.len(),
            text == chars@,
            start <= i <= n,
            forall|k: int| 0 <= k < r@.len() ==> (#[trigger] r@[k]).0 <= r@[k].1 <= n,
            lines_from(text, seq![]) == r@.map_values(
                |p: (usize, usize)| text.subrange(p.0 as int, p.1 as int),
            ) + lines_from(text.skip(i as int), text.subrange(start as int, i as int)),
        decreases n - i,
    {
        let ghost before = r@;
        let ghost rest = text.skip(i as int);
        let ghost cur = text.subrange(start as int, i as int);
        assert(rest[0] == text[i as int]);
        assert(rest.drop_first() =~= text.skip(i + 1));
        if chars[i] == '\n' {
            let mut hi = i;
            if hi > start && chars[hi - 1] == '\r' {
                hi = hi - 1;
            }
            assert(text.subrange(start as int, hi as int) =~= strip_cr(cur));
            r.push((start, hi));
            start = i + 1;
            assert(text.subrange(start as int, start as int) =~= Seq::<char>::empty());
            assert(r@.map_values(|p: (usize, usize)| text.subrange(p.0 as int, p.1 as int))
                =~= before.map_values(|p: (usize, usize)| text.subrange(p.0 as int, p.1 as int)).push(
                strip_cr(cur),
            ));
        } else {
            assert(text.subrange(start as int, i + 1) =~= cur.push(text[i as int]));
        }
        i = i + 1;
    }
    let ghost before = r@;
    let ghost cur = text.subrange(start as int, n as int);
    assert(text.skip(n as int) =~= Seq::<char>::empty());
    if start < n {
        r.push((start, n));
        assert(r@.map_values(|p: (usize, usize)| text.subrange(p.0 as int, p.1 as int))
            =~= before.map_values(|p: (usize, usize)| text.subrange(p.0 as int, p.1 as int)).push(cur));
    } else {
        assert(r@.map_values(|p: (usize, usize)| text.subrange(p.0 as int, p.1 as int))
            =~= before.map_values(|p: (usize, usize)| text.subrange(p.0 as int, p.1 as int)) + seq![]);
    }
    r
}

/// The addresses of the devices listed so far.
pub open spec fn addresses(devices: Seq<PairedDeviceView>) -> Set<Seq<char>> {
    Set::new(|a: Seq<char>| exists|k: int| 0 <= k < devices.len() && devices[k].address == a)
}

fn listed(out: &Vec<PairedDevice>, address: &String) -> (b: bool)
    ensures
        b == addresses(paired_view(out@)).contains(address@),
{
    let mut k: usize = 0;
    while k < out.len()
        invariant
            k <= out@.len(),
            forall|j: int| 0 <= j < k ==> out@[j].address@ != address@,
        decreases out.len() - k,
    {
        if out[k].address == *address {
            assert(paired_view(out@)[k as int].address == address@);
            return true;
        }
        k = k + 1;
    }
    assert(!addresses(paired_view(out@)).contains(address@)) by {
        if addresses(paired_view(out@)).contains(address@) {
            let j = choose|j: int| 0 <= j < out@.len() && paired_view(out@)[j].address == address@;
            assert(out@[j].address@ != address@);
        }
    }
    false
}

/// The paired devices that the helper listed, from its result count and
/// its output buffer.
pub fn list_connected_bose(count: i32, buf: &[u8]) -> (r: Vec<PairedDevice>)
    ensures
        paired_view(r@) == spec_list_connected_bose(count, buf@),
{
    let mut out: Vec<PairedDevice> = Vec::new();
    if count <= 0 {
        assert(paired_view(out@) =~= Seq::<PairedDeviceView>::empty());
        return out;
    }
    let mut end: usize = 0;
    while end < buf.len() && buf[end] != 0
        invariant
            end <= buf@.len(),
            forall|k: int| 0 <= k < end ==> buf@[k] != 0u8,
        decreases buf.len() - end,
    {
        end = end + 1;
    }
    proof {
        lemma_first_index(buf@, 0u8, end as int);
    }
    let mut bytes: Vec<u8> = Vec::new();
    let mut i: usize = 0;
    while i < end
        invariant
            i <= end <= buf@.len(),
            bytes@ == buf@.take(i as int),
        decreases end - i,
    {
        bytes.push(buf[i]);
        i = i + 1;
        assert(bytes@ =~= buf@.take(i as int));
    }
    let text = from_utf8_lossy(bytes.as_slice());
    let chars = str_chars(text.as_str());
    let ranges = line_ranges(&chars);
    let ghost lines = lines_from(chars@, seq![]);
    let mut j: usize = 0;
    assert(lines.skip(0) =~= lines);
    assert(paired_view(out@) =~= Seq::<PairedDeviceView>::empty());
    assert(addresses(Seq::<PairedDeviceView>::empty()) =~= Set::<Seq<char>>::empty());
    while j < ranges.len()
        invariant
            chars@ == text@,
            j <= ranges@.len(),
            lines == lines_from(chars@, seq![]),
            lines.len() == ranges@.len(),
            forall|k: int| 0 <= k < ranges@.len() ==> (#[trigger] ranges@[k]).0 <= ranges@[k].1 <= chars@.len(),
            forall|k: int|
                0 <= k < ranges@.len() ==> #[trigger] lines[k] == chars@.subrange(
                    ranges@[k].0 as int,
                    ranges@[k].1 as int,
                ),
            devices_of_lines(lines, Set::empty()) == paired_view(out@) + devices_of_lines(
                lines.skip(j as int),
                addresses(paired_view(out@)),
            ),
        decreases ranges.len() - j,
    {
        let ghost line = lines[j as int];
        let ghost rest = lines.skip(j as int);
        assert(rest[0] == line);
        assert(rest.drop_first() =~= lines.skip(j + 1));
        let (lo, hi) = ranges[j];
        let mut tab = lo;
        while tab < hi && chars[tab] != '\t'
            invariant
                lo <= tab <= hi <= chars@.len(),
                line == chars@.subrange(lo as int, hi as int),
                forall|k: int| 0 <= k < tab - lo ==> line[k] != '\t',
            decreases hi - tab,
        {
            tab = tab + 1;
        }
        proof {
            lemma_first_index(line, '\t', tab - lo);
        }
        if tab < hi {
            let address = text.as_str().substring_char(lo, tab).to_owned();
            let name = text.as_str().substring_char(tab + 1, hi).to_owned();
            assert(address@ =~= line.take(tab - lo));
            assert(name@ =~= line.skip(tab - lo + 1));
            if !listed(&out, &address) {
                let ghost before = paired_view(out@);
                let d = PairedDevice { address, name };
                let ghost dv = d@;
                out.push(d);
                proof {
                    assert(paired_view(out@) =~= before.push(dv));
                    let now = paired_view(out@);
                    assert forall|a: Seq<char>| #[trigger] addresses(now).contains(a) <==> addresses(
                        before,
                    ).insert(dv.address).contains(a) by {
                        if addresses(now).contains(a) {
                            let k = choose|k: int| 0 <= k < now.len() && now[k].address == a;
                            if k < before.len() {
                                assert(before[k] == now[k]);
                            }
                        }
                        if addresses(before).contains(a) {
                            let k = choose|k: int| 0 <= k < before.len() && before[k].address == a;
                            assert(now[k] == before[k]);
                        }
                        if a == dv.address {
                            assert(now[before.len() as int] == dv);
                        }
                    }
                    assert(addresses(now) =~= addresses(before).insert(dv.address));
                    assert(seq![dv] + devices_of_lines(lines.skip(j + 1), addresses(paired_view(out@)))
                        == devices_of_lines(rest, addresses(before)));
                    assert(before + devices_of_lines(rest, addresses(before)) =~= paired_view(out@)
                        + devices_of_lines(lines.skip(j + 1), addresses(paired_view(out@))));
                }
            }
        }
        j = j + 1;
    }
    assert(lines.skip(ranges@.len() as int) =~= Seq::<Seq<char>>::empty());
    assert(paired_view(out@) + Seq::<PairedDeviceView>::empty() =~= paired_view(out@));
    out
}

} // verus!
