//! Text helpers: decimal and hexadecimal rendering, joining, substring search
//! and case folding.
use vstd::prelude::*;

verus! {

/// The decimal digit `d` (0 to 9) as a character.
pub open spec fn digit_char(d: nat) -> char {
    (48 + d) as char
}

/// The decimal representation of `n`, without leading zeros.
pub open spec fn decimal(n: nat) -> Seq<char>
    decreases n,
{
    if n < 10 {
        seq![digit_char(n)]
    } else {
        decimal(n / 10).push(digit_char(n % 10))
    }
}

/// The lowercase hexadecimal digit `d` (0 to 15) as a character.
pub open spec fn hex_char(d: nat) -> char {
    if d < 10 {
        (48 + d) as char
    } else {
        (87 + d) as char
    }
}

/// A byte as two lowercase hexadecimal digits.
pub open spec fn hex_byte(b: u8) -> Seq<char> {
    seq![hex_char(b as nat / 16), hex_char(b as nat % 16)]
}

/// The items joined with `sep` between each two neighbours.
pub open spec fn join(items: Seq<Seq<char>>, sep: Seq<char>) -> Seq<char>
    decreases items.len(),
{
    if items.len() == 0 {
        seq![]
    } else if items.len() == 1 {
        items[0]
    } else {
        join(items.drop_last(), sep) + sep + items.last()
    }
}

/// Bytes as a list of two-digit hex numbers: `[0b, 05, 01]`.
pub open spec fn hex_list(bytes: Seq<u8>) -> Seq<char> {
    seq!['['] + join(Seq::new(bytes.len(), |i: int| hex_byte(bytes[i])), seq![',', ' ']) + seq![
        ']',
    ]
}

/// `needle` occurs in `hay` as a contiguous run.
pub open spec fn has_substring(hay: Seq<char>, needle: Seq<char>) -> bool {
    exists|i: int| 0 <= i <= hay.len() - needle.len() && #[trigger] hay.subrange(i, i + needle.len()) == needle
}

/// The Unicode lowercase mapping of a string, as `str::to_lowercase` computes it.
pub uninterp spec fn lowercase(s: Seq<char>) -> Seq<char>;

/// Calls `str::to_lowercase`; its result is named [`lowercase`] of the input
/// (the Unicode tables take pages to state; nothing more is claimed).
#[verifier::external_body]
pub fn to_lowercase(s: &str) -> (r: String)
    ensures
        r@ == lowercase(s@),
{
    s.to_lowercase()
}

fn digit_str(d: u8) -> (s: &'static str)
    requires
        d < 10,
    ensures
        s@ == seq![digit_char(d as nat)],
{
    proof {
        reveal_strlit("0");
        reveal_strlit("1");
        reveal_strlit("2");
        reveal_strlit("3");
        reveal_strlit("4");
        reveal_strlit("5");
        reveal_strlit("6");
        reveal_strlit("7");
        reveal_strlit("8");
        reveal_strlit("9");
    }
    match d {
        0 => "0",
        1 => "1",
        2 => "2",
        3 => "3",
        4 => "4",
        5 => "5",
        6 => "6",
        7 => "7",
        8 => "8",
        _ => "9",
    }
}

fn hex_digit_str(d: u8) -> (s: &'static str)
    requires
        d < 16,
    ensures
        s@ == seq![hex_char(d as nat)],
{
    if d < 10 {
        digit_str(d)
    } else {
        proof {
            reveal_strlit("a");
            reveal_strlit("b");
            reveal_strlit("c");
            reveal_strlit("d");
            reveal_strlit("e");
            reveal_strlit("f");
        }
        match d {
            10 => "a",
            11 => "b",
            12 => "c",
            13 => "d",
            14 => "e",
            _ => "f",
        }
    }
}

/// Appends the decimal representation of `n` to `out`.
pub fn push_decimal(out: &mut String, n: u8)
    ensures
        final(out)@ == old(out)@ + decimal(n as nat),
{
    let ghost start = out@;
    if n >= 100 {
        out.append(digit_str(n / 100));
        out.append(digit_str((n / 10) % 10));
        out.append(digit_str(n % 10));
        proof {
            assert(decimal((n / 100) as nat) == seq![digit_char((n / 100) as nat)]);
            assert(decimal((n / 10) as nat) == decimal((n / 100) as nat).push(
                digit_char(((n / 10) % 10) as nat),
            ));
            assert(decimal(n as nat) == decimal((n / 10) as nat).push(digit_char((n % 10) as nat)));
            assert(out@ =~= start + decimal(n as nat));
        }
    } else if n >= 10 {
        out.append(digit_str(n / 10));
        out.append(digit_str(n % 10));
        proof {
            assert(decimal((n / 10) as nat) == seq![digit_char((n / 10) as nat)]);
            assert(decimal(n as nat) == decimal((n / 10) as nat).push(digit_char((n % 10) as nat)));
            assert(out@ =~= start + decimal(n as nat));
        }
    } else {
        out.append(digit_str(n));
        assert(out@ =~= start + decimal(n as nat));
    }
}

/// The decimal representation of `n`.
pub fn decimal_string(n: u8) -> (s: String)
    ensures
        s@ == decimal(n as nat),
{
    let mut s = String::new();
    push_decimal(&mut s, n);
    s
}

/// The bytes rendered as `[0b, 05, 01]`.
pub fn hex_list_string(bytes: &[u8]) -> (s: String)
    ensures
        s@ == hex_list(bytes@),
{
    let ghost items = Seq::new(bytes@.len(), |i: int| hex_byte(bytes@[i]));
    proof {
        reveal_strlit("[");
        reveal_strlit("]");
        reveal_strlit(", ");
    }
    let mut s = String::from_str("[");
    assert(items.take(0) =~= Seq::<Seq<char>>::empty());
    let mut i: usize = 0;
    while i < bytes.len()
        invariant
            i <= bytes@.len(),
            items == Seq::new(bytes@.len(), |i: int| hex_byte(bytes@[i])),
            s@ == seq!['['] + join(items.take(i as int), seq![',', ' ']),
        decreases bytes.len() - i,
    {
        let ghost before = s@;
        let b = bytes[i];
        let ghost sep = seq![',', ' '];
        let ghost t = items.take(i + 1);
        proof {
            assert(t.drop_last() =~= items.take(i as int));
            assert(t.last() == hex_byte(b));
        }
        if i > 0 {
            s.append(", ");
            proof {
                reveal_strlit(", ");
                assert(", "@ =~= sep);
                assert(join(t, sep) == join(t.drop_last(), sep) + sep + t.last());
            }
        } else {
            assert(join(t, sep) == t[0]);
            assert(items.take(0) =~= Seq::<Seq<char>>::empty());
        }
        s.append(hex_digit_str(b / 16));
        s.append(hex_digit_str(b % 16));
        proof {
            assert(s@ =~= seq!['['] + join(t, sep));
        }
        i = i + 1;
    }
    assert(items.take(bytes@.len() as int) =~= items);
    s.append("]");
    assert(s@ =~= hex_list(bytes@));
    s
}

/// The characters of a string.
pub fn str_chars(s: &str) -> (r: Vec<char>)
    ensures
        r@ == s@,
{
    let n = s.unicode_len();
    let mut r: Vec<char> = Vec::new();
    let mut i: usize = 0;
    while i < n
        invariant
            n == s@.len(),
            i <= n,
            r@ == s@.take(i as int),
        decreases n - i,
    {
        r.push(s.get_char(i));
        i = i + 1;
        assert(r@ =~= s@.take(i as int));
    }
    assert(s@.take(n as int) =~= s@);
    r
}

/// Whether `needle` occurs in `hay`, as `str::contains` with a string
/// pattern answers.
pub fn contains(hay: &str, needle: &str) -> (b: bool)
    ensures
        b == has_substring(hay@, needle@),
{
    let h = str_chars(hay);
    let n = str_chars(needle);
    if n.len() == 0 {
        assert(hay@.subrange(0, 0int + needle@.len()) =~= needle@);
        return true;
    }
    if n.len() > h.len() {
        return false;
    }
    let hl = h.len();
    let last = hl - n.len();
    let mut i: usize = 0;
    while i <= last
        invariant
            h@ == hay@,
            n@ == needle@,
            n@.len() >= 1,
            hl == h@.len(),
            last == h@.len() - n@.len(),
            i <= last + 1,
            forall|k: int| 0 <= k < i ==> #[trigger] h@.subrange(k, k + n@.len()) != n@,
        decreases last + 1 - i,
    {
        let mut j: usize = 0;
        let mut same = true;
        while j < n.len()
            invariant
                h@ == hay@,
                n@ == needle@,
                i <= last,
                hl == h@.len(),
                last == h@.len() - n@.len(),
                j <= n@.len(),
                same == (forall|k: int| 0 <= k < j ==> h@[i + k] == n@[k]),
            decreases n.len() - j,
        {
            assert(i + j < hl);
            let k = i + j;
            if h[k] != n[j] {
                same = false;
            }
            j = j + 1;
        }
        if same {
            assert(h@.subrange(i as int, i + n@.len()) =~= n@);
            return true;
        }
        proof {
            let k = choose|k: int| 0 <= k < n@.len() && h@[i + k] != n@[k];
            assert(h@.subrange(i as int, i + n@.len())[k] != n@[k]);
        }
        i = i + 1;
    }
    proof {
        assert forall|k: int| 0 <= k <= hay@.len() - needle@.len() implies #[trigger] hay@.subrange(
            k,
            k + needle@.len(),
        ) != needle@ by {
            assert(k < i);
        }
    }
    false
}

/// The views of a list of strings.
pub open spec fn strings_view(list: Seq<String>) -> Seq<Seq<char>> {
    list.map_values(|s: String| s@)
}

/// The strings joined with `sep` between each two neighbours.
pub fn join_strings(list: &Vec<String>, sep: &str) -> (r: String)
    ensures
        r@ == join(strings_view(list@), sep@),
{
    let ghost items = strings_view(list@);
    let mut r = String::new();
    let mut i: usize = 0;
    assert(items.take(0) =~= Seq::<Seq<char>>::empty());
    while i < list.len()
        invariant
            i <= list@.len(),
            items == strings_view(list@),
            r@ == join(items.take(i as int), sep@),
        decreases list.len() - i,
    {
        let ghost t = items.take(i + 1);
        proof {
            assert(t.drop_last() =~= items.take(i as int));
            assert(t.last() == list@[i as int]@);
        }
        if i > 0 {
            r.append(sep);
            assert(join(t, sep@) == join(t.drop_last(), sep@) + sep@ + t.last());
        } else {
            assert(join(t, sep@) == t[0]);
        }
        r.append(list[i].as_str());
        assert(r@ =~= join(t, sep@));
        i = i + 1;
    }
    assert(items.take(list@.len() as int) =~= items);
    r
}

} // verus!
