//! Decoding of the two kinds of name that a directory stores: short names
//! in single bytes and long names in UCS-2 code units.

use vstd::prelude::*;

verus! {

/// `String::push` of std: the string afterwards is the string before with
/// the one character `c` added at its end.
pub assume_specification[ String::push ](s: &mut String, c: char)
    ensures
        final(s)@ == old(s)@.push(c),
;

/// `char::from_u32` of std: a number that is a Unicode scalar value (up to
/// 0x10FFFF and no surrogate) gives the character with that number, and any
/// other number gives `None`.
pub assume_specification[ char::from_u32 ](i: u32) -> (r: Option<char>)
    ensures
        is_scalar_value(i) ==> r == Some(i as char),
        !is_scalar_value(i) ==> r is None,
;

/// The error of `core::str::from_utf8`, which is carried and never read.
#[verifier::external_type_specification]
#[verifier::external_body]
pub struct ExUtf8Error(core::str::Utf8Error);

/// `core::str::from_utf8` of std: it succeeds on exactly the byte sequences
/// that are well-formed UTF-8, and the text that it gives is made of the
/// bytes it was given.
pub assume_specification[ core::str::from_utf8 ](v: &[u8]) -> (r: Result<
    &str,
    core::str::Utf8Error,
>)
    ensures
        r is Ok <==> vstd::utf8::valid_utf8(v@),
        r matches Ok(s) ==> vstd::utf8::encode_utf8(s@) == v@,
;

/// Whether `i` is the number of a character.
pub open spec fn is_scalar_value(i: u32) -> bool {
    i <= 0xD7FF || 0xE000 <= i <= 0x10FFFF
}

/// A byte that ends a short name: zero or a space.
pub open spec fn ends_short_name(b: u8) -> bool {
    b == 0x00 || b == 0x20
}

/// How many bytes of `s`, counted from `from`, come before the first byte
/// that ends a short name, or before the end of `s`.
pub open spec fn short_run(s: Seq<u8>, from: int) -> int
    decreases s.len() - from,
{
    if from < 0 || from >= s.len() || ends_short_name(s[from]) {
        0
    } else {
        1 + short_run(s, from + 1)
    }
}

/// The text of the short-name field `s`: each byte before the first zero or
/// space, read as the character with that number.
pub open spec fn short_text(s: Seq<u8>) -> Seq<char> {
    Seq::new(short_run(s, 0) as nat, |i: int| s[i] as char)
}

/// The run counted by `short_run` stays inside `s`, holds no ending byte, and
/// is followed by one unless it reaches the end.
pub proof fn lemma_short_run(s: Seq<u8>, from: int)
    requires
        0 <= from <= s.len(),
    ensures
        0 <= short_run(s, from) <= s.len() - from,
        forall|i: int| from <= i < from + short_run(s, from) ==> !ends_short_name(#[trigger] s[i]),
        from + short_run(s, from) < s.len() ==> ends_short_name(s[from + short_run(s, from)]),
    decreases s.len() - from,
{
    if from < s.len() && !ends_short_name(s[from]) {
        lemma_short_run(s, from + 1);
    }
}

/// The text of a short-name field, or `None` where the field starts with a
/// zero or a space, or is empty.
pub fn ascii_to_string(arr: &[u8]) -> (r: Option<String>)
    ensures
        short_text(arr@).len() == 0 <==> r is None,
        r matches Some(s) ==> s@ == short_text(arr@),
{
    let mut s = String::new();
    let mut i: usize = 0;
    while i < arr.len() && arr[i] != 0x00 && arr[i] != 0x20
        invariant
            0 <= i <= arr.len(),
            short_run(arr@, 0) == i + short_run(arr@, i as int),
            s@ == Seq::new(i as nat, |j: int| arr@[j] as char),
        decreases arr.len() - i,
    {
        s.push(arr[i] as char);
        i += 1;
        assert(s@ =~= Seq::new(i as nat, |j: int| arr@[j] as char));
    }
    if i == 0 {
        None
    } else {
        Some(s)
    }
}

/// A code unit that ends a long name: 0x0000 or 0xFFFF.
pub open spec fn ends_long_name(u: u16) -> bool {
    u == 0x0000 || u == 0xFFFF
}

/// How many units of `s`, counted from `from`, come before the first unit
/// that ends a long name, or before the end of `s`.
pub open spec fn long_run(s: Seq<u16>, from: int) -> int
    decreases s.len() - from,
{
    if from < 0 || from >= s.len() || ends_long_name(s[from]) {
        0
    } else {
        1 + long_run(s, from + 1)
    }
}

/// A code unit in the surrogate range, which alone names no character.
pub open spec fn is_surrogate(u: u16) -> bool {
    0xD800 <= u <= 0xDFFF
}

/// The first half of a surrogate pair.
pub open spec fn is_high_surrogate(u: u16) -> bool {
    0xD800 <= u <= 0xDBFF
}

/// The second half of a surrogate pair.
pub open spec fn is_low_surrogate(u: u16) -> bool {
    0xDC00 <= u <= 0xDFFF
}

/// The character that the surrogate pair `hi`, `lo` stands for.
pub open spec fn pair_value(hi: u16, lo: u16) -> char {
    (0x1_0000 + (hi - 0xD800) * 0x400 + (lo - 0xDC00)) as char
}

/// The characters that the code units `s[from..to]` stand for in UTF-16: a
/// unit outside the surrogate range stands for itself, a surrogate pair for
/// one character beyond the basic plane, and a surrogate without its partner
/// for U+FFFD.
pub open spec fn decode_utf16(s: Seq<u16>, from: int, to: int) -> Seq<char>
    decreases to - from,
{
    if from < 0 || from >= to || to > s.len() {
        Seq::empty()
    } else if !is_surrogate(s[from]) {
        seq![s[from] as char] + decode_utf16(s, from + 1, to)
    } else if is_high_surrogate(s[from]) && from + 1 < to && is_low_surrogate(s[from + 1]) {
        seq![pair_value(s[from], s[from + 1])] + decode_utf16(s, from + 2, to)
    } else {
        seq!['\u{FFFD}'] + decode_utf16(s, from + 1, to)
    }
}

/// The text of the long-name buffer `s`: the units before the first 0x0000
/// or 0xFFFF, decoded as UTF-16.
pub open spec fn long_text(s: Seq<u16>) -> Seq<char> {
    decode_utf16(s, 0, long_run(s, 0))
}

/// The run counted by `long_run` stays inside `s`, holds no ending unit, and
/// is followed by one unless it reaches the end.
pub proof fn lemma_long_run(s: Seq<u16>, from: int)
    requires
        0 <= from <= s.len(),
    ensures
        0 <= long_run(s, from) <= s.len() - from,
        forall|i: int| from <= i < from + long_run(s, from) ==> !ends_long_name(#[trigger] s[i]),
        from + long_run(s, from) < s.len() ==> ends_long_name(s[from + long_run(s, from)]),
    decreases s.len() - from,
{
    if from < s.len() && !ends_long_name(s[from]) {
        lemma_long_run(s, from + 1);
    }
}

/// A long name ends before the first 0x0000 or 0xFFFF: where `k` is the
/// place of the first such unit in `s`, the text is what the `k` units
/// before it decode to, whatever follows them.
pub proof fn lemma_long_text_stops(s: Seq<u16>, k: int)
    requires
        0 <= k < s.len(),
        ends_long_name(s[k]),
        forall|i: int| 0 <= i < k ==> !ends_long_name(#[trigger] s[i]),
    ensures
        long_run(s, 0) == k,
        long_text(s) == decode_utf16(s, 0, k),
        long_text(s) == long_text(s.take(k)),
{
    lemma_long_run(s, 0);
    lemma_long_run(s.take(k), 0);
    let run = long_run(s, 0);
    if run < k {
        assert(ends_long_name(s[run]));
    }
    let short = s.take(k);
    let short_len = long_run(short, 0);
    if short_len < k {
        assert(ends_long_name(short[short_len]));
        assert(short[short_len] == s[short_len]);
    }
    lemma_decode_utf16_prefix(s, short, 0, k);
}

/// Decoding the units `[from, to)` looks at no unit outside of them.
pub proof fn lemma_decode_utf16_prefix(a: Seq<u16>, b: Seq<u16>, from: int, to: int)
    requires
        0 <= from <= to,
        to <= a.len(),
        to <= b.len(),
        forall|i: int| from <= i < to ==> a[i] == b[i],
    ensures
        decode_utf16(a, from, to) == decode_utf16(b, from, to),
    decreases to - from,
{
    if from < to {
        if !is_surrogate(a[from]) {
            lemma_decode_utf16_prefix(a, b, from + 1, to);
        } else if is_high_surrogate(a[from]) && from + 1 < to && is_low_surrogate(a[from + 1]) {
            lemma_decode_utf16_prefix(a, b, from + 2, to);
        } else {
            lemma_decode_utf16_prefix(a, b, from + 1, to);
        }
    }
}

/// A surrogate without its partner reads as U+FFFD: a second half that no
/// first half precedes, and a first half that no second half follows, each
/// give that one character, and decoding goes on with the next unit.
pub proof fn lemma_lone_surrogate(s: Seq<u16>, from: int, to: int)
    requires
        0 <= from < to <= s.len(),
        is_low_surrogate(s[from]) || (is_high_surrogate(s[from]) && (from + 1 == to
            || !is_low_surrogate(s[from + 1]))),
    ensures
        decode_utf16(s, from, to) == seq!['\u{FFFD}'] + decode_utf16(s, from + 1, to),
{
}

/// The text of a long name held in `arr`: it ends before the first 0x0000 or
/// 0xFFFF, and a surrogate without its partner reads as U+FFFD.
pub fn ucs_2_to_string(arr: &[u16]) -> (r: String)
    ensures
        r@ == long_text(arr@),
{
    let mut end: usize = 0;
    while end < arr.len() && arr[end] != 0x0000 && arr[end] != 0xFFFF
        invariant
            0 <= end <= arr.len(),
            long_run(arr@, 0) == end + long_run(arr@, end as int),
        decreases arr.len() - end,
    {
        end += 1;
    }
    let mut s = String::new();
    let mut i: usize = 0;
    while i < end
        invariant
            0 <= i <= end <= arr.len(),
            s@ + decode_utf16(arr@, i as int, end as int) == decode_utf16(arr@, 0, end as int),
        decreases end - i,
    {
        let u: u16 = arr[i];
        let ghost before = s@;
        if u < 0xD800 || u > 0xDFFF {
            match char::from_u32(u as u32) {
                Some(c) => s.push(c),
                None => s.push('\u{FFFD}'),
            }
            i += 1;
        } else if u <= 0xDBFF && i + 1 < end && 0xDC00 <= arr[i + 1] && arr[i + 1] <= 0xDFFF {
            let lo: u16 = arr[i + 1];
            let v: u32 = 0x1_0000 + (u as u32 - 0xD800) * 0x400 + (lo as u32 - 0xDC00);
            match char::from_u32(v) {
                Some(c) => s.push(c),
                None => s.push('\u{FFFD}'),
            }
            i += 2;
        } else {
            s.push('\u{FFFD}');
            i += 1;
        }
        assert(s@ + decode_utf16(arr@, i as int, end as int) =~= before + (seq![s@.last()]
            + decode_utf16(arr@, i as int, end as int)));
    }
    assert(s@ + Seq::<char>::empty() =~= s@);
    s
}

/// The byte `b` with a capital letter of ASCII made small.
pub open spec fn ascii_lower(b: u8) -> u8 {
    if 0x41 <= b <= 0x5A {
        (b + 0x20) as u8
    } else {
        b
    }
}

/// The byte sequences `a` and `b` are equal but for the case of their ASCII
/// letters.
pub open spec fn eq_ignore_ascii_case(a: Seq<u8>, b: Seq<u8>) -> bool {
    &&& a.len() == b.len()
    &&& forall|i: int| 0 <= i < a.len() ==> ascii_lower(#[trigger] a[i]) == ascii_lower(b[i])
}

/// The name `name` of an entry answers the query `query`, which is compared
/// with the name's UTF-8 bytes without regard to the case of ASCII letters.
pub open spec fn name_matches(name: Seq<char>, query: Seq<u8>) -> bool {
    eq_ignore_ascii_case(vstd::utf8::encode_utf8(name), query)
}

/// Whether `a` and `b` are equal but for the case of their ASCII letters.
pub fn bytes_eq_ignore_ascii_case(a: &[u8], b: &[u8]) -> (r: bool)
    ensures
        r == eq_ignore_ascii_case(a@, b@),
{
    if a.len() != b.len() {
        return false;
    }
    let mut i: usize = 0;
    while i < a.len()
        invariant
            0 <= i <= a.len(),
            a.len() == b.len(),
            forall|j: int| 0 <= j < i ==> ascii_lower(#[trigger] a@[j]) == ascii_lower(b@[j]),
        decreases a.len() - i,
    {
        let x: u8 = a[i];
        let y: u8 = b[i];
        let lx: u8 = if 0x41 <= x && x <= 0x5A {
            x + 0x20
        } else {
            x
        };
        let ly: u8 = if 0x41 <= y && y <= 0x5A {
            y + 0x20
        } else {
            y
        };
        if lx != ly {
            return false;
        }
        i += 1;
    }
    true
}

/// Whether `query` is well-formed UTF-8.
pub fn is_utf8(query: &[u8]) -> (r: bool)
    ensures
        r == vstd::utf8::valid_utf8(query@),
{
    core::str::from_utf8(query).is_ok()
}

} // verus!
