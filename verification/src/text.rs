//! Text helpers: decimal formatting and ASCII case-insensitive comparison.

use vstd::prelude::*;
use vstd::string::*;

verus! {

/// The character of a decimal digit.
pub open spec fn digit_char(d: nat) -> char {
    (48 + d) as char
}

/// The decimal representation of a natural number, most significant digit first.
pub open spec fn decimal(n: nat) -> Seq<char>
    decreases n,
{
    if n < 10 {
        seq![digit_char(n)]
    } else {
        decimal(n / 10).push(digit_char(n % 10))
    }
}

/// The decimal representation of an integer, with a leading '-' when negative.
pub open spec fn signed_decimal(i: int) -> Seq<char> {
    if i < 0 {
        seq!['-'] + decimal((-i) as nat)
    } else {
        decimal(i as nat)
    }
}

/// Every character of a decimal representation is an ASCII digit.
pub proof fn lemma_decimal_digits(n: nat)
    ensures
        forall|i: int| 0 <= i < decimal(n).len() ==> 48 <= (#[trigger] decimal(n)[i] as u32) <= 57,
    decreases n,
{
    if n >= 10 {
        lemma_decimal_digits(n / 10);
        let d = decimal(n / 10);
        assert forall|i: int| 0 <= i < decimal(n).len() implies 48 <= (#[trigger] decimal(n)[i] as u32) <= 57 by {
            if i < d.len() {
                assert(decimal(n)[i] == d[i]);
            }
        }
    }
}

/// Appends one character to a `String` (`String::push`).
#[verifier::external_body]
pub(crate) fn push_char(s: &mut String, c: char)
    ensures
        final(s)@ == old(s)@.push(c),
{
    s.push(c);
}

/// Appends the decimal digits of `n`.
pub fn push_decimal(s: &mut String, n: u64)
    ensures
        final(s)@ == old(s)@ + decimal(n as nat),
    decreases n,
{
    if n >= 10 {
        push_decimal(s, n / 10);
    }
    let d: u8 = (n % 10) as u8;
    let c: char = (48u8 + d) as char;
    push_char(s, c);
    proof {
        if n >= 10 {
            assert(decimal(n as nat) == decimal((n / 10) as nat).push(digit_char((n % 10) as nat)));
        }
    }
}


/// Appends the decimal digits of `n`, with a leading '-' when it is negative.
pub fn push_signed_decimal(s: &mut String, n: i64)
    ensures
        final(s)@ == old(s)@ + signed_decimal(n as int),
{
    if n < 0 {
        push_char(s, '-');
        let magnitude: u64 = (0i128 - (n as i128)) as u64;
        push_decimal(s, magnitude);
        assert(old(s)@.push('-') + decimal(magnitude as nat) == old(s)@ + (seq!['-'] + decimal(magnitude as nat)));
    } else {
        push_decimal(s, n as u64);
    }
}

/// ASCII lower-casing of one character; other characters are unchanged.
pub open spec fn ascii_lower(c: char) -> char {
    if 65 <= (c as u32) && (c as u32) <= 90 {
        ((c as u32) + 32) as char
    } else {
        c
    }
}

/// Two texts are equal when ASCII letters are compared without regard to case.
pub open spec fn eq_ignore_case(a: Seq<char>, b: Seq<char>) -> bool {
    &&& a.len() == b.len()
    &&& forall|i: int| 0 <= i < a.len() ==> ascii_lower(#[trigger] a[i]) == ascii_lower(b[i])
}

/// Comparing without regard to ASCII case is an equivalence: reflexive, symmetric and transitive.
pub proof fn lemma_eq_ignore_case_equivalence(a: Seq<char>, b: Seq<char>, c: Seq<char>)
    ensures
        eq_ignore_case(a, a),
        eq_ignore_case(a, b) ==> eq_ignore_case(b, a),
        eq_ignore_case(a, b) && eq_ignore_case(b, c) ==> eq_ignore_case(a, c),
{
    if eq_ignore_case(a, b) && eq_ignore_case(b, c) {
        assert forall|i: int| 0 <= i < a.len() implies ascii_lower(#[trigger] a[i]) == ascii_lower(c[i]) by {
            assert(ascii_lower(a[i]) == ascii_lower(b[i]));
        }
    }
    if eq_ignore_case(a, b) {
        assert forall|i: int| 0 <= i < b.len() implies ascii_lower(#[trigger] b[i]) == ascii_lower(a[i]) by {
            assert(ascii_lower(a[i]) == ascii_lower(b[i]));
        }
    }
}

/// `text` occurs in `hay` as a contiguous run of characters.
pub open spec fn has_substring(hay: Seq<char>, text: Seq<char>) -> bool {
    exists|i: int| 0 <= i && i + text.len() <= hay.len() && #[trigger] hay.subrange(i, i + text.len()) == text
}

/// ASCII lower-casing of one character.
pub fn to_ascii_lower(c: char) -> (r: char)
    ensures
        r == ascii_lower(c),
{
    let u: u32 = c as u32;
    if 65 <= u && u <= 90 {
        let b: u8 = (u as u8) + 32;
        b as char
    } else {
        c
    }
}

/// The characters of a text, one by one.
pub fn chars_of(s: &str) -> (v: Vec<char>)
    ensures
        v@ == s@,
{
    let n = s.unicode_len();
    let mut v: Vec<char> = Vec::new();
    let mut i: usize = 0;
    while i < n
        invariant
            n == s@.len(),
            i <= n,
            v@ == s@.take(i as int),
        decreases n - i,
    {
        let c = s.get_char(i);
        v.push(c);
        i = i + 1;
        assert(v@ == s@.take(i as int));
    }
    assert(s@.take(n as int) == s@);
    v
}

/// The text made of the given characters.
pub fn string_of(v: &Vec<char>) -> (s: String)
    ensures
        s@ == v@,
{
    let mut s = String::new();
    let mut i: usize = 0;
    while i < v.len()
        invariant
            i <= v.len(),
            s@ == v@.take(i as int),
        decreases v.len() - i,
    {
        push_char(&mut s, v[i]);
        i = i + 1;
        assert(s@ == v@.take(i as int));
    }
    assert(v@.take(v.len() as int) == v@);
    s
}

/// Compares two character sequences, ignoring the case of ASCII letters.
pub fn chars_eq_ignore_ascii_case(a: &Vec<char>, b: &Vec<char>) -> (r: bool)
    ensures
        r == eq_ignore_case(a@, b@),
{
    if a.len() != b.len() {
        return false;
    }
    let mut i: usize = 0;
    while i < a.len()
        invariant
            a.len() == b.len(),
            i <= a.len(),
            forall|k: int| 0 <= k < i ==> ascii_lower(#[trigger] a@[k]) == ascii_lower(b@[k]),
        decreases a.len() - i,
    {
        if to_ascii_lower(a[i]) != to_ascii_lower(b[i]) {
            return false;
        }
        i = i + 1;
    }
    true
}

/// Compares two texts, ignoring the case of ASCII letters (as `str::eq_ignore_ascii_case`).
pub fn eq_ignore_ascii_case(a: &str, b: &str) -> (r: bool)
    ensures
        r == eq_ignore_case(a@, b@),
{
    let av = chars_of(a);
    let bv = chars_of(b);
    chars_eq_ignore_ascii_case(&av, &bv)
}

/// Whether `text` occurs in `hay` (as `str::contains` with a text pattern).
pub fn contains_text(hay: &str, text: &str) -> (r: bool)
    ensures
        r == has_substring(hay@, text@),
{
    let h = chars_of(hay);
    let t = chars_of(text);
    if t.len() > h.len() {
        assert(!has_substring(hay@, text@));
        return false;
    }
    let last: usize = h.len() - t.len();
    let mut i: usize = 0;
    while i <= last
        invariant
            h@ == hay@,
            t@ == text@,
            last == h.len() - t.len(),
            i <= last + 1,
            forall|k: int| 0 <= k < i ==> #[trigger] h@.subrange(k, k + t@.len()) != t@,
        decreases last + 1 - i,
    {
        let mut j: usize = 0;
        let mut same = true;
        while j < t.len()
            invariant
                i <= last,
                last == h.len() - t.len(),
                j <= t.len(),
                same == (forall|m: int| 0 <= m < j ==> #[trigger] h@[i + m] == t@[m]),
            decreases t.len() - j,
        {
            if h[i + j] != t[j] {
                same = false;
            }
            j = j + 1;
        }
        if same {
            assert(h@.subrange(i as int, i + t@.len()) =~= t@) by {
                assert forall|m: int| 0 <= m < t@.len() implies h@.subrange(i as int, i + t@.len())[m] == t@[m] by {
                    assert(h@[i + m] == t@[m]);
                }
            }
            return true;
        }
        assert(h@.subrange(i as int, i + t@.len()) != t@) by {
            let m = choose|m: int| 0 <= m < t.len() && h@[i + m] != t@[m];
            assert(h@.subrange(i as int, i + t@.len())[m] == h@[i + m]);
        }
        i = i + 1;
    }
    assert forall|k: int| 0 <= k && k + text@.len() <= hay@.len() implies #[trigger] hay@.subrange(k, k + text@.len()) != text@ by {
        assert(k < i);
    }
    false
}


/// The UTF-16 code units of one character.
pub open spec fn utf16_units_of(c: char) -> Seq<u16> {
    let v = c as u32;
    if v < 0x10000 {
        seq![v as u16]
    } else {
        seq![(0xD800 + (v - 0x10000) / 0x400) as u16, (0xDC00 + (v - 0x10000) % 0x400) as u16]
    }
}

/// The UTF-16 encoding of a text.
pub open spec fn utf16_encode(s: Seq<char>) -> Seq<u16>
    decreases s.len(),
{
    if s.len() == 0 {
        Seq::empty()
    } else {
        utf16_encode(s.drop_last()) + utf16_units_of(s.last())
    }
}

/// `units` is well-formed UTF-16: the encoding of some text.
pub open spec fn is_utf16(units: Seq<u16>) -> bool {
    exists|s: Seq<char>| utf16_encode(s) == units
}

/// Appends the UTF-16 code units of `c`.
pub fn push_utf16(units: &mut Vec<u16>, c: char)
    ensures
        final(units)@ == old(units)@ + utf16_units_of(c),
{
    let v: u32 = c as u32;
    if v < 0x10000 {
        units.push(v as u16);
        assert(old(units)@ + utf16_units_of(c) == old(units)@.push(v as u16));
    } else {
        let w: u32 = v - 0x10000;
        let high: u16 = (0xD800 + w / 0x400) as u16;
        let low: u16 = (0xDC00 + w % 0x400) as u16;
        units.push(high);
        units.push(low);
        assert(old(units)@ + utf16_units_of(c) == old(units)@.push(high).push(low));
    }
}

/// The UTF-16 encoding of a text (as `str::encode_utf16`).
pub fn encode_utf16(s: &str) -> (units: Vec<u16>)
    ensures
        units@ == utf16_encode(s@),
{
    let chars = chars_of(s);
    let mut units: Vec<u16> = Vec::new();
    let mut i: usize = 0;
    while i < chars.len()
        invariant
            chars@ == s@,
            i <= chars.len(),
            units@ == utf16_encode(s@.take(i as int)),
        decreases chars.len() - i,
    {
        push_utf16(&mut units, chars[i]);
        i = i + 1;
        assert(s@.take(i as int).drop_last() == s@.take(i - 1));
    }
    assert(s@.take(chars.len() as int) == s@);
    units
}

/// The text that well-formed UTF-16 code units encode (`String::from_utf16`); none when they are
/// not well-formed.
#[verifier::external_body]
pub fn string_from_utf16(units: &[u16]) -> (r: Option<String>)
    ensures
        r matches Some(s) ==> utf16_encode(s@) == units@,
        is_utf16(units@) ==> r is Some,
{
    String::from_utf16(units).ok()
}

/// A high (leading) surrogate code unit.
pub open spec fn is_high_surrogate(u: u16) -> bool {
    0xD800 <= u < 0xDC00
}

/// A low (trailing) surrogate code unit.
pub open spec fn is_low_surrogate(u: u16) -> bool {
    0xDC00 <= u < 0xE000
}

/// The text that code units decode to, each unit that is not part of a well-formed pair of
/// surrogates and is itself a surrogate replaced by U+FFFD; a high surrogate whose next unit
/// is not a low one is replaced alone, and that next unit is decoded on its own.
pub open spec fn utf16_lossy(units: Seq<u16>) -> Seq<char>
    decreases units.len(),
{
    if units.len() == 0 {
        Seq::empty()
    } else if units.len() >= 2 && is_high_surrogate(units[0]) && is_low_surrogate(units[1]) {
        seq![(0x10000 + (units[0] - 0xD800) * 0x400 + (units[1] - 0xDC00)) as char] + utf16_lossy(units.skip(2))
    } else if is_high_surrogate(units[0]) || is_low_surrogate(units[0]) {
        seq!['\u{FFFD}'] + utf16_lossy(units.skip(1))
    } else {
        seq![units[0] as char] + utf16_lossy(units.skip(1))
    }
}

/// The text that UTF-16 code units encode, with each unpaired surrogate replaced by U+FFFD
/// (`String::from_utf16_lossy`).
#[verifier::external_body]
pub fn string_from_utf16_lossy(units: &[u16]) -> (s: String)
    ensures
        s@ == utf16_lossy(units@),
{
    String::from_utf16_lossy(units)
}

/// Two concatenations that are equal, with equally long second parts, have equal parts.
proof fn lemma_split_concat(a1: Seq<u16>, b1: Seq<u16>, a2: Seq<u16>, b2: Seq<u16>)
    requires
        a1 + b1 == a2 + b2,
        b1.len() == b2.len(),
    ensures
        a1 == a2,
        b1 == b2,
{
    assert(a1 =~= (a1 + b1).take(a1.len() as int));
    assert(a2 =~= (a2 + b2).take(a2.len() as int));
    assert(b1 =~= (a1 + b1).skip(a1.len() as int));
    assert(b2 =~= (a2 + b2).skip(a2.len() as int));
}

/// Every character has one or two code units; one exactly below U+10000, and then that unit
/// is not a surrogate; otherwise a high then a low surrogate.
pub proof fn lemma_utf16_units_shape(c: char)
    ensures
        (c as u32) < 0x10000 ==> utf16_units_of(c).len() == 1 && utf16_units_of(c)[0] as u32 == c as u32
            && !(0xD800 <= utf16_units_of(c)[0] && utf16_units_of(c)[0] <= 0xDFFF),
        (c as u32) >= 0x10000 ==> utf16_units_of(c).len() == 2
            && 0xD800 <= utf16_units_of(c)[0] <= 0xDBFF
            && 0xDC00 <= utf16_units_of(c)[1] <= 0xDFFF
            && utf16_units_of(c)[0] == 0xD800 + ((c as u32) - 0x10000) / 0x400
            && utf16_units_of(c)[1] == 0xDC00 + ((c as u32) - 0x10000) % 0x400,
{
}

/// A character is determined by its code.
pub proof fn lemma_char_from_code(c: char, d: char)
    requires
        c as u32 == d as u32,
    ensures
        c == d,
{
}

/// UTF-16 encoding loses nothing: different texts have different encodings.
pub proof fn lemma_utf16_injective(s: Seq<char>, t: Seq<char>)
    requires
        utf16_encode(s) == utf16_encode(t),
    ensures
        s == t,
    decreases s.len(),
{
    if s.len() == 0 || t.len() == 0 {
        if s.len() > 0 {
            lemma_utf16_units_shape(s.last());
            assert(utf16_encode(s).len() >= utf16_units_of(s.last()).len());
        }
        if t.len() > 0 {
            lemma_utf16_units_shape(t.last());
            assert(utf16_encode(t).len() >= utf16_units_of(t.last()).len());
        }
        assert(s.len() == 0 && t.len() == 0);
        assert(s =~= t);
    } else {
        let cs = s.last();
        let ct = t.last();
        let us = utf16_units_of(cs);
        let ut = utf16_units_of(ct);
        let ps = utf16_encode(s.drop_last());
        let pt = utf16_encode(t.drop_last());
        lemma_utf16_units_shape(cs);
        lemma_utf16_units_shape(ct);
        assert(ps + us == pt + ut);
        let e = ps + us;
        assert(e.last() == us.last());
        assert(e.last() == (pt + ut).last());
        assert((pt + ut).last() == ut.last());
        if (cs as u32) < 0x10000 && (ct as u32) >= 0x10000 {
            assert(false);
        } else if (cs as u32) >= 0x10000 && (ct as u32) < 0x10000 {
            assert(false);
        } else {
            assert(us.len() == ut.len());
            lemma_split_concat(ps, us, pt, ut);
            if (cs as u32) >= 0x10000 {
                let ws = (cs as u32 - 0x10000) as int;
                let wt = (ct as u32 - 0x10000) as int;
                assert(us[0] == ut[0]);
                assert(us[1] == ut[1]);
                assert(ws / 0x400 == wt / 0x400);
                assert(ws % 0x400 == wt % 0x400);
                assert(ws == wt);
            }
            assert(cs as u32 == ct as u32);
            lemma_char_from_code(cs, ct);
            lemma_utf16_injective(s.drop_last(), t.drop_last());
            assert(s.drop_last() == t.drop_last());
            assert(s =~= s.drop_last().push(cs));
            assert(t =~= t.drop_last().push(ct));
            assert(s == t);
        }
    }
}

/// A text without NUL characters has no zero code unit.
pub proof fn lemma_utf16_no_zero_unit(s: Seq<char>)
    requires
        forall|i: int| 0 <= i < s.len() ==> (#[trigger] s[i] as u32) != 0,
    ensures
        forall|k: int| 0 <= k < utf16_encode(s).len() ==> #[trigger] utf16_encode(s)[k] != 0,
    decreases s.len(),
{
    if s.len() > 0 {
        let c = s.last();
        assert forall|i: int| 0 <= i < s.drop_last().len() implies (#[trigger] s.drop_last()[i] as u32) != 0 by {
            assert(s.drop_last()[i] == s[i]);
        }
        lemma_utf16_no_zero_unit(s.drop_last());
        lemma_utf16_units_shape(c);
        assert(s[s.len() - 1] == c);
        let p = utf16_encode(s.drop_last());
        assert(utf16_encode(s) == p + utf16_units_of(c));
        assert forall|k: int| 0 <= k < utf16_encode(s).len() implies #[trigger] utf16_encode(s)[k] != 0 by {
            if k < p.len() {
                assert(utf16_encode(s)[k] == p[k]);
            } else {
                assert(utf16_encode(s)[k] == utf16_units_of(c)[k - p.len()]);
            }
        }
    }
}

/// Little-endian bytes of UTF-16 code units.
pub open spec fn le_bytes_u16(units: Seq<u16>) -> Seq<u8>
    decreases units.len(),
{
    if units.len() == 0 {
        Seq::empty()
    } else {
        le_bytes_u16(units.drop_last()) + seq![(units.last() % 256) as u8, (units.last() / 256) as u8]
    }
}

/// The code units read from little-endian byte pairs; an odd last byte is ignored.
pub open spec fn units_from_le(bytes: Seq<u8>) -> Seq<u16> {
    Seq::new(bytes.len() / 2, |k: int| (bytes[2 * k] + 256 * bytes[2 * k + 1]) as u16)
}

/// The code units before the first zero unit.
pub open spec fn until_nul(units: Seq<u16>) -> Seq<u16>
    decreases units.len(),
{
    if units.len() == 0 {
        units
    } else if units[0] == 0 {
        Seq::empty()
    } else {
        seq![units[0]] + until_nul(units.drop_first())
    }
}

/// The bytes of code units: two per unit, the low byte first.
pub proof fn lemma_le_bytes_u16_shape(units: Seq<u16>)
    ensures
        le_bytes_u16(units).len() == 2 * units.len(),
        forall|k: int| 0 <= k < units.len() ==> le_bytes_u16(units)[2 * k] == (#[trigger] units[k]) % 256
            && le_bytes_u16(units)[2 * k + 1] == units[k] / 256,
    decreases units.len(),
{
    if units.len() > 0 {
        let p = units.drop_last();
        lemma_le_bytes_u16_shape(p);
        assert forall|k: int| 0 <= k < units.len() implies le_bytes_u16(units)[2 * k] == (#[trigger] units[k]) % 256
            && le_bytes_u16(units)[2 * k + 1] == units[k] / 256 by {
            if k < units.len() - 1 {
                assert(units[k] == p[k]);
            }
        }
    }
}

/// Reading code units back from their little-endian bytes gives the units.
pub proof fn lemma_units_from_le_bytes(units: Seq<u16>)
    ensures
        units_from_le(le_bytes_u16(units)) == units,
{
    lemma_le_bytes_u16_shape(units);
    let b = le_bytes_u16(units);
    assert forall|k: int| 0 <= k < units.len() implies #[trigger] units_from_le(b)[k] == units[k] by {
        assert(b[2 * k] == units[k] % 256);
        assert(b[2 * k + 1] == units[k] / 256);
    }
    assert(units_from_le(b) =~= units);
}

/// The units before the first zero are the prefix that ends at the first zero (or the end).
pub proof fn lemma_until_nul_prefix(units: Seq<u16>, i: int)
    requires
        0 <= i <= units.len(),
        forall|k: int| 0 <= k < i ==> units[k] != 0,
        i == units.len() || units[i] == 0,
    ensures
        until_nul(units) == units.take(i),
    decreases units.len(),
{
    if units.len() > 0 && units[0] != 0 {
        lemma_until_nul_prefix(units.drop_first(), i - 1);
        assert(units.take(i) == seq![units[0]] + units.drop_first().take(i - 1));
    }
}

/// Little-endian bytes of code units.
pub fn units_to_le_bytes(units: &Vec<u16>) -> (bytes: Vec<u8>)
    ensures
        bytes@ == le_bytes_u16(units@),
{
    let mut bytes: Vec<u8> = Vec::new();
    let mut i: usize = 0;
    while i < units.len()
        invariant
            i <= units.len(),
            bytes@ == le_bytes_u16(units@.take(i as int)),
        decreases units.len() - i,
    {
        let u = units[i];
        bytes.push((u % 256) as u8);
        bytes.push((u / 256) as u8);
        i = i + 1;
        assert(units@.take(i as int).drop_last() == units@.take(i - 1));
        assert(bytes@ == le_bytes_u16(units@.take(i as int)));
    }
    assert(units@.take(units.len() as int) == units@);
    bytes
}

/// Code units from little-endian byte pairs, up to the first zero unit.
pub fn le_units_until_nul(bytes: &[u8]) -> (units: Vec<u16>)
    ensures
        units@ == until_nul(units_from_le(bytes@)),
{
    let ghost all = units_from_le(bytes@);
    let n: usize = bytes.len() / 2;
    let mut units: Vec<u16> = Vec::new();
    let mut i: usize = 0;
    while i < n
        invariant
            all == units_from_le(bytes@),
            n == all.len(),
            n == bytes@.len() / 2,
            i <= n,
            units@ == all.take(i as int),
            forall|k: int| 0 <= k < i ==> all[k] != 0,
        decreases n - i,
    {
        assert(i + i + 1 < bytes.len()) by (nonlinear_arith)
            requires
                i < n,
                n == bytes.len() / 2,
        ;
        let j: usize = i + i;
        let u: u16 = (bytes[j] as u16) + 256 * (bytes[j + 1] as u16);
        assert(u == all[i as int]);
        if u == 0 {
            proof {
                lemma_until_nul_prefix(all, i as int);
            }
            return units;
        }
        units.push(u);
        i = i + 1;
        assert(units@ == all.take(i as int));
    }
    proof {
        lemma_until_nul_prefix(all, n as int);
    }
    units
}


/// A curly brace, as around a GUID.
pub open spec fn is_brace(c: char) -> bool {
    c == '{' || c == '}'
}

/// The number of braces at the start of a text.
pub open spec fn leading_braces(s: Seq<char>) -> nat
    decreases s.len(),
{
    if s.len() > 0 && is_brace(s[0]) {
        1 + leading_braces(s.drop_first())
    } else {
        0
    }
}

/// The number of braces at the end of a text.
pub open spec fn trailing_braces(s: Seq<char>) -> nat
    decreases s.len(),
{
    if s.len() > 0 && is_brace(s.last()) {
        1 + trailing_braces(s.drop_last())
    } else {
        0
    }
}

/// A text without the braces at its start and at its end.
pub open spec fn trim_braces(s: Seq<char>) -> Seq<char> {
    let t = s.skip(leading_braces(s) as int);
    t.take(t.len() - trailing_braces(t))
}

/// The count of leading braces is the index of the first character that is not a brace.
pub proof fn lemma_leading_braces(s: Seq<char>, i: int)
    requires
        0 <= i <= s.len(),
        forall|k: int| 0 <= k < i ==> is_brace(#[trigger] s[k]),
        i == s.len() || !is_brace(s[i]),
    ensures
        leading_braces(s) == i,
    decreases s.len(),
{
    if s.len() > 0 && is_brace(s[0]) {
        assert(i > 0);
        assert forall|k: int| 0 <= k < i - 1 implies is_brace(#[trigger] s.drop_first()[k]) by {
            assert(s.drop_first()[k] == s[k + 1]);
        }
        lemma_leading_braces(s.drop_first(), i - 1);
    }
}

/// The count of trailing braces is the length after the last character that is not a brace.
pub proof fn lemma_trailing_braces(t: Seq<char>, m: int)
    requires
        0 <= m <= t.len(),
        forall|k: int| m <= k < t.len() ==> is_brace(#[trigger] t[k]),
        m == 0 || !is_brace(t[m - 1]),
    ensures
        trailing_braces(t) == t.len() - m,
    decreases t.len(),
{
    if t.len() > 0 && is_brace(t.last()) {
        assert(m < t.len()) by {
            if m == t.len() {
                assert(m > 0);
            }
        }
        assert forall|k: int| m <= k < t.len() - 1 implies is_brace(#[trigger] t.drop_last()[k]) by {
            assert(t.drop_last()[k] == t[k]);
        }
        if m > 0 {
            assert(t.drop_last()[m - 1] == t[m - 1]);
        }
        lemma_trailing_braces(t.drop_last(), m);
    } else {
        if m < t.len() {
            assert(is_brace(t[t.len() - 1]));
        }
    }
}

/// The characters of a text without its leading and trailing braces
/// (as `trim_matches(|c| c == '{' || c == '}')`).
pub fn trim_braces_chars(p: &Vec<char>) -> (r: Vec<char>)
    ensures
        r@ == trim_braces(p@),
{
    let n = p.len();
    let mut i: usize = 0;
    while i < n && (p[i] == '{' || p[i] == '}')
        invariant
            n == p@.len(),
            i <= n,
            forall|k: int| 0 <= k < i ==> is_brace(#[trigger] p@[k]),
        decreases n - i,
    {
        i = i + 1;
    }
    proof {
        lemma_leading_braces(p@, i as int);
    }
    let mut j: usize = n;
    while j > i && (p[j - 1] == '{' || p[j - 1] == '}')
        invariant
            n == p@.len(),
            i <= j <= n,
            forall|k: int| j <= k < n ==> is_brace(#[trigger] p@[k]),
        decreases j,
    {
        j = j - 1;
    }
    let ghost t = p@.skip(i as int);
    proof {
        assert forall|k: int| j - i <= k < t.len() implies is_brace(#[trigger] t[k]) by {
            assert(t[k] == p@[i + k]);
        }
        if j > i {
            assert(t[j - i - 1] == p@[j - 1]);
        }
        lemma_trailing_braces(t, j - i);
    }
    let mut r: Vec<char> = Vec::new();
    let mut k: usize = i;
    while k < j
        invariant
            i <= k <= j <= n,
            n == p@.len(),
            r@ == p@.subrange(i as int, k as int),
        decreases j - k,
    {
        r.push(p[k]);
        k = k + 1;
        assert(r@ == p@.subrange(i as int, k as int));
    }
    assert(r@ =~= t.take(t.len() - trailing_braces(t)));
    r
}

/// Encoding a character in front of a text puts its code units in front.
proof fn lemma_encode_prepend(c: char, s: Seq<char>)
    ensures
        utf16_encode(seq![c] + s) == utf16_units_of(c) + utf16_encode(s),
    decreases s.len(),
{
    let cs = seq![c] + s;
    if s.len() == 0 {
        assert(cs.drop_last() =~= Seq::<char>::empty());
        assert(cs.last() == c);
        assert(utf16_encode(cs) == utf16_encode(cs.drop_last()) + utf16_units_of(c));
        assert(utf16_encode(s) =~= Seq::<u16>::empty());
        assert(Seq::<u16>::empty() + utf16_units_of(c) =~= utf16_units_of(c));
        assert(utf16_units_of(c) + Seq::<u16>::empty() =~= utf16_units_of(c));
    } else {
        lemma_encode_prepend(c, s.drop_last());
        assert(cs.drop_last() =~= seq![c] + s.drop_last());
        assert(cs.last() == s.last());
        assert(utf16_encode(cs) == utf16_encode(cs.drop_last()) + utf16_units_of(s.last()));
        assert(utf16_encode(s) == utf16_encode(s.drop_last()) + utf16_units_of(s.last()));
        assert(utf16_units_of(c) + utf16_encode(s.drop_last()) + utf16_units_of(s.last())
            =~= utf16_units_of(c) + (utf16_encode(s.drop_last()) + utf16_units_of(s.last())));
    }
}

/// The code units of one character, followed by more units, decode to that character first.
proof fn lemma_lossy_char(c: char, rest: Seq<u16>)
    ensures
        utf16_lossy(utf16_units_of(c) + rest) == seq![c] + utf16_lossy(rest),
{
    lemma_utf16_units_shape(c);
    let u = utf16_units_of(c);
    let all = u + rest;
    let v = c as u32;
    if v < 0x10000 {
        assert(all[0] == u[0]);
        assert(all.skip(1) =~= rest);
        let d = all[0] as char;
        assert(d as u32 == v);
        lemma_char_from_code(d, c);
    } else {
        let w = v - 0x10000;
        assert(all[0] == u[0]);
        assert(all[1] == u[1]);
        assert(all.skip(2) =~= rest);
        assert(w == (w / 0x400) * 0x400 + w % 0x400) by (nonlinear_arith);
        let d = (0x10000 + (all[0] - 0xD800) * 0x400 + (all[1] - 0xDC00)) as char;
        assert(d as u32 == v);
        lemma_char_from_code(d, c);
    }
}

/// Decoding the encoding of a text gives the text back.
pub proof fn lemma_lossy_decodes_encoding(s: Seq<char>)
    ensures
        utf16_lossy(utf16_encode(s)) == s,
    decreases s.len(),
{
    if s.len() > 0 {
        let rest = s.skip(1);
        assert(s =~= seq![s[0]] + rest);
        lemma_encode_prepend(s[0], rest);
        lemma_lossy_char(s[0], utf16_encode(rest));
        lemma_lossy_decodes_encoding(rest);
    }
}

} // verus!

