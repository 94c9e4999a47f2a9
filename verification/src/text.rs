//! Text helpers shared by the parsers: Unicode white space on UTF-8 bytes and
//! on characters, and decimal and hexadecimal renderings of numbers.

use vstd::prelude::*;
use vstd::string::*;
use vstd::utf8::{
    encode_utf8_decode_utf8, encode_utf8_valid_utf8, is_char_boundary, is_char_boundary_iff_not_is_continuation_byte, is_char_boundary_start_end_of_seq,
    is_continuation_byte, length_of_first_scalar, pop_first_scalar, valid_utf8, valid_utf8_split,
};

verus! {

/// Whether three bytes are the UTF-8 encoding of a three-byte white-space character.
pub open spec fn is_white_space3(b0: u8, b1: u8, b2: u8) -> bool {
    ||| (b0 == 0xE1 && b1 == 0x9A && b2 == 0x80)
    ||| (b0 == 0xE2 && b1 == 0x80 && (0x80 <= b2 <= 0x8A || b2 == 0xA8 || b2 == 0xA9 || b2 == 0xAF))
    ||| (b0 == 0xE2 && b1 == 0x81 && b2 == 0x9F)
    ||| (b0 == 0xE3 && b1 == 0x80 && b2 == 0x80)
}

/// Length in bytes of the UTF-8 encoded white-space character at the start of `s`, or 0.
/// The white-space characters are those with the Unicode `White_Space` property:
/// U+0009 to U+000D, U+0020, U+0085, U+00A0, U+1680, U+2000 to U+200A, U+2028,
/// U+2029, U+202F, U+205F and U+3000.
pub open spec fn white_space_prefix(s: Seq<u8>) -> int {
    if s.len() >= 1 && (s[0] == 0x20 || 0x09 <= s[0] <= 0x0D) {
        1
    } else if s.len() >= 2 && s[0] == 0xC2 && (s[1] == 0x85 || s[1] == 0xA0) {
        2
    } else if s.len() >= 3 && is_white_space3(s[0], s[1], s[2]) {
        3
    } else {
        0
    }
}

/// Length in bytes of the UTF-8 encoded white-space character at the end of `s`, or 0.
pub open spec fn white_space_suffix(s: Seq<u8>) -> int {
    let n = s.len() as int;
    if n >= 1 && (s[n - 1] == 0x20 || 0x09 <= s[n - 1] <= 0x0D) {
        1
    } else if n >= 2 && s[n - 2] == 0xC2 && (s[n - 1] == 0x85 || s[n - 1] == 0xA0) {
        2
    } else if n >= 3 && is_white_space3(s[n - 3], s[n - 2], s[n - 1]) {
        3
    } else {
        0
    }
}

/// `s` without its leading white space, on UTF-8 bytes.
pub open spec fn trim_start_bytes(s: Seq<u8>) -> Seq<u8>
    decreases s.len(),
{
    let k = white_space_prefix(s);
    if k > 0 {
        trim_start_bytes(s.subrange(k, s.len() as int))
    } else {
        s
    }
}

/// `s` without its trailing white space, on UTF-8 bytes.
pub open spec fn trim_end_bytes(s: Seq<u8>) -> Seq<u8>
    decreases s.len(),
{
    let k = white_space_suffix(s);
    if k > 0 {
        trim_end_bytes(s.subrange(0, s.len() - k))
    } else {
        s
    }
}

/// `s` without leading and trailing white space, on UTF-8 bytes.
pub open spec fn trim_bytes(s: Seq<u8>) -> Seq<u8> {
    trim_end_bytes(trim_start_bytes(s))
}

/// Length of the white-space character encoded at `data[i..end)`, or 0.
fn white_space_prefix_at(data: &[u8], i: usize, end: usize) -> (k: usize)
    requires
        i <= end <= data@.len(),
    ensures
        k == white_space_prefix(data@.subrange(i as int, end as int)),
{
    let n = end - i;
    let ghost s = data@.subrange(i as int, end as int);
    if n >= 1 && (data[i] == 0x20 || (0x09 <= data[i] && data[i] <= 0x0D)) {
        1
    } else if n >= 2 && data[i] == 0xC2 && (data[i + 1] == 0x85 || data[i + 1] == 0xA0) {
        2
    } else if n >= 3 && is_white_space3_exec(data[i], data[i + 1], data[i + 2]) {
        3
    } else {
        assert(!(s.len() >= 3 && is_white_space3(s[0], s[1], s[2])));
        0
    }
}

/// Length of the white-space character encoded at the end of `data[start..j)`, or 0.
fn white_space_suffix_at(data: &[u8], start: usize, j: usize) -> (k: usize)
    requires
        start <= j <= data@.len(),
    ensures
        k == white_space_suffix(data@.subrange(start as int, j as int)),
{
    let n = j - start;
    let ghost s = data@.subrange(start as int, j as int);
    if n >= 1 && (data[j - 1] == 0x20 || (0x09 <= data[j - 1] && data[j - 1] <= 0x0D)) {
        1
    } else if n >= 2 && data[j - 2] == 0xC2 && (data[j - 1] == 0x85 || data[j - 1] == 0xA0) {
        2
    } else if n >= 3 && is_white_space3_exec(data[j - 3], data[j - 2], data[j - 1]) {
        3
    } else {
        assert(!(s.len() >= 3 && is_white_space3(s[s.len() - 3], s[s.len() - 2], s[s.len() - 1])));
        0
    }
}

fn is_white_space3_exec(b0: u8, b1: u8, b2: u8) -> (res: bool)
    ensures
        res == is_white_space3(b0, b1, b2),
{
    (b0 == 0xE1 && b1 == 0x9A && b2 == 0x80)
    || (b0 == 0xE2 && b1 == 0x80 && ((0x80 <= b2 && b2 <= 0x8A) || b2 == 0xA8 || b2 == 0xA9 || b2 == 0xAF))
    || (b0 == 0xE2 && b1 == 0x81 && b2 == 0x9F)
    || (b0 == 0xE3 && b1 == 0x80 && b2 == 0x80)
}

/// The bounds `(a, b)` of `trim_bytes(data[start..end))` inside `data`.
pub fn trim_bounds(data: &[u8], start: usize, end: usize) -> (res: (usize, usize))
    requires
        start <= end <= data@.len(),
    ensures
        start <= res.0 <= res.1 <= end,
        data@.subrange(res.0 as int, res.1 as int) == trim_bytes(data@.subrange(start as int, end as int)),
        valid_utf8(data@) && is_char_boundary(data@, start as int) && is_char_boundary(data@, end as int)
            ==> is_char_boundary(data@, res.0 as int) && is_char_boundary(data@, res.1 as int),
{
    let ghost aligned = valid_utf8(data@) && is_char_boundary(data@, start as int) && is_char_boundary(
        data@,
        end as int,
    );
    let mut a = start;
    loop
        invariant
            start <= a <= end <= data@.len(),
            aligned == (valid_utf8(data@) && is_char_boundary(data@, start as int) && is_char_boundary(data@, end as int)),
            aligned ==> is_char_boundary(data@, a as int),
            trim_start_bytes(data@.subrange(start as int, end as int))
                == trim_start_bytes(data@.subrange(a as int, end as int)),
        ensures
            start <= a <= end,
            aligned ==> is_char_boundary(data@, a as int),
            white_space_prefix(data@.subrange(a as int, end as int)) == 0,
            trim_start_bytes(data@.subrange(start as int, end as int))
                == trim_start_bytes(data@.subrange(a as int, end as int)),
        decreases end - a,
    {
        let k = white_space_prefix_at(data, a, end);
        if k == 0 {
            break;
        }
        proof {
            let s = data@.subrange(a as int, end as int);
            assert(s.subrange(k as int, s.len() as int) == data@.subrange(a + k, end as int));
            assert(s[0] == data@[a as int]);
            if aligned {
                lemma_boundary_after_char(data@, a as int);
                assert(leading_width(data@[a as int]) == k);
            }
        }
        a = a + k;
    }
    assert(trim_start_bytes(data@.subrange(a as int, end as int)) == data@.subrange(a as int, end as int));
    let mut b = end;
    loop
        invariant
            a <= b <= end <= data@.len(),
            aligned == (valid_utf8(data@) && is_char_boundary(data@, start as int) && is_char_boundary(data@, end as int)),
            aligned ==> is_char_boundary(data@, b as int),
            trim_start_bytes(data@.subrange(start as int, end as int)) == data@.subrange(a as int, end as int),
            trim_end_bytes(data@.subrange(a as int, end as int))
                == trim_end_bytes(data@.subrange(a as int, b as int)),
        ensures
            a <= b <= end,
            aligned ==> is_char_boundary(data@, b as int),
            white_space_suffix(data@.subrange(a as int, b as int)) == 0,
            trim_end_bytes(data@.subrange(a as int, end as int))
                == trim_end_bytes(data@.subrange(a as int, b as int)),
        decreases b - a,
    {
        let k = white_space_suffix_at(data, a, b);
        if k == 0 {
            break;
        }
        proof {
            let s = data@.subrange(a as int, b as int);
            assert(s.subrange(0, s.len() - k) == data@.subrange(a as int, b - k));
            assert(s[s.len() - k] == data@[b - k]);
            if aligned {
                lemma_boundary_at(data@, b - k);
            }
        }
        b = b - k;
    }
    assert(trim_end_bytes(data@.subrange(a as int, b as int)) == data@.subrange(a as int, b as int));
    (a, b)
}


/// The character of a digit below 16 (lower-case letters past 9).
pub open spec fn digit_char(d: nat) -> char {
    if d < 10 {
        (48 + d) as char
    } else {
        (87 + d) as char
    }
}

/// The decimal rendering of `n`, most significant digit first, without leading zeros.
pub open spec fn decimal(n: nat) -> Seq<char>
    decreases n,
{
    if n < 10 {
        seq![digit_char(n)]
    } else {
        decimal(n / 10) + seq![digit_char(n % 10)]
    }
}

/// `0x` followed by the two lower-case hexadecimal digits of a byte.
pub open spec fn byte_hex(b: u8) -> Seq<char> {
    seq!['0', 'x', digit_char((b / 16) as nat), digit_char((b % 16) as nat)]
}

/// The one-character string of a digit below 16.
pub fn digit_str(d: u8) -> (res: &'static str)
    requires
        d < 16,
    ensures
        res@ == seq![digit_char(d as nat)],
{
    proof {
        reveal_strlit("0");
        reveal_strlit("1");
        reveal_strlit("2");
        reveal_strlit("3");
        reveal_strlit("4");
        reveal_strlit("5");
        reveal_strlit("6");
        reveal_strlit("7");
        reveal_strlit("8");
        reveal_strlit("9");
        reveal_strlit("a");
        reveal_strlit("b");
        reveal_strlit("c");
        reveal_strlit("d");
        reveal_strlit("e");
        reveal_strlit("f");
    }
    let res = match d {
        0 => "0",
        1 => "1",
        2 => "2",
        3 => "3",
        4 => "4",
        5 => "5",
        6 => "6",
        7 => "7",
        8 => "8",
        9 => "9",
        10 => "a",
        11 => "b",
        12 => "c",
        13 => "d",
        14 => "e",
        _ => "f",
    };
    assert(res@ =~= seq![digit_char(d as nat)]);
    res
}

/// The decimal rendering of `n`.
pub fn decimal_string(n: usize) -> (res: String)
    ensures
        res@ == decimal(n as nat),
    decreases n,
{
    if n < 10 {
        String::from_str(digit_str(n as u8))
    } else {
        let mut s = decimal_string(n / 10);
        s.append(digit_str((n % 10) as u8));
        s
    }
}

/// Appends the `0x`-prefixed two-digit hexadecimal rendering of a byte.
pub fn append_byte_hex(s: &mut String, b: u8)
    ensures
        final(s)@ == old(s)@ + byte_hex(b),
{
    proof {
        reveal_strlit("0x");
    }
    s.append("0x");
    s.append(digit_str(b / 16));
    s.append(digit_str(b % 16));
    assert(s@ =~= old(s)@ + byte_hex(b));
}


/// The width of the UTF-8 encoding that a leading byte starts.
pub open spec fn leading_width(b: u8) -> int {
    if b < 0x80 {
        1
    } else if 0xC0 <= b < 0xE0 {
        2
    } else if 0xE0 <= b < 0xF0 {
        3
    } else {
        4
    }
}

/// A byte that is not a continuation byte starts a character.
pub proof fn lemma_boundary_at(b: Seq<u8>, i: int)
    requires
        valid_utf8(b),
        0 <= i <= b.len(),
        i < b.len() ==> !is_continuation_byte(b[i]),
    ensures
        is_char_boundary(b, i),
{
    if i == b.len() {
        is_char_boundary_start_end_of_seq(b);
    } else {
        is_char_boundary_iff_not_is_continuation_byte(b, i);
    }
}

/// The character that starts at a boundary ends at a boundary.
pub proof fn lemma_boundary_after_char(b: Seq<u8>, i: int)
    requires
        valid_utf8(b),
        0 <= i < b.len(),
        is_char_boundary(b, i),
    ensures
        i + leading_width(b[i]) <= b.len(),
        is_char_boundary(b, i + leading_width(b[i])),
{
    valid_utf8_split(b, i);
    let c = b.subrange(i, b.len() as int);
    assert(c[0] == b[i]);
    assert(valid_utf8(pop_first_scalar(c)));
    is_char_boundary_iff_not_is_continuation_byte(b, i);
    assert(length_of_first_scalar(c) == leading_width(b[i]));
    let d = pop_first_scalar(c);
    assert(d =~= b.subrange(i + leading_width(b[i]), b.len() as int));
    if d.len() > 0 {
        is_char_boundary_start_end_of_seq(d);
        is_char_boundary_iff_not_is_continuation_byte(d, 0);
        assert(d[0] == b[i + leading_width(b[i])]);
        is_char_boundary_iff_not_is_continuation_byte(b, i + leading_width(b[i]));
    } else {
        is_char_boundary_start_end_of_seq(b);
    }
}

/// The text of `s` from byte `from` to byte `to`, both character boundaries.
pub fn str_slice(s: &str, from: usize, to: usize) -> (res: &str)
    requires
        from <= to <= s.spec_bytes().len(),
        is_char_boundary(s.spec_bytes(), from as int),
        is_char_boundary(s.spec_bytes(), to as int),
    ensures
        res.spec_bytes() == s.spec_bytes().subrange(from as int, to as int),
{
    let ghost b = s.spec_bytes();
    proof {
        encode_utf8_valid_utf8(s@);
    }
    let (head, _) = s.split_at(to);
    proof {
        let h = b.subrange(0, to as int);
        valid_utf8_split(b, to as int);
        if from < to {
            is_char_boundary_iff_not_is_continuation_byte(b, from as int);
            assert(h[from as int] == b[from as int]);
        }
        lemma_boundary_at(h, from as int);
    }
    let (_, piece) = head.split_at(from);
    assert(piece.spec_bytes() =~= b.subrange(from as int, to as int));
    piece
}


/// `s` without leading and trailing white space (`str::trim`).
pub fn trim_str(s: &str) -> (res: &str)
    ensures
        res.spec_bytes() == trim_bytes(s.spec_bytes()),
{
    let b = s.as_bytes();
    proof {
        encode_utf8_valid_utf8(s@);
        lemma_boundary_at(b@, 0);
        lemma_boundary_at(b@, b@.len() as int);
        assert(b@.subrange(0, b@.len() as int) =~= b@);
    }
    let (from, to) = trim_bounds(b, 0, b.len());
    str_slice(s, from, to)
}

/// Whether two strings are equal.
pub fn str_eq(a: &str, b: &str) -> (res: bool)
    ensures
        res == (a@ == b@),
{
    let x = a.as_bytes();
    let y = b.as_bytes();
    proof {
        encode_utf8_decode_utf8(a@);
        encode_utf8_decode_utf8(b@);
    }
    if x.len() != y.len() {
        return false;
    }
    let mut i: usize = 0;
    while i < x.len()
        invariant
            x@.len() == y@.len(),
            x@ == a.spec_bytes(),
            y@ == b.spec_bytes(),
            i <= x@.len(),
            forall|k: int| 0 <= k < i ==> x@[k] == y@[k],
        decreases x@.len() - i,
    {
        if x[i] != y[i] {
            return false;
        }
        i = i + 1;
    }
    assert(x@ =~= y@);
    true
}

} // verus!
