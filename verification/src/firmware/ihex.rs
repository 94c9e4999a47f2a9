//! Intel HEX images.
//!
//! The text is split into lines at `\n`; each line is trimmed of Unicode white
//! space, blank lines are skipped, and every other line must be a record
//! `:LLAAAATT<data>CC` in hexadecimal. Data records write into an image that
//! starts at address 0 and grows as needed, with gaps filled with `0xFF`.

use vstd::prelude::*;
use vstd::string::*;
use vstd::utf8::{partial_valid_utf8_extend_ascii_block, valid_utf8, valid_utf8_concat};

use crate::error::{invalid_firmware, ZappError};
use crate::text::{
    append_byte_hex, byte_hex, decimal, decimal_string, trim_bounds, trim_bytes, trim_end_bytes,
    trim_start_bytes, white_space_prefix, white_space_suffix,
};

verus! {

/// What is wrong with a record line.
#[derive(Debug, Clone, Copy, PartialEq, Eq, Structural)]
pub enum LineFault {
    /// The line does not start with `:`.
    MissingColon,
    /// Fewer than ten characters follow the `:`.
    TooShort,
    /// The characters after `:` are not pairs of hexadecimal digits.
    InvalidHex,
    /// The bytes of the record do not sum to 0 modulo 256.
    BadChecksum,
    /// The record type is none of 0 to 5.
    UnknownRecordType(u8),
}

/// How a pair of characters of a record reads as one byte.
#[derive(Debug, Clone, Copy, PartialEq, Eq, Structural)]
pub enum HexPair {
    /// The pair is the byte's value.
    Value(u8),
    /// The pair is no hexadecimal number.
    Invalid,
    /// The pair does not fall on character boundaries: slicing the text there fails.
    Broken,
}

/// How the characters of a record decode as bytes.
pub enum HexDecode {
    Bytes(Seq<u8>),
    Invalid,
    Broken,
}

/// The effect of one line of the text.
pub enum LineStep {
    /// Nothing happens (blank line, start address, or an address record of another length).
    Skip,
    /// The line is rejected.
    Fault(LineFault),
    /// Reading the line fails outright (a slice or an address out of range).
    Broken,
    /// `bytes` are written at absolute address `address`.
    Data { address: int, bytes: Seq<u8> },
    /// End of file: the lines after this one are not read.
    End,
    /// The base address of later data records becomes `base`.
    SetBase(int),
}

/// What reading a whole text gives.
pub enum IhexOutcome {
    /// The image.
    Image(Seq<u8>),
    /// The bytes are not UTF-8.
    InvalidUtf8,
    /// Line `line` (counted from 1) is rejected.
    Fault { line: nat, fault: LineFault },
    /// No data record was found.
    NoData,
    /// Reading fails outright on some line.
    Broken,
}

/// The value of a hexadecimal digit (upper or lower case).
pub open spec fn hex_digit(b: u8) -> Option<u8> {
    if 0x30 <= b <= 0x39 {
        Some((b - 0x30) as u8)
    } else if 0x41 <= b <= 0x46 {
        Some((b - 0x41 + 10) as u8)
    } else if 0x61 <= b <= 0x66 {
        Some((b - 0x61 + 10) as u8)
    } else {
        None
    }
}

/// How the two bytes `b0 b1` of a record read as one byte in base 16: a leading
/// `+` sign is accepted before a single digit, and a pair that splits a
/// multi-byte character cannot be taken out of the text at all.
pub open spec fn hex_pair(b0: u8, b1: u8) -> HexPair {
    if b0 >= 0x80 {
        // a two-byte character fills the pair; any other byte there splits a character
        if 0xC0 <= b0 < 0xE0 {
            HexPair::Invalid
        } else {
            HexPair::Broken
        }
    } else if b1 >= 0x80 {
        HexPair::Broken
    } else if b0 == 0x2B {
        match hex_digit(b1) {
            Some(d) => HexPair::Value(d),
            None => HexPair::Invalid,
        }
    } else {
        match (hex_digit(b0), hex_digit(b1)) {
            (Some(h), Some(l)) => HexPair::Value((h * 16 + l) as u8),
            _ => HexPair::Invalid,
        }
    }
}

/// The bytes of the pairs of `hex` from position `i` on, read in order until
/// the first pair that is not a byte.
pub open spec fn hex_pairs_from(hex: Seq<u8>, i: int) -> HexDecode
    decreases hex.len() - i,
{
    if i + 2 > hex.len() || i < 0 {
        HexDecode::Bytes(seq![])
    } else {
        match hex_pair(hex[i], hex[i + 1]) {
            HexPair::Broken => HexDecode::Broken,
            HexPair::Invalid => HexDecode::Invalid,
            HexPair::Value(v) => match hex_pairs_from(hex, i + 2) {
                HexDecode::Bytes(rest) => HexDecode::Bytes(seq![v] + rest),
                other => other,
            },
        }
    }
}

/// The bytes that the characters of a record stand for.
pub open spec fn hex_decode(hex: Seq<u8>) -> HexDecode {
    if hex.len() % 2 != 0 {
        HexDecode::Invalid
    } else {
        hex_pairs_from(hex, 0)
    }
}

/// The sum of a sequence of bytes.
pub open spec fn byte_sum(s: Seq<u8>) -> int
    decreases s.len(),
{
    if s.len() == 0 {
        0
    } else {
        byte_sum(s.drop_last()) + s.last()
    }
}

/// The effect of a record whose bytes are `b` (at least five), under base address `base`.
pub open spec fn record_step(b: Seq<u8>, base: int) -> LineStep {
    let count = b[0] as int;
    let address = b[1] * 256 + b[2];
    let kind = b[3];
    if byte_sum(b) % 256 != 0 {
        LineStep::Fault(LineFault::BadChecksum)
    } else if kind == 0 {
        if base + address > u32::MAX || base + address + count > usize::MAX || 4 + count > b.len() {
            LineStep::Broken
        } else {
            LineStep::Data { address: base + address, bytes: b.subrange(4, 4 + count) }
        }
    } else if kind == 1 {
        LineStep::End
    } else if kind == 4 || kind == 2 {
        if count != 2 {
            LineStep::Skip
        } else if b.len() < 6 {
            LineStep::Broken
        } else if kind == 4 {
            LineStep::SetBase((b[4] * 256 + b[5]) * 0x10000)
        } else {
            LineStep::SetBase((b[4] * 256 + b[5]) * 0x10)
        }
    } else if kind == 3 || kind == 5 {
        LineStep::Skip
    } else {
        LineStep::Fault(LineFault::UnknownRecordType(kind))
    }
}

/// The effect of one (untrimmed) line under base address `base`.
pub open spec fn line_step(raw: Seq<u8>, base: int) -> LineStep {
    let line = trim_bytes(raw);
    if line.len() == 0 {
        LineStep::Skip
    } else if line[0] != 0x3A {
        LineStep::Fault(LineFault::MissingColon)
    } else {
        let hex = line.subrange(1, line.len() as int);
        if hex.len() < 10 {
            LineStep::Fault(LineFault::TooShort)
        } else {
            match hex_decode(hex) {
                HexDecode::Invalid => LineStep::Fault(LineFault::InvalidHex),
                HexDecode::Broken => LineStep::Broken,
                HexDecode::Bytes(b) => record_step(b, base),
            }
        }
    }
}

/// The position of the first `\n` in `t` at or after `pos`, or `t.len()`.
pub open spec fn next_newline(t: Seq<u8>, pos: int) -> int
    decreases t.len() - pos,
{
    if pos >= t.len() || pos < 0 {
        t.len() as int
    } else if t[pos] == 0x0A {
        pos
    } else {
        next_newline(t, pos + 1)
    }
}

/// `next_newline` finds the first `\n` at or after `pos`.
pub proof fn lemma_next_newline(t: Seq<u8>, pos: int)
    requires
        0 <= pos <= t.len(),
    ensures
        pos <= next_newline(t, pos) <= t.len(),
        next_newline(t, pos) < t.len() ==> t[next_newline(t, pos)] == 0x0A,
        forall|j: int| pos <= j < next_newline(t, pos) ==> t[j] != 0x0A,
    decreases t.len() - pos,
{
    if pos < t.len() && t[pos] != 0x0A {
        lemma_next_newline(t, pos + 1);
    }
}

/// `img` after writing `bytes` at `address`; a shorter image is first
/// extended to the end of the write with `0xFF`.
pub open spec fn write_image(img: Seq<u8>, address: int, bytes: Seq<u8>) -> Seq<u8> {
    let end = address + bytes.len();
    let len = if img.len() < end { end } else { img.len() as int };
    Seq::new(
        len as nat,
        |i: int|
            if address <= i < end {
                bytes[i - address]
            } else if i < img.len() {
                img[i]
            } else {
                0xFFu8
            },
    )
}

/// The outcome once the lines are read: the image, unless it is empty.
pub open spec fn finish(img: Seq<u8>) -> IhexOutcome {
    if img.len() == 0 {
        IhexOutcome::NoData
    } else {
        IhexOutcome::Image(img)
    }
}

/// The outcome of reading the lines of `t` from byte `pos` on, where `index`
/// lines come before, the image so far is `img` and the base address is `base`.
pub open spec fn ihex_from(t: Seq<u8>, pos: int, index: nat, img: Seq<u8>, base: int) -> IhexOutcome
    decreases t.len() - pos,
{
    if pos >= t.len() || pos < 0 {
        finish(img)
    } else {
        let nl = next_newline(t, pos);
        let next = if nl < t.len() { nl + 1 } else { t.len() as int };
        proof {
            lemma_next_newline(t, pos);
        }
        match line_step(t.subrange(pos, nl), base) {
            LineStep::Skip => ihex_from(t, next, index + 1, img, base),
            LineStep::Fault(f) => IhexOutcome::Fault { line: index + 1, fault: f },
            LineStep::Broken => IhexOutcome::Broken,
            LineStep::Data { address, bytes } => ihex_from(
                t,
                next,
                index + 1,
                write_image(img, address, bytes),
                base,
            ),
            LineStep::End => finish(img),
            LineStep::SetBase(b) => ihex_from(t, next, index + 1, img, b),
        }
    }
}

/// The outcome of reading `data` as an Intel HEX text.
pub open spec fn ihex_outcome(data: Seq<u8>) -> IhexOutcome {
    if !valid_utf8(data) {
        IhexOutcome::InvalidUtf8
    } else {
        ihex_from(data, 0, 0, seq![], 0)
    }
}

/// The message of a rejected line.
pub open spec fn fault_message(line: nat, fault: LineFault) -> Seq<char> {
    "line "@ + decimal(line) + match fault {
        LineFault::MissingColon => ": expected ':' prefix"@,
        LineFault::TooShort => ": too short"@,
        LineFault::InvalidHex => ": invalid hex"@,
        LineFault::BadChecksum => ": bad checksum"@,
        LineFault::UnknownRecordType(t) => ": unknown record type "@ + byte_hex(t),
    }
}

/// The message of the error for an outcome that is neither an image nor a failure to read.
pub open spec fn outcome_message(o: IhexOutcome) -> Seq<char> {
    match o {
        IhexOutcome::InvalidUtf8 => "invalid UTF-8 in HEX file"@,
        IhexOutcome::Fault { line, fault } => fault_message(line, fault),
        IhexOutcome::NoData => "HEX file contains no data records"@,
        _ => seq![],
    }
}

/// The result that reading `data` gives, unless reading fails outright.
pub open spec fn ihex_result_matches(data: Seq<u8>, res: Result<Vec<u8>, ZappError>) -> bool {
    match ihex_outcome(data) {
        IhexOutcome::Image(img) => res matches Ok(v) && v@ == img,
        IhexOutcome::Broken => false,
        o => res matches Err(e) && e.is_invalid_firmware(outcome_message(o)),
    }
}

/// Whether `std::str::from_utf8` accepts the bytes. The contract claims that it
/// succeeds exactly on well-formed UTF-8 as vstd's `valid_utf8` defines it (no
/// overlong encodings, no surrogates, nothing past U+10FFFF).
#[verifier::external_body]
fn is_utf8(data: &[u8]) -> (res: bool)
    ensures
        res == valid_utf8(data@),
{
    std::str::from_utf8(data).is_ok()
}

fn hex_digit_exec(b: u8) -> (res: Option<u8>)
    ensures
        res == hex_digit(b),
{
    if 0x30 <= b && b <= 0x39 {
        Some(b - 0x30)
    } else if 0x41 <= b && b <= 0x46 {
        Some(b - 0x41 + 10)
    } else if 0x61 <= b && b <= 0x66 {
        Some(b - 0x61 + 10)
    } else {
        None
    }
}

fn hex_pair_exec(b0: u8, b1: u8) -> (res: HexPair)
    ensures
        res == hex_pair(b0, b1),
{
    if b0 >= 0x80 {
        if 0xC0 <= b0 && b0 < 0xE0 {
            HexPair::Invalid
        } else {
            HexPair::Broken
        }
    } else if b1 >= 0x80 {
        HexPair::Broken
    } else if b0 == 0x2B {
        match hex_digit_exec(b1) {
            Some(d) => HexPair::Value(d),
            None => HexPair::Invalid,
        }
    } else {
        match (hex_digit_exec(b0), hex_digit_exec(b1)) {
            (Some(h), Some(l)) => HexPair::Value(h * 16 + l),
            _ => HexPair::Invalid,
        }
    }
}

/// Reads the characters `data[start..end)` of a record as bytes.
/// `Err(true)` when a pair splits a character, `Err(false)` when the text is no hexadecimal.
fn parse_hex_bytes(data: &[u8], start: usize, end: usize) -> (res: Result<Vec<u8>, bool>)
    requires
        start <= end <= data@.len(),
    ensures
        match hex_decode(data@.subrange(start as int, end as int)) {
            HexDecode::Bytes(b) => res matches Ok(v) && v@ == b,
            HexDecode::Invalid => res == Err::<Vec<u8>, bool>(false),
            HexDecode::Broken => res == Err::<Vec<u8>, bool>(true),
        },
{
    let ghost hex = data@.subrange(start as int, end as int);
    if (end - start) % 2 != 0 {
        return Err(false);
    }
    let mut out: Vec<u8> = Vec::new();
    let mut i = start;
    while i < end
        invariant
            start <= i <= end <= data@.len(),
            (i - start) % 2 == 0,
            (end - start) % 2 == 0,
            hex == data@.subrange(start as int, end as int),
            hex_pairs_from(hex, 0) == match hex_pairs_from(hex, i - start) {
                HexDecode::Bytes(rest) => HexDecode::Bytes(out@ + rest),
                other => other,
            },
        decreases end - i,
    {
        let p = hex_pair_exec(data[i], data[i + 1]);
        let ghost k = i - start;
        assert(hex[k] == data@[i as int] && hex[k + 1] == data@[i + 1]);
        match p {
            HexPair::Broken => {
                return Err(true);
            },
            HexPair::Invalid => {
                return Err(false);
            },
            HexPair::Value(v) => {
                proof {
                    match hex_pairs_from(hex, k + 2) {
                        HexDecode::Bytes(rest) => {
                            assert(out@.push(v) + rest =~= out@ + (seq![v] + rest));
                        },
                        _ => {},
                    }
                }
                out.push(v);
                i = i + 2;
            },
        }
    }
    proof {
        assert(out@ + seq![] =~= out@);
    }
    Ok(out)
}


proof fn lemma_ihex_from_image_nonempty(t: Seq<u8>, pos: int, index: nat, img: Seq<u8>, base: int)
    ensures
        ihex_from(t, pos, index, img, base) matches IhexOutcome::Image(x) ==> x.len() > 0,
    decreases t.len() - pos,
{
    if 0 <= pos < t.len() {
        let nl = next_newline(t, pos);
        let next = if nl < t.len() { nl + 1 } else { t.len() as int };
        lemma_next_newline(t, pos);
        match line_step(t.subrange(pos, nl), base) {
            LineStep::Skip => lemma_ihex_from_image_nonempty(t, next, index + 1, img, base),
            LineStep::Data { address, bytes } => lemma_ihex_from_image_nonempty(
                t,
                next,
                index + 1,
                write_image(img, address, bytes),
                base,
            ),
            LineStep::SetBase(b) => lemma_ihex_from_image_nonempty(t, next, index + 1, img, b),
            _ => {},
        }
    }
}

/// A text that reads as an image gives a non-empty one: a text with no data
/// record is rejected.
pub proof fn lemma_image_is_never_empty(data: Seq<u8>)
    ensures
        ihex_outcome(data) matches IhexOutcome::Image(img) ==> img.len() > 0,
{
    lemma_ihex_from_image_nonempty(data, 0, 0, seq![], 0);
}

/// The end-of-file record `:00000001FF` and the `\n` that ends its line.
pub open spec fn end_of_file_line() -> Seq<u8> {
    seq![0x3Au8, 0x30, 0x30, 0x30, 0x30, 0x30, 0x30, 0x30, 0x31, 0x46, 0x46, 0x0A]
}

/// The end-of-file record read as a line gives the end of the text.
proof fn lemma_end_of_file_record_ends(base: int)
    ensures
        line_step(end_of_file_line().subrange(0, 11), base) == LineStep::End,
{
    let raw = end_of_file_line().subrange(0, 11);
    assert(white_space_prefix(raw) == 0);
    assert(trim_start_bytes(raw) == raw);
    assert(white_space_suffix(raw) == 0);
    assert(trim_end_bytes(raw) == raw);
    let hex = raw.subrange(1, 11);
    reveal_with_fuel(hex_pairs_from, 6);
    let b: Seq<u8> = seq![0x00u8, 0x00, 0x00, 0x01, 0xFF];
    assert(hex_pairs_from(hex, 0) == HexDecode::Bytes(b)) by {
        assert(hex_pairs_from(hex, 10) == HexDecode::Bytes(seq![]));
        assert(hex_pairs_from(hex, 8) == HexDecode::Bytes(seq![0xFFu8]));
        assert(hex_pair(hex[6], hex[7]) == HexPair::Value(0x01));
        assert(seq![0x01u8] + seq![0xFFu8] == seq![0x01u8, 0xFF]);
        assert(hex_pairs_from(hex, 6) == HexDecode::Bytes(seq![0x01u8, 0xFF]));
        assert(hex_pair(hex[4], hex[5]) == HexPair::Value(0x00));
        assert(seq![0x00u8] + seq![0x01u8, 0xFF] == seq![0x00u8, 0x01, 0xFF]);
        assert(hex_pairs_from(hex, 4) == HexDecode::Bytes(seq![0x00u8, 0x01, 0xFF]));
        assert(seq![0x00u8] + seq![0x00u8, 0x01, 0xFF] == seq![0x00u8, 0x00, 0x01, 0xFF]);
        assert(hex_pairs_from(hex, 2) == HexDecode::Bytes(seq![0x00u8, 0x00, 0x01, 0xFF]));
        assert(seq![0x00u8] + seq![0x00u8, 0x00, 0x01, 0xFF] == b);
    }
    reveal_with_fuel(byte_sum, 6);
    assert(b.drop_last().drop_last().drop_last().drop_last().drop_last() == Seq::<u8>::empty());
    assert(byte_sum(b) == 256);
}

/// From a position at or before `v.len()`, the first `\n` found in `v` is the
/// first one found in any text that `v` begins.
proof fn lemma_next_newline_in_prefix(u: Seq<u8>, v: Seq<u8>, pos: int)
    requires
        v.len() <= u.len(),
        u.subrange(0, v.len() as int) == v,
        0 <= pos,
        next_newline(v, pos) < v.len(),
    ensures
        next_newline(u, pos) == next_newline(v, pos),
    decreases v.len() - pos,
{
    assert(u[pos] == u.subrange(0, v.len() as int)[pos]);
    if v[pos] != 0x0A {
        lemma_next_newline_in_prefix(u, v, pos + 1);
    }
}

/// Reading from a line start `pos` of `s` gives the same outcome on
/// `s + end_of_file_line() + t` (here `u`) as on `s + end_of_file_line()` (here `v`).
proof fn lemma_ihex_from_stops_at_end(
    u: Seq<u8>,
    v: Seq<u8>,
    k: int,
    pos: int,
    index: nat,
    img: Seq<u8>,
    base: int,
)
    requires
        v.len() <= u.len(),
        u.subrange(0, v.len() as int) == v,
        k + 12 == v.len(),
        v.subrange(k, k + 12) == end_of_file_line(),
        0 <= pos <= k,
        k == 0 || v[k - 1] == 0x0A,
        pos == 0 || v[pos - 1] == 0x0A,
    ensures
        ihex_from(u, pos, index, img, base) == ihex_from(v, pos, index, img, base),
    decreases k - pos,
{
    let e = end_of_file_line();
    lemma_next_newline(v, pos);
    let nl = next_newline(v, pos);
    if pos == k {
        assert(v[k + 11] == e[11]);
        assert forall|j: int| k <= j < k + 11 implies v[j] != 0x0A by {
            assert(v[j] == e[j - k]);
        }
        assert(nl == k + 11);
    } else {
        assert(nl <= k - 1);
    }
    lemma_next_newline_in_prefix(u, v, pos);
    assert(u.subrange(pos, nl) == v.subrange(pos, nl)) by {
        assert forall|j: int| pos <= j < nl implies u[j] == v[j] by {
            assert(u[j] == u.subrange(0, v.len() as int)[j]);
        }
    }
    let next = nl + 1;
    if pos == k {
        assert(v.subrange(pos, nl) == e.subrange(0, 11));
        lemma_end_of_file_record_ends(base);
    } else {
        match line_step(v.subrange(pos, nl), base) {
            LineStep::Skip => lemma_ihex_from_stops_at_end(u, v, k, next, index + 1, img, base),
            LineStep::Data { address, bytes } => lemma_ihex_from_stops_at_end(
                u,
                v,
                k,
                next,
                index + 1,
                write_image(img, address, bytes),
                base,
            ),
            LineStep::SetBase(b) => lemma_ihex_from_stops_at_end(u, v, k, next, index + 1, img, b),
            _ => {},
        }
    }
}

/// Everything after an end-of-file record is ignored: for any text `s` that is
/// empty or ends with a line break, appending any text `t` after the record
/// `:00000001FF` and its line break does not change what the whole reads as.
pub proof fn lemma_text_after_end_is_ignored(s: Seq<u8>, t: Seq<u8>)
    requires
        valid_utf8(s),
        valid_utf8(t),
        s.len() == 0 || s.last() == 0x0A,
    ensures
        ihex_outcome(s + end_of_file_line() + t) == ihex_outcome(s + end_of_file_line()),
{
    let e = end_of_file_line();
    let v = s + e;
    let u = v + t;
    assert(e.subrange(0, 0) == Seq::<u8>::empty());
    partial_valid_utf8_extend_ascii_block(e, 0, 12);
    assert(e.subrange(0, 12) == e);
    valid_utf8_concat(s, e);
    valid_utf8_concat(v, t);
    assert(u.subrange(0, v.len() as int) == v);
    assert(v.subrange(s.len() as int, s.len() + 12int) == e);
    assert(s.len() == 0 || v[s.len() - 1] == 0x0A);
    lemma_ihex_from_stops_at_end(u, v, s.len() as int, 0, 0, seq![], 0);
}

/// An address record holding the value `v` (two data bytes, big-endian) sets where
/// later data records land: a type-04 (extended linear address) record moves them
/// to `v * 0x10000`, a type-02 (extended segment address) record to `v * 0x10`, in
/// both cases plus the data record's own 16-bit address, whatever base came before.
pub proof fn lemma_address_records_move_later_data(b: Seq<u8>, d: Seq<u8>, base: int)
    requires
        b.len() >= 6,
        b[0] == 2,
        b[3] == 4 || b[3] == 2,
        byte_sum(b) % 256 == 0,
        d.len() >= 5,
        d[3] == 0,
        4 + d[0] <= d.len(),
        byte_sum(d) % 256 == 0,
    ensures
        ({
            let v = b[4] * 256 + b[5];
            let new_base = if b[3] == 4 { v * 0x10000 } else { v * 0x10 };
            let address = new_base + d[1] * 256 + d[2];
            &&& record_step(b, base) == LineStep::SetBase(new_base)
            &&& address + d[0] <= usize::MAX ==> record_step(d, new_base) == (LineStep::Data {
                address,
                bytes: d.subrange(4, 4 + d[0]),
            })
        }),
{
    let v = b[4] * 256 + b[5];
    assert(0 <= v <= 0xFFFF);
    assert(v * 0x10000 <= 0xFFFF * 0x10000) by (nonlinear_arith)
        requires
            0 <= v <= 0xFFFF,
    ;
    assert(v * 0x10 <= 0xFFFF * 0x10) by (nonlinear_arith)
        requires
            0 <= v <= 0xFFFF,
    ;
}

/// What each kind of record does, given that its checksum holds: a data record
/// writes its bytes, type 01 ends the text, types 03 and 05 (start addresses) and
/// address records that do not hold exactly two bytes change nothing, and any type
/// past 05 is rejected. A record whose checksum fails is rejected whatever its type.
pub proof fn lemma_record_kinds(b: Seq<u8>, base: int)
    requires
        b.len() >= 5,
    ensures
        byte_sum(b) % 256 != 0 ==> record_step(b, base) == LineStep::Fault(LineFault::BadChecksum),
        byte_sum(b) % 256 == 0 && b[3] == 1 ==> record_step(b, base) == LineStep::End,
        byte_sum(b) % 256 == 0 && (b[3] == 3 || b[3] == 5) ==> record_step(b, base) == LineStep::Skip,
        byte_sum(b) % 256 == 0 && (b[3] == 2 || b[3] == 4) && b[0] != 2 ==> record_step(b, base)
            == LineStep::Skip,
        byte_sum(b) % 256 == 0 && b[3] > 5 ==> record_step(b, base) == LineStep::Fault(
            LineFault::UnknownRecordType(b[3]),
        ),
        byte_sum(b) % 256 == 0 && b[3] == 0 ==> (record_step(b, base) is Data || record_step(b, base) is Broken),
        record_step(b, base) matches LineStep::Data { address, bytes } ==> b[3] == 0 && address == base + b[1]
            * 256 + b[2] && bytes.len() == b[0] && bytes == b.subrange(4, 4 + b[0]),
{
}

/// Writing into an image keeps every byte outside the written range, grows the
/// image only up to the end of the write, and fills what it adds before the write
/// with `0xFF`.
pub proof fn lemma_write_image(img: Seq<u8>, address: int, bytes: Seq<u8>)
    requires
        0 <= address,
    ensures
        write_image(img, address, bytes).len() == if img.len() < address + bytes.len() {
            address + bytes.len()
        } else {
            img.len() as int
        },
        forall|i: int|
            0 <= i < bytes.len() ==> #[trigger] write_image(img, address, bytes)[address + i] == bytes[i],
        forall|i: int|
            0 <= i < img.len() && !(address <= i < address + bytes.len()) ==> #[trigger] write_image(
                img,
                address,
                bytes,
            )[i] == img[i],
        forall|i: int|
            img.len() <= i < address ==> #[trigger] write_image(img, address, bytes)[i] == 0xFF,
{
    assert forall|i: int| 0 <= i < bytes.len() implies #[trigger] write_image(img, address, bytes)[address + i]
        == bytes[i] by {
        assert(address <= address + i < address + bytes.len());
    }
}

/// What a line does, as computed.
pub enum LineAction {
    Skip,
    Fault(LineFault),
    Broken,
    Data { address: usize, bytes: Vec<u8> },
    End,
    SetBase(u32),
}

/// `a` is the computed form of the step `s`.
pub open spec fn action_matches(a: LineAction, s: LineStep) -> bool {
    match s {
        LineStep::Skip => a is Skip,
        LineStep::Fault(f) => a == LineAction::Fault(f),
        LineStep::Broken => a is Broken,
        LineStep::Data { address, bytes } => a matches LineAction::Data { address: a2, bytes: b2 }
            && a2 == address && b2@ == bytes,
        LineStep::End => a is End,
        LineStep::SetBase(b) => a matches LineAction::SetBase(b2) && b2 == b,
    }
}

fn find_newline(data: &[u8], pos: usize) -> (nl: usize)
    requires
        pos <= data@.len(),
    ensures
        nl == next_newline(data@, pos as int),
{
    let mut i = pos;
    while i < data.len() && data[i] != 0x0A
        invariant
            pos <= i <= data@.len(),
            next_newline(data@, pos as int) == next_newline(data@, i as int),
        decreases data@.len() - i,
    {
        i = i + 1;
    }
    i
}

fn checksum(b: &Vec<u8>) -> (res: u32)
    ensures
        res == byte_sum(b@) % 256,
{
    let mut acc: u32 = 0;
    let mut i: usize = 0;
    while i < b.len()
        invariant
            i <= b@.len(),
            acc == byte_sum(b@.subrange(0, i as int)) % 256,
        decreases b@.len() - i,
    {
        proof {
            let p = b@.subrange(0, i + 1);
            assert(p.drop_last() =~= b@.subrange(0, i as int));
            vstd::arithmetic::div_mod::lemma_add_mod_noop(
                byte_sum(b@.subrange(0, i as int)),
                b@[i as int] as int,
                256,
            );
            vstd::arithmetic::div_mod::lemma_mod_twice(b@[i as int] as int, 256);
        }
        acc = (acc + b[i] as u32) % 256;
        i = i + 1;
    }
    assert(b@.subrange(0, b@.len() as int) =~= b@);
    acc
}

fn record_action(b: Vec<u8>, base: u32) -> (res: LineAction)
    requires
        b@.len() >= 5,
    ensures
        action_matches(res, record_step(b@, base as int)),
{
    let sum = checksum(&b);
    let count = b[0] as usize;
    let address = b[1] as u32 * 256 + b[2] as u32;
    let kind = b[3];
    if sum != 0 {
        LineAction::Fault(LineFault::BadChecksum)
    } else if kind == 0 {
        if base as u64 + address as u64 > u32::MAX as u64 || base as u64 + address as u64
            + count as u64 > usize::MAX as u64 || 4 + count > b.len() {
            LineAction::Broken
        } else {
            let mut bytes: Vec<u8> = Vec::new();
            let mut k: usize = 0;
            while k < count
                invariant
                    k <= count <= 255,
                    4 + count <= b@.len(),
                    bytes@ == b@.subrange(4, 4 + k),
                decreases count - k,
            {
                bytes.push(b[4 + k]);
                k = k + 1;
                assert(bytes@ =~= b@.subrange(4, 4 + k));
            }
            LineAction::Data { address: (base + address) as usize, bytes }
        }
    } else if kind == 1 {
        LineAction::End
    } else if kind == 4 || kind == 2 {
        if count != 2 {
            LineAction::Skip
        } else if b.len() < 6 {
            LineAction::Broken
        } else if kind == 4 {
            LineAction::SetBase((b[4] as u32 * 256 + b[5] as u32) * 0x10000)
        } else {
            LineAction::SetBase((b[4] as u32 * 256 + b[5] as u32) * 0x10)
        }
    } else if kind == 3 || kind == 5 {
        LineAction::Skip
    } else {
        LineAction::Fault(LineFault::UnknownRecordType(kind))
    }
}

fn line_action(data: &[u8], start: usize, end: usize, base: u32) -> (res: LineAction)
    requires
        start <= end <= data@.len(),
    ensures
        action_matches(res, line_step(data@.subrange(start as int, end as int), base as int)),
{
    let (a, b) = trim_bounds(data, start, end);
    let ghost line = data@.subrange(a as int, b as int);
    if a == b {
        return LineAction::Skip;
    }
    assert(line[0] == data@[a as int]);
    if data[a] != 0x3A {
        return LineAction::Fault(LineFault::MissingColon);
    }
    assert(line.subrange(1, line.len() as int) =~= data@.subrange(a + 1, b as int));
    if b - (a + 1) < 10 {
        return LineAction::Fault(LineFault::TooShort);
    }
    match parse_hex_bytes(data, a + 1, b) {
        Err(true) => LineAction::Broken,
        Err(false) => LineAction::Fault(LineFault::InvalidHex),
        Ok(bytes) => {
            proof {
                lemma_decode_len(data@.subrange(a + 1, b as int));
            }
            record_action(bytes, base)
        },
    }
}

/// Decoded records have half as many bytes as characters.
proof fn lemma_decode_len(hex: Seq<u8>)
    requires
        hex.len() % 2 == 0,
    ensures
        hex_decode(hex) matches HexDecode::Bytes(b) ==> b.len() * 2 == hex.len(),
{
    lemma_pairs_len(hex, 0);
}

proof fn lemma_pairs_len(hex: Seq<u8>, i: int)
    requires
        hex.len() % 2 == 0,
        0 <= i <= hex.len(),
        i % 2 == 0,
    ensures
        hex_pairs_from(hex, i) matches HexDecode::Bytes(b) ==> b.len() * 2 == hex.len() - i,
    decreases hex.len() - i,
{
    if i + 2 <= hex.len() {
        lemma_pairs_len(hex, i + 2);
    }
}


/// Writes `bytes` into the image at `address`, growing it with `0xFF` first if it is too short.
fn write_into(image: &mut Vec<u8>, address: usize, bytes: &Vec<u8>)
    requires
        address + bytes@.len() <= usize::MAX,
    ensures
        final(image)@ == write_image(old(image)@, address as int, bytes@),
{
    let ghost img = image@;
    let end = address + bytes.len();
    while image.len() < end
        invariant
            end == address + bytes@.len(),
            img.len() <= image@.len() <= (if img.len() < end { end as int } else { img.len() as int }),
            forall|i: int| 0 <= i < image@.len() ==> image@[i] == (if i < img.len() { img[i] } else { 0xFFu8 }),
        decreases end - image@.len(),
    {
        image.push(0xFF);
    }
    let mut k: usize = 0;
    while k < bytes.len()
        invariant
            k <= bytes@.len(),
            end == address + bytes@.len(),
            image@.len() == (if img.len() < end { end as int } else { img.len() as int }),
            forall|i: int|
                0 <= i < image@.len() ==> image@[i] == (if address <= i < address + k {
                    bytes@[i - address]
                } else if i < img.len() {
                    img[i]
                } else {
                    0xFFu8
                }),
        decreases bytes@.len() - k,
    {
        image.set(address + k, bytes[k]);
        k = k + 1;
    }
    assert(image@ =~= write_image(img, address as int, bytes@));
}

/// Reads `data` as an Intel HEX text; `None` where reading fails outright.
fn scan_ihex(data: &[u8]) -> (res: Option<Result<Vec<u8>, ZappError>>)
    ensures
        res is None <==> ihex_outcome(data@) is Broken,
        res matches Some(r) ==> ihex_result_matches(data@, r),
{
    if !is_utf8(data) {
        let msg = String::from_str("invalid UTF-8 in HEX file");
        return Some(Err(invalid_firmware(msg)));
    }
    let ghost t = data@;
    let mut image: Vec<u8> = Vec::new();
    let mut base: u32 = 0;
    let mut pos: usize = 0;
    let mut index: usize = 0;
    let mut ended = false;
    while pos < data.len() && !ended
        invariant
            t == data@,
            valid_utf8(t),
            pos <= t.len(),
            index <= pos,
            ihex_outcome(t) == if ended { finish(image@) } else { ihex_from(t, pos as int, index as nat, image@, base as int) },
        decreases t.len() - pos + (if ended { 0int } else { 1int }),
    {
        let nl = find_newline(data, pos);
        proof {
            lemma_next_newline(t, pos as int);
        }
        let next = if nl < data.len() { nl + 1 } else { data.len() };
        let act = line_action(data, pos, nl, base);
        match act {
            LineAction::Skip => {},
            LineAction::Fault(f) => {
                return Some(Err(invalid_firmware(fault_message_string(index + 1, f))));
            },
            LineAction::Broken => {
                return None;
            },
            LineAction::Data { address, bytes } => {
                write_into(&mut image, address, &bytes);
            },
            LineAction::End => {
                ended = true;
            },
            LineAction::SetBase(b) => {
                base = b;
            },
        }
        if !ended {
            pos = next;
            index = index + 1;
        }
    }
    if image.len() == 0 {
        let msg = String::from_str("HEX file contains no data records");
        Some(Err(invalid_firmware(msg)))
    } else {
        Some(Ok(image))
    }
}

/// The message of a rejected line, as a string.
fn fault_message_string(line: usize, fault: LineFault) -> (res: String)
    ensures
        res@ == fault_message(line as nat, fault),
{
    let mut s = String::from_str("line ");
    let n = decimal_string(line);
    s.append(n.as_str());
    match fault {
        LineFault::MissingColon => s.append(": expected ':' prefix"),
        LineFault::TooShort => s.append(": too short"),
        LineFault::InvalidHex => s.append(": invalid hex"),
        LineFault::BadChecksum => s.append(": bad checksum"),
        LineFault::UnknownRecordType(t) => {
            s.append(": unknown record type ");
            append_byte_hex(&mut s, t);
        },
    }
    proof {
        match fault {
            LineFault::UnknownRecordType(t) => {
                assert(s@ =~= "line "@ + decimal(line as nat) + (": unknown record type "@ + byte_hex(t)));
            },
            _ => {},
        }
    }
    s
}

/// Whether reading `data` as an Intel HEX text fails outright: a pair of
/// characters splits a multi-byte character, a data record claims more bytes
/// than it holds or reaches past the 32-bit address space, or an address
/// record claims two bytes that are not there.
pub fn ihex_is_broken(data: &[u8]) -> (res: bool)
    ensures
        res == (ihex_outcome(data@) is Broken),
{
    scan_ihex(data).is_none()
}

/// Parse Intel HEX data into a contiguous firmware blob.
///
/// The result is a byte vector covering addresses 0 through the highest
/// address found in the HEX records, with gaps filled with 0xFF.
pub fn parse_ihex(data: &[u8]) -> (res: Result<Vec<u8>, ZappError>)
    requires
        !(ihex_outcome(data@) is Broken),
    ensures
        ihex_result_matches(data@, res),
{
    match scan_ihex(data) {
        Some(r) => r,
        None => Err(invalid_firmware(String::new())),
    }
}

} // verus!
