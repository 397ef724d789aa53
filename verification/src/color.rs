//! Hex RGBA strings: `#RRGGBBAA` (eight hex digits, alpha last).

use vstd::prelude::*;

use crate::text::{chars_of, trim, trim_chars};

verus! {

#[derive(Debug, Clone, Copy, PartialEq, Eq, Structural)]
pub enum ParseHexRgbaError {
    /// Expected `#RRGGBBAA` (leading `#` and exactly 8 hex digits).
    InvalidFormat,
    /// Non-hex digit in the color string.
    InvalidDigit,
}

/// An ASCII hex digit.
pub open spec fn is_hex(c: char) -> bool {
    ('0' <= c && c <= '9') || ('a' <= c && c <= 'f') || ('A' <= c && c <= 'F')
}

/// Value of an ASCII hex digit.
pub open spec fn hex_val(c: char) -> int {
    if '0' <= c && c <= '9' {
        c as int - '0' as int
    } else if 'a' <= c && c <= 'f' {
        c as int - 'a' as int + 10
    } else {
        c as int - 'A' as int + 10
    }
}

/// Number of bytes of `c` in UTF-8.
pub open spec fn utf8_len(c: char) -> nat {
    if (c as u32) < 0x80 {
        1
    } else if (c as u32) < 0x800 {
        2
    } else if (c as u32) < 0x10000 {
        3
    } else {
        4
    }
}

/// Number of bytes of `s` in UTF-8 (what `str::len` reports).
pub open spec fn utf8_seq_len(s: Seq<char>) -> nat
    decreases s.len(),
{
    if s.len() == 0 {
        0
    } else {
        utf8_seq_len(s.drop_last()) + utf8_len(s.last())
    }
}

/// The byte written by hex digits `s[2 * i]` and `s[2 * i + 1]`.
pub open spec fn hex_byte(s: Seq<char>, i: int) -> u8 {
    (hex_val(s[2 * i]) * 16 + hex_val(s[2 * i + 1])) as u8
}

/// The channels `[r, g, b, a]` that `#RRGGBBAA` denotes, or why it is refused:
/// surrounding whitespace is ignored; a missing `#` or a digit part that is not
/// eight bytes long is `InvalidFormat`; a non-hex character is `InvalidDigit`.
pub open spec fn spec_parse_hex_rgba(s: Seq<char>) -> Result<Seq<u8>, ParseHexRgbaError> {
    let t = trim(s);
    if t.len() == 0 || t[0] != '#' {
        Err(ParseHexRgbaError::InvalidFormat)
    } else {
        let hex = t.drop_first();
        if utf8_seq_len(hex) != 8 {
            Err(ParseHexRgbaError::InvalidFormat)
        } else if !(forall|i: int| 0 <= i < hex.len() ==> is_hex(#[trigger] hex[i])) {
            Err(ParseHexRgbaError::InvalidDigit)
        } else {
            Ok(seq![hex_byte(hex, 0), hex_byte(hex, 1), hex_byte(hex, 2), hex_byte(hex, 3)])
        }
    }
}

/// `[r, g, b, a]` reordered as `[b, g, r, a]`.
pub open spec fn bgra_of(rgba: Seq<u8>) -> Seq<u8> {
    seq![rgba[2], rgba[1], rgba[0], rgba[3]]
}

/// The channels of `#RRGGBBAA` in BGRA order, or why it is refused.
pub open spec fn spec_parse_hex_bgra(s: Seq<char>) -> Result<Seq<u8>, ParseHexRgbaError> {
    match spec_parse_hex_rgba(s) {
        Ok(rgba) => Ok(bgra_of(rgba)),
        Err(e) => Err(e),
    }
}

/// A result carrying a 4-byte array, against one carrying its bytes.
pub open spec fn color_result_is(
    r: Result<[u8; 4], ParseHexRgbaError>,
    e: Result<Seq<u8>, ParseHexRgbaError>,
) -> bool {
    match e {
        Ok(bytes) => r is Ok && r->Ok_0@ == bytes,
        Err(err) => r == Err::<[u8; 4], ParseHexRgbaError>(err),
    }
}

fn is_hex_char(c: char) -> (r: bool)
    ensures
        r == is_hex(c),
{
    ('0' <= c && c <= '9') || ('a' <= c && c <= 'f') || ('A' <= c && c <= 'F')
}

fn hex_val_char(c: char) -> (r: u8)
    requires
        is_hex(c),
    ensures
        r == hex_val(c),
        r < 16,
{
    let u = c as u32;
    if '0' <= c && c <= '9' {
        (u - 48) as u8
    } else if 'a' <= c && c <= 'f' {
        (u - 97 + 10) as u8
    } else {
        (u - 65 + 10) as u8
    }
}

fn utf8_len_char(c: char) -> (r: usize)
    ensures
        r == utf8_len(c),
{
    let u = c as u32;
    if u < 0x80 {
        1
    } else if u < 0x800 {
        2
    } else if u < 0x10000 {
        3
    } else {
        4
    }
}

proof fn lemma_utf8_seq_len_push(s: Seq<char>, c: char)
    ensures
        utf8_seq_len(s.push(c)) == utf8_seq_len(s) + utf8_len(c),
{
    assert(s.push(c).drop_last() =~= s);
}

proof fn lemma_utf8_seq_len_ascii(s: Seq<char>)
    requires
        forall|i: int| 0 <= i < s.len() ==> is_hex(#[trigger] s[i]),
    ensures
        utf8_seq_len(s) == s.len(),
    decreases s.len(),
{
    if s.len() > 0 {
        let t = s.drop_last();
        assert forall|i: int| 0 <= i < t.len() implies is_hex(#[trigger] t[i]) by {
            assert(t[i] == s[i]);
        }
        lemma_utf8_seq_len_ascii(t);
        assert(is_hex(s[s.len() - 1]));
    }
}

/// Parse `#RRGGBBAA` into `[r, g, b, a]` with each channel `0..=255`.
pub fn parse_hex_rgba(s: &str) -> (r: Result<[u8; 4], ParseHexRgbaError>)
    ensures
        color_result_is(r, spec_parse_hex_rgba(s@)),
{
    let v = chars_of(s);
    let t = trim_chars(&v);
    if t.len() == 0 || t[0] != '#' {
        return Err(ParseHexRgbaError::InvalidFormat);
    }
    let ghost hex = t@.drop_first();
    // Byte length of the digits, counting stops once it passes 8.
    let mut blen: usize = 0;
    let mut i: usize = 1;
    while i < t.len() && blen <= 8
        invariant
            1 <= i <= t.len(),
            hex == t@.drop_first(),
            blen == utf8_seq_len(hex.subrange(0, i - 1)),
        decreases t.len() - i,
    {
        let l = utf8_len_char(t[i]);
        proof {
            lemma_utf8_seq_len_push(hex.subrange(0, i - 1), t@[i as int]);
            assert(hex.subrange(0, i - 1).push(t@[i as int]) =~= hex.subrange(0, i as int));
        }
        blen = blen + l;
        i = i + 1;
    }
    proof {
        if i == t.len() {
            assert(hex.subrange(0, i - 1) =~= hex);
        } else {
            lemma_utf8_seq_len_prefix_le(hex, i - 1);
        }
    }
    if blen != 8 || i < t.len() {
        return Err(ParseHexRgbaError::InvalidFormat);
    }
    let mut j: usize = 1;
    while j < t.len()
        invariant
            1 <= j <= t.len(),
            hex == t@.drop_first(),
            t@ == trim(s@),
            t@[0] == '#',
            utf8_seq_len(hex) == 8,
            forall|k: int| 0 <= k < j - 1 ==> is_hex(#[trigger] hex[k]),
        decreases t.len() - j,
    {
        if !is_hex_char(t[j]) {
            assert(!is_hex(hex[j - 1]));
            return Err(ParseHexRgbaError::InvalidDigit);
        }
        j = j + 1;
    }
    proof {
        lemma_utf8_seq_len_ascii(hex);
    }
    let r = hex_val_char(t[1]) * 16 + hex_val_char(t[2]);
    let g = hex_val_char(t[3]) * 16 + hex_val_char(t[4]);
    let b = hex_val_char(t[5]) * 16 + hex_val_char(t[6]);
    let a = hex_val_char(t[7]) * 16 + hex_val_char(t[8]);
    let out = [r, g, b, a];
    assert(out@ =~= seq![hex_byte(hex, 0), hex_byte(hex, 1), hex_byte(hex, 2), hex_byte(hex, 3)]);
    Ok(out)
}

/// A longer prefix never has fewer UTF-8 bytes.
proof fn lemma_utf8_seq_len_prefix_le(s: Seq<char>, n: int)
    requires
        0 <= n <= s.len(),
    ensures
        utf8_seq_len(s.subrange(0, n)) <= utf8_seq_len(s),
    decreases s.len() - n,
{
    if n < s.len() {
        lemma_utf8_seq_len_prefix_le(s, n + 1);
        lemma_utf8_seq_len_push(s.subrange(0, n), s[n]);
        assert(s.subrange(0, n).push(s[n]) =~= s.subrange(0, n + 1));
    } else {
        assert(s.subrange(0, n) =~= s);
    }
}

/// Reorder `[r, g, b, a]` → `[b, g, r, a]` for common Wayland SHM `ARGB8888` buffers.
pub fn rgba_to_bgra(rgba: [u8; 4]) -> (r: [u8; 4])
    ensures
        r@ == bgra_of(rgba@),
{
    let out = [rgba[2], rgba[1], rgba[0], rgba[3]];
    assert(out@ =~= bgra_of(rgba@));
    out
}

/// Parse `#RRGGBBAA` and return **BGRA** byte order (`[b, g, r, a]`).
pub fn parse_hex_rgba_to_bgra(s: &str) -> (r: Result<[u8; 4], ParseHexRgbaError>)
    ensures
        color_result_is(r, spec_parse_hex_bgra(s@)),
{
    match parse_hex_rgba(s) {
        Ok(rgba) => Ok(rgba_to_bgra(rgba)),
        Err(e) => Err(e),
    }
}

/// Swapping red and blue twice gives the colour back: the BGRA reorder is
/// its own inverse.
pub proof fn law_bgra_reorder_involution(rgba: Seq<u8>)
    requires
        rgba.len() == 4,
    ensures
        bgra_of(bgra_of(rgba)) == rgba,
{
    assert(bgra_of(bgra_of(rgba)) =~= rgba);
}

} // verus!
