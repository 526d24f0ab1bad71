//! The color grammar: `#RGB`, `#RRGGBB`, `#RRGGBBAA`, `rgb(r,g,b)` and
//! `rgba(r,g,b,a)`, read into a packed `0xRRGGBBAA`.
//!
//! White space around the whole text and around each component of the
//! functional forms is skipped.  The channels of `rgb()` and `rgba()` are
//! decimal numbers held to 0..=255 (a fraction is cut off); the alpha of
//! `rgba()` is a decimal number held to 0..=1 and scaled to a byte.  Any
//! other text is not a color.

use vstd::prelude::*;
use crate::number::{decimal_micros, parse_decimal};

verus! {

/// Space, tab, line feed, vertical tab, form feed, carriage return.
pub open spec fn is_space(b: u8) -> bool {
    b == 0x20 || (0x09 <= b <= 0x0d)
}

/// The number of white-space bytes at the start.
pub open spec fn leading_spaces(s: Seq<u8>) -> int
    decreases s.len(),
{
    if s.len() > 0 && is_space(s[0]) {
        1 + leading_spaces(s.skip(1))
    } else {
        0
    }
}

/// The number of white-space bytes at the end.
pub open spec fn trailing_spaces(s: Seq<u8>) -> int
    decreases s.len(),
{
    if s.len() > 0 && is_space(s.last()) {
        1 + trailing_spaces(s.drop_last())
    } else {
        0
    }
}

/// The text without the white space around it.
pub open spec fn trimmed(s: Seq<u8>) -> Seq<u8> {
    let front = s.skip(leading_spaces(s));
    front.take(front.len() - trailing_spaces(front))
}

/// The value of a hexadecimal digit.
pub open spec fn hex_value(b: u8) -> Option<int> {
    if 0x30 <= b <= 0x39 {
        Some(b - 0x30)
    } else if 0x61 <= b <= 0x66 {
        Some(b - 0x61 + 10)
    } else if 0x41 <= b <= 0x46 {
        Some(b - 0x41 + 10)
    } else {
        None
    }
}

/// The byte that two hexadecimal digits spell.
#[verifier::opaque]
pub open spec fn hex_pair(hi: u8, lo: u8) -> Option<int> {
    match (hex_value(hi), hex_value(lo)) {
        (Some(h), Some(l)) => Some(h * 16 + l),
        _ => None,
    }
}

/// Four channels packed as `0xRRGGBBAA`.
pub open spec fn pack_rgba(r: int, g: int, b: int, a: int) -> int {
    r * 0x100_0000 + g * 0x1_0000 + b * 0x100 + a
}

/// The color that the digits after `#` spell.
#[verifier::opaque]
pub open spec fn hex_color(h: Seq<u8>) -> Option<int> {
    if h.len() == 3 {
        match (hex_value(h[0]), hex_value(h[1]), hex_value(h[2])) {
            (Some(r), Some(g), Some(b)) => Some(pack_rgba(r * 17, g * 17, b * 17, 255)),
            _ => None,
        }
    } else if h.len() == 6 {
        match (hex_pair(h[0], h[1]), hex_pair(h[2], h[3]), hex_pair(h[4], h[5])) {
            (Some(r), Some(g), Some(b)) => Some(pack_rgba(r, g, b, 255)),
            _ => None,
        }
    } else if h.len() == 8 {
        match (
            hex_pair(h[0], h[1]),
            hex_pair(h[2], h[3]),
            hex_pair(h[4], h[5]),
            hex_pair(h[6], h[7]),
        ) {
            (Some(r), Some(g), Some(b), Some(a)) => Some(pack_rgba(r, g, b, a)),
            _ => None,
        }
    } else {
        None
    }
}

/// The place of the first comma at or after `from`, or the length.
pub open spec fn comma_from(s: Seq<u8>, from: int) -> int
    decreases s.len() - from,
{
    if from < 0 || from >= s.len() {
        s.len() as int
    } else if s[from] == 0x2cu8 {
        from
    } else {
        comma_from(s, from + 1)
    }
}

/// A channel of `rgb()`: a decimal number, held to 0..=255, its fraction
/// cut off.
#[verifier::opaque]
pub open spec fn channel(s: Seq<u8>) -> Option<int> {
    match decimal_micros(trimmed(s)) {
        Some(v) => Some(
            if v < 0 {
                0
            } else if v / 1_000_000 > 255 {
                255
            } else {
                v / 1_000_000
            },
        ),
        None => None,
    }
}

/// The alpha of `rgba()`: a decimal number held to 0..=1, scaled to a byte
/// and cut off.
#[verifier::opaque]
pub open spec fn alpha(s: Seq<u8>) -> Option<int> {
    match decimal_micros(trimmed(s)) {
        Some(v) => Some(
            if v < 0 {
                0
            } else if v > 1_000_000 {
                255
            } else {
                v * 255 / 1_000_000
            },
        ),
        None => None,
    }
}

/// The color of the components between the brackets of `rgb()` (three
/// components) or `rgba()` (four).
#[verifier::opaque]
pub open spec fn functional_color(inner: Seq<u8>, with_alpha: bool) -> Option<int> {
    let c1 = comma_from(inner, 0);
    let c2 = comma_from(inner, c1 + 1);
    let c3 = comma_from(inner, c2 + 1);
    let n = inner.len() as int;
    if c1 < n && c2 < n {
        let r = channel(inner.subrange(0, c1));
        let g = channel(inner.subrange(c1 + 1, c2));
        if with_alpha {
            if c3 < n && comma_from(inner, c3 + 1) == n {
                let b = channel(inner.subrange(c2 + 1, c3));
                let a = alpha(inner.subrange(c3 + 1, n));
                match (r, g, b, a) {
                    (Some(r), Some(g), Some(b), Some(a)) => Some(pack_rgba(r, g, b, a)),
                    _ => None,
                }
            } else {
                None
            }
        } else {
            if c3 == n {
                let b = channel(inner.subrange(c2 + 1, n));
                match (r, g, b) {
                    (Some(r), Some(g), Some(b)) => Some(pack_rgba(r, g, b, 255)),
                    _ => None,
                }
            } else {
                None
            }
        }
    } else {
        None
    }
}

/// Whether `s` starts with `prefix`.
pub open spec fn starts_with(s: Seq<u8>, prefix: Seq<u8>) -> bool {
    s.len() >= prefix.len() && s.take(prefix.len() as int) == prefix
}

/// `rgb(`
pub open spec fn rgb_open() -> Seq<u8> {
    seq![0x72u8, 0x67u8, 0x62u8, 0x28u8]
}

/// `rgba(`
pub open spec fn rgba_open() -> Seq<u8> {
    seq![0x72u8, 0x67u8, 0x62u8, 0x61u8, 0x28u8]
}

/// The color that a text spells, if it spells one.
pub open spec fn color_of_bytes(text: Seq<u8>) -> Option<int> {
    color_of_trimmed(trimmed(text))
}

/// The color that a text without white space around it spells.
pub open spec fn color_of_trimmed(s: Seq<u8>) -> Option<int> {
    if s.len() > 0 && s[0] == 0x23u8 {
        hex_color(s.skip(1))
    } else if starts_with(s, rgba_open()) && s.last() == 0x29u8 {
        functional_color(s.subrange(5, s.len() - 1), true)
    } else if starts_with(s, rgb_open()) && s.last() == 0x29u8 {
        functional_color(s.subrange(4, s.len() - 1), false)
    } else {
        None
    }
}

/// The color that a string spells, if it spells one.
pub open spec fn spec_parse_color_hex(text: Seq<char>) -> Option<u32> {
    match color_of_bytes(vstd::utf8::encode_utf8(text)) {
        Some(c) => Some(c as u32),
        None => None,
    }
}

fn is_space_byte(b: u8) -> (r: bool)
    ensures
        r == is_space(b),
{
    b == 0x20 || (0x09 <= b && b <= 0x0d)
}

/// The bounds of `bytes[start..end]` without the white space around it.
fn trim_range(bytes: &[u8], start: usize, end: usize) -> (r: (usize, usize))
    requires
        start <= end <= bytes@.len(),
    ensures
        start <= r.0 <= r.1 <= end,
        bytes@.subrange(r.0 as int, r.1 as int) == trimmed(bytes@.subrange(start as int, end as int)),
{
    let ghost s = bytes@.subrange(start as int, end as int);
    let mut a: usize = start;
    proof {
        assert(s.skip(0) =~= s);
    }
    while a < end && is_space_byte(bytes[a])
        invariant
            start <= a <= end <= bytes@.len(),
            s == bytes@.subrange(start as int, end as int),
            leading_spaces(s) == (a - start) + leading_spaces(s.skip(a - start)),
        decreases end - a,
    {
        proof {
            let rest = s.skip(a - start);
            assert(rest[0] == bytes@[a as int]);
            assert(rest.skip(1) =~= s.skip(a - start + 1));
        }
        a += 1;
    }
    proof {
        let rest = s.skip(a - start);
        if a < end {
            assert(rest[0] == bytes@[a as int]);
        }
        assert(leading_spaces(rest) == 0);
        assert(leading_spaces(s) == a - start);
    }
    let ghost front = s.skip(a - start);
    let mut b: usize = end;
    proof {
        assert(front.take(end - a) =~= front);
    }
    while a < b && is_space_byte(bytes[b - 1])
        invariant
            start <= a <= b <= end <= bytes@.len(),
            s == bytes@.subrange(start as int, end as int),
            front == s.skip(a - start),
            trailing_spaces(front) == (end - b) + trailing_spaces(front.take(b - a)),
        decreases b - a,
    {
        proof {
            let rest = front.take(b - a);
            assert(rest.last() == bytes@[b - 1]);
            assert(rest.drop_last() =~= front.take(b - a - 1));
        }
        b -= 1;
    }
    proof {
        let rest = front.take(b - a);
        if a < b {
            assert(rest.last() == bytes@[b - 1]);
        }
        assert(trailing_spaces(rest) == 0);
        assert(trailing_spaces(front) == end - b);
        assert(bytes@.subrange(a as int, b as int) =~= front.take(front.len() - (end - b)));
    }
    (a, b)
}

fn hex_digit(b: u8) -> (r: Option<u8>)
    ensures
        match r {
            Some(v) => hex_value(b) == Some(v as int) && v < 16,
            None => hex_value(b) is None,
        },
{
    if 0x30 <= b && b <= 0x39 {
        Some(b - 0x30)
    } else if 0x61 <= b && b <= 0x66 {
        Some(b - 0x61 + 10)
    } else if 0x41 <= b && b <= 0x46 {
        Some(b - 0x41 + 10)
    } else {
        None
    }
}

fn hex_byte(hi: u8, lo: u8) -> (r: Option<u8>)
    ensures
        match r {
            Some(v) => hex_pair(hi, lo) == Some(v as int),
            None => hex_pair(hi, lo) is None,
        },
{
    proof {
        reveal(hex_pair);
    }
    match hex_digit(hi) {
        Some(h) => match hex_digit(lo) {
            Some(l) => Some(h * 16 + l),
            None => None,
        },
        None => None,
    }
}

/// Packs four channels.
pub fn pack(r: u8, g: u8, b: u8, a: u8) -> (c: u32)
    ensures
        c == pack_rgba(r as int, g as int, b as int, a as int),
{
    let r32: u32 = r as u32;
    let g32: u32 = g as u32;
    let b32: u32 = b as u32;
    let a32: u32 = a as u32;
    r32 * 0x100_0000 + g32 * 0x1_0000 + b32 * 0x100 + a32
}

fn parse_hex(bytes: &[u8], start: usize, end: usize) -> (r: Option<u32>)
    requires
        start <= end <= bytes@.len(),
    ensures
        match r {
            Some(c) => hex_color(bytes@.subrange(start as int, end as int)) == Some(c as int),
            None => hex_color(bytes@.subrange(start as int, end as int)) is None,
        },
{
    let ghost h = bytes@.subrange(start as int, end as int);
    let n = end - start;
    proof {
        reveal(hex_color);
    }
    if n == 3 {
        proof {
            assert(h[0] == bytes@[start as int] && h[1] == bytes@[start + 1] && h[2] == bytes@[start
                + 2]);
        }
        let r = hex_digit(bytes[start]);
        let g = hex_digit(bytes[start + 1]);
        let b = hex_digit(bytes[start + 2]);
        match (r, g, b) {
            (Some(r), Some(g), Some(b)) => Some(pack(r * 17, g * 17, b * 17, 255)),
            _ => None,
        }
    } else if n == 6 {
        proof {
            assert(h[0] == bytes@[start as int] && h[1] == bytes@[start + 1] && h[2] == bytes@[start
                + 2] && h[3] == bytes@[start + 3] && h[4] == bytes@[start + 4] && h[5] == bytes@[start
                + 5]);
        }
        let r = hex_byte(bytes[start], bytes[start + 1]);
        let g = hex_byte(bytes[start + 2], bytes[start + 3]);
        let b = hex_byte(bytes[start + 4], bytes[start + 5]);
        match (r, g, b) {
            (Some(r), Some(g), Some(b)) => Some(pack(r, g, b, 255)),
            _ => None,
        }
    } else if n == 8 {
        proof {
            assert(h[0] == bytes@[start as int] && h[1] == bytes@[start + 1] && h[2] == bytes@[start
                + 2] && h[3] == bytes@[start + 3] && h[4] == bytes@[start + 4] && h[5] == bytes@[start
                + 5] && h[6] == bytes@[start + 6] && h[7] == bytes@[start + 7]);
        }
        let r = hex_byte(bytes[start], bytes[start + 1]);
        let g = hex_byte(bytes[start + 2], bytes[start + 3]);
        let b = hex_byte(bytes[start + 4], bytes[start + 5]);
        let a = hex_byte(bytes[start + 6], bytes[start + 7]);
        match (r, g, b, a) {
            (Some(r), Some(g), Some(b), Some(a)) => Some(pack(r, g, b, a)),
            _ => None,
        }
    } else {
        None
    }
}

/// The place of the first comma in `bytes[from..end]`, or `end`.  Places
/// count from `base`.
fn find_comma(bytes: &[u8], base: usize, from: usize, end: usize) -> (r: usize)
    requires
        base <= from,
        base <= end <= bytes@.len(),
    ensures
        r - base == comma_from(bytes@.subrange(base as int, end as int), from - base),
        from <= r <= end || (from > end && r == end),
{
    let ghost s = bytes@.subrange(base as int, end as int);
    if from >= end {
        return end;
    }
    let mut i: usize = from;
    while i < end && bytes[i] != 0x2c
        invariant
            base <= from <= i <= end <= bytes@.len(),
            s == bytes@.subrange(base as int, end as int),
            comma_from(s, from - base) == comma_from(s, i - base),
        decreases end - i,
    {
        proof {
            assert(s[i - base] == bytes@[i as int]);
        }
        i += 1;
    }
    proof {
        if i < end {
            assert(s[i - base] == bytes@[i as int]);
        }
    }
    i
}

fn parse_channel(bytes: &[u8], start: usize, end: usize) -> (r: Option<u8>)
    requires
        start <= end <= bytes@.len(),
    ensures
        match r {
            Some(v) => channel(bytes@.subrange(start as int, end as int)) == Some(v as int),
            None => channel(bytes@.subrange(start as int, end as int)) is None,
        },
{
    proof {
        reveal(channel);
    }
    let (a, b) = trim_range(bytes, start, end);
    match parse_decimal(bytes, a, b) {
        Some(v) => {
            if v < 0 {
                Some(0)
            } else {
                let whole: i64 = v / 1_000_000;
                if whole > 255 {
                    Some(255)
                } else {
                    Some(whole as u8)
                }
            }
        },
        None => None,
    }
}

fn parse_alpha(bytes: &[u8], start: usize, end: usize) -> (r: Option<u8>)
    requires
        start <= end <= bytes@.len(),
    ensures
        match r {
            Some(v) => alpha(bytes@.subrange(start as int, end as int)) == Some(v as int),
            None => alpha(bytes@.subrange(start as int, end as int)) is None,
        },
{
    proof {
        reveal(alpha);
    }
    let (a, b) = trim_range(bytes, start, end);
    match parse_decimal(bytes, a, b) {
        Some(v) => {
            if v < 0 {
                Some(0)
            } else if v > 1_000_000 {
                Some(255)
            } else {
                let scaled: i64 = v * 255 / 1_000_000;
                Some(scaled as u8)
            }
        },
        None => None,
    }
}

fn parse_functional(bytes: &[u8], start: usize, end: usize, with_alpha: bool) -> (r: Option<u32>)
    requires
        start <= end <= bytes@.len(),
    ensures
        match r {
            Some(c) => functional_color(bytes@.subrange(start as int, end as int), with_alpha)
                == Some(c as int),
            None => functional_color(bytes@.subrange(start as int, end as int), with_alpha) is None,
        },
{
    let ghost inner = bytes@.subrange(start as int, end as int);
    proof {
        reveal(functional_color);
    }
    let c1 = find_comma(bytes, start, start, end);
    if c1 >= end {
        return None;
    }
    let c2 = find_comma(bytes, start, c1 + 1, end);
    if c2 >= end {
        return None;
    }
    let c3 = find_comma(bytes, start, c2 + 1, end);
    proof {
        assert(inner.subrange(0, c1 - start) =~= bytes@.subrange(start as int, c1 as int));
        assert(inner.subrange(c1 + 1 - start, c2 - start) =~= bytes@.subrange(c1 + 1, c2 as int));
        assert(inner.subrange(c2 + 1 - start, c3 - start) =~= bytes@.subrange(c2 + 1, c3 as int));
        if c3 < end {
            assert(inner.subrange(c3 + 1 - start, end - start) =~= bytes@.subrange(
                c3 + 1,
                end as int,
            ));
        }
    }
    let r = parse_channel(bytes, start, c1);
    let g = parse_channel(bytes, c1 + 1, c2);
    if with_alpha {
        if c3 >= end {
            return None;
        }
        let c4 = find_comma(bytes, start, c3 + 1, end);
        if c4 < end {
            return None;
        }
        let b = parse_channel(bytes, c2 + 1, c3);
        let a = parse_alpha(bytes, c3 + 1, end);
        match (r, g, b, a) {
            (Some(r), Some(g), Some(b), Some(a)) => Some(pack(r, g, b, a)),
            _ => None,
        }
    } else {
        if c3 < end {
            return None;
        }
        let b = parse_channel(bytes, c2 + 1, end);
        match (r, g, b) {
            (Some(r), Some(g), Some(b)) => Some(pack(r, g, b, 255)),
            _ => None,
        }
    }
}

/// Whether `bytes[a..b]` starts with `rgba(`.
fn opens_rgba(bytes: &[u8], a: usize, b: usize) -> (r: bool)
    requires
        a <= b <= bytes@.len(),
    ensures
        r == starts_with(bytes@.subrange(a as int, b as int), rgba_open()),
{
    let ghost s = bytes@.subrange(a as int, b as int);
    if b - a < 5 {
        return false;
    }
    let r = bytes[a] == 0x72 && bytes[a + 1] == 0x67 && bytes[a + 2] == 0x62 && bytes[a + 3] == 0x61
        && bytes[a + 4] == 0x28;
    proof {
        let t = s.take(5);
        assert(t[0] == bytes@[a as int] && t[1] == bytes@[a + 1] && t[2] == bytes@[a + 2] && t[3]
            == bytes@[a + 3] && t[4] == bytes@[a + 4]);
        if r {
            assert(t =~= rgba_open());
        }
    }
    r
}

/// Whether `bytes[a..b]` starts with `rgb(`.
fn opens_rgb(bytes: &[u8], a: usize, b: usize) -> (r: bool)
    requires
        a <= b <= bytes@.len(),
    ensures
        r == starts_with(bytes@.subrange(a as int, b as int), rgb_open()),
{
    let ghost s = bytes@.subrange(a as int, b as int);
    if b - a < 4 {
        return false;
    }
    let r = bytes[a] == 0x72 && bytes[a + 1] == 0x67 && bytes[a + 2] == 0x62 && bytes[a + 3]
        == 0x28;
    proof {
        let t = s.take(4);
        assert(t[0] == bytes@[a as int] && t[1] == bytes@[a + 1] && t[2] == bytes@[a + 2] && t[3]
            == bytes@[a + 3]);
        if r {
            assert(t =~= rgb_open());
        }
    }
    r
}

/// Reads the color in `bytes[a..b]`, which has no white space around it.
fn parse_trimmed(bytes: &[u8], a: usize, b: usize) -> (r: Option<u32>)
    requires
        a <= b <= bytes@.len(),
    ensures
        match r {
            Some(c) => color_of_trimmed(bytes@.subrange(a as int, b as int)) == Some(c as int),
            None => color_of_trimmed(bytes@.subrange(a as int, b as int)) is None,
        },
{
    let ghost s = bytes@.subrange(a as int, b as int);
    if a == b {
        return None;
    }
    proof {
        assert(s[0] == bytes@[a as int]);
        assert(s.last() == bytes@[b - 1]);
    }
    if bytes[a] == 0x23 {
        proof {
            assert(s.skip(1) =~= bytes@.subrange(a + 1, b as int));
        }
        return parse_hex(bytes, a + 1, b);
    }
    let closes = bytes[b - 1] == 0x29;
    if opens_rgba(bytes, a, b) && closes {
        proof {
            assert(s.subrange(5, s.len() - 1) =~= bytes@.subrange(a + 5, b - 1));
        }
        return parse_functional(bytes, a + 5, b - 1, true);
    }
    if opens_rgb(bytes, a, b) && closes {
        proof {
            assert(s.subrange(4, s.len() - 1) =~= bytes@.subrange(a + 4, b - 1));
        }
        return parse_functional(bytes, a + 4, b - 1, false);
    }
    None
}

/// Reads a color from bytes.
pub fn parse_color_bytes(bytes: &[u8]) -> (r: Option<u32>)
    ensures
        match r {
            Some(c) => color_of_bytes(bytes@) == Some(c as int),
            None => color_of_bytes(bytes@) is None,
        },
{
    assert(bytes@.subrange(0, bytes@.len() as int) =~= bytes@);
    let (a, b) = trim_range(bytes, 0, bytes.len());
    parse_trimmed(bytes, a, b)
}

/// Reads a color string into a packed `0xRRGGBBAA`.  `None` where the text
/// is not in the grammar.
pub fn parse_color_hex(color: &str) -> (r: Option<u32>)
    ensures
        r == spec_parse_color_hex(color@),
{
    let r = parse_color_bytes(color.as_bytes());
    proof {
        if r is Some {
            lemma_color_fits(vstd::utf8::encode_utf8(color@));
        }
    }
    r
}

/// Two hexadecimal digits spell a byte.
proof fn lemma_hex_pair_range(hi: u8, lo: u8)
    ensures
        hex_pair(hi, lo) matches Some(v) ==> 0 <= v <= 255,
{
    reveal(hex_pair);
}

/// A hexadecimal color fits 32 bits.
proof fn lemma_hex_color_fits(h: Seq<u8>)
    ensures
        hex_color(h) matches Some(c) ==> 0 <= c <= 0xffff_ffff,
{
    reveal(hex_color);
    if h.len() == 3 {
        let r = hex_value(h[0]);
        let g = hex_value(h[1]);
        let b = hex_value(h[2]);
        if r is Some && g is Some && b is Some {
            assert(0 <= r.unwrap() < 16 && 0 <= g.unwrap() < 16 && 0 <= b.unwrap() < 16);
        }
    } else if h.len() == 6 {
        lemma_hex_pair_range(h[0], h[1]);
        lemma_hex_pair_range(h[2], h[3]);
        lemma_hex_pair_range(h[4], h[5]);
    } else if h.len() == 8 {
        lemma_hex_pair_range(h[0], h[1]);
        lemma_hex_pair_range(h[2], h[3]);
        lemma_hex_pair_range(h[4], h[5]);
        lemma_hex_pair_range(h[6], h[7]);
    }
}

/// A functional color fits 32 bits.
proof fn lemma_functional_color_fits(inner: Seq<u8>, with_alpha: bool)
    ensures
        functional_color(inner, with_alpha) matches Some(c) ==> 0 <= c <= 0xffff_ffff,
{
    reveal(functional_color);
    let c1 = comma_from(inner, 0);
    let c2 = comma_from(inner, c1 + 1);
    let c3 = comma_from(inner, c2 + 1);
    let n = inner.len() as int;
    lemma_channel_range(inner.subrange(0, c1));
    lemma_channel_range(inner.subrange(c1 + 1, c2));
    lemma_channel_range(inner.subrange(c2 + 1, c3));
    lemma_channel_range(inner.subrange(c2 + 1, n));
    lemma_channel_range(inner.subrange(c3 + 1, n));
}

/// A channel and an alpha are bytes.
proof fn lemma_channel_range(s: Seq<u8>)
    ensures
        channel(s) matches Some(v) ==> 0 <= v <= 255,
        alpha(s) matches Some(v) ==> 0 <= v <= 255,
{
    reveal(channel);
    reveal(alpha);
}

/// A color fits 32 bits.
pub proof fn lemma_color_fits(text: Seq<u8>)
    ensures
        color_of_bytes(text) matches Some(c) ==> 0 <= c <= 0xffff_ffff,
{
    let s = trimmed(text);
    lemma_hex_color_fits(s.skip(1));
    lemma_functional_color_fits(s.subrange(5, s.len() - 1), true);
    lemma_functional_color_fits(s.subrange(4, s.len() - 1), false);
}

} // verus!
