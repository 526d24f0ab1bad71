//! Decimal numbers in text, read into fixed point.
//!
//! A number is an optional sign, digits with an optional dot among them
//! (at least one digit), and an optional exponent: `e` or `E`, an optional
//! sign, and digits.  Its value is kept in millionths, cut off toward zero.
//! A magnitude above [`MICRO_CAP`] is held at the cap.

use vstd::prelude::*;

verus! {

/// The largest magnitude a parsed number can have, in millionths.
pub const MICRO_CAP: i64 = 1_000_000_000_000_000_000;

/// The largest exponent that is told apart from larger ones: beyond it
/// every number is zero or at the cap.
pub const EXPONENT_CAP: i128 = 0x10_0000_0000_0000_0000_0000_0000;

pub open spec fn is_digit(b: u8) -> bool {
    0x30 <= b <= 0x39
}

pub open spec fn all_digits(s: Seq<u8>) -> bool {
    forall|i: int| 0 <= i < s.len() ==> is_digit(#[trigger] s[i])
}

/// The value of a string of digits.
pub open spec fn digits_value(s: Seq<u8>) -> nat
    decreases s.len(),
{
    if s.len() == 0 {
        0
    } else {
        digits_value(s.drop_last()) * 10 + (s.last() - 0x30) as nat
    }
}

/// `n` zero digits.
pub open spec fn zeros(n: nat) -> Seq<u8> {
    Seq::new(n, |i: int| 0x30u8)
}

/// The digits before the decimal point after the point was moved to stand
/// `places` digits from the left: the first `places` digits, with zeros
/// added where there are fewer.
pub open spec fn moved(digits: Seq<u8>, places: int) -> Seq<u8> {
    if places <= 0 {
        Seq::empty()
    } else if places <= digits.len() {
        digits.take(places)
    } else {
        digits + zeros((places - digits.len()) as nat)
    }
}

/// The smaller of two numbers.
pub open spec fn at_most(x: int, cap: int) -> int {
    if x <= cap {
        x
    } else {
        cap
    }
}

/// The value, in millionths and held at the cap, of the digits `digits`
/// with the decimal point `places - 6` digits from the left.
pub open spec fn micros_of(digits: Seq<u8>, places: int) -> int {
    at_most(digits_value(moved(digits, places)) as int, MICRO_CAP as int)
}

/// The end of the run of digits that starts at `from`.
pub open spec fn digit_run(s: Seq<u8>, from: int) -> int
    decreases s.len() - from,
{
    if 0 <= from < s.len() && is_digit(s[from]) {
        digit_run(s, from + 1)
    } else {
        from
    }
}

/// The exponent that the text after the `e` spells: an optional sign and
/// at least one digit, up to the end.
pub open spec fn exponent_of(s: Seq<u8>, from: int) -> Option<int> {
    let negative = from < s.len() && s[from] == 0x2du8;
    let signed = from < s.len() && (s[from] == 0x2du8 || s[from] == 0x2bu8);
    let first = if signed {
        from + 1
    } else {
        from
    };
    if first < s.len() && digit_run(s, first) == s.len() {
        let magnitude = digits_value(s.subrange(first, s.len() as int)) as int;
        Some(
            if negative {
                -magnitude
            } else {
                magnitude
            },
        )
    } else {
        None
    }
}

/// Where the digits before the dot end.
pub open spec fn whole_end(s: Seq<u8>) -> int {
    digit_run(s, 0)
}

/// Where the digits after the dot start: behind the dot, or where the
/// digits before it end if there is no dot.
pub open spec fn fraction_start(s: Seq<u8>) -> int {
    if whole_end(s) < s.len() && s[whole_end(s)] == 0x2eu8 {
        whole_end(s) + 1
    } else {
        whole_end(s)
    }
}

/// Where the digits after the dot end.
pub open spec fn fraction_end(s: Seq<u8>) -> int {
    digit_run(s, fraction_start(s))
}

/// The digits of a number, without the dot.
pub open spec fn mantissa_digits(s: Seq<u8>) -> Seq<u8> {
    s.subrange(0, whole_end(s)) + s.subrange(fraction_start(s), fraction_end(s))
}

/// The exponent of a number: zero where the text ends with the digits,
/// what follows the `e` or `E` otherwise.
pub open spec fn exponent_part(s: Seq<u8>) -> Option<int> {
    if fraction_end(s) == s.len() {
        Some(0int)
    } else if s[fraction_end(s)] == 0x65u8 || s[fraction_end(s)] == 0x45u8 {
        exponent_of(s, fraction_end(s) + 1)
    } else {
        None
    }
}

/// The value in millionths of an unsigned decimal, if the text is one.
pub open spec fn unsigned_micros(s: Seq<u8>) -> Option<int> {
    if mantissa_digits(s).len() > 0 && exponent_part(s) is Some {
        Some(micros_of(mantissa_digits(s), whole_end(s) + 6 + exponent_part(s).unwrap()))
    } else {
        None
    }
}

/// The value in millionths of a decimal with an optional sign, if the text
/// is one.
pub open spec fn decimal_micros(s: Seq<u8>) -> Option<int> {
    if s.len() > 0 && s[0] == 0x2du8 {
        match unsigned_micros(s.skip(1)) {
            Some(v) => Some(-v),
            None => None,
        }
    } else if s.len() > 0 && s[0] == 0x2bu8 {
        unsigned_micros(s.skip(1))
    } else {
        unsigned_micros(s)
    }
}

/// Appending a digit multiplies by ten and adds the digit.
pub proof fn lemma_digits_push(s: Seq<u8>, d: u8)
    ensures
        digits_value(s.push(d)) == digits_value(s) * 10 + (d - 0x30) as nat,
{
    assert(s.push(d).drop_last() =~= s);
}

/// Appending zeros never makes the value smaller, keeps a zero value zero,
/// and makes a value that is not zero at least ten times as large for
/// every zero.
proof fn lemma_zeros(s: Seq<u8>, j: nat)
    ensures
        digits_value(s + zeros(j)) >= digits_value(s),
        digits_value(s) == 0 ==> digits_value(s + zeros(j)) == 0,
        digits_value(s + zeros(j + 1)) == digits_value(s + zeros(j)) * 10,
    decreases j,
{
    assert(s + zeros(j + 1) =~= (s + zeros(j)).push(0x30u8));
    lemma_digits_push(s + zeros(j), 0x30u8);
    if j == 0 {
        assert(s + zeros(0) =~= s);
    } else {
        lemma_zeros(s, (j - 1) as nat);
    }
}

/// With eighteen zeros or more, a value that is not zero is at the cap or
/// above.
proof fn lemma_many_zeros(s: Seq<u8>, j: nat)
    requires
        digits_value(s) >= 1,
        j >= 18,
    ensures
        digits_value(s + zeros(j)) >= MICRO_CAP,
    decreases j,
{
    if j == 18 {
        lemma_zeros(s, 0);
        lemma_zeros(s, 1);
        lemma_zeros(s, 2);
        lemma_zeros(s, 3);
        lemma_zeros(s, 4);
        lemma_zeros(s, 5);
        lemma_zeros(s, 6);
        lemma_zeros(s, 7);
        lemma_zeros(s, 8);
        lemma_zeros(s, 9);
        lemma_zeros(s, 10);
        lemma_zeros(s, 11);
        lemma_zeros(s, 12);
        lemma_zeros(s, 13);
        lemma_zeros(s, 14);
        lemma_zeros(s, 15);
        lemma_zeros(s, 16);
        lemma_zeros(s, 17);
        assert(s + zeros(0) =~= s);
    } else {
        lemma_many_zeros(s, (j - 1) as nat);
        lemma_zeros(s, (j - 1) as nat);
    }
}

/// Far to the right, where the decimal point stands makes no difference
/// any more: the value is zero or at the cap.
proof fn lemma_far_places(digits: Seq<u8>, a: int, b: int)
    requires
        a >= digits.len() + 18,
        b >= digits.len() + 18,
    ensures
        micros_of(digits, a) == micros_of(digits, b),
{
    let ja = (a - digits.len()) as nat;
    let jb = (b - digits.len()) as nat;
    if digits_value(digits) == 0 {
        lemma_zeros(digits, ja);
        lemma_zeros(digits, jb);
    } else {
        lemma_many_zeros(digits, ja);
        lemma_many_zeros(digits, jb);
    }
}

/// A longer run of digits is worth at least as much, up to the cap.
proof fn lemma_take_grows(digits: Seq<u8>, n: int)
    requires
        0 <= n < digits.len(),
    ensures
        digits_value(digits.take(n + 1)) == digits_value(digits.take(n)) * 10 + (digits[n]
            - 0x30) as nat,
{
    assert(digits.take(n + 1) =~= digits.take(n).push(digits[n]));
    lemma_digits_push(digits.take(n), digits[n]);
}

/// Finds the end of the run of digits that starts at `from`.
fn scan_digits(bytes: &[u8], start: usize, end: usize, from: usize) -> (to: usize)
    requires
        start <= from <= end <= bytes@.len(),
    ensures
        from <= to <= end,
        to - start == digit_run(bytes@.subrange(start as int, end as int), from - start),
        all_digits(bytes@.subrange(from as int, to as int)),
{
    let ghost s = bytes@.subrange(start as int, end as int);
    let mut i: usize = from;
    while i < end && bytes[i] >= 0x30 && bytes[i] <= 0x39
        invariant
            from <= i <= end <= bytes@.len(),
            start <= from,
            s == bytes@.subrange(start as int, end as int),
            digit_run(s, from - start) == digit_run(s, i - start),
            forall|j: int| from <= j < i ==> is_digit(bytes@[j]),
        decreases end - i,
    {
        proof {
            assert(s[i - start] == bytes@[i as int]);
        }
        i += 1;
    }
    proof {
        if i < end {
            assert(s[i - start] == bytes@[i as int]);
        }
        assert forall|j: int| 0 <= j < i - from implies is_digit(
            #[trigger] bytes@.subrange(from as int, i as int)[j],
        ) by {
            assert(is_digit(bytes@[from + j]));
        }
    }
    i
}

/// Takes the digits `bytes[from..to]` into the value `acc`, as long as
/// `room` lasts: one digit for each unit of it.
fn take_digits(
    bytes: &[u8],
    from: usize,
    to: usize,
    acc: i64,
    room: i128,
    Ghost(digits): Ghost<Seq<u8>>,
    Ghost(taken): Ghost<int>,
) -> (r: (i64, i128))
    requires
        from <= to <= bytes@.len(),
        all_digits(bytes@.subrange(from as int, to as int)),
        0 <= taken,
        taken + (to - from) <= digits.len(),
        digits.subrange(taken, taken + (to - from)) == bytes@.subrange(from as int, to as int),
        0 <= room,
        0 <= acc <= MICRO_CAP,
        acc == at_most(digits_value(digits.take(taken)) as int, MICRO_CAP as int),
    ensures
        0 <= r.0 <= MICRO_CAP,
        r.1 == if room >= to - from {
            room - (to - from)
        } else {
            0
        },
        r.0 == at_most(
            digits_value(
                digits.take(
                    if room >= to - from {
                        taken + (to - from)
                    } else {
                        taken + room
                    },
                ),
            ) as int,
            MICRO_CAP as int,
        ),
{
    let mut i: usize = from;
    let mut acc: i64 = acc;
    let mut room: i128 = room;
    let ghost room0 = room;
    while i < to && room > 0
        invariant
            from <= i <= to <= bytes@.len(),
            0 <= taken,
            taken + (to - from) <= digits.len(),
            digits.subrange(taken, taken + (to - from)) == bytes@.subrange(from as int, to as int),
            all_digits(bytes@.subrange(from as int, to as int)),
            0 <= room,
            room == room0 - (i - from),
            0 <= acc <= MICRO_CAP,
            acc == at_most(digits_value(digits.take(taken + (i - from))) as int, MICRO_CAP as int),
        decreases to - i,
    {
        proof {
            let piece = bytes@.subrange(from as int, to as int);
            assert(piece[i - from] == bytes@[i as int]);
            assert(is_digit(piece[i - from]));
            assert(digits.subrange(taken, taken + (to - from))[i - from] == digits[taken + (i
                - from)]);
            lemma_take_grows(digits, taken + (i - from));
        }
        let d: i64 = (bytes[i] - 0x30) as i64;
        let next: i64 = if acc >= MICRO_CAP / 10 {
            MICRO_CAP
        } else {
            acc * 10 + d
        };
        acc = if next > MICRO_CAP {
            MICRO_CAP
        } else {
            next
        };
        room = room - 1;
        i += 1;
    }
    (acc, room)
}

/// Reads an exponent: an optional sign and digits up to `end`.  A
/// magnitude above [`EXPONENT_CAP`] is held at the cap.
fn parse_exponent(bytes: &[u8], start: usize, end: usize, from: usize) -> (r: Option<i128>)
    requires
        start <= from <= end <= bytes@.len(),
    ensures
        match r {
            Some(e) => exponent_of(bytes@.subrange(start as int, end as int), from - start)
                matches Some(x) && -EXPONENT_CAP <= e <= EXPONENT_CAP && (if x > EXPONENT_CAP {
                e == EXPONENT_CAP
            } else if x < -EXPONENT_CAP {
                e == -EXPONENT_CAP
            } else {
                e == x
            }),
            None => exponent_of(bytes@.subrange(start as int, end as int), from - start) is None,
        },
{
    let ghost s = bytes@.subrange(start as int, end as int);
    let mut first: usize = from;
    let mut negative = false;
    if from < end {
        proof {
            assert(s[from - start] == bytes@[from as int]);
        }
        if bytes[from] == 0x2d {
            negative = true;
            first = from + 1;
        } else if bytes[from] == 0x2b {
            first = from + 1;
        }
    }
    let last = scan_digits(bytes, start, end, first);
    if first >= end || last < end {
        return None;
    }
    let ghost piece = bytes@.subrange(first as int, end as int);
    proof {
        assert(piece =~= s.subrange(first - start, s.len() as int));
    }
    let mut magnitude: i128 = 0;
    let mut i: usize = first;
    proof {
        assert(piece.take(0) =~= Seq::<u8>::empty());
    }
    while i < end
        invariant
            first <= i <= end <= bytes@.len(),
            piece == bytes@.subrange(first as int, end as int),
            all_digits(piece),
            0 <= magnitude <= EXPONENT_CAP,
            magnitude == at_most(digits_value(piece.take(i - first)) as int, EXPONENT_CAP as int),
        decreases end - i,
    {
        proof {
            assert(piece[i - first] == bytes@[i as int]);
            assert(is_digit(piece[i - first]));
            lemma_take_grows(piece, i - first);
        }
        let d: i128 = (bytes[i] - 0x30) as i128;
        let next: i128 = magnitude * 10 + d;
        magnitude = if next > EXPONENT_CAP {
            EXPONENT_CAP
        } else {
            next
        };
        i += 1;
    }
    proof {
        assert(piece.take(end - first) =~= piece);
    }
    Some(
        if negative {
            -magnitude
        } else {
            magnitude
        },
    )
}

/// Fills the gap between the last digit and the decimal point with
/// zeros.
fn pad_zeros(acc: i64, gap: i128, Ghost(digits): Ghost<Seq<u8>>) -> (r: i64)
    requires
        0 <= gap,
        0 <= acc <= MICRO_CAP,
        acc == at_most(digits_value(digits) as int, MICRO_CAP as int),
    ensures
        0 <= r <= MICRO_CAP,
        r == micros_of(digits, digits.len() + gap),
{
    let ghost n = digits.len() as int;
    proof {
        assert(digits + zeros(0) =~= digits);
        assert(digits.take(n) =~= digits);
    }
    let mut acc: i64 = acc;
    let mut k: i128 = 0;
    while k < gap && k < 18
        invariant
            0 <= k <= gap,
            k <= 18,
            0 <= acc <= MICRO_CAP,
            acc == at_most(digits_value(digits + zeros(k as nat)) as int, MICRO_CAP as int),
        decreases 18 - k,
    {
        proof {
            lemma_zeros(digits, k as nat);
        }
        acc = if acc >= MICRO_CAP / 10 {
            MICRO_CAP
        } else {
            acc * 10
        };
        k = k + 1;
    }
    proof {
        if k == 0 {
            assert(moved(digits, n) == digits.take(n));
        } else {
            assert(moved(digits, n + k) == digits + zeros(k as nat));
        }
        if k < gap {
            lemma_far_places(digits, n + k, n + gap);
        }
    }
    acc
}

/// The value of the digits `bytes[start..whole_end]` and
/// `bytes[fraction_start..fraction_end]` with the decimal point `places`
/// digits from the left.
fn value_at(
    bytes: &[u8],
    start: usize,
    whole_end: usize,
    fraction_start: usize,
    fraction_end: usize,
    places: i128,
) -> (r: i64)
    requires
        start <= whole_end <= fraction_start <= fraction_end <= bytes@.len(),
        all_digits(bytes@.subrange(start as int, whole_end as int)),
        all_digits(bytes@.subrange(fraction_start as int, fraction_end as int)),
    ensures
        0 <= r <= MICRO_CAP,
        r == micros_of(
            bytes@.subrange(start as int, whole_end as int) + bytes@.subrange(
                fraction_start as int,
                fraction_end as int,
            ),
            places as int,
        ),
{
    let ghost whole = bytes@.subrange(start as int, whole_end as int);
    let ghost fraction = bytes@.subrange(fraction_start as int, fraction_end as int);
    let ghost digits = whole + fraction;
    let whole_len = whole_end - start;
    let fraction_len = fraction_end - fraction_start;
    let ghost n = digits.len() as int;
    if places <= 0 {
        return 0;
    }
    proof {
        assert(digits.take(0) =~= Seq::<u8>::empty());
        assert(digits.subrange(0, whole_len as int) =~= whole);
        assert(digits.subrange(whole_len as int, whole_len + fraction_len) =~= fraction);
    }
    let (acc, room) = take_digits(bytes, start, whole_end, 0, places, Ghost(digits), Ghost(0));
    if places < whole_len as i128 {
        return acc;
    }
    let (acc, room) = take_digits(
        bytes,
        fraction_start,
        fraction_end,
        acc,
        room,
        Ghost(digits),
        Ghost(whole_len as int),
    );
    if places <= (whole_len as i128) + (fraction_len as i128) {
        return acc;
    }
    proof {
        assert(digits.take(n) =~= digits);
    }
    pad_zeros(acc, places - (whole_len as i128) - (fraction_len as i128), Ghost(digits))
}

/// Reads the unsigned decimal in `bytes[start..end]`.
pub fn parse_unsigned(bytes: &[u8], start: usize, end: usize) -> (r: Option<i64>)
    requires
        start <= end <= bytes@.len(),
    ensures
        match r {
            Some(v) => unsigned_micros(bytes@.subrange(start as int, end as int)) == Some(v as int),
            None => unsigned_micros(bytes@.subrange(start as int, end as int)) is None,
        },
        r matches Some(v) ==> 0 <= v <= MICRO_CAP,
{
    let ghost s = bytes@.subrange(start as int, end as int);
    let whole_stop = scan_digits(bytes, start, end, start);
    let mut fraction_begin = whole_stop;
    if whole_stop < end {
        proof {
            assert(s[whole_stop - start] == bytes@[whole_stop as int]);
        }
        if bytes[whole_stop] == 0x2e {
            fraction_begin = whole_stop + 1;
        }
    }
    let fraction_stop = scan_digits(bytes, start, end, fraction_begin);
    proof {
        assert(whole_stop - start == whole_end(s));
        assert(fraction_begin - start == fraction_start(s));
        assert(fraction_stop - start == fraction_end(s));
        assert(s.subrange(0, whole_end(s)) =~= bytes@.subrange(start as int, whole_stop as int));
        assert(s.subrange(fraction_start(s), fraction_end(s)) =~= bytes@.subrange(
            fraction_begin as int,
            fraction_stop as int,
        ));
    }
    let ghost digits = mantissa_digits(s);
    if (whole_stop - start) + (fraction_stop - fraction_begin) == 0 {
        return None;
    }
    let exponent: i128 = if fraction_stop == end {
        0
    } else {
        proof {
            assert(s[fraction_stop - start] == bytes@[fraction_stop as int]);
        }
        if bytes[fraction_stop] == 0x65 || bytes[fraction_stop] == 0x45 {
            match parse_exponent(bytes, start, end, fraction_stop + 1) {
                Some(e) => e,
                None => {
                    return None;
                },
            }
        } else {
            return None;
        }
    };
    let places: i128 = ((whole_stop - start) as i128) + 6 + exponent;
    proof {
        let true_exponent = exponent_part(s).unwrap();
        let true_places = whole_end(s) + 6 + true_exponent;
        let n = digits.len() as int;
        // Where the exponent was held at its cap, the decimal point is far
        // out on the same side.
        if true_exponent > EXPONENT_CAP {
            lemma_far_places(digits, places as int, true_places);
        } else if true_exponent < -EXPONENT_CAP {
            assert(places <= 0 && true_places <= 0);
        } else {
            assert(places == true_places);
        }
        assert(micros_of(digits, places as int) == micros_of(digits, true_places));
    }
    Some(value_at(bytes, start, whole_stop, fraction_begin, fraction_stop, places))
}

/// Reads the signed decimal in `bytes[start..end]`.
pub fn parse_decimal(bytes: &[u8], start: usize, end: usize) -> (r: Option<i64>)
    requires
        start <= end <= bytes@.len(),
    ensures
        match r {
            Some(v) => decimal_micros(bytes@.subrange(start as int, end as int)) == Some(v as int),
            None => decimal_micros(bytes@.subrange(start as int, end as int)) is None,
        },
        r matches Some(v) ==> -MICRO_CAP <= v <= MICRO_CAP,
{
    let ghost s = bytes@.subrange(start as int, end as int);
    if start < end && bytes[start] == 0x2d {
        proof {
            assert(s.skip(1) =~= bytes@.subrange(start + 1, end as int));
        }
        match parse_unsigned(bytes, start + 1, end) {
            Some(v) => Some(-v),
            None => None,
        }
    } else if start < end && bytes[start] == 0x2b {
        proof {
            assert(s.skip(1) =~= bytes@.subrange(start + 1, end as int));
        }
        parse_unsigned(bytes, start + 1, end)
    } else {
        parse_unsigned(bytes, start, end)
    }
}

} // verus!
