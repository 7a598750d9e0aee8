//! Numbers as the exchange writes them: a whole number of milliseconds, and
//! a decimal number that becomes a fixed-point value.
//!
//! A whole number is an optional sign and one or more digits. A decimal
//! number is an optional sign, digits, and optionally a point and more
//! digits; there is a digit on at least one side of the point. An exponent
//! is not read. Digits after the eighth decimal place are dropped.
use vstd::prelude::*;
use vstd::string::StringSliceAdditionalSpecFns;
use crate::fixed::{in_range, lemma_pow10_positive, pow10, MAX_DECIMALS, SCALE};

verus! {

/// Whether a byte is a decimal digit.
pub open spec fn is_digit(b: u8) -> bool {
    48 <= b <= 57
}

/// Whether every byte is a decimal digit.
pub open spec fn all_digits(s: Seq<u8>) -> bool {
    forall|i: int| 0 <= i < s.len() ==> is_digit(#[trigger] s[i])
}

/// The number that a sequence of digits writes; zero for no digits.
pub open spec fn digits_value(s: Seq<u8>) -> nat
    decreases s.len(),
{
    if s.len() == 0 {
        0
    } else {
        digits_value(s.drop_last()) * 10 + (s.last() - 48) as nat
    }
}

/// The length of the sign at the start: one for `+` or `-`, else zero.
pub open spec fn sign_len(s: Seq<u8>) -> int {
    if s.len() > 0 && (s[0] == 45 || s[0] == 43) {
        1
    } else {
        0
    }
}

/// Whether the text starts with `-`.
pub open spec fn negative(s: Seq<u8>) -> bool {
    s.len() > 0 && s[0] == 45
}

/// The index of the first point, or the length where there is none.
pub open spec fn point_at(s: Seq<u8>) -> int
    decreases s.len(),
{
    if s.len() == 0 || s[0] == 46 {
        0
    } else {
        1 + point_at(s.skip(1))
    }
}

/// `magnitude` with the sign of the text.
pub open spec fn signed(s: Seq<u8>, magnitude: int) -> Option<int> {
    let value = if negative(s) {
        -magnitude
    } else {
        magnitude
    };
    if in_range(value) {
        Some(value)
    } else {
        None
    }
}

/// The whole number that the text writes, or `None` where the text is not
/// a whole number or the number does not fit in an `i64`.
pub open spec fn integer_spec(s: Seq<u8>) -> Option<int> {
    let body = s.skip(sign_len(s));
    if body.len() > 0 && all_digits(body) {
        signed(s, digits_value(body) as int)
    } else {
        None
    }
}

/// The fixed-point value of the digits after the point: the first eight
/// count, each for its decimal place.
pub open spec fn fraction_spec(s: Seq<u8>) -> int {
    let used = if s.len() <= MAX_DECIMALS {
        s
    } else {
        s.take(MAX_DECIMALS as int)
    };
    digits_value(used) * pow10((MAX_DECIMALS - used.len()) as nat)
}

/// The fixed-point value that the text writes, or `None` where the text is
/// not a decimal number or the value does not fit in an `i64`.
pub open spec fn decimal_spec(s: Seq<u8>) -> Option<int> {
    let body = s.skip(sign_len(s));
    let dot = point_at(body);
    let whole = body.take(dot);
    let fraction = if dot < body.len() {
        body.skip(dot + 1)
    } else {
        Seq::empty()
    };
    if whole.len() + fraction.len() > 0 && all_digits(whole) && all_digits(fraction) {
        signed(s, digits_value(whole) * SCALE + fraction_spec(fraction))
    } else {
        None
    }
}

/// Where no point stands before `k`, the first point stands at `k` or
/// later; it stands at `k` where a point stands there or the text ends
/// there.
pub proof fn lemma_point_at(s: Seq<u8>, k: int)
    requires
        0 <= k <= s.len(),
        forall|j: int| 0 <= j < k ==> #[trigger] s[j] != 46,
    ensures
        k <= point_at(s) <= s.len(),
        (k == s.len() || s[k] == 46) ==> point_at(s) == k,
    decreases s.len(),
{
    if s.len() > 0 && s[0] != 46 {
        let rest = s.skip(1);
        if k > 0 {
            assert forall|j: int| 0 <= j < k - 1 implies #[trigger] rest[j] != 46 by {
                assert(rest[j] == s[j + 1]);
            }
            lemma_point_at(rest, k - 1);
        } else {
            lemma_point_at(rest, 0);
        }
    }
}

/// The largest number that the scanner keeps exactly; a larger one fits in
/// no `i64`, with either sign.
pub const SCAN_LIMIT: u128 = 0x1_0000_0000_0000_0000;

/// Reads digits from `from` on, up to the first byte that is no digit.
/// Returns where it stopped, and the number read, or `None` where that
/// number is above `SCAN_LIMIT`.
fn scan_digits(bytes: &[u8], from: usize) -> (r: (usize, Option<u128>))
    requires
        from <= bytes.len(),
    ensures
        from <= r.0 <= bytes.len(),
        all_digits(bytes@.subrange(from as int, r.0 as int)),
        r.0 < bytes.len() ==> !is_digit(bytes@[r.0 as int]),
        match r.1 {
            Some(v) => v == digits_value(bytes@.subrange(from as int, r.0 as int)) && v
                <= SCAN_LIMIT,
            None => digits_value(bytes@.subrange(from as int, r.0 as int)) > SCAN_LIMIT,
        },
{
    let mut i: usize = from;
    let mut value: u128 = 0;
    let mut over: bool = false;
    proof {
        assert(bytes@.subrange(from as int, from as int) =~= Seq::<u8>::empty());
    }
    while i < bytes.len() && 48 <= bytes[i] && bytes[i] <= 57
        invariant
            from <= i <= bytes.len(),
            all_digits(bytes@.subrange(from as int, i as int)),
            !over ==> value == digits_value(bytes@.subrange(from as int, i as int)) && value
                <= SCAN_LIMIT,
            over ==> digits_value(bytes@.subrange(from as int, i as int)) > SCAN_LIMIT,
        decreases bytes.len() - i,
    {
        proof {
            let next = bytes@.subrange(from as int, i + 1);
            assert(next.drop_last() =~= bytes@.subrange(from as int, i as int));
            assert(next.last() == bytes@[i as int]);
            assert forall|j: int| 0 <= j < next.len() implies is_digit(#[trigger] next[j]) by {
                if j < next.len() - 1 {
                    assert(next[j] == bytes@.subrange(from as int, i as int)[j]);
                }
            }
        }
        if !over {
            let grown = value * 10 + (bytes[i] - 48) as u128;
            if grown > SCAN_LIMIT {
                over = true;
            } else {
                value = grown;
            }
        }
        i = i + 1;
    }
    if over {
        (i, None)
    } else {
        (i, Some(value))
    }
}

/// Reads the digits after the point from `from` on, up to the first byte
/// that is no digit. Returns where it stopped and the fixed-point value of
/// what it read.
fn scan_fraction(bytes: &[u8], from: usize) -> (r: (usize, i64))
    requires
        from <= bytes.len(),
    ensures
        from <= r.0 <= bytes.len(),
        all_digits(bytes@.subrange(from as int, r.0 as int)),
        r.0 < bytes.len() ==> !is_digit(bytes@[r.0 as int]),
        r.1 == fraction_spec(bytes@.subrange(from as int, r.0 as int)),
        0 <= r.1 < SCALE,
{
    let mut i: usize = from;
    let mut value: i64 = 0;
    let mut places: usize = 0;
    proof {
        assert(bytes@.subrange(from as int, from as int) =~= Seq::<u8>::empty());
        assert(pow10(0) == 1);
    }
    while i < bytes.len() && 48 <= bytes[i] && bytes[i] <= 57
        invariant
            from <= i <= bytes.len(),
            places <= MAX_DECIMALS,
            places == if i - from <= MAX_DECIMALS {
                (i - from) as int
            } else {
                MAX_DECIMALS as int
            },
            all_digits(bytes@.subrange(from as int, i as int)),
            value == digits_value(bytes@.subrange(from as int, from + places)),
            0 <= value < pow10(places as nat),
        decreases bytes.len() - i,
    {
        proof {
            let next = bytes@.subrange(from as int, i + 1);
            assert(next.drop_last() =~= bytes@.subrange(from as int, i as int));
            assert forall|j: int| 0 <= j < next.len() implies is_digit(#[trigger] next[j]) by {
                if j < next.len() - 1 {
                    assert(next[j] == bytes@.subrange(from as int, i as int)[j]);
                }
            }
            lemma_pow10_table();
        }
        if places < MAX_DECIMALS {
            proof {
                assert(from + places == i);
            }
            value = value * 10 + (bytes[i] - 48) as i64;
            places = places + 1;
        }
        i = i + 1;
    }
    let ghost read = bytes@.subrange(from as int, i as int);
    let ghost used = bytes@.subrange(from as int, from + places);
    proof {
        if read.len() <= MAX_DECIMALS {
            assert(used =~= read);
        } else {
            assert(used =~= read.take(MAX_DECIMALS as int));
        }
        lemma_pow10_table();
    }
    let mut left: usize = MAX_DECIMALS - places;
    let ghost digits = value;
    proof {
        assert(digits * pow10(0) == digits) by (nonlinear_arith)
            requires
                pow10(0) == 1,
        ;
    }
    while left > 0
        invariant
            left <= MAX_DECIMALS - places,
            places <= MAX_DECIMALS,
            0 <= digits < pow10(places as nat),
            value == digits * pow10((MAX_DECIMALS - places - left) as nat),
            0 <= value < pow10((MAX_DECIMALS - left) as nat),
        decreases left,
    {
        proof {
            lemma_pow10_table();
            let e = (MAX_DECIMALS - places - left) as nat;
            assert(pow10(e + 1) == 10 * pow10(e));
            assert(digits * (10 * pow10(e)) == (digits * pow10(e)) * 10) by (nonlinear_arith);
            assert(pow10((MAX_DECIMALS - left + 1) as nat) == 10 * pow10(
                (MAX_DECIMALS - left) as nat,
            ));
        }
        value = value * 10;
        left = left - 1;
    }
    proof {
        lemma_pow10_table();
    }
    (i, value)
}

/// The powers of ten up to the eighth.
pub proof fn lemma_pow10_table()
    ensures
        pow10(0) == 1,
        pow10(1) == 10,
        pow10(2) == 100,
        pow10(3) == 1_000,
        pow10(4) == 10_000,
        pow10(5) == 100_000,
        pow10(6) == 1_000_000,
        pow10(7) == 10_000_000,
        pow10(8) == 100_000_000,
        forall|a: nat, b: nat| a <= b <= 8 ==> #[trigger] pow10(a) <= #[trigger] pow10(b),
{
    reveal_with_fuel(pow10, 10);
    assert forall|a: nat, b: nat| a <= b <= 8 implies #[trigger] pow10(a) <= #[trigger] pow10(
        b,
    ) by {
        lemma_pow10_monotonic(a, b);
    }
}

proof fn lemma_pow10_monotonic(a: nat, b: nat)
    requires
        a <= b,
    ensures
        pow10(a) <= pow10(b),
    decreases b - a,
{
    if a < b {
        lemma_pow10_monotonic(a, (b - 1) as nat);
        lemma_pow10_positive((b - 1) as nat);
    }
}

fn apply_sign(is_negative: bool, magnitude: u128) -> (r: Option<i64>)
    requires
        magnitude <= 0x1_0000_0000_0000_0000_0000_0000,
    ensures
        r == match (if is_negative {
            -(magnitude as int)
        } else {
            magnitude as int
        }) {
            v => if in_range(v) {
                Some(v as i64)
            } else {
                None
            },
        },
{
    if is_negative {
        if magnitude > 0x8000_0000_0000_0000 {
            None
        } else {
            Some((-(magnitude as i128)) as i64)
        }
    } else {
        if magnitude > 0x7fff_ffff_ffff_ffff {
            None
        } else {
            Some(magnitude as i64)
        }
    }
}

fn read_sign(bytes: &[u8]) -> (r: (usize, bool))
    ensures
        r.0 == sign_len(bytes@),
        r.1 == negative(bytes@),
{
    if bytes.len() > 0 && bytes[0] == 45 {
        (1, true)
    } else if bytes.len() > 0 && bytes[0] == 43 {
        (1, false)
    } else {
        (0, false)
    }
}

/// Reads a whole number: see `integer_spec`.
pub fn parse_integer_bytes(bytes: &[u8]) -> (r: Option<i64>)
    ensures
        match r {
            Some(v) => integer_spec(bytes@) == Some(v as int),
            None => integer_spec(bytes@) is None,
        },
{
    let (start, is_negative) = read_sign(bytes);
    let (end, value) = scan_digits(bytes, start);
    let ghost body = bytes@.skip(start as int);
    proof {
        assert(bytes@.subrange(start as int, end as int) =~= body.take(end - start));
        if end < bytes.len() {
            assert(body[end - start] == bytes@[end as int]);
        } else {
            assert(body.take(end - start) =~= body);
        }
    }
    if end < bytes.len() || end == start {
        return None;
    }
    match value {
        Some(magnitude) => apply_sign(is_negative, magnitude),
        None => None,
    }
}

/// Reads a decimal number as a fixed-point value: see `decimal_spec`.
pub fn parse_decimal_bytes(bytes: &[u8]) -> (r: Option<i64>)
    ensures
        match r {
            Some(v) => decimal_spec(bytes@) == Some(v as int),
            None => decimal_spec(bytes@) is None,
        },
{
    let (start, is_negative) = read_sign(bytes);
    let (dot, whole) = scan_digits(bytes, start);
    let ghost body = bytes@.skip(start as int);
    let ghost k = dot - start;
    proof {
        assert(bytes@.subrange(start as int, dot as int) =~= body.take(k));
        assert forall|j: int| 0 <= j < k implies #[trigger] body[j] != 46 by {
            assert(body.take(k)[j] == body[j]);
            assert(is_digit(body.take(k)[j]));
        }
        lemma_point_at(body, k);
        if dot < bytes.len() {
            assert(body[k] == bytes@[dot as int]);
        }
    }
    if dot < bytes.len() && bytes[dot] != 46 {
        proof {
            assert forall|j: int| 0 <= j < k + 1 implies #[trigger] body[j] != 46 by {
                if j < k {
                    assert(body.take(k)[j] == body[j]);
                    assert(is_digit(body.take(k)[j]));
                }
            }
            lemma_point_at(body, k + 1);
            let p = point_at(body);
            assert(body.take(p)[k] == body[k]);
            assert(!all_digits(body.take(p)));
        }
        return None;
    }
    let (end, fraction) = if dot < bytes.len() {
        scan_fraction(bytes, dot + 1)
    } else {
        proof {
            assert(Seq::<u8>::empty().len() <= MAX_DECIMALS);
            assert(digits_value(Seq::<u8>::empty()) == 0);
            assert(0 * pow10(8) == 0) by (nonlinear_arith);
        }
        (dot, 0)
    };
    let ghost tail = if dot < bytes.len() {
        body.skip(k + 1)
    } else {
        Seq::<u8>::empty()
    };
    proof {
        if dot < bytes.len() {
            assert(bytes@.subrange(dot + 1, end as int) =~= tail.take(end - dot - 1));
            if end < bytes.len() {
                assert(tail[end - dot - 1] == bytes@[end as int]);
            } else {
                assert(tail.take(end - dot - 1) =~= tail);
            }
        }
    }
    if end < bytes.len() {
        return None;
    }
    let fraction_len = if dot < bytes.len() {
        end - dot - 1
    } else {
        0
    };
    if (dot - start) + fraction_len == 0 {
        return None;
    }
    match whole {
        Some(units) => {
            assert(units * SCALE <= SCAN_LIMIT * SCALE) by (nonlinear_arith)
                requires
                    units <= SCAN_LIMIT,
            ;
            apply_sign(is_negative, units * (SCALE as u128) + (fraction as u128))
        },
        None => {
            proof {
                let v = digits_value(body.take(k));
                assert(v * SCALE > SCAN_LIMIT) by (nonlinear_arith)
                    requires
                        v > SCAN_LIMIT,
                ;
            }
            None
        },
    }
}

/// Reads a whole number from text: see `integer_spec`.
pub fn parse_integer(text: &str) -> (r: Option<i64>)
    ensures
        match r {
            Some(v) => integer_spec(text.spec_bytes()) == Some(v as int),
            None => integer_spec(text.spec_bytes()) is None,
        },
{
    parse_integer_bytes(text.as_bytes())
}

/// Reads a decimal number from text as a fixed-point value: see
/// `decimal_spec`.
pub fn parse_decimal(text: &str) -> (r: Option<i64>)
    ensures
        match r {
            Some(v) => decimal_spec(text.spec_bytes()) == Some(v as int),
            None => decimal_spec(text.spec_bytes()) is None,
        },
{
    parse_decimal_bytes(text.as_bytes())
}

} // verus!
