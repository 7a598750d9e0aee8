//! Numbers written as text, as the exchange reads them.
use vstd::arithmetic::div_mod::{lemma_breakdown, lemma_small_mod};
use vstd::prelude::*;
use vstd::string::StringExecFns;
use vstd::utf8::{encode_utf8, is_ascii_chars, is_ascii_chars_encode_utf8};
use crate::fixed::{lemma_pow10_positive, pow10, MAX_DECIMALS, SCALE};
use crate::number::{all_digits, decimal_spec, digits_value, fraction_spec, integer_spec};
use crate::number::{is_digit, lemma_point_at, lemma_pow10_table, sign_len};

verus! {

/// The character of a decimal digit.
pub open spec fn digit_char(d: int) -> char {
    ((48 + d) as u8) as char
}

/// The digits of a natural number, without leading zeros.
pub open spec fn natural_chars(n: nat) -> Seq<char>
    decreases n,
{
    if n < 10 {
        seq![digit_char(n as int)]
    } else {
        natural_chars(n / 10).push(digit_char((n % 10) as int))
    }
}

/// The last `width` digits of a natural number, with leading zeros.
pub open spec fn padded_chars(n: nat, width: nat) -> Seq<char>
    decreases width,
{
    if width == 0 {
        Seq::empty()
    } else {
        padded_chars(n / 10, (width - 1) as nat).push(digit_char((n % 10) as int))
    }
}

/// A whole number as text: a minus sign where it is negative, then its
/// digits.
pub open spec fn integer_chars(v: int) -> Seq<char> {
    if v < 0 {
        seq!['-'] + natural_chars((-v) as nat)
    } else {
        natural_chars(v as nat)
    }
}

/// `magnitude / unit`, rounded to the nearest whole number, and to the even
/// one where two are equally near.
pub open spec fn round_half_even(magnitude: nat, unit: nat) -> nat {
    let quotient = magnitude / unit;
    let twice = 2 * (magnitude % unit);
    if twice > unit || (twice == unit && quotient % 2 == 1) {
        quotient + 1
    } else {
        quotient
    }
}

/// `width` zeros.
pub open spec fn zeros(width: nat) -> Seq<char> {
    Seq::new(width, |i: int| '0')
}

/// A fixed-point value as text with `decimals` decimal places: a minus sign
/// where the value is negative, the whole part, and, where `decimals` is not
/// zero, a point and the decimal places. With fewer than eight places the
/// value is rounded to the nearest number that can be written, to the even
/// one where two are equally near; with more, zeros are appended.
pub open spec fn fixed_chars(v: int, decimals: nat) -> Seq<char> {
    let magnitude = (if v < 0 {
        -v
    } else {
        v
    }) as nat;
    let sign = if v < 0 {
        seq!['-']
    } else {
        Seq::<char>::empty()
    };
    if decimals == 0 {
        sign + natural_chars(round_half_even(magnitude, SCALE as nat))
    } else if decimals < MAX_DECIMALS {
        let unit = pow10(decimals) as nat;
        let rounded = round_half_even(magnitude, pow10((MAX_DECIMALS - decimals) as nat) as nat);
        sign + natural_chars(rounded / unit) + seq!['.'] + padded_chars(rounded % unit, decimals)
    } else {
        sign + natural_chars(magnitude / (SCALE as nat)) + seq!['.'] + padded_chars(
            magnitude % (SCALE as nat),
            MAX_DECIMALS as nat,
        ) + zeros((decimals - MAX_DECIMALS) as nat)
    }
}

fn digit_str(d: u8) -> (r: &'static str)
    requires
        d < 10,
    ensures
        r@ == seq![digit_char(d as int)],
{
    proof {
        reveal_strlit("0");
        reveal_strlit("1");
        reveal_strlit("2");
        reveal_strlit("3");
        reveal_strlit("4");
        reveal_strlit("5");
        reveal_strlit("6");
        reveal_strlit("7");
        reveal_strlit("8");
        reveal_strlit("9");
    }
    let r = if d == 0 {
        "0"
    } else if d == 1 {
        "1"
    } else if d == 2 {
        "2"
    } else if d == 3 {
        "3"
    } else if d == 4 {
        "4"
    } else if d == 5 {
        "5"
    } else if d == 6 {
        "6"
    } else if d == 7 {
        "7"
    } else if d == 8 {
        "8"
    } else {
        "9"
    };
    assert(r@ =~= seq![digit_char(d as int)]);
    r
}

fn push_natural(out: &mut String, n: u128)
    ensures
        final(out)@ == old(out)@ + natural_chars(n as nat),
    decreases n,
{
    if n >= 10 {
        push_natural(out, n / 10);
    }
    out.append(digit_str((n % 10) as u8));
    proof {
        if n >= 10 {
            assert(out@ =~= old(out)@ + natural_chars(n as nat));
        } else {
            assert(out@ =~= old(out)@ + natural_chars(n as nat));
        }
    }
}

fn push_padded(out: &mut String, n: u128, width: usize)
    ensures
        final(out)@ == old(out)@ + padded_chars(n as nat, width as nat),
    decreases width,
{
    if width > 0 {
        push_padded(out, n / 10, width - 1);
        out.append(digit_str((n % 10) as u8));
        proof {
            assert(out@ =~= old(out)@ + padded_chars(n as nat, width as nat));
        }
    } else {
        proof {
            assert(out@ =~= old(out)@ + padded_chars(n as nat, width as nat));
        }
    }
}

fn push_sign(out: &mut String, is_negative: bool)
    ensures
        final(out)@ == old(out)@ + if is_negative {
            seq!['-']
        } else {
            Seq::<char>::empty()
        },
{
    if is_negative {
        proof {
            reveal_strlit("-");
        }
        out.append("-");
        proof {
            assert("-"@ =~= seq!['-']);
        }
    } else {
        proof {
            assert(out@ =~= old(out)@ + Seq::<char>::empty());
        }
    }
}

fn magnitude_of(v: i64) -> (r: u128)
    ensures
        r == if v < 0 {
            -(v as int)
        } else {
            v as int
        },
        r <= 0x8000_0000_0000_0000,
{
    if v < 0 {
        (-(v as i128)) as u128
    } else {
        v as u128
    }
}

/// A whole number as text: see `integer_chars`.
pub fn integer_text(v: i64) -> (r: String)
    ensures
        r@ == integer_chars(v as int),
{
    let mut out = String::new();
    push_sign(&mut out, v < 0);
    push_natural(&mut out, magnitude_of(v));
    proof {
        assert(out@ =~= integer_chars(v as int));
    }
    out
}

fn power_of_ten(n: usize) -> (r: u128)
    requires
        n <= MAX_DECIMALS,
    ensures
        r == pow10(n as nat),
        1 <= r <= SCALE,
{
    let mut r: u128 = 1;
    let mut i: usize = 0;
    proof {
        lemma_pow10_table();
    }
    while i < n
        invariant
            i <= n <= MAX_DECIMALS,
            r == pow10(i as nat),
            1 <= r,
            r <= pow10(MAX_DECIMALS as nat),
            pow10(MAX_DECIMALS as nat) == SCALE,
            forall|a: nat, b: nat| a <= b <= 8 ==> #[trigger] pow10(a) <= #[trigger] pow10(b),
        decreases n - i,
    {
        proof {
            assert(pow10((i + 1) as nat) == 10 * pow10(i as nat));
            assert(pow10((i + 1) as nat) <= pow10(8));
            assert(pow10(n as nat) <= pow10(8));
        }
        r = r * 10;
        i = i + 1;
    }
    r
}

fn round_to(magnitude: u128, unit: u128) -> (r: u128)
    requires
        unit >= 1,
        magnitude <= 0x8000_0000_0000_0000,
        unit <= SCALE,
    ensures
        r == round_half_even(magnitude as nat, unit as nat),
        r <= magnitude + 1,
{
    let quotient = magnitude / unit;
    let twice = 2 * (magnitude % unit);
    proof {
        assert(quotient <= magnitude) by (nonlinear_arith)
            requires
                quotient == magnitude / unit,
                unit >= 1,
        ;
    }
    if twice > unit || (twice == unit && quotient % 2 == 1) {
        quotient + 1
    } else {
        quotient
    }
}

/// A fixed-point value as text with `decimals` decimal places: see
/// `fixed_chars`.
pub fn fixed_text(v: i64, decimals: usize) -> (r: String)
    ensures
        r@ == fixed_chars(v as int, decimals as nat),
{
    let mut out = String::new();
    let magnitude = magnitude_of(v);
    push_sign(&mut out, v < 0);
    let ghost sign = out@;
    proof {
        lemma_pow10_table();
    }
    if decimals == 0 {
        push_natural(&mut out, round_to(magnitude, SCALE as u128));
    } else if decimals < MAX_DECIMALS {
        let unit = power_of_ten(decimals);
        let rounded = round_to(magnitude, power_of_ten(MAX_DECIMALS - decimals));
        push_natural(&mut out, rounded / unit);
        proof {
            reveal_strlit(".");
            assert("."@ =~= seq!['.']);
        }
        out.append(".");
        push_padded(&mut out, rounded % unit, decimals);
    } else {
        push_natural(&mut out, magnitude / (SCALE as u128));
        proof {
            reveal_strlit(".");
            assert("."@ =~= seq!['.']);
        }
        out.append(".");
        push_padded(&mut out, magnitude % (SCALE as u128), MAX_DECIMALS);
        let ghost head = out@;
        let mut i: usize = MAX_DECIMALS;
        proof {
            assert(out@ =~= head + zeros(0));
        }
        while i < decimals
            invariant
                MAX_DECIMALS <= i <= decimals,
                out@ == head + zeros((i - MAX_DECIMALS) as nat),
            decreases decimals - i,
        {
            proof {
                reveal_strlit("0");
            }
            out.append("0");
            proof {
                assert(out@ =~= head + zeros((i + 1 - MAX_DECIMALS) as nat));
            }
            i = i + 1;
        }
    }
    proof {
        assert(out@ =~= fixed_chars(v as int, decimals as nat));
    }
    out
}

/// The bytes of text that is written in ASCII: one byte for each
/// character.
pub open spec fn ascii_bytes(chars: Seq<char>) -> Seq<u8> {
    Seq::new(chars.len(), |i: int| chars[i] as u8)
}

/// The digits of a natural number are ASCII digits, and read back they give
/// the number.
pub proof fn lemma_natural_chars_read_back(n: nat)
    ensures
        natural_chars(n).len() > 0,
        is_ascii_chars(natural_chars(n)),
        all_digits(ascii_bytes(natural_chars(n))),
        digits_value(ascii_bytes(natural_chars(n))) == n,
    decreases n,
{
    let chars = natural_chars(n);
    let bytes = ascii_bytes(chars);
    if n < 10 {
        assert(chars =~= seq![digit_char(n as int)]);
        assert(bytes =~= seq![(48 + n) as u8]);
        assert(bytes.drop_last() =~= Seq::<u8>::empty());
        assert(digits_value(bytes.drop_last()) == 0);
    } else {
        lemma_natural_chars_read_back(n / 10);
        let head = natural_chars(n / 10);
        let last = digit_char((n % 10) as int);
        assert(chars =~= head.push(last));
        assert(bytes.drop_last() =~= ascii_bytes(head));
        assert(bytes.last() == (48 + n % 10) as u8);
        assert forall|i: int| 0 <= i < bytes.len() implies is_digit(
            #[trigger] bytes[i],
        ) by {
            if i < head.len() {
                assert(bytes[i] == ascii_bytes(head)[i]);
            }
        }
        assert forall|i: int| 0 <= i < chars.len() implies '\0' <= #[trigger] chars[i]
            <= '\u{7f}' by {
            if i < head.len() {
                assert(chars[i] == head[i]);
            }
        }
    }
}

/// What `integer_text` writes, `parse_integer` reads back.
pub proof fn lemma_integer_text_reads_back(v: i64)
    ensures
        integer_spec(encode_utf8(integer_chars(v as int))) == Some(
            v as int,
        ),
{
    let magnitude = (if v < 0 {
        -(v as int)
    } else {
        v as int
    }) as nat;
    let digits = natural_chars(magnitude);
    let chars = integer_chars(v as int);
    lemma_natural_chars_read_back(magnitude);
    assert forall|i: int| 0 <= i < chars.len() implies '\0' <= #[trigger] chars[i] <= '\u{7f}' by {
        if v < 0 && i > 0 {
            assert(chars[i] == digits[i - 1]);
        }
    }
    is_ascii_chars_encode_utf8(chars);
    let bytes = encode_utf8(chars);
    assert(bytes =~= ascii_bytes(chars));
    assert(is_digit(ascii_bytes(digits)[0]));
    if v < 0 {
        assert(bytes[0] == 45);
        assert(bytes.skip(1) =~= ascii_bytes(digits));
    } else {
        assert(bytes[0] == ascii_bytes(digits)[0]);
        assert(bytes.skip(0) =~= ascii_bytes(digits));
    }
}

/// Padded digits are ASCII digits, as many as the width, and read back
/// they give the number modulo `10^width`.
pub proof fn lemma_padded_chars_read_back(n: nat, width: nat)
    ensures
        padded_chars(n, width).len() == width,
        is_ascii_chars(padded_chars(n, width)),
        all_digits(ascii_bytes(padded_chars(n, width))),
        digits_value(ascii_bytes(padded_chars(n, width))) == n % (pow10(
            width,
        ) as nat),
    decreases width,
{
    let chars = padded_chars(n, width);
    let bytes = ascii_bytes(chars);
    lemma_pow10_positive(width);
    if width == 0 {
        assert(bytes =~= Seq::<u8>::empty());
    } else {
        let less = (width - 1) as nat;
        lemma_padded_chars_read_back(n / 10, less);
        lemma_pow10_positive(less);
        let head = padded_chars(n / 10, less);
        assert(chars =~= head.push(digit_char((n % 10) as int)));
        assert(bytes.drop_last() =~= ascii_bytes(head));
        assert(bytes.last() == (48 + n % 10) as u8);
        assert forall|i: int| 0 <= i < bytes.len() implies is_digit(
            #[trigger] bytes[i],
        ) by {
            if i < head.len() {
                assert(bytes[i] == ascii_bytes(head)[i]);
            }
        }
        assert forall|i: int| 0 <= i < chars.len() implies '\0' <= #[trigger] chars[i]
            <= '\u{7f}' by {
            if i < head.len() {
                assert(chars[i] == head[i]);
            }
        }
        let p = pow10(less);
        lemma_breakdown(n as int, 10, p);
    }
}

/// What `fixed_text` writes with eight decimal places, `parse_decimal`
/// reads back.
pub proof fn lemma_fixed_text_reads_back(v: i64)
    ensures
        decimal_spec(
            encode_utf8(fixed_chars(v as int, MAX_DECIMALS as nat)),
        ) == Some(v as int),
{
    let magnitude = (if v < 0 {
        -(v as int)
    } else {
        v as int
    }) as nat;
    let whole = natural_chars(magnitude / (SCALE as nat));
    let fraction = padded_chars(magnitude % (SCALE as nat), MAX_DECIMALS as nat);
    let chars = fixed_chars(v as int, MAX_DECIMALS as nat);
    let start: int = if v < 0 {
        1
    } else {
        0
    };
    lemma_natural_chars_read_back(magnitude / (SCALE as nat));
    lemma_padded_chars_read_back(magnitude % (SCALE as nat), MAX_DECIMALS as nat);
    lemma_pow10_table();
    assert(zeros(0) =~= Seq::<char>::empty());
    assert(chars.len() == start + whole.len() + 1 + fraction.len());
    assert forall|i: int| 0 <= i < chars.len() implies '\0' <= #[trigger] chars[i] <= '\u{7f}' by {
        if start <= i < start + whole.len() {
            assert(chars[i] == whole[i - start]);
        } else if i > start + whole.len() {
            assert(chars[i] == fraction[i - start - whole.len() - 1]);
        }
    }
    is_ascii_chars_encode_utf8(chars);
    let bytes = encode_utf8(chars);
    assert(bytes =~= ascii_bytes(chars));
    assert(is_digit(ascii_bytes(whole)[0]));
    assert(bytes[start] == ascii_bytes(whole)[0]);
    let body = bytes.skip(sign_len(bytes));
    let k = whole.len() as int;
    assert(body.len() == k + 1 + fraction.len());
    assert forall|j: int| 0 <= j < k implies #[trigger] body[j] != 46 by {
        assert(body[j] == ascii_bytes(whole)[j]);
        assert(is_digit(ascii_bytes(whole)[j]));
    }
    assert(body[k] == 46);
    lemma_point_at(body, k);
    assert(body.take(k) =~= ascii_bytes(whole));
    assert(body.skip(k + 1) =~= ascii_bytes(fraction));
    assert(fraction_spec(ascii_bytes(fraction)) == magnitude % (SCALE as nat)) by {
        let digits = digits_value(ascii_bytes(fraction));
        let rest = magnitude % (SCALE as nat);
        assert(pow10(0) == 1);
        assert(pow10(8) == SCALE);
        assert(ascii_bytes(fraction).len() == MAX_DECIMALS);
        assert(digits == rest % (SCALE as nat));
        assert(rest < SCALE) by (nonlinear_arith)
            requires
                rest == magnitude % (SCALE as nat),
        ;
        lemma_small_mod(rest, SCALE as nat);
        assert(digits * 1 == digits);
    }
    assert((magnitude / (SCALE as nat)) * SCALE + magnitude % (SCALE as nat) == magnitude) by (nonlinear_arith);
}

} // verus!
