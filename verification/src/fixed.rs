//! Fixed-point decimal arithmetic.
//!
//! Every price, quantity, capital amount and percentage in this crate is an
//! `i64` that counts units of `10^-8`: the value `1.0` is `SCALE`, and a
//! percentage of `100` is `HUNDRED`. Products and quotients are computed in
//! 128 bits and rounded toward zero. An operation returns `None` exactly when
//! its rounded result does not fit in an `i64`.
use vstd::prelude::*;

verus! {

/// The number of units that make up `1.0`.
pub const SCALE: i64 = 100_000_000;

/// The fixed-point value of `100.0`, the divisor of every percentage.
pub const HUNDRED: i64 = 10_000_000_000;

/// The largest number of decimal places that a unit can express.
pub const MAX_DECIMALS: usize = 8;

/// Integer division rounded toward zero, for a positive divisor.
pub open spec fn trunc_div(a: int, b: int) -> int {
    if a >= 0 {
        a / b
    } else {
        -((-a) / b)
    }
}

/// Whether `v` is representable as an `i64`.
pub open spec fn in_range(v: int) -> bool {
    i64::MIN <= v <= i64::MAX
}

/// The fixed-point product `x * y`.
pub open spec fn mul_spec(x: int, y: int) -> int {
    trunc_div(x * y, SCALE as int)
}

/// The fixed-point quotient `x / y`, for `y > 0`.
pub open spec fn div_spec(x: int, y: int) -> int {
    trunc_div(x * SCALE, y)
}

/// `x * p / 100`: the share of `x` that the percentage `p` names.
pub open spec fn percent_spec(x: int, p: int) -> int {
    trunc_div(x * p, HUNDRED as int)
}

/// `10^n`.
pub open spec fn pow10(n: nat) -> int
    decreases n,
{
    if n == 0 {
        1
    } else {
        10 * pow10((n - 1) as nat)
    }
}

/// The smallest increment that `decimals` decimal places can express:
/// `10^-decimals`, which is zero when it is finer than one unit.
pub open spec fn increment_spec(decimals: nat) -> int {
    SCALE as int / pow10(decimals)
}

/// `q * mul^n`, rounded toward zero after each of the `n` multiplications.
pub open spec fn decay_spec(q: int, mul: int, n: nat) -> int
    decreases n,
{
    if n == 0 {
        q
    } else {
        decay_spec(mul_spec(q, mul), mul, (n - 1) as nat)
    }
}

/// Rounding toward zero gives a quotient between zero and the numerator.
pub proof fn lemma_trunc_div_bounds(a: int, b: int)
    requires
        b > 0,
    ensures
        a >= 0 ==> 0 <= trunc_div(a, b) <= a,
        a <= 0 ==> a <= trunc_div(a, b) <= 0,
{
    if a >= 0 {
        assert(0 <= a / b <= a) by (nonlinear_arith)
            requires
                a >= 0,
                b > 0,
        ;
    } else {
        let m = -a;
        assert(0 <= m / b <= m) by (nonlinear_arith)
            requires
                m >= 0,
                b > 0,
        ;
    }
}

/// Rounding toward zero keeps the order of the numerators.
pub proof fn lemma_trunc_div_monotonic(a: int, c: int, b: int)
    requires
        b > 0,
        a <= c,
    ensures
        trunc_div(a, b) <= trunc_div(c, b),
{
    if a >= 0 {
        assert(a / b <= c / b) by (nonlinear_arith)
            requires
                0 <= a <= c,
                b > 0,
        ;
    } else if c >= 0 {
        lemma_trunc_div_bounds(a, b);
        lemma_trunc_div_bounds(c, b);
    } else {
        let m = -a;
        let k = -c;
        assert(k / b <= m / b) by (nonlinear_arith)
            requires
                0 <= k <= m,
                b > 0,
        ;
    }
}

/// A share of at most one hundred percent of a non-negative amount lies
/// between zero and the amount.
pub proof fn lemma_percent_bounds(x: int, p: int)
    requires
        0 <= x,
        0 <= p <= HUNDRED,
    ensures
        0 <= percent_spec(x, p) <= x,
{
    assert(0 <= x * p <= x * HUNDRED) by (nonlinear_arith)
        requires
            0 <= x,
            0 <= p <= HUNDRED,
    ;
    lemma_trunc_div_monotonic(0, x * p, HUNDRED as int);
    lemma_trunc_div_monotonic(x * p, x * HUNDRED, HUNDRED as int);
    assert((x * HUNDRED) / (HUNDRED as int) == x) by (nonlinear_arith);
}

/// A share of a non-negative amount is not negative.
pub proof fn lemma_percent_not_negative(x: int, p: int)
    requires
        0 <= x,
        0 <= p,
    ensures
        0 <= percent_spec(x, p),
{
    assert(0 <= x * p) by (nonlinear_arith)
        requires
            0 <= x,
            0 <= p,
    ;
    lemma_trunc_div_bounds(x * p, HUNDRED as int);
}

/// A larger percentage names a larger share of a non-negative amount.
pub proof fn lemma_percent_monotonic(x: int, p: int, q: int)
    requires
        0 <= x,
        p <= q,
    ensures
        percent_spec(x, p) <= percent_spec(x, q),
{
    assert(x * p <= x * q) by (nonlinear_arith)
        requires
            0 <= x,
            p <= q,
    ;
    lemma_trunc_div_monotonic(x * p, x * q, HUNDRED as int);
}

/// Multiplying by a factor between zero and one moves a value toward zero.
pub proof fn lemma_mul_shrinks(q: int, mul: int)
    requires
        0 <= mul <= SCALE,
    ensures
        q >= 0 ==> 0 <= mul_spec(q, mul) <= q,
        q <= 0 ==> q <= mul_spec(q, mul) <= 0,
{
    if q >= 0 {
        assert(0 <= q * mul <= q * SCALE) by (nonlinear_arith)
            requires
                0 <= q,
                0 <= mul <= SCALE,
        ;
        lemma_trunc_div_monotonic(0, q * mul, SCALE as int);
        lemma_trunc_div_monotonic(q * mul, q * SCALE, SCALE as int);
        assert((q * SCALE) / (SCALE as int) == q) by (nonlinear_arith);
    } else {
        let m = -q;
        assert(q * SCALE <= q * mul <= 0 && -(q * SCALE) == m * SCALE) by (nonlinear_arith)
            requires
                q <= 0,
                m == -q,
                0 <= mul <= SCALE,
        ;
        lemma_trunc_div_monotonic(q * mul, 0, SCALE as int);
        lemma_trunc_div_monotonic(q * SCALE, q * mul, SCALE as int);
        assert((m * SCALE) / (SCALE as int) == m) by (nonlinear_arith);
    }
}

/// Decay never moves a value away from zero, so it stays in the range of
/// the value it started from.
pub proof fn lemma_decay_bounds(q: int, mul: int, n: nat)
    requires
        0 <= mul <= SCALE,
    ensures
        q >= 0 ==> 0 <= decay_spec(q, mul, n) <= q,
        q <= 0 ==> q <= decay_spec(q, mul, n) <= 0,
    decreases n,
{
    if n > 0 {
        lemma_mul_shrinks(q, mul);
        lemma_decay_bounds(mul_spec(q, mul), mul, (n - 1) as nat);
    }
}

/// Decaying `n + k` times is decaying `n` times and then `k` times more.
pub proof fn lemma_decay_split(q: int, mul: int, n: nat, k: nat)
    ensures
        decay_spec(q, mul, n + k) == decay_spec(decay_spec(q, mul, n), mul, k),
    decreases n,
{
    if n > 0 {
        lemma_decay_split(mul_spec(q, mul), mul, (n - 1) as nat, k);
        assert(((n + k) - 1) as nat == ((n - 1) as nat) + k);
    }
}

/// More decay steps never give a larger non-negative value.
pub proof fn lemma_decay_monotonic_in_steps(q: int, mul: int, n: nat, m: nat)
    requires
        0 <= q,
        0 <= mul <= SCALE,
        n <= m,
    ensures
        decay_spec(q, mul, m) <= decay_spec(q, mul, n),
{
    let k = (m - n) as nat;
    lemma_decay_split(q, mul, n, k);
    lemma_decay_bounds(q, mul, n);
    lemma_decay_bounds(decay_spec(q, mul, n), mul, k);
}

/// Once one multiplication leaves a value unchanged, every further one does.
pub proof fn lemma_decay_fixed_point(q: int, mul: int, n: nat)
    requires
        mul_spec(q, mul) == q,
    ensures
        decay_spec(q, mul, n) == q,
    decreases n,
{
    if n > 0 {
        lemma_decay_fixed_point(q, mul, (n - 1) as nat);
    }
}

pub proof fn lemma_pow10_positive(n: nat)
    ensures
        pow10(n) >= 1,
        n > 0 ==> pow10(n) >= 10,
    decreases n,
{
    if n > 0 {
        lemma_pow10_positive((n - 1) as nat);
    }
}

proof fn lemma_product_fits(x: i64, y: i64)
    ensures
        -0x4000_0000_0000_0000_0000_0000_0000_0000 <= x * y
            <= 0x4000_0000_0000_0000_0000_0000_0000_0000,
{
    assert(-0x4000_0000_0000_0000_0000_0000_0000_0000 <= x * y
        <= 0x4000_0000_0000_0000_0000_0000_0000_0000) by (nonlinear_arith)
        requires
            -0x8000_0000_0000_0000 <= x < 0x8000_0000_0000_0000,
            -0x8000_0000_0000_0000 <= y < 0x8000_0000_0000_0000,
    ;
}

fn narrow(v: i128) -> (r: Option<i64>)
    ensures
        match r {
            Some(n) => n == v,
            None => !in_range(v as int),
        },
{
    if v < -0x8000_0000_0000_0000 || v > 0x7fff_ffff_ffff_ffff {
        None
    } else {
        Some(v as i64)
    }
}

/// The fixed-point product of `x` and `y`, or `None` when it does not fit.
pub fn fixed_mul(x: i64, y: i64) -> (r: Option<i64>)
    ensures
        match r {
            Some(v) => v == mul_spec(x as int, y as int),
            None => !in_range(mul_spec(x as int, y as int)),
        },
{
    proof {
        lemma_product_fits(x, y);
    }
    let wide: i128 = (x as i128) * (y as i128);
    narrow(wide / (SCALE as i128))
}

/// The fixed-point quotient of `x` by a positive `y`, or `None` when it does
/// not fit.
pub fn fixed_div(x: i64, y: i64) -> (r: Option<i64>)
    requires
        y > 0,
    ensures
        match r {
            Some(v) => v == div_spec(x as int, y as int),
            None => !in_range(div_spec(x as int, y as int)),
        },
{
    proof {
        lemma_product_fits(x, SCALE);
    }
    let wide: i128 = (x as i128) * (SCALE as i128);
    narrow(wide / (y as i128))
}

/// `x * p / 100`, or `None` when it does not fit.
pub fn percent_of(x: i64, p: i64) -> (r: Option<i64>)
    ensures
        match r {
            Some(v) => v == percent_spec(x as int, p as int),
            None => !in_range(percent_spec(x as int, p as int)),
        },
{
    proof {
        lemma_product_fits(x, p);
    }
    let wide: i128 = (x as i128) * (p as i128);
    narrow(wide / (HUNDRED as i128))
}

/// `x * p / 100` for a share of at most one hundred percent of an amount
/// that is not negative. It lies between zero and the amount, so it fits.
pub fn share_of(x: i64, p: i64) -> (r: i64)
    requires
        0 <= x,
        0 <= p <= HUNDRED,
    ensures
        r == percent_spec(x as int, p as int),
        0 <= r <= x,
{
    proof {
        lemma_product_fits(x, p);
        lemma_percent_bounds(x as int, p as int);
    }
    (((x as i128) * (p as i128)) / (HUNDRED as i128)) as i64
}

/// The sum of two values, or `None` when it does not fit.
pub fn fixed_add(x: i64, y: i64) -> (r: Option<i64>)
    ensures
        match r {
            Some(v) => v == x + y,
            None => !in_range(x + y),
        },
{
    narrow((x as i128) + (y as i128))
}

/// The difference of two values, or `None` when it does not fit.
pub fn fixed_sub(x: i64, y: i64) -> (r: Option<i64>)
    ensures
        match r {
            Some(v) => v == x - y,
            None => !in_range(x - y),
        },
{
    narrow((x as i128) - (y as i128))
}

/// The smallest increment that `decimals` decimal places can express.
pub fn increment(decimals: usize) -> (r: i64)
    ensures
        r == increment_spec(decimals as nat),
        0 <= r <= SCALE,
{
    let mut r: i64 = SCALE;
    let mut i: usize = 0;
    proof {
        assert(SCALE as int / 1 == SCALE);
    }
    while i < decimals && r > 0
        invariant
            i <= decimals,
            0 <= r <= SCALE,
            r == SCALE as int / pow10(i as nat),
        decreases decimals - i,
    {
        proof {
            let p = pow10(i as nat);
            lemma_pow10_positive(i as nat);
            assert((SCALE as int / p) / 10 == SCALE as int / (p * 10)) by (nonlinear_arith)
                requires
                    p >= 1,
            ;
            assert(pow10((i + 1) as nat) == 10 * p);
        }
        r = r / 10;
        i = i + 1;
    }
    proof {
        if i < decimals {
            lemma_increment_stays_zero(i as nat, decimals as nat);
        }
    }
    r
}

proof fn lemma_increment_stays_zero(i: nat, n: nat)
    requires
        i <= n,
        SCALE as int / pow10(i) == 0,
    ensures
        SCALE as int / pow10(n) == 0,
    decreases n - i,
{
    if i < n {
        let p = pow10(i);
        lemma_pow10_positive(i);
        assert(SCALE as int / (p * 10) == 0) by (nonlinear_arith)
            requires
                p >= 1,
                SCALE as int / p == 0,
        ;
        assert(pow10(i + 1) == 10 * p);
        lemma_increment_stays_zero(i + 1, n);
    }
}

/// `q * mul^n` for a factor between zero and one, rounded toward zero after
/// each multiplication. The result always fits, because decay moves a value
/// toward zero.
pub fn decay(q: i64, mul: i64, n: u128) -> (r: i64)
    requires
        0 <= mul <= SCALE,
    ensures
        r == decay_spec(q as int, mul as int, n as nat),
{
    let mut cur: i64 = q;
    let mut left: u128 = n;
    while left > 0
        invariant
            0 <= mul <= SCALE,
            decay_spec(cur as int, mul as int, left as nat) == decay_spec(
                q as int,
                mul as int,
                n as nat,
            ),
        decreases left,
    {
        proof {
            lemma_mul_shrinks(cur as int, mul as int);
            lemma_product_fits(cur, mul);
        }
        let next = (((cur as i128) * (mul as i128)) / (SCALE as i128)) as i64;
        if next == cur {
            proof {
                lemma_decay_fixed_point(cur as int, mul as int, left as nat);
                assert(decay_spec(cur as int, mul as int, 0) == cur);
            }
            left = 0;
        } else {
            cur = next;
            left = left - 1;
        }
    }
    cur
}

} // verus!
