//! Order sizing: how large the next order is, given the balance and the
//! number of orders that already rest on each side.
//!
//! The size starts at the share of the balance that `capital_percent` names,
//! converted at the base price, and shrinks geometrically with the number of
//! resting orders: it is multiplied by `1 - capital_percent / 100` once for
//! every whole unit of `waited_count * risk_deduction`. It never falls below
//! the smallest order that the exchange takes.
use vstd::prelude::*;
use crate::deal::offset_spec;
use crate::fixed::{fixed_add, increment, increment_spec, lemma_percent_monotonic};
use crate::simulator::SimConfig;
use crate::fixed::{decay, decay_spec, div_spec, fixed_div, in_range, percent_of, percent_spec};
use crate::fixed::{share_of, trunc_div, HUNDRED, SCALE};
use crate::fixed::{lemma_decay_bounds, lemma_decay_monotonic_in_steps, lemma_percent_bounds};
use crate::fixed::{lemma_trunc_div_bounds, lemma_trunc_div_monotonic};

verus! {

/// The larger of the two numbers of resting orders.
pub open spec fn waited_count_spec(buy_count: nat, sell_count: nat) -> nat {
    if buy_count >= sell_count {
        buy_count
    } else {
        sell_count
    }
}

/// `waited_count * risk_deduction`, rounded toward zero: the number of times
/// the size is reduced.
pub open spec fn decay_exponent_spec(waited_count: nat, risk_deduction: int) -> nat {
    trunc_div(waited_count * risk_deduction, SCALE as int) as nat
}

/// `1 - capital_percent / 100`: the factor of one reduction.
pub open spec fn waited_mul_spec(capital_percent: int) -> int {
    SCALE - percent_spec(SCALE as int, capital_percent)
}

/// `(balance * capital_percent / 100) / base_price`: the size before any
/// reduction.
pub open spec fn base_amount_spec(balance: int, base_price: int, capital_percent: int) -> int {
    div_spec(percent_spec(balance, capital_percent), base_price)
}

/// The size of the next order:
/// `max(base_amount * waited_mul ^ decay_exponent, minimum_size)`.
pub open spec fn quantity_spec(
    balance: int,
    base_price: int,
    waited_count: nat,
    capital_percent: int,
    risk_deduction: int,
    minimum_size: int,
) -> int {
    let reduced = decay_spec(
        base_amount_spec(balance, base_price, capital_percent),
        waited_mul_spec(capital_percent),
        decay_exponent_spec(waited_count, risk_deduction),
    );
    if reduced >= minimum_size {
        reduced
    } else {
        minimum_size
    }
}

/// The reduction factor lies between zero and one.
pub proof fn lemma_waited_mul_bounds(capital_percent: int)
    requires
        0 <= capital_percent <= HUNDRED,
    ensures
        0 <= waited_mul_spec(capital_percent) <= SCALE,
{
    lemma_percent_bounds(SCALE as int, capital_percent);
}

/// More resting orders never reduce the size fewer times.
pub proof fn lemma_exponent_monotonic(w1: nat, w2: nat, risk_deduction: int)
    requires
        w1 <= w2,
        0 <= risk_deduction,
    ensures
        decay_exponent_spec(w1, risk_deduction) <= decay_exponent_spec(w2, risk_deduction),
        0 <= trunc_div(w1 * risk_deduction, SCALE as int),
{
    assert(0 <= w1 * risk_deduction <= w2 * risk_deduction) by (nonlinear_arith)
        requires
            0 <= w1 <= w2,
            0 <= risk_deduction,
    ;
    lemma_trunc_div_monotonic(w1 * risk_deduction, w2 * risk_deduction, SCALE as int);
    lemma_trunc_div_bounds(w1 * risk_deduction, SCALE as int);
}

/// The size never grows with the number of resting orders, and is never
/// below the minimum size.
pub proof fn lemma_quantity_monotonic(
    balance: int,
    base_price: int,
    w1: nat,
    w2: nat,
    capital_percent: int,
    risk_deduction: int,
    minimum_size: int,
)
    requires
        w1 <= w2,
        0 <= capital_percent <= HUNDRED,
        0 <= risk_deduction,
        0 <= minimum_size,
    ensures
        quantity_spec(balance, base_price, w2, capital_percent, risk_deduction, minimum_size)
            <= quantity_spec(
            balance,
            base_price,
            w1,
            capital_percent,
            risk_deduction,
            minimum_size,
        ),
        quantity_spec(balance, base_price, w1, capital_percent, risk_deduction, minimum_size)
            >= minimum_size,
{
    let base = base_amount_spec(balance, base_price, capital_percent);
    let mul = waited_mul_spec(capital_percent);
    let e1 = decay_exponent_spec(w1, risk_deduction);
    let e2 = decay_exponent_spec(w2, risk_deduction);
    lemma_waited_mul_bounds(capital_percent);
    lemma_exponent_monotonic(w1, w2, risk_deduction);
    lemma_decay_bounds(base, mul, e1);
    lemma_decay_bounds(base, mul, e2);
    if base >= 0 {
        lemma_decay_monotonic_in_steps(base, mul, e1, e2);
    }
}

/// The size of the next order, or `None` when the size before reduction,
/// `(balance * capital_percent / 100) / base_price`, does not fit.
pub fn order_quantity(
    balance: i64,
    base_price: i64,
    buy_count: usize,
    sell_count: usize,
    capital_percent: i64,
    risk_deduction: i64,
    minimum_size: i64,
) -> (r: Option<i64>)
    requires
        base_price > 0,
        0 <= capital_percent < HUNDRED,
        0 <= risk_deduction,
    ensures
        match r {
            Some(qty) => {
                &&& in_range(base_amount_spec(balance as int, base_price as int, capital_percent as int))
                &&& qty == quantity_spec(
                    balance as int,
                    base_price as int,
                    waited_count_spec(buy_count as nat, sell_count as nat),
                    capital_percent as int,
                    risk_deduction as int,
                    minimum_size as int,
                )
            },
            None => !in_range(
                base_amount_spec(balance as int, base_price as int, capital_percent as int),
            ),
        },
{
    proof {
        lemma_share_fits(balance as int, capital_percent as int);
    }
    let capital_for_order = percent_of(balance, capital_percent)?;
    let base_amount = fixed_div(capital_for_order, base_price)?;
    let waited_count = if buy_count >= sell_count {
        buy_count
    } else {
        sell_count
    };
    assert(0 <= waited_count * risk_deduction <= 0x1_0000_0000_0000_0000 * 0x8000_0000_0000_0000)
        by (nonlinear_arith)
        requires
            0 <= waited_count <= 0x1_0000_0000_0000_0000,
            0 <= risk_deduction <= 0x8000_0000_0000_0000,
    ;
    let waited_power: u128 = ((waited_count as u128) * (risk_deduction as u128)) / (SCALE as u128);
    let waited_mul = SCALE - share_of(SCALE, capital_percent);
    let fact_qty = decay(base_amount, waited_mul, waited_power);
    if fact_qty >= minimum_size {
        Some(fact_qty)
    } else {
        Some(minimum_size)
    }
}

/// A share of at most one hundred percent of any amount fits where the
/// amount fits.
proof fn lemma_share_fits(x: int, p: int)
    requires
        in_range(x),
        0 <= p <= HUNDRED,
    ensures
        in_range(percent_spec(x, p)),
{
    if x >= 0 {
        lemma_percent_bounds(x, p);
    } else {
        assert(x * HUNDRED <= x * p <= 0) by (nonlinear_arith)
            requires
                x <= 0,
                0 <= p <= HUNDRED,
        ;
        lemma_trunc_div_monotonic(x * HUNDRED, x * p, HUNDRED as int);
        lemma_trunc_div_monotonic(x * p, 0, HUNDRED as int);
        assert(((-x) * HUNDRED) / (HUNDRED as int) == -x) by (nonlinear_arith);
        assert(-(x * HUNDRED) == (-x) * HUNDRED) by (nonlinear_arith);
    }
}

/// What the sizing rule gives for one rung of the grid: the size of its
/// orders and its four thresholds.
#[derive(Clone, Copy, Debug, PartialEq, Eq, Structural)]
pub struct Sizing {
    pub quantity: i64,
    pub buy_price: i64,
    pub sell_price: i64,
    pub buy_stop_price: i64,
    pub sell_stop_price: i64,
}

/// Whether a rung can be sized: the size before reduction and the upper
/// stop threshold fit.
pub open spec fn size_fits(balance: i64, base_price: i64, config: SimConfig) -> bool {
    &&& in_range(base_amount_spec(balance as int, base_price as int, config.capital_percent as int))
    &&& in_range(base_price + offset_spec(base_price as int, config.stop_percent as int))
}

/// The size and the thresholds of a rung around `base_price`: the buy and
/// sell thresholds lie `padding_percent` of the base price away from it, the
/// stop thresholds `stop_percent`, and the size is `quantity_spec` with the
/// increment of the order decimals as its minimum.
pub open spec fn size_spec(
    balance: i64,
    base_price: i64,
    resting_buy_count: nat,
    resting_sell_count: nat,
    config: SimConfig,
) -> Sizing {
    let padding_size = offset_spec(base_price as int, config.padding_percent as int);
    let stop_size = offset_spec(base_price as int, config.stop_percent as int);
    Sizing {
        quantity: quantity_spec(
            balance as int,
            base_price as int,
            waited_count_spec(resting_buy_count, resting_sell_count),
            config.capital_percent as int,
            config.risk_deduction as int,
            increment_spec(config.order_decimals as nat),
        ) as i64,
        buy_price: (base_price - padding_size) as i64,
        sell_price: (base_price + padding_size) as i64,
        buy_stop_price: (base_price - stop_size) as i64,
        sell_stop_price: (base_price + stop_size) as i64,
    }
}

/// Sizes one rung of the grid around `base_price`, for the balance and the
/// numbers of orders that rest on each side: see `size_spec`. `None` where
/// the size before reduction or the upper stop threshold does not fit.
///
/// The thresholds lie in order around the base price, and the size is at
/// least the smallest order.
pub fn size(
    balance: i64,
    base_price: i64,
    resting_buy_count: usize,
    resting_sell_count: usize,
    config: &SimConfig,
) -> (r: Option<Sizing>)
    requires
        base_price > 0,
        config.wf(),
    ensures
        r == if size_fits(balance, base_price, *config) {
            Some(
                size_spec(
                    balance,
                    base_price,
                    resting_buy_count as nat,
                    resting_sell_count as nat,
                    *config,
                ),
            )
        } else {
            None
        },
        r matches Some(sizing) ==> {
            &&& sizing.buy_stop_price <= sizing.buy_price <= base_price
            &&& base_price <= sizing.sell_price <= sizing.sell_stop_price
            &&& sizing.quantity >= increment_spec(config.order_decimals as nat)
        },
{
    proof {
        lemma_percent_monotonic(
            base_price as int,
            config.padding_percent as int,
            config.stop_percent as int,
        );
    }
    let quantity = order_quantity(
        balance,
        base_price,
        resting_buy_count,
        resting_sell_count,
        config.capital_percent,
        config.risk_deduction,
        increment(config.order_decimals),
    )?;
    let padding_size = share_of(base_price, config.padding_percent);
    let stop_size = share_of(base_price, config.stop_percent);
    let sell_stop_price = fixed_add(base_price, stop_size)?;
    Some(
        Sizing {
            quantity,
            buy_price: base_price - padding_size,
            sell_price: base_price + padding_size,
            buy_stop_price: base_price - stop_size,
            sell_stop_price,
        },
    )
}

} // verus!
