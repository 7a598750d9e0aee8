use grid_trader::fixed::{decay, fixed_div, fixed_mul, increment, percent_of, HUNDRED, SCALE};
use grid_trader::deal::TieBreak;
use grid_trader::simulator::SimConfig;
use grid_trader::sizing::{order_quantity, size, Sizing};

const ONE: i64 = SCALE;

#[test]
fn quantity_without_resting_orders_is_base_amount() {
    // balance 1000, price 100, 10 percent: (1000 * 0.1) / 100 = 1.0
    let qty = order_quantity(1000 * ONE, 100 * ONE, 0, 0, 10 * ONE, ONE / 2, increment(2));
    assert_eq!(qty, Some(ONE));
}

#[test]
fn quantity_with_four_resting_orders_decays_twice() {
    // trunc(4 * 0.5) = 2 reductions by 0.9: 1.0 * 0.81
    let qty = order_quantity(1000 * ONE, 100 * ONE, 4, 1, 10 * ONE, ONE / 2, increment(2));
    assert_eq!(qty, Some(81_000_000));
    let other_side = order_quantity(1000 * ONE, 100 * ONE, 0, 4, 10 * ONE, ONE / 2, increment(2));
    assert_eq!(other_side, Some(81_000_000));
}

#[test]
fn partial_risk_deduction_does_not_reduce() {
    // trunc(1 * 0.5) = 0 and trunc(3 * 0.5) = 1
    let one = order_quantity(1000 * ONE, 100 * ONE, 1, 0, 10 * ONE, ONE / 2, increment(2));
    assert_eq!(one, Some(ONE));
    let three = order_quantity(1000 * ONE, 100 * ONE, 3, 0, 10 * ONE, ONE / 2, increment(2));
    assert_eq!(three, Some(90_000_000));
}

#[test]
fn quantity_never_falls_below_minimum() {
    let minimum = increment(2);
    assert_eq!(minimum, 1_000_000);
    let qty = order_quantity(1000 * ONE, 100 * ONE, 400, 0, 10 * ONE, ONE, minimum);
    assert_eq!(qty, Some(minimum));
    let broke = order_quantity(-5 * ONE, 100 * ONE, 0, 0, 10 * ONE, ONE, minimum);
    assert_eq!(broke, Some(minimum));
}

#[test]
fn quantity_is_monotone_in_waited_count() {
    let mut last = i64::MAX;
    for waited in 0..60usize {
        let qty =
            order_quantity(1000 * ONE, 100 * ONE, waited, 0, 10 * ONE, ONE / 2, increment(4))
                .unwrap();
        assert!(qty <= last);
        assert!(qty >= increment(4));
        last = qty;
    }
}

#[test]
fn quantity_overflow_is_reported() {
    // a huge balance at the smallest price does not fit
    assert_eq!(order_quantity(i64::MAX, 1, 0, 0, 99 * ONE, 0, 0), None);
}

#[test]
fn increment_of_decimals() {
    assert_eq!(increment(0), SCALE);
    assert_eq!(increment(1), 10_000_000);
    assert_eq!(increment(8), 1);
    assert_eq!(increment(9), 0);
    assert_eq!(increment(usize::MAX), 0);
}

#[test]
fn fixed_point_operations() {
    assert_eq!(fixed_mul(3 * ONE, ONE / 2), Some(150_000_000));
    assert_eq!(fixed_mul(-3 * ONE, ONE / 2), Some(-150_000_000));
    assert_eq!(fixed_mul(1, 1), Some(0));
    assert_eq!(fixed_mul(-1, 1), Some(0));
    assert_eq!(fixed_mul(i64::MAX, 2 * ONE), None);
    assert_eq!(fixed_div(ONE, 3 * ONE), Some(33_333_333));
    assert_eq!(fixed_div(-ONE, 3 * ONE), Some(-33_333_333));
    assert_eq!(fixed_div(i64::MAX, 1), None);
    assert_eq!(percent_of(200 * ONE, 3 * ONE), Some(6 * ONE));
    assert_eq!(percent_of(ONE, HUNDRED), Some(ONE));
}

#[test]
fn decay_rounds_toward_zero_each_step() {
    assert_eq!(decay(ONE, 90_000_000, 0), ONE);
    assert_eq!(decay(ONE, 90_000_000, 2), 81_000_000);
    assert_eq!(decay(7, 50_000_000, 1), 3);
    assert_eq!(decay(7, 50_000_000, 2), 1);
    assert_eq!(decay(7, 50_000_000, 3), 0);
    assert_eq!(decay(7, 50_000_000, u128::MAX), 0);
    assert_eq!(decay(7, SCALE, u128::MAX), 7);
    assert_eq!(decay(-7, 50_000_000, 1), -3);
}

fn strategy() -> SimConfig {
    SimConfig {
        padding_percent: ONE,
        stop_percent: 3 * ONE,
        capital_percent: 10 * ONE,
        fee_percent: 3_600_000,
        risk_deduction: ONE / 2,
        order_decimals: 2,
        tie_break: TieBreak::OptimisticProfit,
    }
}

#[test]
fn size_gives_quantity_and_thresholds() {
    let sizing = size(1000 * ONE, 100 * ONE, 0, 0, &strategy());
    assert_eq!(
        sizing,
        Some(Sizing {
            quantity: ONE,
            buy_price: 99 * ONE,
            sell_price: 101 * ONE,
            buy_stop_price: 97 * ONE,
            sell_stop_price: 103 * ONE,
        })
    );
    let waited = size(1000 * ONE, 100 * ONE, 2, 4, &strategy()).unwrap();
    assert_eq!(waited.quantity, 81_000_000);
    assert_eq!(waited.buy_price, 99 * ONE);
    // padding of half a percent of 250.50
    let odd = size(1000 * ONE, 25_050_000_000, 0, 0, &SimConfig { padding_percent: ONE / 2, ..strategy() })
        .unwrap();
    assert_eq!(odd.buy_price, 25_050_000_000 - 125_250_000);
    assert_eq!(odd.sell_price, 25_050_000_000 + 125_250_000);
    assert_eq!(odd.buy_stop_price, 25_050_000_000 - 751_500_000);
    assert_eq!(odd.sell_stop_price, 25_050_000_000 + 751_500_000);
}

#[test]
fn size_that_does_not_fit_is_reported() {
    assert_eq!(size(1000 * ONE, i64::MAX, 0, 0, &strategy()), None);
    assert_eq!(size(i64::MAX, 1, 0, 0, &strategy()), None);
}
