use grid_trader::candle::Candle;
use grid_trader::collision::{run_simulation, RestingOrder, Simulator};
use grid_trader::fixed::SCALE;
use grid_trader::simulator::START_CAPITAL;
use grid_trader::stock::Side;
use grid_trader::trader::Trader;

const ONE: i64 = SCALE;

fn trader() -> Trader {
    Trader::new("BTCUSDT".to_string(), ONE, 3 * ONE, 10 * ONE, 60, ONE / 2, 2, 1, 0)
}

fn bar(timestamp: i64, open: i64, high: i64, low: i64) -> Candle {
    Candle { timestamp, open: open * ONE, high: high * ONE, low: low * ONE, close: open * ONE }
}

fn buy(timestamp: i64, price: i64) -> RestingOrder {
    RestingOrder { timestamp, side: Side::Buy, price: price * ONE, qty: ONE }
}

fn sell(timestamp: i64, price: i64) -> RestingOrder {
    RestingOrder { timestamp, side: Side::Sell, price: price * ONE, qty: ONE }
}

#[test]
fn simulator_starts_at_the_day_named() {
    let simulator = Simulator::new(trader(), "2024-01-01").unwrap();
    assert_eq!(simulator.simulate_from_ms, 1_704_067_200_000);
    assert_eq!(simulator.capital, START_CAPITAL);
    assert!(simulator.buy_orders.is_empty() && simulator.sell_orders.is_empty());
    assert_eq!(Simulator::new(trader(), "1970-01-02").unwrap().simulate_from_ms, 86_400_000);
}

#[test]
fn simulator_rejects_what_is_no_day() {
    assert!(Simulator::new(trader(), "2024-13-01").is_none());
    assert!(Simulator::new(trader(), "yesterday").is_none());
    assert!(Simulator::new(trader(), "").is_none());
}

#[test]
fn stale_buy_order_is_dropped_not_filled() {
    let mut simulator = Simulator::starting_at(trader(), 0);
    simulator.buy_orders.push(buy(1, 50));
    simulator.handle_collision(&bar(2, 100, 110, 90));
    assert!(simulator.buy_orders.is_empty());
    assert_eq!(simulator.drop_count, 1);
    assert_eq!(simulator.fill_count, 0);
}

#[test]
fn buy_order_at_exactly_half_the_high_rests() {
    let mut simulator = Simulator::starting_at(trader(), 0);
    simulator.buy_orders.push(buy(1, 55));
    simulator.handle_collision(&bar(2, 100, 110, 90));
    assert_eq!(simulator.buy_orders, vec![buy(1, 55)]);
    assert_eq!(simulator.drop_count, 0);
    assert_eq!(simulator.fill_count, 0);
}

#[test]
fn stale_drop_does_not_depend_on_the_low() {
    // the bar's low is below the order's price too: the order is still
    // dropped, and not counted as filled
    let mut simulator = Simulator::starting_at(trader(), 0);
    simulator.buy_orders.push(buy(1, 50));
    simulator.handle_collision(&bar(2, 100, 110, 49));
    assert!(simulator.buy_orders.is_empty());
    assert_eq!(simulator.drop_count, 1);
    assert_eq!(simulator.fill_count, 0);
}

#[test]
fn buy_order_below_the_low_is_filled_when_it_is_not_stale() {
    let mut simulator = Simulator::starting_at(trader(), 0);
    simulator.buy_orders.push(buy(1, 50));
    simulator.handle_collision(&bar(2, 60, 100, 49));
    assert!(simulator.buy_orders.is_empty());
    assert_eq!(simulator.drop_count, 0);
    assert_eq!(simulator.fill_count, 1);
}

#[test]
fn stale_and_filled_orders_are_counted_apart() {
    let mut simulator = Simulator::starting_at(trader(), 0);
    simulator.buy_orders = vec![buy(1, 50), buy(2, 54), buy(3, 60), buy(4, 55), buy(5, 56)];
    // high 110, low 58: 50 and 54 are stale, 60 is filled, 55 and 56 rest
    simulator.handle_collision(&bar(6, 100, 110, 58));
    assert_eq!(simulator.buy_orders, vec![buy(4, 55), buy(5, 56)]);
    assert_eq!(simulator.drop_count, 2);
    assert_eq!(simulator.fill_count, 1);
}

#[test]
fn orders_that_the_bar_reaches_are_filled() {
    let mut simulator = Simulator::starting_at(trader(), 0);
    simulator.sell_orders = vec![sell(1, 101), sell(2, 105), sell(3, 103)];
    simulator.buy_orders = vec![buy(1, 99), buy(2, 95), buy(3, 97)];
    // sorted by timestamp already; the bar spans 96 to 104
    simulator.handle_collision(&bar(4, 100, 104, 96));
    assert_eq!(simulator.sell_orders, vec![sell(2, 105)]);
    assert_eq!(simulator.buy_orders, vec![buy(2, 95)]);
    assert_eq!(simulator.fill_count, 4);
    assert_eq!(simulator.drop_count, 0);
    // thresholds are strict
    simulator.handle_collision(&bar(5, 100, 105, 95));
    assert_eq!(simulator.sell_orders.len(), 1);
    assert_eq!(simulator.buy_orders.len(), 1);
}

#[test]
fn each_bar_adds_one_pair_sized_for_the_orders_before_it() {
    let mut simulator = Simulator::starting_at(trader(), 0);
    simulator.step(&bar(1, 100, 100, 100));
    // capital 100, 10 percent, at 100: 0.1; padding 1 percent
    assert_eq!(simulator.sell_orders, vec![RestingOrder {
        timestamp: 1,
        side: Side::Sell,
        price: 101 * ONE,
        qty: ONE / 10,
    }]);
    assert_eq!(simulator.buy_orders, vec![RestingOrder {
        timestamp: 1,
        side: Side::Buy,
        price: 99 * ONE,
        qty: ONE / 10,
    }]);
    simulator.step(&bar(2, 100, 100, 100));
    // one order rested on each side: trunc(1 * 0.5) = 0 reductions
    assert_eq!(simulator.buy_orders[1].qty, ONE / 10);
    simulator.step(&bar(3, 100, 100, 100));
    // two rested: one reduction by 0.9
    assert_eq!(simulator.buy_orders[2].qty, 9_000_000);
    // this bar fills all three sell orders, but sizes for the three that rested
    simulator.step(&bar(4, 100, 102, 100));
    assert_eq!(simulator.sell_orders.len(), 1);
    assert_eq!(simulator.buy_orders.len(), 4);
    assert_eq!(simulator.buy_orders[3].qty, 9_000_000);
    assert_eq!(simulator.fill_count, 3);
    assert_eq!(simulator.max_stuck, 6);
    assert_eq!(simulator.max_stuck_buy, 4);
    assert_eq!(simulator.max_stuck_sell, 3);
}

#[test]
fn run_replays_bars_in_order_and_counts() {
    let mut simulator = Simulator::starting_at(trader(), 0);
    let candles = vec![
        bar(1, 100, 100, 100),
        bar(2, 100, 100, 100),
        bar(3, 100, 300, 100),
        bar(4, 100, 100, 100),
    ];
    simulator.run(&candles);
    // bar 3 fills both sell orders and drops both buy orders (99 * 2 < 300)
    assert_eq!(simulator.fill_count, 2);
    assert_eq!(simulator.drop_count, 2);
    assert_eq!(simulator.sell_orders.len(), 2);
    assert_eq!(simulator.buy_orders.len(), 2);
    assert_eq!(simulator.max_stuck, 4);
    assert_eq!(simulator.max_stuck_buy, 2);
    assert_eq!(simulator.max_stuck_sell, 2);
    let mut by_steps = Simulator::starting_at(trader(), 0);
    for candle in &candles {
        by_steps.step(candle);
    }
    assert_eq!(by_steps.buy_orders, simulator.buy_orders);
    assert_eq!(by_steps.sell_orders, simulator.sell_orders);
}

#[test]
fn same_timestamp_replaces_the_pair() {
    let mut simulator = Simulator::starting_at(trader(), 0);
    assert!(simulator.create_orders(&bar(7, 100, 100, 100), 0, 0));
    assert!(simulator.create_orders(&bar(7, 200, 200, 200), 0, 0));
    assert_eq!(simulator.buy_orders.len(), 1);
    assert_eq!(simulator.buy_orders[0].price, 198 * ONE);
    assert!(simulator.create_orders(&bar(3, 100, 100, 100), 0, 0));
    assert_eq!(simulator.buy_orders[0].timestamp, 3);
    assert_eq!(simulator.buy_orders[1].timestamp, 7);
}

#[test]
fn no_pair_where_the_open_is_not_positive() {
    let mut simulator = Simulator::starting_at(trader(), 0);
    let free = Candle { timestamp: 1, open: 0, high: 0, low: 0, close: 0 };
    assert!(!simulator.create_orders(&free, 0, 0));
    assert!(simulator.buy_orders.is_empty());
    let huge = Candle { timestamp: 1, open: i64::MAX, high: i64::MAX, low: 1, close: 1 };
    assert!(!simulator.create_orders(&huge, 0, 0));
    assert!(simulator.sell_orders.is_empty());
}

#[test]
fn replay_takes_the_bars_from_its_start_on() {
    let simulator = Simulator::starting_at(trader(), 20);
    let history = vec![bar(10, 1, 1, 1), bar(20, 2, 2, 2), bar(30, 3, 3, 3)];
    assert_eq!(simulator.get_candles(&history), vec![bar(20, 2, 2, 2), bar(30, 3, 3, 3)]);
}

#[test]
fn simulation_runs_from_the_day_named() {
    let day = 86_400_000;
    let history = vec![
        bar(day - 1, 100, 100, 100),
        bar(day, 100, 100, 100),
        bar(day + 1, 100, 100, 100),
    ];
    let simulator = run_simulation(trader(), "1970-01-02", &history).unwrap();
    assert_eq!(simulator.simulate_from_ms, day);
    assert_eq!(simulator.buy_orders.len(), 2);
    assert_eq!(simulator.sell_orders.len(), 2);
    assert_eq!(simulator.buy_orders[0].timestamp, day);
    assert_eq!(simulator.max_stuck, 4);
    assert!(simulator.room_for(10));
    assert!(!simulator.room_for(usize::MAX));
    assert!(run_simulation(trader(), "1970-02-30", &history).is_none());
    let invalid = Trader::new("X".to_string(), -ONE, 3 * ONE, 10 * ONE, 60, 0, 2, 1, 0);
    assert!(run_simulation(invalid, "1970-01-02", &history).is_none());
}
