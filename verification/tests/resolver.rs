use grid_trader::candle::Candle;
use grid_trader::database::Database;
use grid_trader::deal::{Deal, DealError, DealStatus, TieBreak};
use grid_trader::fixed::SCALE;
use grid_trader::simulator::{
    apply_delta, fail_delta, handle_candle, handle_fail_buy, handle_fail_sell, handle_profit,
    is_consistent, open_deal, open_delta, profit_delta, settle_deal, simulate, summarize, BarOutcome, LedgerDelta,
    SimConfig, StepError, Summary, FEE, START_CAPITAL,
};
use grid_trader::trade_state::TradeState;

const ONE: i64 = SCALE;

fn config() -> SimConfig {
    SimConfig::new(ONE, 3 * ONE, 10 * ONE)
}

fn bar(timestamp: i64, open: i64, high: i64, low: i64, close: i64) -> Candle {
    Candle { timestamp, open: open * ONE, high: high * ONE, low: low * ONE, close: close * ONE }
}

fn deal(timestamp: i64, status: DealStatus) -> Deal {
    Deal {
        timestamp,
        status,
        amount: 10 * ONE,
        unfilled_amount: 0,
        base_price: 100 * ONE,
        buy_price: 95 * ONE,
        buy_stop_price: 90 * ONE,
        sell_price: 105 * ONE,
        sell_stop_price: 110 * ONE,
    }
}

fn ledger(timestamp: i64, awaited: i64, stuck: i64) -> TradeState {
    TradeState {
        timestamp,
        trade_capital: 100 * ONE,
        available_capital: 100 * ONE,
        awaited_deals: awaited,
        stuck_deals: stuck,
    }
}

fn store_with(deals: &[Deal], state: TradeState) -> Database {
    let mut database = Database::new();
    for d in deals {
        d.save_to_database(&mut database);
    }
    state.save_to_database(&mut database);
    database
}

fn open_count(database: &Database) -> i64 {
    Deal::get_opened(database).len() as i64
}

#[test]
fn new_deal_lays_thresholds_around_base_price() {
    let d = Deal::new(7, 2 * ONE, 100 * ONE, ONE, 3 * ONE).unwrap();
    assert_eq!(d.timestamp, 7);
    assert_eq!(d.status, DealStatus::Initial);
    assert_eq!(d.amount, 2 * ONE);
    assert_eq!(d.unfilled_amount, 0);
    assert_eq!(d.base_price, 100 * ONE);
    assert_eq!(d.buy_price, 99 * ONE);
    assert_eq!(d.sell_price, 101 * ONE);
    assert_eq!(d.buy_stop_price, 97 * ONE);
    assert_eq!(d.sell_stop_price, 103 * ONE);
}

#[test]
fn new_deal_rejects_padding_that_rounds_to_nothing() {
    assert_eq!(Deal::new(1, ONE, 99, ONE, 3 * ONE), Err(DealError::Degenerate));
    assert_eq!(Deal::new(1, ONE, 100 * ONE, 0, 3 * ONE), Err(DealError::Degenerate));
}

#[test]
fn new_deal_rejects_stop_beyond_range() {
    assert_eq!(Deal::new(1, ONE, i64::MAX, ONE, 3 * ONE), Err(DealError::Overflow));
}

#[test]
fn initial_deal_transitions_by_priority() {
    let d = deal(1, DealStatus::Initial);
    let optimistic = TieBreak::OptimisticProfit;
    // a. the sell stop wins over everything
    assert_eq!(d.next(&bar(2, 100, 111, 80, 100), optimistic), DealStatus::FailSell);
    // b. then the buy stop
    assert_eq!(d.next(&bar(2, 100, 106, 89, 100), optimistic), DealStatus::FailBuy);
    // c. both legs touched
    assert_eq!(d.next(&bar(2, 100, 106, 94, 100), optimistic), DealStatus::Profit);
    assert_eq!(
        d.next(&bar(2, 100, 106, 94, 100), TieBreak::ConservativeSequentialCheck),
        DealStatus::FilledSell
    );
    // d. only the sell leg
    assert_eq!(d.next(&bar(2, 100, 106, 96, 100), optimistic), DealStatus::FilledSell);
    // e. only the buy leg
    assert_eq!(d.next(&bar(2, 100, 104, 94, 100), optimistic), DealStatus::FilledBuy);
    // f. nothing
    assert_eq!(d.next(&bar(2, 100, 104, 96, 100), optimistic), DealStatus::Initial);
}

#[test]
fn thresholds_are_strict() {
    let d = deal(1, DealStatus::Initial);
    let t = TieBreak::OptimisticProfit;
    assert_eq!(d.next(&bar(2, 100, 105, 95, 100), t), DealStatus::Initial);
    assert_eq!(d.next(&bar(2, 100, 110, 90, 100), t), DealStatus::Profit);
}

#[test]
fn stuck_deals_end_or_stay() {
    let t = TieBreak::OptimisticProfit;
    let bought = deal(1, DealStatus::FilledBuy);
    assert_eq!(bought.next(&bar(2, 100, 120, 89, 100), t), DealStatus::FailBuy);
    assert_eq!(bought.next(&bar(2, 100, 106, 91, 100), t), DealStatus::Profit);
    assert_eq!(bought.next(&bar(2, 100, 105, 90, 100), t), DealStatus::FilledBuy);
    let sold = deal(1, DealStatus::FilledSell);
    assert_eq!(sold.next(&bar(2, 100, 111, 80, 100), t), DealStatus::FailSell);
    assert_eq!(sold.next(&bar(2, 100, 109, 94, 100), t), DealStatus::Profit);
    assert_eq!(sold.next(&bar(2, 100, 110, 95, 100), t), DealStatus::FilledSell);
}

#[test]
fn ended_deals_never_move() {
    let cfg = config();
    let ended = [
        deal(1, DealStatus::Profit),
        deal(2, DealStatus::FailBuy),
        deal(3, DealStatus::FailSell),
    ];
    let mut database = store_with(&ended, ledger(3, 0, 0));
    assert_eq!(handle_candle(&mut database, bar(4, 100, 200, 1, 100), &cfg), Ok(BarOutcome::Processed));
    for (index, before) in ended.iter().enumerate() {
        assert_eq!(database.deal_at(index), *before);
        assert!(before.status.is_terminal());
    }
    let state = TradeState::get_last_state(&database);
    assert_eq!(state.trade_capital, 100 * ONE);
    assert_eq!(state.awaited_deals, 1);
    assert!(!DealStatus::Initial.is_terminal());
    assert!(!DealStatus::FilledBuy.is_terminal());
    assert!(DealStatus::FilledSell.is_stuck());
    assert!(!DealStatus::Initial.is_stuck());
}

#[test]
fn profit_resolution_is_capital_conservative() {
    // padding 1, stop 3, fee 0.036, capital 10 percent, amount 10:
    // profit_mul = 2 * (1 - 0.036) / 100 = 0.01928
    // profit = 10 * (1 + 0.01928 * 0.10) = 10.01928, freed = 10 * 1.03 = 10.3
    let cfg = config();
    assert_eq!(cfg.fee_percent, FEE);
    assert_eq!(FEE, 3_600_000);
    let mut d = deal(1, DealStatus::FilledBuy);
    let mut state = ledger(1, 0, 1);
    assert!(handle_profit(&mut d, &mut state, &cfg));
    assert_eq!(d.status, DealStatus::Profit);
    assert_eq!(state.trade_capital, 100 * ONE + 1_001_928_000);
    assert_eq!(state.available_capital, 100 * ONE + 1_030_000_000 + 1_001_928_000);
    assert_eq!(state.awaited_deals, 0);
    assert_eq!(state.stuck_deals, 1);
    assert_eq!(
        profit_delta(10 * ONE, &cfg),
        Some(LedgerDelta { trade_capital: 1_001_928_000, available_capital: 2_031_928_000 })
    );
}

#[test]
fn fail_resolution_writes_the_loss_down() {
    // loss = 10 * 0.03 = 0.3, freed = 10.3
    let cfg = config();
    let mut d = deal(1, DealStatus::FilledBuy);
    let mut state = ledger(1, 0, 1);
    assert!(handle_fail_buy(&mut d, &mut state, &cfg));
    assert_eq!(d.status, DealStatus::FailBuy);
    assert_eq!(state.trade_capital, 100 * ONE - 30_000_000);
    assert_eq!(state.available_capital, 100 * ONE + 1_000_000_000);
    let mut e = deal(1, DealStatus::FilledSell);
    let mut other = ledger(1, 0, 1);
    assert!(handle_fail_sell(&mut e, &mut other, &cfg));
    assert_eq!(e.status, DealStatus::FailSell);
    assert_eq!(other, state);
    assert_eq!(
        fail_delta(10 * ONE, &cfg),
        Some(LedgerDelta { trade_capital: -30_000_000, available_capital: 1_000_000_000 })
    );
    assert_eq!(
        open_delta(10 * ONE, &cfg),
        Some(LedgerDelta { trade_capital: 0, available_capital: -1_030_000_000 })
    );
}

#[test]
fn resolution_that_does_not_fit_changes_nothing() {
    let cfg = config();
    let mut d = deal(1, DealStatus::FilledBuy);
    d.amount = i64::MAX;
    let mut state = ledger(1, 0, 1);
    assert!(!handle_profit(&mut d, &mut state, &cfg));
    assert_eq!(d.status, DealStatus::FilledBuy);
    assert_eq!(state, ledger(1, 0, 1));
    let mut full = ledger(1, 0, 1);
    full.available_capital = i64::MAX;
    let mut small = deal(1, DealStatus::FilledBuy);
    assert!(!handle_profit(&mut small, &mut full, &cfg));
    assert_eq!(full.available_capital, i64::MAX);
    assert_eq!(profit_delta(i64::MAX, &cfg), None);
    assert_eq!(fail_delta(i64::MAX, &cfg), None);
    assert_eq!(open_delta(i64::MAX, &cfg), None);
}

#[test]
fn three_bars_from_one_initial_deal() {
    // thresholds 90 / 95 / 105 / 110; comparisons are strict, so a bar that
    // only reaches a threshold does not cross it
    let cfg = config();
    let mut database = store_with(&[deal(0, DealStatus::Initial)], ledger(0, 1, 0));
    assert_eq!(handle_candle(&mut database, bar(1, 100, 105, 95, 100), &cfg), Ok(BarOutcome::Processed));
    assert_eq!(database.deal_at(0).status, DealStatus::Initial);
    let after_first = TradeState::get_last_state(&database);
    assert_eq!(after_first.timestamp, 1);
    assert_eq!(after_first.awaited_deals, 2);
    assert_eq!(after_first.stuck_deals, 0);
    assert_eq!(database.deal_count(), 2);
    assert_eq!(database.deal_at(1).timestamp, 1);
    assert_eq!(database.deal_at(1).base_price, 100 * ONE);
    assert_eq!(database.deal_at(1).status, DealStatus::Initial);

    assert_eq!(handle_candle(&mut database, bar(2, 100, 102, 90, 100), &cfg), Ok(BarOutcome::Processed));
    assert_eq!(database.deal_at(0).status, DealStatus::FilledBuy);
    // the deal of bar 1 lies at 97 / 99 / 101 / 103: its buy stop is crossed
    assert_eq!(database.deal_at(1).status, DealStatus::FailBuy);
    let after_second = TradeState::get_last_state(&database);
    assert_eq!(after_second.awaited_deals, 1);
    assert_eq!(after_second.stuck_deals, 1);

    assert_eq!(handle_candle(&mut database, bar(3, 100, 108, 96, 100), &cfg), Ok(BarOutcome::Processed));
    assert_eq!(database.deal_at(0).status, DealStatus::Profit);
    let after_third = TradeState::get_last_state(&database);
    assert_eq!(after_third.awaited_deals + after_third.stuck_deals, open_count(&database));
    assert_eq!(database.state_count(), 4);
}

#[test]
fn double_touch_ends_in_profit_and_opens_the_next_deal() {
    let cfg = config();
    let mut database = store_with(&[deal(0, DealStatus::Initial)], ledger(0, 1, 0));
    let outcome = handle_candle(&mut database, bar(1, 100, 106, 94, 100), &cfg);
    assert_eq!(outcome, Ok(BarOutcome::Processed));
    assert_eq!(database.deal_at(0).status, DealStatus::Profit);
    let state = TradeState::get_last_state(&database);
    // the old deal is no longer awaited, the new one is
    assert_eq!(state.awaited_deals, 1);
    assert_eq!(state.stuck_deals, 0);
    assert_eq!(state.timestamp, 1);
    assert_eq!(state.trade_capital, 100 * ONE + 1_001_928_000);
    let opened = database.deal_at(1);
    assert_eq!(opened.timestamp, 1);
    assert_eq!(opened.status, DealStatus::Initial);
    assert_eq!(opened.base_price, 100 * ONE);
    assert_eq!(opened.buy_price, 99 * ONE);
    assert_eq!(opened.sell_price, 101 * ONE);
    assert_eq!(opened.buy_stop_price, 97 * ONE);
    assert_eq!(opened.sell_stop_price, 103 * ONE);
    // available after the profit: 100 + 10.3 + 10.01928 = 120.31928;
    // a tenth of it, converted at 100 and back, is the new notional amount
    let available = 100 * ONE + 1_030_000_000 + 1_001_928_000;
    assert_eq!(opened.amount, 1_203_192_800);
    // the capital that backs the new deal leaves the available capital
    assert_eq!(state.available_capital, available - 1_239_288_584);
}

#[test]
fn conservative_tie_break_waits_for_the_second_leg() {
    let mut cfg = config();
    cfg.tie_break = TieBreak::ConservativeSequentialCheck;
    let mut database = store_with(&[deal(0, DealStatus::Initial)], ledger(0, 1, 0));
    assert_eq!(handle_candle(&mut database, bar(1, 100, 106, 94, 100), &cfg), Ok(BarOutcome::Processed));
    assert_eq!(database.deal_at(0).status, DealStatus::FilledSell);
    let state = TradeState::get_last_state(&database);
    assert_eq!(state.awaited_deals, 1);
    assert_eq!(state.stuck_deals, 1);
    assert_eq!(state.trade_capital, 100 * ONE);
}

#[test]
fn resolving_a_bar_twice_changes_nothing() {
    let cfg = config();
    let mut database = store_with(&[deal(0, DealStatus::Initial)], ledger(0, 1, 0));
    let candle = bar(1, 100, 106, 96, 101);
    assert_eq!(handle_candle(&mut database, candle, &cfg), Ok(BarOutcome::Processed));
    let deals: Vec<Deal> = (0..database.deal_count()).map(|i| database.deal_at(i)).collect();
    let states: Vec<TradeState> =
        (0..database.state_count()).map(|i| database.state_at(i)).collect();
    assert_eq!(handle_candle(&mut database, candle, &cfg), Ok(BarOutcome::Skipped));
    let deals_again: Vec<Deal> = (0..database.deal_count()).map(|i| database.deal_at(i)).collect();
    let states_again: Vec<TradeState> =
        (0..database.state_count()).map(|i| database.state_at(i)).collect();
    assert_eq!(deals, deals_again);
    assert_eq!(states, states_again);
    // a bar older than the ledger is skipped too
    assert_eq!(handle_candle(&mut database, bar(0, 100, 200, 1, 100), &cfg), Ok(BarOutcome::Skipped));
    assert_eq!(database.deal_count(), 2);
}

#[test]
fn first_bar_shares_the_timestamp_of_the_first_state() {
    let cfg = config();
    let mut database = Database::new();
    TradeState::initiate(&mut database, 100 * ONE, 5);
    assert_eq!(handle_candle(&mut database, bar(5, 100, 101, 99, 100), &cfg), Ok(BarOutcome::Processed));
    assert_eq!(database.state_count(), 1);
    assert_eq!(database.deal_count(), 1);
    assert_eq!(TradeState::get_last_state(&database).awaited_deals, 1);
}

#[test]
fn invalid_bar_is_rejected() {
    let cfg = config();
    let mut database = store_with(&[], ledger(0, 0, 0));
    let upside_down = bar(1, 100, 90, 110, 100);
    assert_eq!(handle_candle(&mut database, upside_down, &cfg), Err(StepError::InvalidBar));
    let free = Candle { timestamp: 1, open: 0, high: 0, low: 0, close: 0 };
    assert_eq!(handle_candle(&mut database, free, &cfg), Err(StepError::InvalidBar));
    assert_eq!(database.deal_count(), 0);
    assert_eq!(database.state_count(), 1);
}

#[test]
fn degenerate_padding_is_rejected() {
    let cfg = config();
    let mut database = store_with(&[], ledger(0, 0, 0));
    let tiny = Candle { timestamp: 1, open: 50, high: 50, low: 50, close: 50 };
    assert_eq!(handle_candle(&mut database, tiny, &cfg), Err(StepError::Degenerate));
    assert_eq!(database.deal_count(), 0);
}

#[test]
fn overflow_is_rejected_and_leaves_the_store() {
    let cfg = config();
    let mut huge = deal(0, DealStatus::FilledBuy);
    huge.amount = i64::MAX;
    let mut database = store_with(&[huge], ledger(0, 0, 1));
    assert_eq!(handle_candle(&mut database, bar(1, 100, 106, 96, 100), &cfg), Err(StepError::Overflow));
    assert_eq!(database.deal_at(0), huge);
    assert_eq!(database.state_count(), 1);
    assert_eq!(database.deal_count(), 1);
}

#[test]
fn counters_match_open_deals_after_every_bar() {
    let cfg = SimConfig { risk_deduction: ONE / 2, order_decimals: 3, ..config() };
    let mut database = Database::new();
    TradeState::initiate(&mut database, 100 * ONE, 0);
    let closes = [100, 101, 99, 104, 96, 100, 108, 92, 100, 100, 103, 97];
    for (i, close) in closes.iter().enumerate() {
        let candle = bar(i as i64, *close, close + 2, close - 2, *close);
        assert_eq!(handle_candle(&mut database, candle, &cfg), Ok(BarOutcome::Processed));
        assert!(is_consistent(&database));
        let state = TradeState::get_last_state(&database);
        assert!(state.awaited_deals >= 0 && state.stuck_deals >= 0);
        assert_eq!(state.awaited_deals + state.stuck_deals, open_count(&database));
        for k in 0..database.deal_count() {
            let d = database.deal_at(k);
            assert!(d.buy_stop_price <= d.buy_price);
            assert!(d.buy_price < d.base_price);
            assert!(d.base_price < d.sell_price);
            assert!(d.sell_price <= d.sell_stop_price);
        }
    }
    assert_eq!(database.deal_count(), closes.len());
}

#[test]
fn replay_runs_over_the_stored_bars() {
    let cfg = config();
    let mut database = Database::new();
    Candle::upsert_candles(
        &mut database,
        vec![bar(30, 100, 103, 99, 102), bar(10, 100, 101, 99, 100), bar(20, 100, 102, 98, 101)],
    );
    // what is left from an earlier run is discarded
    deal(99, DealStatus::Initial).save_to_database(&mut database);
    ledger(99, 1, 0).save_to_database(&mut database);
    let last = simulate(&mut database, &cfg).unwrap();
    assert_eq!(last.timestamp, 30);
    assert_eq!(database.state_count(), 3);
    assert_eq!(database.state_at(0).timestamp, 10);
    assert_eq!(database.deal_count(), 3);
    assert_eq!(last.awaited_deals + last.stuck_deals, open_count(&database));
    assert_eq!(database.deal_at(0).base_price, 100 * ONE);
    assert_eq!(database.deal_at(0).amount, START_CAPITAL / 10);
    assert_eq!(last, TradeState::get_last_state(&database));
}

#[test]
fn replay_stops_at_the_first_error() {
    let cfg = config();
    let mut database = Database::new();
    Candle::upsert_candles(
        &mut database,
        vec![bar(10, 100, 101, 99, 100), bar(20, 100, 90, 110, 100), bar(30, 100, 101, 99, 100)],
    );
    assert_eq!(simulate(&mut database, &cfg), Err(StepError::InvalidBar));
    assert_eq!(database.deal_count(), 1);
    assert_eq!(TradeState::get_last_state(&database).timestamp, 10);
}

#[test]
fn config_validity() {
    assert!(config().is_wf());
    assert!(!SimConfig::new(3 * ONE, ONE, 10 * ONE).is_wf());
    assert!(!SimConfig::new(ONE, 3 * ONE, 100 * ONE).is_wf());
    assert!(!SimConfig::new(-ONE, 3 * ONE, 10 * ONE).is_wf());
    assert!(!SimConfig { risk_deduction: -1, ..config() }.is_wf());
}

#[test]
fn settling_a_deal_moves_the_counters() {
    let cfg = config();
    let state = ledger(1, 1, 0);
    // rule e: the buy leg is filled, the deal is stuck
    let (after, moved) =
        settle_deal(state, deal(1, DealStatus::Initial), &bar(2, 100, 104, 94, 100), &cfg).unwrap();
    assert_eq!(moved.status, DealStatus::FilledBuy);
    assert_eq!((after.awaited_deals, after.stuck_deals), (0, 1));
    assert_eq!(after.trade_capital, state.trade_capital);
    // a stuck deal that is stopped out
    let (stopped, failed) =
        settle_deal(after, moved, &bar(3, 100, 100, 89, 100), &cfg).unwrap();
    assert_eq!(failed.status, DealStatus::FailBuy);
    assert_eq!((stopped.awaited_deals, stopped.stuck_deals), (0, 0));
    assert_eq!(stopped.trade_capital, state.trade_capital - 30_000_000);
    // a deal that stays leaves the ledger
    let same = settle_deal(state, deal(1, DealStatus::Initial), &bar(2, 100, 104, 96, 100), &cfg);
    assert_eq!(same, Some((state, deal(1, DealStatus::Initial))));
    // counters that would leave the range
    let mut edge = ledger(1, i64::MIN, 0);
    edge.awaited_deals = i64::MIN;
    assert_eq!(settle_deal(edge, deal(1, DealStatus::Initial), &bar(2, 100, 104, 94, 100), &cfg), None);
}

#[test]
fn opening_a_deal_sizes_it_for_the_resting_orders() {
    let cfg = SimConfig { risk_deduction: ONE / 2, order_decimals: 2, ..config() };
    let state = ledger(1, 0, 4);
    let candle = bar(9, 100, 100, 100, 100);
    let (opened, first) = open_deal(state, 0, 0, &candle, &cfg).unwrap();
    // (100 * 0.1) / 100 = 0.1 units, worth 10
    assert_eq!(first.amount, 10 * ONE);
    assert_eq!(opened.timestamp, 9);
    assert_eq!(opened.awaited_deals, 1);
    assert_eq!(opened.stuck_deals, 4);
    assert_eq!(opened.available_capital, 100 * ONE - 1_030_000_000);
    assert_eq!(opened.trade_capital, 100 * ONE);
    // four resting buy orders: two reductions by 0.9
    let (_, reduced) = open_deal(state, 4, 2, &candle, &cfg).unwrap();
    assert_eq!(reduced.amount, 810_000_000);
    // the smallest order: 0.01 units, worth 1
    let (_, smallest) = open_deal(state, 4000, 0, &candle, &cfg).unwrap();
    assert_eq!(smallest.amount, ONE);
    let full = TradeState { awaited_deals: i64::MAX, ..state };
    assert_eq!(open_deal(full, 0, 0, &candle, &cfg), Err(StepError::Overflow));
}

#[test]
fn delta_is_added_to_both_capitals() {
    let state = ledger(1, 2, 3);
    let delta = LedgerDelta { trade_capital: -5, available_capital: 7 };
    let after = apply_delta(&state, &delta).unwrap();
    assert_eq!(after.trade_capital, state.trade_capital - 5);
    assert_eq!(after.available_capital, state.available_capital + 7);
    assert_eq!((after.timestamp, after.awaited_deals, after.stuck_deals), (1, 2, 3));
    let top = TradeState { trade_capital: i64::MAX, ..state };
    assert_eq!(apply_delta(&top, &LedgerDelta { trade_capital: 1, available_capital: 0 }), None);
}

#[test]
fn summary_counts_how_deals_ended() {
    let mut database = store_with(
        &[
            deal(1, DealStatus::Profit),
            deal(2, DealStatus::FailBuy),
            deal(3, DealStatus::Initial),
            deal(4, DealStatus::Profit),
            deal(5, DealStatus::FilledSell),
            deal(6, DealStatus::FailSell),
        ],
        ledger(1, 3, 0),
    );
    ledger(2, 5, 1).save_to_database(&mut database);
    ledger(3, 1, 4).save_to_database(&mut database);
    assert_eq!(
        summarize(&database),
        Summary { states: 3, profits: 2, fails: 2, open: 2, max_awaited: 5, max_stuck: 4 }
    );
    assert_eq!(
        summarize(&Database::new()),
        Summary { states: 0, profits: 0, fails: 0, open: 0, max_awaited: 0, max_stuck: 0 }
    );
}

#[test]
fn ledger_that_disagrees_with_the_deals_is_found() {
    assert!(!is_consistent(&Database::new()));
    let open = [deal(1, DealStatus::Initial), deal(2, DealStatus::FilledBuy), deal(3, DealStatus::Profit)];
    assert!(is_consistent(&store_with(&open, ledger(3, 1, 1))));
    assert!(!is_consistent(&store_with(&open, ledger(3, 2, 1))));
    assert!(!is_consistent(&store_with(&open, ledger(3, 1, 0))));
    let mut crossed = deal(4, DealStatus::Profit);
    crossed.buy_price = crossed.base_price;
    let mut database = store_with(&open, ledger(3, 1, 1));
    crossed.save_to_database(&mut database);
    assert!(!is_consistent(&database));
    // after a replay the ledger agrees
    let mut replayed = Database::new();
    Candle::upsert_candles(&mut replayed, vec![bar(1, 100, 101, 99, 100), bar(2, 100, 103, 97, 101)]);
    simulate(&mut replayed, &config()).unwrap();
    assert!(is_consistent(&replayed));
}

#[test]
fn new_deal_takes_a_stop_wider_than_the_price() {
    // a stop of 250 percent: the lower stop lies below zero
    let d = Deal::new(1, ONE, 100 * ONE, 150 * ONE, 250 * ONE).unwrap();
    assert_eq!(d.buy_price, -50 * ONE);
    assert_eq!(d.sell_price, 250 * ONE);
    assert_eq!(d.buy_stop_price, -150 * ONE);
    assert_eq!(d.sell_stop_price, 350 * ONE);
    assert!(d.buy_stop_price <= d.buy_price && d.buy_price < d.base_price);
    assert!(d.base_price < d.sell_price && d.sell_price <= d.sell_stop_price);
    // a stop so wide that its size alone does not fit
    assert_eq!(Deal::new(1, ONE, i64::MAX / 2, ONE, i64::MAX), Err(DealError::Overflow));
    // the padding is looked at first
    assert_eq!(Deal::new(1, ONE, 5, ONE, i64::MAX), Err(DealError::Degenerate));
}
