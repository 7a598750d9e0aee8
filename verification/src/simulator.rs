//! The resolver: what one bar does to the open deals and to the ledger, and
//! the replay of a whole history of bars.
//!
//! A bar is resolved in a fixed order. Every deal is held against the bar's
//! high and low, in ascending order of timestamp, and moves as
//! `deal::next_status` says; a deal that ends changes the capital of the
//! ledger. Then one new deal is opened around the bar's close, sized from
//! the available capital and from the orders that still rest, and the capital
//! that backs it is taken out of the available capital. Last, the ledger
//! state is written under the bar's timestamp.
//!
//! A bar whose timestamp already has a deal, or lies before the latest
//! ledger state, has been resolved before: it changes nothing.
use vstd::prelude::*;
use crate::candle::{latest_spec, Candle};
use crate::count::{count_where, indicator, lemma_count_bound, lemma_count_push};
use crate::count::lemma_count_take_next;
use crate::database::{Database, Tables};
use crate::deal::{is_awaited, is_open, is_stuck, next_status, offset_spec, Deal, DealStatus};
use crate::deal::TieBreak;
use crate::fixed::{fixed_add, fixed_mul, fixed_sub, in_range};
use crate::fixed::{lemma_percent_bounds, lemma_percent_monotonic, lemma_trunc_div_monotonic};
use crate::fixed::{mul_spec, percent_spec, HUNDRED, SCALE};
use crate::sizing::{size, size_fits, size_spec};
use crate::table::{has_key, lemma_upsert_count, lemma_upsert_last, lemma_upsert_members};
use crate::table::{lemma_upsert_sorted, rank, sorted, upsert_spec, Keyed};
use crate::trade_state::TradeState;

verus! {

/// The exchange's fee for one fill, in percent.
pub const FEE: i64 = 3_600_000;

/// The capital that a replay starts with.
pub const START_CAPITAL: i64 = 10_000_000_000;

/// The number of bars that a replay covers at most.
pub const REPLAY_LIMIT: i32 = 100_000;

/// The parameters of the strategy. The percentages and the risk deduction
/// are fixed-point values.
#[derive(Clone, Copy, Debug, PartialEq, Eq, Structural)]
pub struct SimConfig {
    /// How far the buy and sell thresholds lie from the base price.
    pub padding_percent: i64,
    /// How far the stop thresholds lie from the base price.
    pub stop_percent: i64,
    /// The share of the available capital that one deal takes.
    pub capital_percent: i64,
    /// The fee for one fill.
    pub fee_percent: i64,
    /// How many size reductions one resting order causes.
    pub risk_deduction: i64,
    /// The number of decimal places of an order's size.
    pub order_decimals: usize,
    /// What happens to a deal both of whose legs one bar touches.
    pub tie_break: TieBreak,
}

/// Why a bar could not be resolved. The store is then as it was.
#[derive(Clone, Copy, Debug, PartialEq, Eq, Structural)]
pub enum StepError {
    /// The bar's prices are not positive or not in order.
    InvalidBar,
    /// An amount does not fit in the fixed-point range.
    Overflow,
    /// The padding of the new deal rounds to nothing.
    Degenerate,
}

/// What resolving a bar did.
#[derive(Clone, Copy, Debug, PartialEq, Eq, Structural)]
pub enum BarOutcome {
    /// The bar was resolved and the store holds its deal and ledger state.
    Processed,
    /// The bar had been resolved before; nothing changed.
    Skipped,
}

/// A change of the two capital amounts of the ledger.
#[derive(Clone, Copy, Debug, PartialEq, Eq, Structural)]
pub struct LedgerDelta {
    pub trade_capital: i64,
    pub available_capital: i64,
}

impl SimConfig {
    /// The percentages lie between zero and one hundred, the stop is at
    /// least as wide as the padding, the capital share is below one hundred
    /// percent and the risk deduction is not negative.
    pub open spec fn wf(self) -> bool {
        &&& 0 <= self.padding_percent <= self.stop_percent <= HUNDRED
        &&& 0 <= self.capital_percent < HUNDRED
        &&& 0 <= self.fee_percent <= HUNDRED
        &&& 0 <= self.risk_deduction
    }

    /// Whether the parameters are well formed.
    pub fn is_wf(&self) -> (r: bool)
        ensures
            r == self.wf(),
    {
        0 <= self.padding_percent && self.padding_percent <= self.stop_percent && self.stop_percent
            <= HUNDRED && 0 <= self.capital_percent && self.capital_percent < HUNDRED && 0
            <= self.fee_percent && self.fee_percent <= HUNDRED && 0 <= self.risk_deduction
    }

    /// The parameters of a replay: the three percentages as given, the
    /// exchange's fee, no size reduction, sizes to eight decimal places, and
    /// a double touch taken as a profit.
    pub fn new(padding_percent: i64, stop_percent: i64, capital_percent: i64) -> (r: SimConfig)
        ensures
            r == (SimConfig {
                padding_percent,
                stop_percent,
                capital_percent,
                fee_percent: FEE,
                risk_deduction: 0,
                order_decimals: 8,
                tie_break: TieBreak::OptimisticProfit,
            }),
    {
        SimConfig {
            padding_percent,
            stop_percent,
            capital_percent,
            fee_percent: FEE,
            risk_deduction: 0,
            order_decimals: 8,
            tie_break: TieBreak::OptimisticProfit,
        }
    }
}

/// `capital_percent / 100`.
pub open spec fn capital_mul_spec(config: SimConfig) -> int {
    percent_spec(SCALE as int, config.capital_percent as int)
}

/// `stop_percent / 100`.
pub open spec fn stop_mul_spec(config: SimConfig) -> int {
    percent_spec(SCALE as int, config.stop_percent as int)
}

/// `2 * (padding_percent - fee_percent) / 100`: the gain of a deal both of
/// whose legs were filled, after the fee of each.
pub open spec fn profit_mul_spec(config: SimConfig) -> int {
    2 * percent_spec(SCALE as int, config.padding_percent - config.fee_percent)
}

/// `amount * (1 + profit_mul * capital_mul)`: what a deal that ends in
/// profit adds to the realized capital.
pub open spec fn profit_spec(amount: int, config: SimConfig) -> int {
    mul_spec(amount, SCALE + mul_spec(profit_mul_spec(config), capital_mul_spec(config)))
}

/// `amount * (1 + stop_mul)`: the capital that backs a deal while it is
/// open.
pub open spec fn freed_spec(amount: int, config: SimConfig) -> int {
    mul_spec(amount, SCALE + stop_mul_spec(config))
}

/// `amount * stop_mul`: what a deal that is stopped out loses.
pub open spec fn loss_spec(amount: int, config: SimConfig) -> int {
    mul_spec(amount, stop_mul_spec(config))
}

/// A delta of the given two amounts, where both fit.
pub open spec fn delta_of(trade_capital: int, available_capital: int) -> Option<LedgerDelta> {
    if in_range(trade_capital) && in_range(available_capital) {
        Some(
            LedgerDelta {
                trade_capital: trade_capital as i64,
                available_capital: available_capital as i64,
            },
        )
    } else {
        None
    }
}

/// What a deal of `amount` that ends in profit does to the ledger: the
/// realized capital grows by the profit, the available capital by the
/// profit and by the capital that backed the deal.
pub open spec fn profit_delta_spec(amount: i64, config: SimConfig) -> Option<LedgerDelta> {
    let profit = profit_spec(amount as int, config);
    let freed = freed_spec(amount as int, config);
    if in_range(profit) && in_range(freed) {
        delta_of(profit, profit + freed)
    } else {
        None
    }
}

/// What a deal of `amount` that is stopped out does to the ledger: the
/// realized capital is written down by the loss, and the available capital
/// gets back the capital that backed the deal, less the loss.
pub open spec fn fail_delta_spec(amount: i64, config: SimConfig) -> Option<LedgerDelta> {
    let loss = loss_spec(amount as int, config);
    let freed = freed_spec(amount as int, config);
    if in_range(loss) && in_range(freed) {
        delta_of(-loss, freed - loss)
    } else {
        None
    }
}

/// What opening a deal of `amount` does to the ledger: the capital that
/// backs the deal leaves the available capital.
pub open spec fn open_delta_spec(amount: i64, config: SimConfig) -> Option<LedgerDelta> {
    let freed = freed_spec(amount as int, config);
    if in_range(freed) {
        delta_of(0, -freed)
    } else {
        None
    }
}

/// The ledger state with a delta added to its capital, where both sums fit.
pub open spec fn apply_delta_spec(state: TradeState, delta: LedgerDelta) -> Option<TradeState> {
    if in_range(state.trade_capital + delta.trade_capital) && in_range(
        state.available_capital + delta.available_capital,
    ) {
        Some(
            TradeState {
                trade_capital: (state.trade_capital + delta.trade_capital) as i64,
                available_capital: (state.available_capital + delta.available_capital) as i64,
                ..state
            },
        )
    } else {
        None
    }
}

/// The ledger state with its two counters moved for a deal that goes from
/// `from` to `to`: a deal that leaves `Initial` is no longer awaited, a deal
/// that gets its first leg filled is stuck, a stuck deal that ends is no
/// longer stuck.
pub open spec fn move_counters_spec(state: TradeState, from: DealStatus, to: DealStatus) -> Option<
    TradeState,
> {
    let awaited = state.awaited_deals - indicator(from, |s: DealStatus| s.awaited()) + indicator(
        to,
        |s: DealStatus| s.awaited(),
    );
    let stuck = state.stuck_deals - indicator(from, |s: DealStatus| s.stuck()) + indicator(
        to,
        |s: DealStatus| s.stuck(),
    );
    if in_range(awaited) && in_range(stuck) {
        Some(TradeState { awaited_deals: awaited as i64, stuck_deals: stuck as i64, ..state })
    } else {
        None
    }
}

/// What the transition of one deal does to the ledger. A deal that stays as
/// it is changes nothing.
pub open spec fn resolution_delta_spec(deal: Deal, to: DealStatus, config: SimConfig) -> Option<
    LedgerDelta,
> {
    if to == deal.status {
        delta_of(0, 0)
    } else {
        match to {
            DealStatus::Profit => profit_delta_spec(deal.amount, config),
            DealStatus::FailBuy | DealStatus::FailSell => fail_delta_spec(deal.amount, config),
            _ => delta_of(0, 0),
        }
    }
}

/// The ledger state after one deal has been held against a bar, or `None`
/// where an amount does not fit.
pub open spec fn settle_one_spec(
    state: TradeState,
    deal: Deal,
    candle: Candle,
    config: SimConfig,
) -> Option<TradeState> {
    let to = next_status(deal, candle.high as int, candle.low as int, config.tie_break);
    match resolution_delta_spec(deal, to, config) {
        None => None,
        Some(delta) => match apply_delta_spec(state, delta) {
            None => None,
            Some(changed) => move_counters_spec(changed, deal.status, to),
        },
    }
}

/// The ledger state after every deal of `deals` has been held against a bar,
/// one after the other, or `None` where an amount does not fit on the way.
pub open spec fn settle_all_spec(
    state: TradeState,
    deals: Seq<Deal>,
    candle: Candle,
    config: SimConfig,
) -> Option<TradeState>
    decreases deals.len(),
{
    if deals.len() == 0 {
        Some(state)
    } else {
        match settle_all_spec(state, deals.drop_last(), candle, config) {
            None => None,
            Some(before) => settle_one_spec(before, deals.last(), candle, config),
        }
    }
}

/// The deals after a bar: each has moved as `Deal::after` says.
pub open spec fn advance_all_spec(deals: Seq<Deal>, candle: Candle, tie_break: TieBreak) -> Seq<
    Deal,
> {
    Seq::new(deals.len(), |i: int| deals[i].after(candle, tie_break))
}

/// The property of having a buy order that still rests: no leg is filled,
/// or only the sell leg.
pub open spec fn rests_buy() -> spec_fn(Deal) -> bool {
    |deal: Deal| deal.status is Initial || deal.status is FilledSell
}

/// The property of having a sell order that still rests: no leg is filled,
/// or only the buy leg.
pub open spec fn rests_sell() -> spec_fn(Deal) -> bool {
    |deal: Deal| deal.status is Initial || deal.status is FilledBuy
}

/// The size of the deal that a bar opens: what the sizing rule gives for
/// the available capital and the resting orders, at the bar's close.
pub open spec fn opening_quantity_spec(
    state: TradeState,
    resting_buy: nat,
    resting_sell: nat,
    candle: Candle,
    config: SimConfig,
) -> int {
    size_spec(state.available_capital, candle.close, resting_buy, resting_sell, config).quantity as int
}

/// The notional amount of the deal that a bar opens: its size times the
/// bar's close.
pub open spec fn opening_amount_spec(
    state: TradeState,
    resting_buy: nat,
    resting_sell: nat,
    candle: Candle,
    config: SimConfig,
) -> int {
    mul_spec(
        opening_quantity_spec(state, resting_buy, resting_sell, candle, config),
        candle.close as int,
    )
}

/// The deal that a bar opens, and the ledger state that goes with it.
///
/// `state` is the ledger after the bar has been held against every deal,
/// `resting_buy` and `resting_sell` are the numbers of buy and sell orders
/// that rest after that. The new deal is `Initial`, carries the bar's
/// timestamp and lies around the bar's close. The ledger state carries the
/// bar's timestamp, counts one more awaited deal, and has the capital that
/// backs the new deal taken out of its available capital.
pub open spec fn open_spec(
    state: TradeState,
    resting_buy: nat,
    resting_sell: nat,
    candle: Candle,
    config: SimConfig,
) -> Result<(TradeState, Deal), StepError> {
    let sizing = size_spec(state.available_capital, candle.close, resting_buy, resting_sell, config);
    let amount = opening_amount_spec(state, resting_buy, resting_sell, candle, config);
    if !size_fits(state.available_capital, candle.close, config) || !in_range(amount) {
        Err(StepError::Overflow)
    } else if offset_spec(candle.close as int, config.padding_percent as int) < 1 {
        Err(StepError::Degenerate)
    } else if !in_range(state.awaited_deals + 1) {
        Err(StepError::Overflow)
    } else {
        match open_delta_spec(amount as i64, config) {
            None => Err(StepError::Overflow),
            Some(delta) => match apply_delta_spec(state, delta) {
                None => Err(StepError::Overflow),
                Some(changed) => Ok(
                    (
                        TradeState {
                            timestamp: candle.timestamp,
                            awaited_deals: (state.awaited_deals + 1) as i64,
                            ..changed
                        },
                        Deal {
                            timestamp: candle.timestamp,
                            status: DealStatus::Initial,
                            amount: amount as i64,
                            unfilled_amount: 0,
                            base_price: candle.close,
                            buy_price: sizing.buy_price,
                            buy_stop_price: sizing.buy_stop_price,
                            sell_price: sizing.sell_price,
                            sell_stop_price: sizing.sell_stop_price,
                        },
                    ),
                ),
            },
        }
    }
}

/// Whether a bar has been resolved before: a deal carries its timestamp, or
/// the latest ledger state is later than it.
pub open spec fn resolved_before(tables: Tables, candle: Candle) -> bool {
    has_key(tables.deals, candle.timestamp as int) || candle.timestamp
        < tables.trade_states.last().timestamp
}

/// The store after a bar, and what resolving the bar did.
pub open spec fn step_spec(tables: Tables, candle: Candle, config: SimConfig) -> (
    Tables,
    Result<BarOutcome, StepError>,
) {
    if !candle.wf() {
        (tables, Err(StepError::InvalidBar))
    } else if resolved_before(tables, candle) {
        (tables, Ok(BarOutcome::Skipped))
    } else {
        match settle_all_spec(tables.trade_states.last(), tables.deals, candle, config) {
            None => (tables, Err(StepError::Overflow)),
            Some(settled) => {
                let advanced = advance_all_spec(tables.deals, candle, config.tie_break);
                match open_spec(
                    settled,
                    count_where(advanced, rests_buy()),
                    count_where(advanced, rests_sell()),
                    candle,
                    config,
                ) {
                    Err(e) => (tables, Err(e)),
                    Ok((state, deal)) => (
                        Tables {
                            candles: tables.candles,
                            deals: upsert_spec(advanced, deal),
                            trade_states: upsert_spec(tables.trade_states, state),
                        },
                        Ok(BarOutcome::Processed),
                    ),
                }
            },
        }
    }
}

/// The store after a history of bars has been resolved in order, and the
/// error that stopped the replay, if one did. The bars after an error are
/// not resolved.
pub open spec fn replay_spec(tables: Tables, candles: Seq<Candle>, config: SimConfig) -> (
    Tables,
    Option<StepError>,
)
    decreases candles.len(),
{
    if candles.len() == 0 {
        (tables, None)
    } else {
        let (before, stopped) = replay_spec(tables, candles.drop_last(), config);
        if stopped is Some {
            (before, stopped)
        } else {
            let (after, outcome) = step_spec(before, candles.last(), config);
            (
                after,
                match outcome {
                    Ok(_) => None,
                    Err(e) => Some(e),
                },
            )
        }
    }
}

/// The store that a replay starts from: the bars as they are, no deal, and
/// one ledger state with the starting capital at the first bar to replay.
pub open spec fn replay_start_spec(tables: Tables) -> Tables {
    Tables {
        candles: tables.candles,
        deals: Seq::empty(),
        trade_states: seq![
            TradeState::first(
                latest_spec(tables.candles, REPLAY_LIMIT as int)[0].timestamp,
                START_CAPITAL,
            ),
        ],
    }
}

/// The ledger agrees with the deals: there is a ledger state, the latest
/// one counts as awaited the deals with no leg filled and as stuck the deals
/// with one leg filled, and the thresholds of every deal lie in order.
pub open spec fn consistent(tables: Tables) -> bool {
    &&& tables.trade_states.len() > 0
    &&& tables.trade_states.last().awaited_deals == count_where(tables.deals, is_awaited())
    &&& tables.trade_states.last().stuck_deals == count_where(tables.deals, is_stuck())
    &&& forall|i: int| 0 <= i < tables.deals.len() ==> (#[trigger] tables.deals[i]).bracket_ordered()
}

/// `percent / 100` for a percentage between minus and plus one hundred.
fn hundredth(percent: i64) -> (r: i64)
    requires
        -HUNDRED <= percent <= HUNDRED,
    ensures
        r == percent_spec(SCALE as int, percent as int),
        -SCALE <= r <= SCALE,
        percent >= 0 ==> r >= 0,
{
    proof {
        lemma_hundredth_bounds(percent as int);
        assert(-SCALE * HUNDRED <= SCALE * percent <= SCALE * HUNDRED) by (nonlinear_arith)
            requires
                -HUNDRED <= percent <= HUNDRED,
        ;
    }
    (((SCALE as i128) * (percent as i128)) / (HUNDRED as i128)) as i64
}

proof fn lemma_hundredth_bounds(percent: int)
    requires
        -HUNDRED <= percent <= HUNDRED,
    ensures
        -SCALE <= percent_spec(SCALE as int, percent) <= SCALE,
        percent >= 0 ==> percent_spec(SCALE as int, percent) >= 0,
{
    if percent >= 0 {
        lemma_percent_bounds(SCALE as int, percent);
    } else {
        assert(SCALE * percent == -(SCALE * (-percent))) by (nonlinear_arith);
        lemma_percent_bounds(SCALE as int, -percent);
        assert(SCALE * (-percent) >= 0) by (nonlinear_arith)
            requires
                percent <= 0,
        ;
    }
}

/// `1 + profit_mul * capital_mul`, the factor of a profit.
fn profit_factor(config: &SimConfig) -> (r: i64)
    requires
        config.wf(),
    ensures
        r == SCALE + mul_spec(profit_mul_spec(*config), capital_mul_spec(*config)),
{
    let capital_mul = hundredth(config.capital_percent);
    let profit_mul = 2 * hundredth(config.padding_percent - config.fee_percent);
    proof {
        let p = profit_mul as int;
        let c = capital_mul as int;
        assert(-2 * SCALE * SCALE <= p * c <= 2 * SCALE * SCALE) by (nonlinear_arith)
            requires
                -2 * SCALE <= p <= 2 * SCALE,
                0 <= c <= SCALE,
        ;
        lemma_trunc_div_monotonic(-2 * SCALE * SCALE, p * c, SCALE as int);
        lemma_trunc_div_monotonic(p * c, 2 * SCALE * SCALE, SCALE as int);
        assert((2 * SCALE * SCALE) / (SCALE as int) == 2 * SCALE) by (nonlinear_arith);
    }
    SCALE + (((profit_mul as i128) * (capital_mul as i128)) / (SCALE as i128)) as i64
}

fn delta(trade_capital: Option<i64>, available_capital: Option<i64>) -> (r: Option<LedgerDelta>)
    ensures
        r == match (trade_capital, available_capital) {
            (Some(t), Some(a)) => Some(LedgerDelta { trade_capital: t, available_capital: a }),
            _ => None,
        },
{
    match (trade_capital, available_capital) {
        (Some(t), Some(a)) => Some(LedgerDelta { trade_capital: t, available_capital: a }),
        _ => None,
    }
}

/// What a deal of `amount` that ends in profit does to the ledger, or `None`
/// where an amount does not fit.
pub fn profit_delta(amount: i64, config: &SimConfig) -> (r: Option<LedgerDelta>)
    requires
        config.wf(),
    ensures
        r == profit_delta_spec(amount, *config),
{
    let factor = profit_factor(config);
    let stop_mul = hundredth(config.stop_percent);
    match (fixed_mul(amount, factor), fixed_mul(amount, SCALE + stop_mul)) {
        (Some(profit), Some(freed)) => delta(Some(profit), fixed_add(profit, freed)),
        _ => None,
    }
}

/// What a deal of `amount` that is stopped out does to the ledger, or `None`
/// where an amount does not fit.
///
/// This is the write-down rule of the engine: the loss is the amount times
/// the stop distance.
pub fn fail_delta(amount: i64, config: &SimConfig) -> (r: Option<LedgerDelta>)
    requires
        config.wf(),
    ensures
        r == fail_delta_spec(amount, *config),
{
    let stop_mul = hundredth(config.stop_percent);
    match (fixed_mul(amount, stop_mul), fixed_mul(amount, SCALE + stop_mul)) {
        (Some(loss), Some(freed)) => delta(fixed_sub(0, loss), fixed_sub(freed, loss)),
        _ => None,
    }
}

/// What opening a deal of `amount` does to the ledger, or `None` where an
/// amount does not fit.
pub fn open_delta(amount: i64, config: &SimConfig) -> (r: Option<LedgerDelta>)
    requires
        config.wf(),
    ensures
        r == open_delta_spec(amount, *config),
{
    let stop_mul = hundredth(config.stop_percent);
    match fixed_mul(amount, SCALE + stop_mul) {
        Some(freed) => delta(Some(0), fixed_sub(0, freed)),
        None => None,
    }
}

/// The ledger state with `delta` added to its capital, or `None` where a sum
/// does not fit.
pub fn apply_delta(state: &TradeState, delta: &LedgerDelta) -> (r: Option<TradeState>)
    ensures
        r == apply_delta_spec(*state, *delta),
{
    match (
        fixed_add(state.trade_capital, delta.trade_capital),
        fixed_add(state.available_capital, delta.available_capital),
    ) {
        (Some(trade_capital), Some(available_capital)) => Some(
            TradeState {
                timestamp: state.timestamp,
                trade_capital,
                available_capital,
                awaited_deals: state.awaited_deals,
                stuck_deals: state.stuck_deals,
            },
        ),
        _ => None,
    }
}

fn move_counters(state: &TradeState, from: DealStatus, to: DealStatus) -> (r: Option<TradeState>)
    ensures
        r == move_counters_spec(*state, from, to),
{
    let mut awaited: i128 = state.awaited_deals as i128;
    let mut stuck: i128 = state.stuck_deals as i128;
    if from == DealStatus::Initial {
        awaited = awaited - 1;
    }
    if to == DealStatus::Initial {
        awaited = awaited + 1;
    }
    if from.is_stuck() {
        stuck = stuck - 1;
    }
    if to.is_stuck() {
        stuck = stuck + 1;
    }
    if awaited < -0x8000_0000_0000_0000 || awaited > 0x7fff_ffff_ffff_ffff || stuck
        < -0x8000_0000_0000_0000 || stuck > 0x7fff_ffff_ffff_ffff {
        None
    } else {
        Some(
            TradeState {
                timestamp: state.timestamp,
                trade_capital: state.trade_capital,
                available_capital: state.available_capital,
                awaited_deals: awaited as i64,
                stuck_deals: stuck as i64,
            },
        )
    }
}

fn conclude(
    deal: &mut Deal,
    trade_state: &mut TradeState,
    delta: Option<LedgerDelta>,
    status: DealStatus,
) -> (ok: bool)
    ensures
        match delta {
            Some(d) => match apply_delta_spec(*old(trade_state), d) {
                Some(changed) => ok && *final(trade_state) == changed && *final(deal) == old(
                    deal,
                ).with_status(status),
                None => !ok && *final(trade_state) == *old(trade_state) && *final(deal) == *old(
                    deal,
                ),
            },
            None => !ok && *final(trade_state) == *old(trade_state) && *final(deal) == *old(deal),
        },
{
    match delta {
        Some(d) => match apply_delta(trade_state, &d) {
            Some(changed) => {
                *trade_state = changed;
                deal.status = status;
                true
            },
            None => false,
        },
        None => false,
    }
}

/// Ends a deal in profit: the realized capital grows by
/// `amount * (1 + profit_mul * capital_mul)`, the available capital by that
/// and by `amount * (1 + stop_mul)`, and the deal becomes `Profit`.
///
/// Returns `false`, and changes nothing, where an amount does not fit.
pub fn handle_profit(deal: &mut Deal, trade_state: &mut TradeState, sim_config: &SimConfig) -> (ok:
    bool)
    requires
        sim_config.wf(),
    ensures
        ok == (profit_delta_spec(old(deal).amount, *sim_config) matches Some(d)
            && apply_delta_spec(*old(trade_state), d) is Some),
        ok ==> {
            &&& *final(deal) == old(deal).with_status(DealStatus::Profit)
            &&& final(trade_state).trade_capital == old(trade_state).trade_capital + profit_spec(
                old(deal).amount as int,
                *sim_config,
            )
            &&& final(trade_state).available_capital == old(trade_state).available_capital
                + freed_spec(old(deal).amount as int, *sim_config) + profit_spec(
                old(deal).amount as int,
                *sim_config,
            )
            &&& final(trade_state).timestamp == old(trade_state).timestamp
            &&& final(trade_state).awaited_deals == old(trade_state).awaited_deals
            &&& final(trade_state).stuck_deals == old(trade_state).stuck_deals
        },
        !ok ==> *final(deal) == *old(deal) && *final(trade_state) == *old(trade_state),
{
    let delta = profit_delta(deal.amount, sim_config);
    conclude(deal, trade_state, delta, DealStatus::Profit)
}

/// Ends a deal whose buy leg was stopped out: the realized capital is
/// written down by `amount * stop_mul`, the available capital gets back
/// `amount * (1 + stop_mul)` less that loss, and the deal becomes `FailBuy`.
///
/// Returns `false`, and changes nothing, where an amount does not fit.
pub fn handle_fail_buy(deal: &mut Deal, trade_state: &mut TradeState, sim_config: &SimConfig) -> (ok:
    bool)
    requires
        sim_config.wf(),
    ensures
        ok == (fail_delta_spec(old(deal).amount, *sim_config) matches Some(d) && apply_delta_spec(
            *old(trade_state),
            d,
        ) is Some),
        ok ==> {
            &&& *final(deal) == old(deal).with_status(DealStatus::FailBuy)
            &&& final(trade_state).trade_capital == old(trade_state).trade_capital - loss_spec(
                old(deal).amount as int,
                *sim_config,
            )
            &&& final(trade_state).available_capital == old(trade_state).available_capital
                + freed_spec(old(deal).amount as int, *sim_config) - loss_spec(
                old(deal).amount as int,
                *sim_config,
            )
            &&& final(trade_state).timestamp == old(trade_state).timestamp
            &&& final(trade_state).awaited_deals == old(trade_state).awaited_deals
            &&& final(trade_state).stuck_deals == old(trade_state).stuck_deals
        },
        !ok ==> *final(deal) == *old(deal) && *final(trade_state) == *old(trade_state),
{
    let delta = fail_delta(deal.amount, sim_config);
    conclude(deal, trade_state, delta, DealStatus::FailBuy)
}

/// Ends a deal whose sell leg was stopped out: the realized capital is
/// written down by `amount * stop_mul`, the available capital gets back
/// `amount * (1 + stop_mul)` less that loss, and the deal becomes `FailSell`.
///
/// Returns `false`, and changes nothing, where an amount does not fit.
pub fn handle_fail_sell(deal: &mut Deal, trade_state: &mut TradeState, sim_config: &SimConfig) -> (ok:
    bool)
    requires
        sim_config.wf(),
    ensures
        ok == (fail_delta_spec(old(deal).amount, *sim_config) matches Some(d) && apply_delta_spec(
            *old(trade_state),
            d,
        ) is Some),
        ok ==> {
            &&& *final(deal) == old(deal).with_status(DealStatus::FailSell)
            &&& final(trade_state).trade_capital == old(trade_state).trade_capital - loss_spec(
                old(deal).amount as int,
                *sim_config,
            )
            &&& final(trade_state).available_capital == old(trade_state).available_capital
                + freed_spec(old(deal).amount as int, *sim_config) - loss_spec(
                old(deal).amount as int,
                *sim_config,
            )
            &&& final(trade_state).timestamp == old(trade_state).timestamp
            &&& final(trade_state).awaited_deals == old(trade_state).awaited_deals
            &&& final(trade_state).stuck_deals == old(trade_state).stuck_deals
        },
        !ok ==> *final(deal) == *old(deal) && *final(trade_state) == *old(trade_state),
{
    let delta = fail_delta(deal.amount, sim_config);
    conclude(deal, trade_state, delta, DealStatus::FailSell)
}

/// Holds one deal that has not ended against a bar: the deal moves as
/// `Deal::after` says, and the ledger state changes as `settle_one_spec`
/// says. `None` where an amount does not fit.
pub fn settle_deal(state: TradeState, deal: Deal, candle: &Candle, sim_config: &SimConfig) -> (r:
    Option<(TradeState, Deal)>)
    requires
        sim_config.wf(),
        !deal.status.terminal(),
    ensures
        match settle_one_spec(state, deal, *candle, *sim_config) {
            Some(settled) => r == Some((settled, deal.after(*candle, sim_config.tie_break))),
            None => r is None,
        },
{
    let to = deal.next(candle, sim_config.tie_break);
    let mut moved = deal;
    let mut changed = state;
    if to != deal.status {
        let ok = match to {
            DealStatus::Profit => handle_profit(&mut moved, &mut changed, sim_config),
            DealStatus::FailBuy => handle_fail_buy(&mut moved, &mut changed, sim_config),
            DealStatus::FailSell => handle_fail_sell(&mut moved, &mut changed, sim_config),
            _ => {
                moved.status = to;
                true
            },
        };
        if !ok {
            return None;
        }
    }
    match move_counters(&changed, deal.status, to) {
        Some(counted) => Some((counted, moved)),
        None => None,
    }
}

/// Opens the deal of a bar: see `open_spec`.
pub fn open_deal(
    state: TradeState,
    resting_buy: usize,
    resting_sell: usize,
    candle: &Candle,
    sim_config: &SimConfig,
) -> (r: Result<(TradeState, Deal), StepError>)
    requires
        sim_config.wf(),
        candle.wf(),
    ensures
        r == open_spec(state, resting_buy as nat, resting_sell as nat, *candle, *sim_config),
        r matches Ok((opened, deal)) ==> deal.bracket_ordered(),
{
    proof {
        lemma_percent_bounds(candle.close as int, sim_config.padding_percent as int);
        lemma_percent_bounds(candle.close as int, sim_config.stop_percent as int);
        lemma_percent_monotonic(
            candle.close as int,
            sim_config.padding_percent as int,
            sim_config.stop_percent as int,
        );
    }
    let sizing = match size(
        state.available_capital,
        candle.close,
        resting_buy,
        resting_sell,
        sim_config,
    ) {
        Some(v) => v,
        None => {
            return Err(StepError::Overflow);
        },
    };
    let amount = match fixed_mul(sizing.quantity, candle.close) {
        Some(v) => v,
        None => {
            return Err(StepError::Overflow);
        },
    };
    if sizing.buy_price >= candle.close {
        return Err(StepError::Degenerate);
    }
    let deal = Deal {
        timestamp: candle.timestamp,
        status: DealStatus::Initial,
        amount,
        unfilled_amount: 0,
        base_price: candle.close,
        buy_price: sizing.buy_price,
        buy_stop_price: sizing.buy_stop_price,
        sell_price: sizing.sell_price,
        sell_stop_price: sizing.sell_stop_price,
    };
    let awaited = match fixed_add(state.awaited_deals, 1) {
        Some(v) => v,
        None => {
            return Err(StepError::Overflow);
        },
    };
    let backing = match open_delta(amount, sim_config) {
        Some(d) => d,
        None => {
            return Err(StepError::Overflow);
        },
    };
    match apply_delta(&state, &backing) {
        Some(changed) => Ok(
            (
                TradeState {
                    timestamp: candle.timestamp,
                    trade_capital: changed.trade_capital,
                    available_capital: changed.available_capital,
                    awaited_deals: awaited,
                    stuck_deals: changed.stuck_deals,
                },
                deal,
            ),
        ),
        None => Err(StepError::Overflow),
    }
}

/// A bar moves the status of each deal and nothing else, so deals in order
/// of timestamp stay in that order, and a timestamp has a deal after the bar
/// if and only if it had one before.
pub proof fn lemma_advance_keeps_keys(deals: Seq<Deal>, candle: Candle, tie_break: TieBreak)
    ensures
        advance_all_spec(deals, candle, tie_break).len() == deals.len(),
        sorted(deals) ==> sorted(advance_all_spec(deals, candle, tie_break)),
        forall|k: int| has_key(deals, k) <==> has_key(advance_all_spec(deals, candle, tie_break), k),
        (forall|i: int| 0 <= i < deals.len() ==> (#[trigger] deals[i]).bracket_ordered()) ==> (
        forall|i: int|
            0 <= i < deals.len() ==> (#[trigger] advance_all_spec(
                deals,
                candle,
                tie_break,
            )[i]).bracket_ordered()),
{
    let advanced = advance_all_spec(deals, candle, tie_break);
    assert forall|k: int| has_key(deals, k) <==> has_key(advanced, k) by {
        if has_key(deals, k) {
            let i = choose|i: int| 0 <= i < deals.len() && (#[trigger] deals[i]).key() == k;
            assert(advanced[i].key() == k);
        }
        if has_key(advanced, k) {
            let i = choose|i: int| 0 <= i < advanced.len() && (#[trigger] advanced[i]).key() == k;
            assert(deals[i].key() == k);
        }
    }
    if sorted(deals) {
        assert forall|i: int, j: int| 0 <= i < j < advanced.len() implies (
        #[trigger] advanced[i]).key() < (#[trigger] advanced[j]).key() by {
            assert(deals[i].key() < deals[j].key());
        }
    }
    if forall|i: int| 0 <= i < deals.len() ==> (#[trigger] deals[i]).bracket_ordered() {
        assert forall|i: int| 0 <= i < deals.len() implies (
        #[trigger] advanced[i]).bracket_ordered() by {
            assert(deals[i].bracket_ordered());
        }
    }
}

/// Holding deals against a bar moves the two counters of the ledger by as
/// much as the numbers of awaited and of stuck deals move.
pub proof fn lemma_settle_keeps_counts(
    state: TradeState,
    deals: Seq<Deal>,
    candle: Candle,
    config: SimConfig,
)
    ensures
        settle_all_spec(state, deals, candle, config) matches Some(settled) ==> {
            let advanced = advance_all_spec(deals, candle, config.tie_break);
            &&& settled.timestamp == state.timestamp
            &&& settled.awaited_deals - count_where(advanced, is_awaited()) == state.awaited_deals
                - count_where(deals, is_awaited())
            &&& settled.stuck_deals - count_where(advanced, is_stuck()) == state.stuck_deals
                - count_where(deals, is_stuck())
        },
    decreases deals.len(),
{
    if deals.len() > 0 {
        let rest = deals.drop_last();
        lemma_settle_keeps_counts(state, rest, candle, config);
        let advanced = advance_all_spec(deals, candle, config.tie_break);
        assert(advanced.drop_last() =~= advance_all_spec(rest, candle, config.tie_break));
        assert(advanced.last() == deals.last().after(candle, config.tie_break));
    }
}

/// The capital that is taken out of the available capital when a deal
/// opens is the capital that its end gives back: over the life of a deal the
/// available capital changes by the profit, or by the loss.
pub proof fn lemma_backing_is_given_back(amount: i64, config: SimConfig)
    ensures
        (open_delta_spec(amount, config), profit_delta_spec(amount, config)) matches (
            Some(opened),
            Some(ended),
        ) ==> opened.available_capital + ended.available_capital == profit_spec(
            amount as int,
            config,
        ) && ended.trade_capital == profit_spec(amount as int, config),
        (open_delta_spec(amount, config), fail_delta_spec(amount, config)) matches (
            Some(opened),
            Some(ended),
        ) ==> opened.available_capital + ended.available_capital == -loss_spec(
            amount as int,
            config,
        ) && ended.trade_capital == -loss_spec(amount as int, config),
{
}

/// In a store whose ledger agrees with its deals, neither counter of the
/// latest ledger state is negative, and together they count the deals that
/// have not ended.
pub proof fn lemma_counters_count_open_deals(tables: Tables)
    requires
        consistent(tables),
    ensures
        tables.trade_states.last().awaited_deals >= 0,
        tables.trade_states.last().stuck_deals >= 0,
        tables.trade_states.last().awaited_deals + tables.trade_states.last().stuck_deals
            == count_where(tables.deals, is_open()),
{
    lemma_open_is_awaited_or_stuck(tables.deals);
}

/// A deal that has not ended is awaited or stuck, and not both.
pub proof fn lemma_open_is_awaited_or_stuck(deals: Seq<Deal>)
    ensures
        count_where(deals, is_open()) == count_where(deals, is_awaited())
            + count_where(deals, is_stuck()),
    decreases deals.len(),
{
    if deals.len() > 0 {
        lemma_open_is_awaited_or_stuck(deals.drop_last());
    }
}

/// A bar that has been resolved changes nothing when it comes again.
pub proof fn lemma_step_idempotent(tables: Tables, candle: Candle, config: SimConfig)
    requires
        sorted(tables.deals),
        sorted(tables.trade_states),
        tables.trade_states.len() > 0,
        step_spec(tables, candle, config).1 is Ok,
    ensures
        step_spec(step_spec(tables, candle, config).0, candle, config) == (
            step_spec(tables, candle, config).0,
            Ok::<BarOutcome, StepError>(BarOutcome::Skipped),
        ),
{
    let (after, outcome) = step_spec(tables, candle, config);
    if outcome == Ok::<BarOutcome, StepError>(BarOutcome::Processed) {
        let advanced = advance_all_spec(tables.deals, candle, config.tie_break);
        lemma_advance_keeps_keys(tables.deals, candle, config.tie_break);
        let settled = settle_all_spec(tables.trade_states.last(), tables.deals, candle, config)->0;
        let opened = open_spec(
            settled,
            count_where(advanced, rests_buy()),
            count_where(advanced, rests_sell()),
            candle,
            config,
        )->Ok_0;
        lemma_upsert_sorted(advanced, opened.1);
        assert(has_key(after.deals, candle.timestamp as int));
    }
}

/// No deal is ever deleted: after a bar has been resolved, every deal that
/// was in the store is still there, moved by the bar as `Deal::after` says
/// and otherwise as it was, and the only other deal is the one that the bar
/// opened.
pub proof fn lemma_step_keeps_deals(tables: Tables, candle: Candle, config: SimConfig)
    requires
        sorted(tables.deals),
        sorted(tables.trade_states),
        tables.trade_states.len() > 0,
        step_spec(tables, candle, config).1 == Ok::<BarOutcome, StepError>(BarOutcome::Processed),
    ensures
        step_spec(tables, candle, config).0.deals.len() == tables.deals.len() + 1,
        forall|i: int|
            0 <= i < tables.deals.len() ==> step_spec(tables, candle, config).0.deals.contains(
                (#[trigger] tables.deals[i]).after(candle, config.tie_break),
            ),
        exists|j: int|
            0 <= j < step_spec(tables, candle, config).0.deals.len() && (#[trigger] step_spec(
                tables,
                candle,
                config,
            ).0.deals[j]).timestamp == candle.timestamp && step_spec(
                tables,
                candle,
                config,
            ).0.deals[j].status == DealStatus::Initial,
{
    let after = step_spec(tables, candle, config).0;
    let advanced = advance_all_spec(tables.deals, candle, config.tie_break);
    let settled = settle_all_spec(tables.trade_states.last(), tables.deals, candle, config)->0;
    let (state, deal) = open_spec(
        settled,
        count_where(advanced, rests_buy()),
        count_where(advanced, rests_sell()),
        candle,
        config,
    )->Ok_0;
    lemma_advance_keeps_keys(tables.deals, candle, config.tie_break);
    lemma_upsert_sorted(advanced, deal);
    assert(!has_key(advanced, deal.key()));
    let at = rank(advanced, deal.key());
    assert(after.deals == advanced.insert(at, deal));
    assert forall|i: int| 0 <= i < tables.deals.len() implies after.deals.contains(
        (#[trigger] tables.deals[i]).after(candle, config.tie_break),
    ) by {
        let j = if i < at {
            i
        } else {
            i + 1
        };
        assert(after.deals[j] == advanced[i]);
    }
    assert(after.deals[at] == deal);
}

/// A step keeps the store in order and the ledger in agreement with the
/// deals: after it the latest ledger state counts the awaited and the stuck
/// deals, and the thresholds of every deal lie in order.
pub proof fn lemma_step_keeps_consistent(tables: Tables, candle: Candle, config: SimConfig)
    requires
        sorted(tables.deals),
        sorted(tables.trade_states),
        tables.trade_states.len() > 0,
        config.wf(),
    ensures
        sorted(step_spec(tables, candle, config).0.deals),
        sorted(step_spec(tables, candle, config).0.trade_states),
        step_spec(tables, candle, config).0.trade_states.len() > 0,
        step_spec(tables, candle, config).0.candles == tables.candles,
        consistent(tables) ==> consistent(step_spec(tables, candle, config).0),
{
    let (after, outcome) = step_spec(tables, candle, config);
    if outcome == Ok::<BarOutcome, StepError>(BarOutcome::Processed) {
        let last = tables.trade_states.last();
        let advanced = advance_all_spec(tables.deals, candle, config.tie_break);
        let settled = settle_all_spec(last, tables.deals, candle, config)->0;
        let (state, deal) = open_spec(
            settled,
            count_where(advanced, rests_buy()),
            count_where(advanced, rests_sell()),
            candle,
            config,
        )->Ok_0;
        lemma_advance_keeps_keys(tables.deals, candle, config.tie_break);
        lemma_settle_keeps_counts(last, tables.deals, candle, config);
        lemma_upsert_sorted(advanced, deal);
        lemma_upsert_sorted(tables.trade_states, state);
        lemma_upsert_last(tables.trade_states, state);
        assert(!has_key(advanced, deal.key()));
        lemma_upsert_count(advanced, deal, is_awaited());
        lemma_upsert_count(advanced, deal, is_stuck());
        if consistent(tables) {
            lemma_upsert_members(advanced, deal);
            lemma_percent_bounds(
                candle.close as int,
                config.padding_percent as int,
            );
            lemma_percent_bounds(candle.close as int, config.stop_percent as int);
            lemma_percent_monotonic(
                candle.close as int,
                config.padding_percent as int,
                config.stop_percent as int,
            );
            assert(deal.bracket_ordered());
            assert forall|i: int| 0 <= i < after.deals.len() implies (
            #[trigger] after.deals[i]).bracket_ordered() by {
                if after.deals[i] != deal {
                    assert(advanced.contains(after.deals[i]));
                    let j = choose|j: int| 0 <= j < advanced.len() && advanced[j] == after.deals[i];
                    assert(advanced[j].bracket_ordered());
                }
            }
        }
    }
}

/// Resolves one bar: holds every deal that has not ended against it, opens
/// the deal of the bar, and writes the ledger state of the bar.
///
/// Fails, and leaves the store as it was, with `InvalidBar` where the bar is
/// not well formed, with `Overflow` where an amount does not fit, and with
/// `Degenerate` where the padding of the new deal rounds to nothing. A bar
/// that has been resolved before is skipped.
pub fn handle_candle(database: &mut Database, candle: Candle, sim_config: &SimConfig) -> (r:
    Result<BarOutcome, StepError>)
    requires
        old(database).wf(),
        old(database)@.trade_states.len() > 0,
        sim_config.wf(),
    ensures
        final(database).wf(),
        final(database)@.trade_states.len() > 0,
        final(database)@ == step_spec(old(database)@, candle, *sim_config).0,
        r == step_spec(old(database)@, candle, *sim_config).1,
        r is Err || r == Ok::<BarOutcome, StepError>(BarOutcome::Skipped) ==> final(database)@
            == old(database)@,
        consistent(old(database)@) ==> consistent(final(database)@),
{
    proof {
        lemma_step_keeps_consistent(database@, candle, *sim_config);
    }
    if !candle.is_wf() {
        return Err(StepError::InvalidBar);
    }
    let prev_trade_state = database.last_state();
    if database.has_deal(candle.timestamp) || candle.timestamp < prev_trade_state.timestamp {
        return Ok(BarOutcome::Skipped);
    }
    let n = database.deal_count();
    let mut trade_state = prev_trade_state;
    let mut deals: Vec<Deal> = Vec::new();
    let mut resting_buy: usize = 0;
    let mut resting_sell: usize = 0;
    let mut i: usize = 0;
    let ghost before = database@.deals;
    let ghost advanced = advance_all_spec(before, candle, sim_config.tie_break);
    proof {
        assert(before.take(0) =~= Seq::<Deal>::empty());
    }
    while i < n
        invariant
            i <= n,
            n == before.len(),
            before == database@.deals,
            database@ == old(database)@,
            database.wf(),
            database@.trade_states.len() > 0,
            prev_trade_state == database@.trade_states.last(),
            candle.wf(),
            !resolved_before(database@, candle),
            sim_config.wf(),
            advanced == advance_all_spec(before, candle, sim_config.tie_break),
            deals@ == advanced.take(i as int),
            settle_all_spec(prev_trade_state, before.take(i as int), candle, *sim_config) == Some(
                trade_state,
            ),
            resting_buy == count_where(deals@, rests_buy()),
            resting_sell == count_where(deals@, rests_sell()),
        decreases n - i,
    {
        let deal = database.deal_at(i);
        proof {
            assert(before.take(i + 1).drop_last() =~= before.take(i as int));
            assert(before.take(i + 1).last() == before[i as int]);
            assert(advanced.take(i + 1) =~= advanced.take(i as int).push(advanced[i as int]));
            lemma_count_push(deals@, advanced[i as int], rests_buy());
            lemma_count_push(deals@, advanced[i as int], rests_sell());
            lemma_count_bound(deals@, rests_buy());
            lemma_count_bound(deals@, rests_sell());
        }
        let outcome = if deal.status.is_terminal() {
            Some((trade_state, deal))
        } else {
            settle_deal(trade_state, deal, &candle, sim_config)
        };
        match outcome {
            None => {
                proof {
                    lemma_settle_stays_none(
                        prev_trade_state,
                        before,
                        i + 1,
                        candle,
                        *sim_config,
                    );
                }
                return Err(StepError::Overflow);
            },
            Some((settled, moved)) => {
                trade_state = settled;
                match moved.status {
                    DealStatus::Initial => {
                        resting_buy = resting_buy + 1;
                        resting_sell = resting_sell + 1;
                    },
                    DealStatus::FilledSell => {
                        resting_buy = resting_buy + 1;
                    },
                    DealStatus::FilledBuy => {
                        resting_sell = resting_sell + 1;
                    },
                    _ => {},
                }
                deals.push(moved);
            },
        }
        i = i + 1;
    }
    proof {
        assert(before.take(n as int) =~= before);
        assert(advanced.take(n as int) =~= advanced);
        lemma_advance_keeps_keys(before, candle, sim_config.tie_break);
    }
    match open_deal(trade_state, resting_buy, resting_sell, &candle, sim_config) {
        Err(e) => Err(e),
        Ok((opened, new_deal)) => {
            database.replace_deals(deals);
            new_deal.save_to_database(database);
            opened.save_to_database(database);
            Ok(BarOutcome::Processed)
        },
    }
}

/// Once an amount has not fit, holding more deals against the bar does not
/// mend it.
proof fn lemma_settle_stays_none(
    state: TradeState,
    deals: Seq<Deal>,
    upto: int,
    candle: Candle,
    config: SimConfig,
)
    requires
        0 <= upto <= deals.len(),
        settle_all_spec(state, deals.take(upto), candle, config) is None,
    ensures
        settle_all_spec(state, deals, candle, config) is None,
    decreases deals.len() - upto,
{
    if upto < deals.len() {
        assert(deals.take(upto + 1).drop_last() =~= deals.take(upto));
        lemma_settle_stays_none(state, deals, upto + 1, candle, config);
    } else {
        assert(deals.take(upto) =~= deals);
    }
}

/// Replays the latest bars of the store, `REPLAY_LIMIT` at most: empties the
/// deal and ledger tables, starts the ledger with `START_CAPITAL` at the
/// first bar, and resolves the bars in ascending order of timestamp.
///
/// Returns the last ledger state, or the error that stopped the replay. The
/// store is then as the last bar before the error left it.
pub fn simulate(database: &mut Database, sim_config: &SimConfig) -> (r: Result<
    TradeState,
    StepError,
>)
    requires
        old(database).wf(),
        old(database)@.candles.len() > 0,
        sim_config.wf(),
    ensures
        final(database).wf(),
        final(database)@ == replay_spec(
            replay_start_spec(old(database)@),
            latest_spec(old(database)@.candles, REPLAY_LIMIT as int),
            *sim_config,
        ).0,
        r == match replay_spec(
            replay_start_spec(old(database)@),
            latest_spec(old(database)@.candles, REPLAY_LIMIT as int),
            *sim_config,
        ).1 {
            None => Ok::<TradeState, StepError>(final(database)@.trade_states.last()),
            Some(e) => Err::<TradeState, StepError>(e),
        },
        consistent(final(database)@),
{
    TradeState::truncate(database);
    Deal::truncate(database);
    let candles = Candle::get_candles(database, REPLAY_LIMIT);
    let first_timestamp = candles[0].timestamp;
    let first_trade_state = TradeState {
        timestamp: first_timestamp,
        trade_capital: START_CAPITAL,
        available_capital: START_CAPITAL,
        awaited_deals: 0,
        stuck_deals: 0,
    };
    proof {
        assert(upsert_spec(Seq::<TradeState>::empty(), first_trade_state) =~= seq![
            first_trade_state,
        ]);
        assert(database@.trade_states =~= Seq::<TradeState>::empty());
    }
    first_trade_state.save_to_database(database);
    let ghost start = replay_start_spec(old(database)@);
    proof {
        assert(database@.deals =~= start.deals);
        assert(database@ == start);
        assert(candles@.take(0) =~= Seq::<Candle>::empty());
    }
    let mut i: usize = 0;
    while i < candles.len()
        invariant
            i <= candles.len(),
            database.wf(),
            database@.trade_states.len() > 0,
            sim_config.wf(),
            consistent(database@),
            start == replay_start_spec(old(database)@),
            candles@ == latest_spec(old(database)@.candles, REPLAY_LIMIT as int),
            replay_spec(start, candles@.take(i as int), *sim_config) == (
                database@,
                None::<StepError>,
            ),
        decreases candles.len() - i,
    {
        proof {
            assert(candles@.take(i + 1).drop_last() =~= candles@.take(i as int));
        }
        match handle_candle(database, candles[i], sim_config) {
            Ok(_) => {},
            Err(e) => {
                proof {
                    lemma_replay_stays_stopped(start, candles@, i + 1, *sim_config);
                }
                return Err(e);
            },
        }
        i = i + 1;
    }
    proof {
        assert(candles@.take(candles.len() as int) =~= candles@);
    }
    Ok(TradeState::get_last_state(database))
}

/// A replay that an error has stopped stays where it stopped.
proof fn lemma_replay_stays_stopped(
    tables: Tables,
    candles: Seq<Candle>,
    upto: int,
    config: SimConfig,
)
    requires
        0 <= upto <= candles.len(),
        replay_spec(tables, candles.take(upto), config).1 is Some,
    ensures
        replay_spec(tables, candles, config) == replay_spec(tables, candles.take(upto), config),
    decreases candles.len() - upto,
{
    if upto < candles.len() {
        assert(candles.take(upto + 1).drop_last() =~= candles.take(upto));
        lemma_replay_stays_stopped(tables, candles, upto + 1, config);
    } else {
        assert(candles.take(upto) =~= candles);
    }
}

/// Whether the ledger agrees with the deals: see `consistent`.
pub fn is_consistent(database: &Database) -> (r: bool)
    ensures
        r == consistent(database@),
{
    let ghost deals = database@.deals;
    if database.state_count() == 0 {
        return false;
    }
    let last = database.state_at(database.state_count() - 1);
    let n = database.deal_count();
    let mut awaited: usize = 0;
    let mut stuck: usize = 0;
    let mut i: usize = 0;
    proof {
        assert(deals.take(0) =~= Seq::<Deal>::empty());
    }
    while i < n
        invariant
            i <= n,
            n == deals.len(),
            deals == database@.deals,
            awaited == count_where(deals.take(i as int), is_awaited()),
            stuck == count_where(deals.take(i as int), is_stuck()),
            forall|j: int| 0 <= j < i ==> (#[trigger] deals[j]).bracket_ordered(),
        decreases n - i,
    {
        proof {
            lemma_count_take_next(deals, i as int, is_awaited());
            lemma_count_take_next(deals, i as int, is_stuck());
            lemma_count_bound(deals.take(i as int), is_awaited());
            lemma_count_bound(deals.take(i as int), is_stuck());
        }
        let deal = database.deal_at(i);
        if !(deal.buy_stop_price <= deal.buy_price && deal.buy_price < deal.base_price
            && deal.base_price < deal.sell_price && deal.sell_price <= deal.sell_stop_price) {
            return false;
        }
        match deal.status {
            DealStatus::Initial => {
                awaited = awaited + 1;
            },
            DealStatus::FilledBuy | DealStatus::FilledSell => {
                stuck = stuck + 1;
            },
            _ => {},
        }
        i = i + 1;
    }
    proof {
        assert(deals.take(n as int) =~= deals);
    }
    last.awaited_deals as i128 == awaited as i128 && last.stuck_deals as i128 == stuck as i128
}

/// What a replay has come to.
#[derive(Clone, Copy, Debug, PartialEq, Eq, Structural)]
pub struct Summary {
    /// The number of ledger states.
    pub states: usize,
    /// The number of deals that ended in profit.
    pub profits: usize,
    /// The number of deals that were stopped out.
    pub fails: usize,
    /// The number of deals that have not ended.
    pub open: usize,
    /// The largest number of awaited deals that a ledger state counts, and
    /// zero at least.
    pub max_awaited: i64,
    /// The largest number of stuck deals that a ledger state counts, and
    /// zero at least.
    pub max_stuck: i64,
}

/// The property of having ended in profit.
pub open spec fn is_profit() -> spec_fn(Deal) -> bool {
    |deal: Deal| deal.status is Profit
}

/// The property of having been stopped out.
pub open spec fn is_fail() -> spec_fn(Deal) -> bool {
    |deal: Deal| deal.status is FailBuy || deal.status is FailSell
}

/// The largest number of awaited deals that a ledger state counts, and zero
/// at least.
pub open spec fn peak_awaited_spec(states: Seq<TradeState>) -> int
    decreases states.len(),
{
    if states.len() == 0 {
        0
    } else {
        let before = peak_awaited_spec(states.drop_last());
        if states.last().awaited_deals > before {
            states.last().awaited_deals as int
        } else {
            before
        }
    }
}

/// The largest number of stuck deals that a ledger state counts, and zero
/// at least.
pub open spec fn peak_stuck_spec(states: Seq<TradeState>) -> int
    decreases states.len(),
{
    if states.len() == 0 {
        0
    } else {
        let before = peak_stuck_spec(states.drop_last());
        if states.last().stuck_deals > before {
            states.last().stuck_deals as int
        } else {
            before
        }
    }
}

/// Counts what a replay has come to: how many deals ended which way, and
/// the peaks of the two counters of the ledger.
pub fn summarize(database: &Database) -> (r: Summary)
    ensures
        r.states == database@.trade_states.len(),
        r.profits == count_where(database@.deals, is_profit()),
        r.fails == count_where(database@.deals, is_fail()),
        r.open == count_where(database@.deals, is_open()),
        r.max_awaited == peak_awaited_spec(database@.trade_states),
        r.max_stuck == peak_stuck_spec(database@.trade_states),
{
    let ghost deals = database@.deals;
    let ghost states = database@.trade_states;
    let mut profits: usize = 0;
    let mut fails: usize = 0;
    let mut open: usize = 0;
    let n = database.deal_count();
    let mut i: usize = 0;
    proof {
        assert(deals.take(0) =~= Seq::<Deal>::empty());
        assert(states.take(0) =~= Seq::<TradeState>::empty());
    }
    while i < n
        invariant
            i <= n,
            n == deals.len(),
            deals == database@.deals,
            profits == count_where(deals.take(i as int), is_profit()),
            fails == count_where(deals.take(i as int), is_fail()),
            open == count_where(deals.take(i as int), is_open()),
        decreases n - i,
    {
        proof {
            lemma_count_take_next(deals, i as int, is_profit());
            lemma_count_take_next(deals, i as int, is_fail());
            lemma_count_take_next(deals, i as int, is_open());
            lemma_count_bound(deals.take(i as int), is_profit());
            lemma_count_bound(deals.take(i as int), is_fail());
            lemma_count_bound(deals.take(i as int), is_open());
        }
        match database.deal_at(i).status {
            DealStatus::Profit => {
                profits = profits + 1;
            },
            DealStatus::FailBuy | DealStatus::FailSell => {
                fails = fails + 1;
            },
            _ => {
                open = open + 1;
            },
        }
        i = i + 1;
    }
    let m = database.state_count();
    let mut max_awaited: i64 = 0;
    let mut max_stuck: i64 = 0;
    let mut j: usize = 0;
    while j < m
        invariant
            j <= m,
            m == states.len(),
            states == database@.trade_states,
            max_awaited == peak_awaited_spec(states.take(j as int)),
            max_stuck == peak_stuck_spec(states.take(j as int)),
        decreases m - j,
    {
        proof {
            assert(states.take(j + 1).drop_last() =~= states.take(j as int));
        }
        let state = database.state_at(j);
        if state.awaited_deals > max_awaited {
            max_awaited = state.awaited_deals;
        }
        if state.stuck_deals > max_stuck {
            max_stuck = state.stuck_deals;
        }
        j = j + 1;
    }
    proof {
        assert(deals.take(n as int) =~= deals);
        assert(states.take(m as int) =~= states);
    }
    Summary { states: m, profits, fails, open, max_awaited, max_stuck }
}

} // verus!
