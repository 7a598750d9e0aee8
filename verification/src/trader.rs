//! The live loop: what to ask of the exchange next, given what it answered.
//!
//! One round of the loop waits for a bar that is newer than the last one
//! seen, asks for the resting orders and the balance, places a buy and a
//! sell order around the bar's open, and liquidates every resting buy order
//! whose price has fallen to half the bar's open or below. The trader only
//! decides: `Trader::trade` takes what happened and returns what to do next.
//! Whoever drives it performs the request and reports back.
use vstd::prelude::*;
use crate::candle::Candle;
use crate::count::{count_where, lemma_count_bound, lemma_count_take_next};
use crate::deal::{offset_spec, TieBreak};
use crate::dto::Order;
use crate::fixed::{fixed_add, in_range, increment, increment_spec, lemma_percent_monotonic};
use crate::fixed::{share_of, HUNDRED};
use crate::retry::{count_failure, one_more, RetryPolicy};
use crate::simulator::SimConfig;
use crate::sizing::{base_amount_spec, order_quantity, quantity_spec, size_fits, size_spec};
use crate::sizing::waited_count_spec;
use crate::stock::Side;

verus! {

/// The delay before a request is repeated, in milliseconds.
pub const RETRY_MS: u64 = 500;

/// The delay between two rounds of the loop, in milliseconds.
pub const TRADE_LOOP_MS: u64 = 100;

/// What the sizing rule gives for a round: the prices of the buy and the
/// sell order, the stop threshold behind each, and the size of both orders.
/// The live loop places the two orders; the stop thresholds are the levels
/// at which the rung counts as failed.
#[derive(Clone, Copy, Debug, PartialEq, Eq, Structural)]
pub struct DealValues {
    pub buy: i64,
    pub sell: i64,
    pub buy_stop: i64,
    pub sell_stop: i64,
    pub qty: i64,
}

/// Something to ask of the exchange.
#[derive(Debug)]
pub enum Request {
    GetCandles,
    GetOrders,
    GetBalance,
    PlaceOrder { side: Side, price: i64, qty: i64 },
    Liquidate { qty: i64 },
    CancelOrder { order_id: String },
    /// Nothing more: a request has failed too often.
    Stop,
}

/// What to do next: wait `delay_ms` milliseconds, then make `request`.
#[derive(Debug)]
pub struct Command {
    pub delay_ms: u64,
    pub request: Request,
}

/// What happened to the last request.
#[derive(Debug)]
pub enum Event {
    /// Nothing has been asked yet, or the driver has lost track.
    Start,
    /// The latest bars, in ascending order of timestamp.
    Candles(Vec<Candle>),
    /// The resting orders.
    Orders(Vec<Order>),
    /// The balance.
    Balance(i64),
    /// An order was placed, liquidated or cancelled.
    Done,
    /// The request failed.
    Failed,
}

/// Where the loop stands in its round.
#[derive(Debug)]
pub enum Phase {
    /// Waiting for a bar newer than the last one seen.
    AwaitCandles,
    /// Waiting for the resting orders.
    AwaitOrders { candle: Candle },
    /// Waiting for the balance.
    AwaitBalance { candle: Candle, orders: Vec<Order> },
    /// Making the requests of the round, one after the other; `next` is the
    /// one that is under way.
    Executing { requests: Vec<Request>, next: usize },
    /// Given up: a request has failed as often as the retry policy lets it.
    Stopped,
}

/// The trader: the parameters of the strategy and the state of the loop.
#[derive(Debug)]
pub struct Trader {
    pub ticker: String,
    pub padding_percent: i64,
    pub stop_percent: i64,
    pub capital_percent: i64,
    pub candle_size: i64,
    pub risk_deduction: i64,
    pub minimum_size: i64,
    pub order_decimals: usize,
    pub price_decimals: usize,
    pub last_candle_timestamp: i64,
    pub phase: Phase,
    /// How often a request that fails is made again.
    pub retry: RetryPolicy,
    /// How often the request under way has failed.
    pub failures: u64,
}

impl Clone for Request {
    fn clone(&self) -> (r: Self)
        ensures
            r == *self,
    {
        match self {
            Request::GetCandles => Request::GetCandles,
            Request::GetOrders => Request::GetOrders,
            Request::GetBalance => Request::GetBalance,
            Request::PlaceOrder { side, price, qty } => Request::PlaceOrder {
                side: *side,
                price: *price,
                qty: *qty,
            },
            Request::Liquidate { qty } => Request::Liquidate { qty: *qty },
            Request::CancelOrder { order_id } => Request::CancelOrder {
                order_id: order_id.clone(),
            },
            Request::Stop => Request::Stop,
        }
    }
}

/// The property of being a buy order.
pub open spec fn is_buy() -> spec_fn(Order) -> bool {
    |order: Order| order.side == Side::Buy
}

/// The property of being a sell order.
pub open spec fn is_sell() -> spec_fn(Order) -> bool {
    |order: Order| order.side == Side::Sell
}

/// Whether a resting order is dangling at `base_price`: it is a buy order
/// whose price is at most half of `base_price`.
pub open spec fn dangling(order: Order, base_price: int) -> bool {
    order.side == Side::Buy && order.price * 2 <= base_price
}

/// The requests that liquidate the dangling orders among `orders`: for each,
/// in the order of `orders`, a market close of its quantity and then its
/// cancellation.
pub open spec fn liquidation_spec(orders: Seq<Order>, base_price: int) -> Seq<Request>
    decreases orders.len(),
{
    if orders.len() == 0 {
        Seq::empty()
    } else {
        let before = liquidation_spec(orders.drop_last(), base_price);
        let order = orders.last();
        if dangling(order, base_price) {
            before.push(Request::Liquidate { qty: order.qty }).push(
                Request::CancelOrder { order_id: order.order_id },
            )
        } else {
            before
        }
    }
}

/// The two requests that place the orders of a round: the buy order, then
/// the sell order.
pub open spec fn placement_spec(values: DealValues) -> Seq<Request> {
    seq![
        Request::PlaceOrder { side: Side::Buy, price: values.buy, qty: values.qty },
        Request::PlaceOrder { side: Side::Sell, price: values.sell, qty: values.qty },
    ]
}

/// The latest of `candles` if it is newer than `last_seen`.
pub open spec fn new_candle_spec(candles: Seq<Candle>, last_seen: i64) -> Option<Candle> {
    if candles.len() > 0 && candles.last().timestamp > last_seen {
        Some(candles.last())
    } else {
        None
    }
}

/// The numbers of buy and of sell orders among `orders`.
pub fn count_sides(orders: &Vec<Order>) -> (r: (usize, usize))
    ensures
        r.0 == count_where(orders@, is_buy()),
        r.1 == count_where(orders@, is_sell()),
{
    let mut buy_count: usize = 0;
    let mut sell_count: usize = 0;
    let mut i: usize = 0;
    proof {
        assert(orders@.take(0) =~= Seq::<Order>::empty());
    }
    while i < orders.len()
        invariant
            i <= orders.len(),
            buy_count == count_where(orders@.take(i as int), is_buy()),
            sell_count == count_where(orders@.take(i as int), is_sell()),
        decreases orders.len() - i,
    {
        proof {
            lemma_count_take_next(orders@, i as int, is_buy());
            lemma_count_take_next(orders@, i as int, is_sell());
            lemma_count_bound(orders@.take(i as int), is_buy());
            lemma_count_bound(orders@.take(i as int), is_sell());
        }
        match orders[i].side {
            Side::Buy => {
                buy_count = buy_count + 1;
            },
            Side::Sell => {
                sell_count = sell_count + 1;
            },
        }
        i = i + 1;
    }
    proof {
        assert(orders@.take(orders.len() as int) =~= orders@);
    }
    (buy_count, sell_count)
}

impl Phase {
    /// A phase that is under way has a request under way.
    pub open spec fn wf(self) -> bool {
        self matches Phase::Executing { requests, next } ==> next < requests.len()
    }

    /// The request that the phase waits for.
    pub open spec fn pending(self) -> Request {
        match self {
            Phase::AwaitCandles => Request::GetCandles,
            Phase::AwaitOrders { .. } => Request::GetOrders,
            Phase::AwaitBalance { .. } => Request::GetBalance,
            Phase::Executing { requests, next } => requests@[next as int],
            Phase::Stopped => Request::Stop,
        }
    }
}

impl Trader {
    /// The percentages lie in range, the stop is at least as wide as the
    /// padding, the risk deduction is not negative, the minimum size is the
    /// increment of the order decimals, and the phase is well formed.
    pub open spec fn wf(self) -> bool {
        &&& 0 <= self.padding_percent <= self.stop_percent <= HUNDRED
        &&& 0 <= self.capital_percent < HUNDRED
        &&& 0 <= self.risk_deduction
        &&& self.minimum_size == increment_spec(self.order_decimals as nat)
        &&& self.phase.wf()
    }

    /// Whether the trader is well formed.
    pub fn is_wf(&self) -> (r: bool)
        ensures
            r == self.wf(),
    {
        let phase_wf = match &self.phase {
            Phase::Executing { requests, next } => *next < requests.len(),
            _ => true,
        };
        0 <= self.padding_percent && self.padding_percent <= self.stop_percent && self.stop_percent
            <= HUNDRED && 0 <= self.capital_percent && self.capital_percent < HUNDRED && 0
            <= self.risk_deduction && self.minimum_size == increment(self.order_decimals)
            && phase_wf
    }

    /// A trader that has seen no bar later than `now_ms` and waits for one.
    /// Its minimum size is `10^-order_decimals`, and it repeats a request
    /// that fails after `RETRY_MS`, without bound.
    pub fn new(
        ticker: String,
        padding_percent: i64,
        stop_percent: i64,
        capital_percent: i64,
        candle_size: i64,
        risk_deduction: i64,
        order_decimals: usize,
        price_decimals: usize,
        now_ms: i64,
    ) -> (r: Self)
        ensures
            r.ticker == ticker,
            r.padding_percent == padding_percent,
            r.stop_percent == stop_percent,
            r.capital_percent == capital_percent,
            r.candle_size == candle_size,
            r.risk_deduction == risk_deduction,
            r.minimum_size == increment_spec(order_decimals as nat),
            r.order_decimals == order_decimals,
            r.price_decimals == price_decimals,
            r.last_candle_timestamp == now_ms,
            r.phase == Phase::AwaitCandles,
            r.retry == (RetryPolicy { delay_ms: RETRY_MS, max_attempts: 0 }),
            r.failures == 0,
    {
        let minimum_size = increment(order_decimals);
        Self {
            ticker,
            padding_percent,
            stop_percent,
            capital_percent,
            candle_size,
            risk_deduction,
            minimum_size,
            order_decimals,
            price_decimals,
            last_candle_timestamp: now_ms,
            phase: Phase::AwaitCandles,
            retry: RetryPolicy::unbounded(RETRY_MS),
            failures: 0,
        }
    }

    /// Whether the values of a round can be computed: the upper stop
    /// threshold and the size before reduction fit.
    pub open spec fn values_fit(self, base_price: i64, balance: i64) -> bool {
        &&& in_range(base_price + offset_spec(base_price as int, self.stop_percent as int))
        &&& in_range(
            base_amount_spec(balance as int, base_price as int, self.capital_percent as int),
        )
    }

    /// The values of a round around `base_price`, while `buy_count` buy
    /// orders and `sell_count` sell orders rest: the buy and sell prices lie
    /// `padding_percent` of the base price away from it, the stop thresholds
    /// `stop_percent`, and the size is `quantity_spec`.
    pub open spec fn values_spec(
        self,
        base_price: i64,
        buy_count: nat,
        sell_count: nat,
        balance: i64,
    ) -> DealValues {
        DealValues {
            buy: (base_price - offset_spec(base_price as int, self.padding_percent as int)) as i64,
            sell: (base_price + offset_spec(base_price as int, self.padding_percent as int)) as i64,
            buy_stop: (base_price - offset_spec(base_price as int, self.stop_percent as int)) as i64,
            sell_stop: (base_price + offset_spec(base_price as int, self.stop_percent as int))
                as i64,
            qty: quantity_spec(
                balance as int,
                base_price as int,
                waited_count_spec(buy_count, sell_count),
                self.capital_percent as int,
                self.risk_deduction as int,
                self.minimum_size as int,
            ) as i64,
        }
    }

    /// The settings of the trader as parameters of the strategy, with the
    /// given fee and tie-break, which sizing does not read.
    pub open spec fn strategy(self, fee_percent: i64, tie_break: TieBreak) -> SimConfig {
        SimConfig {
            padding_percent: self.padding_percent,
            stop_percent: self.stop_percent,
            capital_percent: self.capital_percent,
            fee_percent,
            risk_deduction: self.risk_deduction,
            order_decimals: self.order_decimals,
            tie_break,
        }
    }

    /// The live loop and the replay size a rung alike: the values of a round
    /// are what `sizing::size` gives for the same settings.
    pub proof fn lemma_values_are_the_sizing(
        self,
        base_price: i64,
        buy_count: nat,
        sell_count: nat,
        balance: i64,
        fee_percent: i64,
        tie_break: TieBreak,
    )
        requires
            self.wf(),
        ensures
            self.values_fit(base_price, balance) == size_fits(
                balance,
                base_price,
                self.strategy(fee_percent, tie_break),
            ),
            ({
                let values = self.values_spec(base_price, buy_count, sell_count, balance);
                let sizing = size_spec(
                    balance,
                    base_price,
                    buy_count,
                    sell_count,
                    self.strategy(fee_percent, tie_break),
                );
                &&& values.qty == sizing.quantity
                &&& values.buy == sizing.buy_price
                &&& values.sell == sizing.sell_price
                &&& values.buy_stop == sizing.buy_stop_price
                &&& values.sell_stop == sizing.sell_stop_price
            }),
    {
    }

    /// The values of a round: see `values_spec`. `None` where the upper
    /// stop threshold or the size before reduction does not fit.
    ///
    /// The thresholds lie in order around the base price, and the size is
    /// at least the smallest order.
    pub fn deal_values(
        &self,
        base_price: i64,
        buy_count: usize,
        sell_count: usize,
        balance: i64,
    ) -> (r: Option<DealValues>)
        requires
            self.wf(),
            base_price > 0,
        ensures
            r == if self.values_fit(base_price, balance) {
                Some(self.values_spec(base_price, buy_count as nat, sell_count as nat, balance))
            } else {
                None
            },
            r matches Some(values) ==> {
                &&& values.buy_stop <= values.buy <= base_price
                &&& base_price <= values.sell <= values.sell_stop
                &&& values.qty >= self.minimum_size
            },
    {
        proof {
            lemma_percent_monotonic(
                base_price as int,
                self.padding_percent as int,
                self.stop_percent as int,
            );
        }
        let padding_size = share_of(base_price, self.padding_percent);
        let stop_size = share_of(base_price, self.stop_percent);
        let sell_stop = fixed_add(base_price, stop_size)?;
        let buy = base_price - padding_size;
        let sell = base_price + padding_size;
        let buy_stop = base_price - stop_size;
        let qty = order_quantity(
            balance,
            base_price,
            buy_count,
            sell_count,
            self.capital_percent,
            self.risk_deduction,
            self.minimum_size,
        )?;
        Some(DealValues { buy, sell, buy_stop, sell_stop, qty })
    }

    /// The values of a round, given the orders that rest: the prices of the
    /// buy and the sell order, the stop threshold behind each, and the size.
    pub fn calc_deal_values(&self, base_price: i64, orders: &Vec<Order>, balance: i64) -> (r:
        Option<DealValues>)
        requires
            self.wf(),
            base_price > 0,
        ensures
            r == if self.values_fit(base_price, balance) {
                Some(
                    self.values_spec(
                        base_price,
                        count_where(orders@, is_buy()),
                        count_where(orders@, is_sell()),
                        balance,
                    ),
                )
            } else {
                None
            },
            r matches Some(values) ==> {
                &&& values.buy_stop <= values.buy <= base_price
                &&& base_price <= values.sell <= values.sell_stop
                &&& values.qty >= self.minimum_size
            },
    {
        let (buy_count, sell_count) = count_sides(orders);
        self.deal_values(base_price, buy_count, sell_count, balance)
    }

    /// The requests that liquidate the dangling orders: see
    /// `liquidation_spec`.
    pub fn liquidate_dangling_orders(base_price: i64, orders: &Vec<Order>) -> (r: Vec<Request>)
        ensures
            r@ == liquidation_spec(orders@, base_price as int),
    {
        let mut requests: Vec<Request> = Vec::new();
        Self::add_liquidations(&mut requests, base_price, orders);
        requests
    }

    fn add_liquidations(requests: &mut Vec<Request>, base_price: i64, orders: &Vec<Order>)
        ensures
            final(requests)@ == old(requests)@ + liquidation_spec(orders@, base_price as int),
    {
        let mut i: usize = 0;
        proof {
            assert(orders@.take(0) =~= Seq::<Order>::empty());
            assert(requests@ =~= old(requests)@ + Seq::<Request>::empty());
        }
        while i < orders.len()
            invariant
                i <= orders.len(),
                requests@ == old(requests)@ + liquidation_spec(
                    orders@.take(i as int),
                    base_price as int,
                ),
            decreases orders.len() - i,
        {
            proof {
                assert(orders@.take(i + 1).drop_last() =~= orders@.take(i as int));
            }
            let ghost before = requests@;
            let order = &orders[i];
            let is_buy = match order.side {
                Side::Buy => true,
                Side::Sell => false,
            };
            if is_buy && (order.price as i128) * 2 <= base_price as i128 {
                requests.push(Request::Liquidate { qty: order.qty });
                requests.push(Request::CancelOrder { order_id: order.order_id.clone() });
                proof {
                    let tail = liquidation_spec(orders@.take(i as int), base_price as int);
                    assert(requests@ =~= old(requests)@ + tail.push(
                        Request::Liquidate { qty: order.qty },
                    ).push(Request::CancelOrder { order_id: order.order_id }));
                }
            }
            i = i + 1;
        }
        proof {
            assert(orders@.take(orders.len() as int) =~= orders@);
        }
    }

    /// The latest of `candles` if it is newer than the last bar seen; the
    /// trader then takes it as the last bar seen.
    pub fn get_new_candle(&mut self, candles: &Vec<Candle>) -> (r: Option<Candle>)
        ensures
            r == new_candle_spec(candles@, old(self).last_candle_timestamp),
            final(self).last_candle_timestamp == match r {
                Some(candle) => candle.timestamp,
                None => old(self).last_candle_timestamp,
            },
            final(self).ticker == old(self).ticker,
            final(self).padding_percent == old(self).padding_percent,
            final(self).stop_percent == old(self).stop_percent,
            final(self).capital_percent == old(self).capital_percent,
            final(self).candle_size == old(self).candle_size,
            final(self).risk_deduction == old(self).risk_deduction,
            final(self).minimum_size == old(self).minimum_size,
            final(self).order_decimals == old(self).order_decimals,
            final(self).price_decimals == old(self).price_decimals,
            final(self).phase == old(self).phase,
            final(self).retry == old(self).retry,
            final(self).failures == old(self).failures,
    {
        if candles.len() == 0 {
            return None;
        }
        let candle = candles[candles.len() - 1];
        if candle.timestamp > self.last_candle_timestamp {
            self.last_candle_timestamp = candle.timestamp;
            Some(candle)
        } else {
            None
        }
    }

    /// The requests of a round around the open of `candle`: the two
    /// placements, where the orders can be computed, and then the
    /// liquidations.
    pub open spec fn round_spec(self, candle: Candle, orders: Seq<Order>, balance: i64) -> Seq<
        Request,
    > {
        let placements = if candle.open > 0 && self.values_fit(candle.open, balance) {
            placement_spec(
                self.values_spec(
                    candle.open,
                    count_where(orders, is_buy()),
                    count_where(orders, is_sell()),
                    balance,
                ),
            )
        } else {
            Seq::empty()
        };
        placements + liquidation_spec(orders, candle.open as int)
    }

    /// The requests of a round: see `round_spec`.
    pub fn plan_round(&self, candle: &Candle, orders: &Vec<Order>, balance: i64) -> (r: Vec<
        Request,
    >)
        requires
            self.wf(),
        ensures
            r@ == self.round_spec(*candle, orders@, balance),
    {
        let mut requests: Vec<Request> = Vec::new();
        if candle.open > 0 {
            match self.calc_deal_values(candle.open, orders, balance) {
                Some(values) => {
                    requests.push(
                        Request::PlaceOrder { side: Side::Buy, price: values.buy, qty: values.qty },
                    );
                    requests.push(
                        Request::PlaceOrder {
                            side: Side::Sell,
                            price: values.sell,
                            qty: values.qty,
                        },
                    );
                    proof {
                        assert(requests@ =~= placement_spec(values));
                    }
                },
                None => {},
            }
        }
        Self::add_liquidations(&mut requests, candle.open, orders);
        requests
    }

    fn command(delay_ms: u64, request: Request) -> (r: Command)
        ensures
            r.delay_ms == delay_ms,
            r.request == request,
    {
        Command { delay_ms, request }
    }

    /// The trader with another phase and number of failures, and all else
    /// as it is.
    pub open spec fn moved_to(self, phase: Phase, failures: u64) -> Trader {
        Trader { phase, failures, ..self }
    }

    /// One step of the live loop: takes what happened to the last request
    /// and returns what to do next.
    ///
    /// An event that answers the request under way moves the loop on, and
    /// the next request is made at once; between two rounds the loop waits
    /// `TRADE_LOOP_MS`. A list of bars that holds no bar newer than the last
    /// one seen is asked for again after `RETRY_MS`. `Start` repeats the
    /// request under way at once. Any other event is a failure of the
    /// request under way: it is counted, and the request is repeated after
    /// the delay of the retry policy, or, where the policy allows no other
    /// attempt, the loop stops for good.
    pub fn trade(&mut self, event: Event) -> (r: Command)
        requires
            old(self).wf(),
        ensures
            final(self).wf(),
            r.request == final(self).phase.pending(),
            match (old(self).phase, event) {
                (Phase::Stopped, _) => *final(self) == *old(self) && r.delay_ms == 0,
                (_, Event::Start) => *final(self) == *old(self) && r.delay_ms == 0,
                (Phase::AwaitCandles, Event::Candles(candles)) => match new_candle_spec(
                    candles@,
                    old(self).last_candle_timestamp,
                ) {
                    Some(candle) => {
                        &&& *final(self) == (Trader {
                            last_candle_timestamp: candle.timestamp,
                            ..old(self).moved_to(Phase::AwaitOrders { candle }, 0)
                        })
                        &&& r.delay_ms == 0
                    },
                    None => {
                        &&& *final(self) == old(self).moved_to(Phase::AwaitCandles, 0)
                        &&& r.delay_ms == RETRY_MS
                    },
                },
                (Phase::AwaitOrders { candle }, Event::Orders(orders)) => {
                    &&& *final(self) == old(self).moved_to(Phase::AwaitBalance { candle, orders }, 0)
                    &&& r.delay_ms == 0
                },
                (Phase::AwaitBalance { candle, orders }, Event::Balance(balance)) => {
                    let round = old(self).round_spec(candle, orders@, balance);
                    if round.len() == 0 {
                        &&& *final(self) == old(self).moved_to(Phase::AwaitCandles, 0)
                        &&& r.delay_ms == TRADE_LOOP_MS
                    } else {
                        &&& final(self).phase matches Phase::Executing { requests, next }
                        &&& requests@ == round
                        &&& next == 0
                        &&& *final(self) == old(self).moved_to(final(self).phase, 0)
                        &&& r.delay_ms == 0
                    }
                },
                (Phase::Executing { requests, next }, Event::Done) => {
                    if next + 1 < requests.len() {
                        &&& *final(self) == old(self).moved_to(
                            Phase::Executing { requests, next: (next + 1) as usize },
                            0,
                        )
                        &&& r.delay_ms == 0
                    } else {
                        &&& *final(self) == old(self).moved_to(Phase::AwaitCandles, 0)
                        &&& r.delay_ms == TRADE_LOOP_MS
                    }
                },
                (phase, _) => {
                    let failures = one_more(old(self).failures);
                    if old(self).retry.allows(failures) {
                        &&& *final(self) == old(self).moved_to(phase, failures)
                        &&& r.delay_ms == old(self).retry.delay_ms
                    } else {
                        &&& *final(self) == old(self).moved_to(Phase::Stopped, failures)
                        &&& r.delay_ms == 0
                    }
                },
            },
    {
        let mut phase = Phase::AwaitCandles;
        core::mem::swap(&mut self.phase, &mut phase);
        match (phase, event) {
            (Phase::Stopped, _) => {
                self.phase = Phase::Stopped;
                Self::command(0, Request::Stop)
            },
            (phase, Event::Start) => {
                let request = Self::request_of(&phase);
                self.phase = phase;
                Self::command(0, request)
            },
            (Phase::AwaitCandles, Event::Candles(candles)) => {
                self.failures = 0;
                match self.get_new_candle(&candles) {
                    Some(candle) => {
                        self.phase = Phase::AwaitOrders { candle };
                        Self::command(0, Request::GetOrders)
                    },
                    None => Self::command(RETRY_MS, Request::GetCandles),
                }
            },
            (Phase::AwaitOrders { candle }, Event::Orders(orders)) => {
                self.failures = 0;
                self.phase = Phase::AwaitBalance { candle, orders };
                Self::command(0, Request::GetBalance)
            },
            (Phase::AwaitBalance { candle, orders }, Event::Balance(balance)) => {
                self.failures = 0;
                let requests = self.plan_round(&candle, &orders, balance);
                if requests.len() == 0 {
                    Self::command(TRADE_LOOP_MS, Request::GetCandles)
                } else {
                    let first = requests[0].clone();
                    self.phase = Phase::Executing { requests, next: 0 };
                    Self::command(0, first)
                }
            },
            (Phase::Executing { requests, next }, Event::Done) => {
                self.failures = 0;
                if next + 1 < requests.len() {
                    let request = requests[next + 1].clone();
                    self.phase = Phase::Executing { requests, next: next + 1 };
                    Self::command(0, request)
                } else {
                    Self::command(TRADE_LOOP_MS, Request::GetCandles)
                }
            },
            (phase, _) => {
                self.failures = count_failure(self.failures);
                match self.retry.next_delay(self.failures) {
                    Some(delay_ms) => {
                        let request = Self::request_of(&phase);
                        self.phase = phase;
                        Self::command(delay_ms, request)
                    },
                    None => {
                        self.phase = Phase::Stopped;
                        Self::command(0, Request::Stop)
                    },
                }
            },
        }
    }

    fn request_of(phase: &Phase) -> (r: Request)
        requires
            phase.wf(),
        ensures
            r == phase.pending(),
    {
        match phase {
            Phase::AwaitCandles => Request::GetCandles,
            Phase::AwaitOrders { .. } => Request::GetOrders,
            Phase::AwaitBalance { .. } => Request::GetBalance,
            Phase::Executing { requests, next } => requests[*next].clone(),
            Phase::Stopped => Request::Stop,
        }
    }
}

} // verus!
