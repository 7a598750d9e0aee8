//! The order-book replay: a coarser model in which every bar puts one buy
//! and one sell order on the book, and a bar fills or drops the orders that
//! its range reaches.
//!
//! A resting sell order is filled when the bar's high is above its price. A
//! resting buy order is dropped as stale when the bar's high is above twice
//! its price, whatever the bar's low; a buy order that is not dropped is
//! filled when the bar's low is below its price. After that the bar adds its
//! own pair of orders around its open, sized for the numbers of orders that
//! rested before the bar.
use vstd::prelude::*;
use crate::candle::Candle;
use crate::count::{count_where, lemma_count_take_next};
use crate::dates::{day_start_millis, parse_day_start};
use crate::simulator::START_CAPITAL;
use crate::stock::Side;
use crate::table::{lemma_filter_sorted, lemma_upsert_sorted, sorted, upsert, upsert_spec, Keyed};
use crate::trader::{DealValues, Trader};

verus! {

/// An order on the book. `timestamp` is the time of the bar that placed it
/// and identifies it on its side of the book.
#[derive(Clone, Copy, Debug, PartialEq, Eq, Structural)]
pub struct RestingOrder {
    pub timestamp: i64,
    pub side: Side,
    pub price: i64,
    pub qty: i64,
}

impl Keyed for RestingOrder {
    open spec fn key(&self) -> int {
        self.timestamp as int
    }

    fn key_of(&self) -> (k: i64) {
        self.timestamp
    }
}

/// The book and what the replay has counted so far.
pub struct Book {
    pub sell_orders: Seq<RestingOrder>,
    pub buy_orders: Seq<RestingOrder>,
    /// The largest number of orders that rested at the end of a bar.
    pub max_stuck: nat,
    /// The largest number of buy orders that rested at the end of a bar.
    pub max_stuck_buy: nat,
    /// The largest number of sell orders that rested at the end of a bar.
    pub max_stuck_sell: nat,
    /// The number of buy orders dropped as stale.
    pub drop_count: nat,
    /// The number of orders filled.
    pub fill_count: nat,
}

/// The order-book replay.
pub struct Simulator {
    pub capital: i64,
    pub max_stuck: usize,
    pub max_stuck_buy: usize,
    pub max_stuck_sell: usize,
    pub drop_count: usize,
    pub fill_count: usize,
    pub trader: Trader,
    pub simulate_from_ms: i64,
    pub sell_orders: Vec<RestingOrder>,
    pub buy_orders: Vec<RestingOrder>,
}

/// The property of a sell order that a bar with this high fills.
pub open spec fn sell_filled(high: int) -> spec_fn(RestingOrder) -> bool {
    |order: RestingOrder| high > order.price
}

/// The property of a sell order that a bar with this high leaves resting.
pub open spec fn sell_rests(high: int) -> spec_fn(RestingOrder) -> bool {
    |order: RestingOrder| !(high > order.price)
}

/// The property of a buy order that a bar with this high drops as stale:
/// the high is above twice its price, whatever the bar's low.
pub open spec fn buy_stale(high: int) -> spec_fn(RestingOrder) -> bool {
    |order: RestingOrder| high > 2 * order.price
}

/// The property of a buy order that a bar with this high and low fills: it
/// is not dropped as stale, and the low is below its price.
pub open spec fn buy_filled(high: int, low: int) -> spec_fn(RestingOrder) -> bool {
    |order: RestingOrder| low < order.price && !(high > 2 * order.price)
}

/// The property of a buy order that a bar with this high and low leaves
/// resting.
pub open spec fn buy_rests(high: int, low: int) -> spec_fn(RestingOrder) -> bool {
    |order: RestingOrder| !(low < order.price) && !(high > 2 * order.price)
}

/// A bar does exactly one of three things to a buy order: it drops it as
/// stale, fills it, or leaves it resting. An order whose price is below half
/// the bar's high is dropped and not filled, whatever the bar's low.
pub proof fn lemma_buy_order_fate(order: RestingOrder, high: int, low: int)
    ensures
        buy_stale(high)(order) || buy_filled(high, low)(order) || buy_rests(high, low)(order),
        !(buy_stale(high)(order) && buy_filled(high, low)(order)),
        !(buy_stale(high)(order) && buy_rests(high, low)(order)),
        !(buy_filled(high, low)(order) && buy_rests(high, low)(order)),
        high > 2 * order.price ==> buy_stale(high)(order) && !buy_filled(high, low)(order),
{
}

/// A bar whose high is above twice the price of the one buy order on the
/// book takes the order off the book and counts it as dropped, not as
/// filled, whatever the bar's low.
pub proof fn lemma_stale_order_is_dropped(book: Book, candle: Candle)
    requires
        book.buy_orders.len() == 1,
        book.sell_orders.len() == 0,
        candle.high > 2 * book.buy_orders[0].price,
    ensures
        collide_spec(book, candle).buy_orders.len() == 0,
        collide_spec(book, candle).drop_count == book.drop_count + 1,
        collide_spec(book, candle).fill_count == book.fill_count,
{
    reveal_with_fuel(Seq::filter, 2);
    reveal_with_fuel(count_where, 2);
    let buys = book.buy_orders;
    assert(buys.drop_last() =~= Seq::<RestingOrder>::empty());
    assert(buys.last() == buys[0]);
    assert(book.sell_orders =~= Seq::<RestingOrder>::empty());
}

/// The larger of two numbers.
pub open spec fn larger(a: nat, b: nat) -> nat {
    if a >= b {
        a
    } else {
        b
    }
}

/// The book after a bar has met the resting orders: the filled and the
/// stale orders are gone and counted.
pub open spec fn collide_spec(book: Book, candle: Candle) -> Book {
    Book {
        sell_orders: book.sell_orders.filter(sell_rests(candle.high as int)),
        buy_orders: book.buy_orders.filter(buy_rests(candle.high as int, candle.low as int)),
        drop_count: book.drop_count + count_where(book.buy_orders, buy_stale(candle.high as int)),
        fill_count: book.fill_count + count_where(book.sell_orders, sell_filled(candle.high as int))
            + count_where(
            book.buy_orders,
            buy_filled(candle.high as int, candle.low as int),
        ),
        ..book
    }
}

/// The pair of orders that a bar adds, or `None` where the bar's open is not
/// positive or the orders cannot be computed.
pub open spec fn pair_spec(
    trader: Trader,
    capital: i64,
    candle: Candle,
    buy_count: nat,
    sell_count: nat,
) -> Option<(RestingOrder, RestingOrder)> {
    if candle.open > 0 && trader.values_fit(candle.open, capital) {
        let values = trader.values_spec(candle.open, buy_count, sell_count, capital);
        Some(
            (
                RestingOrder {
                    timestamp: candle.timestamp,
                    side: Side::Sell,
                    price: values.sell,
                    qty: values.qty,
                },
                RestingOrder {
                    timestamp: candle.timestamp,
                    side: Side::Buy,
                    price: values.buy,
                    qty: values.qty,
                },
            ),
        )
    } else {
        None
    }
}

/// The book after the pair of a bar has been added. Each order takes the
/// place of the order with the bar's timestamp on its side, if there is one.
pub open spec fn create_spec(
    book: Book,
    trader: Trader,
    capital: i64,
    candle: Candle,
    buy_count: nat,
    sell_count: nat,
) -> Book {
    match pair_spec(trader, capital, candle, buy_count, sell_count) {
        Some((sell, buy)) => Book {
            sell_orders: upsert_spec(book.sell_orders, sell),
            buy_orders: upsert_spec(book.buy_orders, buy),
            ..book
        },
        None => book,
    }
}

/// The book with its three peaks raised to the numbers of orders that rest.
pub open spec fn measure_spec(book: Book) -> Book {
    Book {
        max_stuck: larger(book.max_stuck, book.buy_orders.len() + book.sell_orders.len()),
        max_stuck_buy: larger(book.max_stuck_buy, book.buy_orders.len()),
        max_stuck_sell: larger(book.max_stuck_sell, book.sell_orders.len()),
        ..book
    }
}

/// The book after one bar: the bar meets the resting orders, adds its pair,
/// sized for the numbers of orders that rested before it, and the peaks are
/// measured.
pub open spec fn bar_spec(book: Book, trader: Trader, capital: i64, candle: Candle) -> Book {
    measure_spec(
        create_spec(
            collide_spec(book, candle),
            trader,
            capital,
            candle,
            book.buy_orders.len(),
            book.sell_orders.len(),
        ),
    )
}

/// The book after a history of bars, taken in order.
pub open spec fn run_spec(book: Book, trader: Trader, capital: i64, candles: Seq<Candle>) -> Book
    decreases candles.len(),
{
    if candles.len() == 0 {
        book
    } else {
        bar_spec(run_spec(book, trader, capital, candles.drop_last()), trader, capital, candles.last())
    }
}

/// The bars of a history from `from_ms` on.
pub open spec fn from_spec(from_ms: int) -> spec_fn(Candle) -> bool {
    |candle: Candle| candle.timestamp >= from_ms
}

impl View for Simulator {
    type V = Book;

    open spec fn view(&self) -> Book {
        Book {
            sell_orders: self.sell_orders@,
            buy_orders: self.buy_orders@,
            max_stuck: self.max_stuck as nat,
            max_stuck_buy: self.max_stuck_buy as nat,
            max_stuck_sell: self.max_stuck_sell as nat,
            drop_count: self.drop_count as nat,
            fill_count: self.fill_count as nat,
        }
    }
}

impl Simulator {
    /// Both sides of the book are in ascending order of timestamp, and the
    /// trader is well formed.
    pub open spec fn wf(&self) -> bool {
        &&& sorted(self.sell_orders@)
        &&& sorted(self.buy_orders@)
        &&& self.trader.wf()
    }

    /// Whether the counters have room for `bars` more bars: every order on
    /// the book can still be counted as filled or dropped, and every bar can
    /// add its pair.
    pub open spec fn has_room(&self, bars: nat) -> bool {
        &&& self.fill_count + self.buy_orders.len() + self.sell_orders.len() + 2 * bars
            <= usize::MAX
        &&& self.drop_count + self.buy_orders.len() + bars <= usize::MAX
    }

    /// Whether the counters have room for `bars` more bars.
    pub fn room_for(&self, bars: usize) -> (r: bool)
        ensures
            r == self.has_room(bars as nat),
    {
        let resting = self.buy_orders.len() as u128 + self.sell_orders.len() as u128;
        self.fill_count as u128 + resting + 2 * (bars as u128) <= usize::MAX as u128
            && self.drop_count as u128 + self.buy_orders.len() as u128 + bars as u128
            <= usize::MAX as u128
    }

    /// A replay with an empty book and the starting capital, from the start
    /// of the day that `simulate_from` names. `None` where `simulate_from`
    /// does not name a day.
    pub fn new(trader: Trader, simulate_from: &str) -> (r: Option<Simulator>)
        ensures
            match r {
                Some(simulator) => {
                    &&& day_start_millis(simulate_from@) == Some(simulator.simulate_from_ms as int)
                    &&& simulator.trader == trader
                    &&& simulator.capital == START_CAPITAL
                    &&& simulator@ == (Book {
                        sell_orders: Seq::empty(),
                        buy_orders: Seq::empty(),
                        max_stuck: 0,
                        max_stuck_buy: 0,
                        max_stuck_sell: 0,
                        drop_count: 0,
                        fill_count: 0,
                    })
                    &&& trader.wf() ==> simulator.wf()
                },
                None => day_start_millis(simulate_from@) is None,
            },
    {
        match parse_day_start(simulate_from) {
            Some(simulate_from_ms) => Some(Self::starting_at(trader, simulate_from_ms)),
            None => None,
        }
    }

    /// A replay with an empty book and the starting capital, from
    /// `simulate_from_ms` on.
    pub fn starting_at(trader: Trader, simulate_from_ms: i64) -> (r: Simulator)
        ensures
            r.simulate_from_ms == simulate_from_ms,
            r.trader == trader,
            r.capital == START_CAPITAL,
            r@ == (Book {
                sell_orders: Seq::empty(),
                buy_orders: Seq::empty(),
                max_stuck: 0,
                max_stuck_buy: 0,
                max_stuck_sell: 0,
                drop_count: 0,
                fill_count: 0,
            }),
            trader.wf() ==> r.wf(),
    {
        Simulator {
            capital: START_CAPITAL,
            trader,
            simulate_from_ms,
            sell_orders: Vec::new(),
            buy_orders: Vec::new(),
            max_stuck: 0,
            max_stuck_buy: 0,
            max_stuck_sell: 0,
            drop_count: 0,
            fill_count: 0,
        }
    }

    /// The bars of `history` from the start of the replay on, in the order
    /// of `history`.
    pub fn get_candles(&self, history: &Vec<Candle>) -> (r: Vec<Candle>)
        ensures
            r@ == history@.filter(from_spec(self.simulate_from_ms as int)),
    {
        let mut candles: Vec<Candle> = Vec::new();
        let mut i: usize = 0;
        proof {
            reveal(Seq::filter);
            assert(history@.take(0) =~= Seq::<Candle>::empty());
        }
        while i < history.len()
            invariant
                i <= history.len(),
                candles@ == history@.take(i as int).filter(from_spec(self.simulate_from_ms as int)),
            decreases history.len() - i,
        {
            proof {
                reveal(Seq::filter);
                assert(history@.take(i + 1).drop_last() =~= history@.take(i as int));
            }
            if history[i].timestamp >= self.simulate_from_ms {
                candles.push(history[i]);
            }
            i = i + 1;
        }
        proof {
            assert(history@.take(history.len() as int) =~= history@);
        }
        candles
    }

    /// Lets a bar meet the resting orders: see `collide_spec`.
    ///
    /// A sell order is filled where the bar's high is above its price. A buy
    /// order is dropped as stale where the bar's high is above twice its
    /// price, whatever the bar's low, and counts as dropped, not as filled;
    /// any other buy order is filled where the bar's low is below its price.
    /// Filled and dropped orders leave the book.
    pub fn handle_collision(&mut self, candle: &Candle)
        requires
            old(self).wf(),
            old(self).has_room(0),
        ensures
            final(self).wf(),
            final(self)@ == collide_spec(old(self)@, *candle),
            final(self).trader == old(self).trader,
            final(self).capital == old(self).capital,
            final(self).simulate_from_ms == old(self).simulate_from_ms,
            final(self).fill_count + final(self).buy_orders.len() + final(self).sell_orders.len()
                <= old(self).fill_count + old(self).buy_orders.len() + old(self).sell_orders.len(),
            final(self).drop_count + final(self).buy_orders.len() <= old(self).drop_count + old(
                self,
            ).buy_orders.len(),
    {
        let ghost sells = self.sell_orders@;
        let ghost buys = self.buy_orders@;
        let ghost high = candle.high as int;
        let ghost low = candle.low as int;
        let mut kept_sells: Vec<RestingOrder> = Vec::new();
        let mut filled: usize = 0;
        let mut i: usize = 0;
        proof {
            reveal(Seq::filter);
            assert(sells.take(0) =~= Seq::<RestingOrder>::empty());
            assert(buys.take(0) =~= Seq::<RestingOrder>::empty());
        }
        while i < self.sell_orders.len()
            invariant
                i <= self.sell_orders.len(),
                self.sell_orders@ == sells,
                high == candle.high,
                kept_sells@ == sells.take(i as int).filter(sell_rests(high)),
                filled == count_where(sells.take(i as int), sell_filled(high)),
                filled + kept_sells.len() == i,
            decreases self.sell_orders.len() - i,
        {
            proof {
                reveal(Seq::filter);
                assert(sells.take(i + 1).drop_last() =~= sells.take(i as int));
                lemma_count_take_next(sells, i as int, sell_filled(high));
            }
            let order = self.sell_orders[i];
            if candle.high > order.price {
                filled = filled + 1;
            } else {
                kept_sells.push(order);
            }
            i = i + 1;
        }
        let mut kept_buys: Vec<RestingOrder> = Vec::new();
        let mut bought: usize = 0;
        let mut dropped: usize = 0;
        let mut j: usize = 0;
        while j < self.buy_orders.len()
            invariant
                j <= self.buy_orders.len(),
                self.buy_orders@ == buys,
                high == candle.high,
                low == candle.low,
                kept_buys@ == buys.take(j as int).filter(buy_rests(high, low)),
                bought == count_where(buys.take(j as int), buy_filled(high, low)),
                dropped == count_where(buys.take(j as int), buy_stale(high)),
                bought + dropped + kept_buys.len() == j,
            decreases self.buy_orders.len() - j,
        {
            proof {
                reveal(Seq::filter);
                assert(buys.take(j + 1).drop_last() =~= buys.take(j as int));
                lemma_count_take_next(buys, j as int, buy_filled(high, low));
                lemma_count_take_next(buys, j as int, buy_stale(high));
            }
            let order = self.buy_orders[j];
            if candle.high as i128 > 2 * (order.price as i128) {
                dropped = dropped + 1;
            } else if candle.low < order.price {
                bought = bought + 1;
            } else {
                kept_buys.push(order);
            }
            j = j + 1;
        }
        proof {
            assert(sells.take(sells.len() as int) =~= sells);
            assert(buys.take(buys.len() as int) =~= buys);
            lemma_filter_sorted(sells, sell_rests(high));
            lemma_filter_sorted(buys, buy_rests(high, low));
        }
        self.sell_orders = kept_sells;
        self.buy_orders = kept_buys;
        self.fill_count = self.fill_count + filled + bought;
        self.drop_count = self.drop_count + dropped;
    }

    /// Adds the pair of a bar, sized for `buy_count` resting buy orders and
    /// `sell_count` resting sell orders: see `create_spec`. Returns whether
    /// the pair was added.
    pub fn create_orders(&mut self, candle: &Candle, buy_count: usize, sell_count: usize) -> (r:
        bool)
        requires
            old(self).wf(),
            old(self).has_room(1),
        ensures
            final(self).wf(),
            final(self)@ == create_spec(
                old(self)@,
                old(self).trader,
                old(self).capital,
                *candle,
                buy_count as nat,
                sell_count as nat,
            ),
            r == pair_spec(
                old(self).trader,
                old(self).capital,
                *candle,
                buy_count as nat,
                sell_count as nat,
            ) is Some,
            final(self).trader == old(self).trader,
            final(self).capital == old(self).capital,
            final(self).simulate_from_ms == old(self).simulate_from_ms,
            final(self).buy_orders.len() <= old(self).buy_orders.len() + 1,
            final(self).sell_orders.len() <= old(self).sell_orders.len() + 1,
    {
        if candle.open <= 0 {
            return false;
        }
        let deal: DealValues = match self.trader.deal_values(
            candle.open,
            buy_count,
            sell_count,
            self.capital,
        ) {
            Some(values) => values,
            None => {
                return false;
            },
        };
        let sell_order = RestingOrder {
            timestamp: candle.timestamp,
            side: Side::Sell,
            price: deal.sell,
            qty: deal.qty,
        };
        let buy_order = RestingOrder {
            timestamp: candle.timestamp,
            side: Side::Buy,
            price: deal.buy,
            qty: deal.qty,
        };
        proof {
            lemma_upsert_sorted(self.sell_orders@, sell_order);
            lemma_upsert_sorted(self.buy_orders@, buy_order);
        }
        upsert(&mut self.sell_orders, sell_order);
        upsert(&mut self.buy_orders, buy_order);
        true
    }

    /// Raises the three peaks to the numbers of orders that rest.
    fn measure(&mut self)
        requires
            old(self).buy_orders.len() + old(self).sell_orders.len() <= usize::MAX,
        ensures
            final(self)@ == measure_spec(old(self)@),
            final(self).trader == old(self).trader,
            final(self).capital == old(self).capital,
            final(self).simulate_from_ms == old(self).simulate_from_ms,
            final(self).sell_orders == old(self).sell_orders,
            final(self).buy_orders == old(self).buy_orders,
            final(self).fill_count == old(self).fill_count,
            final(self).drop_count == old(self).drop_count,
    {
        let current_stuck_buy = self.buy_orders.len();
        let current_stuck_sell = self.sell_orders.len();
        let current_stuck = current_stuck_buy + current_stuck_sell;
        if current_stuck > self.max_stuck {
            self.max_stuck = current_stuck;
        }
        if current_stuck_buy > self.max_stuck_buy {
            self.max_stuck_buy = current_stuck_buy;
        }
        if current_stuck_sell > self.max_stuck_sell {
            self.max_stuck_sell = current_stuck_sell;
        }
    }

    /// Replays one bar: see `bar_spec`.
    pub fn step(&mut self, candle: &Candle)
        requires
            old(self).wf(),
            old(self).has_room(1),
        ensures
            final(self).wf(),
            final(self)@ == bar_spec(old(self)@, old(self).trader, old(self).capital, *candle),
            final(self).trader == old(self).trader,
            final(self).capital == old(self).capital,
            final(self).simulate_from_ms == old(self).simulate_from_ms,
            forall|bars: nat| old(self).has_room(bars + 1) ==> final(self).has_room(bars),
    {
        let buy_count = self.buy_orders.len();
        let sell_count = self.sell_orders.len();
        self.handle_collision(candle);
        self.create_orders(candle, buy_count, sell_count);
        self.measure();
    }

    /// Replays a history of bars in order: see `run_spec`.
    pub fn run(&mut self, candles: &Vec<Candle>)
        requires
            old(self).wf(),
            old(self).has_room(candles.len() as nat),
        ensures
            final(self).wf(),
            final(self)@ == run_spec(old(self)@, old(self).trader, old(self).capital, candles@),
            final(self).trader == old(self).trader,
            final(self).capital == old(self).capital,
            final(self).simulate_from_ms == old(self).simulate_from_ms,
    {
        let mut i: usize = 0;
        proof {
            assert(candles@.take(0) =~= Seq::<Candle>::empty());
        }
        while i < candles.len()
            invariant
                i <= candles.len(),
                self.wf(),
                self.has_room((candles.len() - i) as nat),
                self.trader == old(self).trader,
                self.capital == old(self).capital,
                self.simulate_from_ms == old(self).simulate_from_ms,
                self@ == run_spec(
                    old(self)@,
                    old(self).trader,
                    old(self).capital,
                    candles@.take(i as int),
                ),
            decreases candles.len() - i,
        {
            proof {
                assert(candles@.take(i + 1).drop_last() =~= candles@.take(i as int));
                assert(self.has_room(((candles.len() - i - 1) as nat) + 1));
            }
            self.step(&candles[i]);
            i = i + 1;
        }
        proof {
            assert(candles@.take(candles.len() as int) =~= candles@);
        }
    }
}

/// The empty book.
pub open spec fn empty_book() -> Book {
    Book {
        sell_orders: Seq::empty(),
        buy_orders: Seq::empty(),
        max_stuck: 0,
        max_stuck_buy: 0,
        max_stuck_sell: 0,
        drop_count: 0,
        fill_count: 0,
    }
}

/// Replays the bars of `history` from the start of the day that
/// `simulate_from` names, on an empty book and with the starting capital.
///
/// Returns the replay after its last bar. `None` where the trader is not
/// well formed, where `simulate_from` does not name a day, or where the
/// bars are more than the counters have room for.
pub fn run_simulation(trader: Trader, simulate_from: &str, history: &Vec<Candle>) -> (r: Option<
    Simulator,
>)
    ensures
        match r {
            Some(simulator) => {
                &&& trader.wf()
                &&& day_start_millis(simulate_from@) == Some(simulator.simulate_from_ms as int)
                &&& simulator.trader == trader
                &&& simulator.capital == START_CAPITAL
                &&& 2 * history@.filter(from_spec(simulator.simulate_from_ms as int)).len()
                    <= usize::MAX
                &&& simulator@ == run_spec(
                    empty_book(),
                    trader,
                    START_CAPITAL,
                    history@.filter(from_spec(simulator.simulate_from_ms as int)),
                )
            },
            None => {
                ||| !trader.wf()
                ||| day_start_millis(simulate_from@) is None
                ||| 2 * history@.filter(from_spec(day_start_millis(simulate_from@)->0)).len()
                    > usize::MAX
            },
        },
{
    if !trader.is_wf() {
        return None;
    }
    let mut simulator = match Simulator::new(trader, simulate_from) {
        Some(simulator) => simulator,
        None => {
            return None;
        },
    };
    let candles = simulator.get_candles(history);
    if !simulator.room_for(candles.len()) {
        return None;
    }
    simulator.run(&candles);
    Some(simulator)
}

} // verus!
