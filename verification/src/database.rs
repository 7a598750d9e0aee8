//! The store: three tables, of bars, deals and ledger states, each keyed by
//! timestamp and kept in ascending order of it.
use vstd::prelude::*;
use crate::candle::Candle;
use crate::deal::Deal;
use crate::table::{contains_key, has_key, sorted, upsert, upsert_spec};
use crate::trade_state::TradeState;

verus! {

/// The direction of an ordered query.
#[derive(Clone, Copy, Debug, PartialEq, Eq, Structural)]
pub enum Order {
    ASC,
    DESC,
}

impl Order {
    /// The direction as a query writes it.
    pub open spec fn name_spec(self) -> Seq<char> {
        match self {
            Order::ASC => "ASC"@,
            Order::DESC => "DESC"@,
        }
    }

    /// The direction as a query writes it.
    pub fn name(&self) -> (r: &'static str)
        ensures
            r@ == self.name_spec(),
    {
        match self {
            Order::ASC => "ASC",
            Order::DESC => "DESC",
        }
    }
}

/// What the store holds: the rows of each table, in ascending order of
/// timestamp.
pub struct Tables {
    pub candles: Seq<Candle>,
    pub deals: Seq<Deal>,
    pub trade_states: Seq<TradeState>,
}

/// The store.
pub struct Database {
    candles: Vec<Candle>,
    deals: Vec<Deal>,
    trade_states: Vec<TradeState>,
}

impl View for Database {
    type V = Tables;

    closed spec fn view(&self) -> Tables {
        Tables { candles: self.candles@, deals: self.deals@, trade_states: self.trade_states@ }
    }
}

impl Database {
    /// Every table is in strictly ascending order of timestamp.
    pub open spec fn wf(&self) -> bool {
        &&& sorted(self@.candles)
        &&& sorted(self@.deals)
        &&& sorted(self@.trade_states)
    }

    /// An empty store.
    pub fn new() -> (r: Database)
        ensures
            r.wf(),
            r@.candles.len() == 0,
            r@.deals.len() == 0,
            r@.trade_states.len() == 0,
    {
        Database { candles: Vec::new(), deals: Vec::new(), trade_states: Vec::new() }
    }

    /// The number of bars.
    pub fn candle_count(&self) -> (n: usize)
        ensures
            n == self@.candles.len(),
    {
        self.candles.len()
    }

    /// The number of deals, ended ones included.
    pub fn deal_count(&self) -> (n: usize)
        ensures
            n == self@.deals.len(),
    {
        self.deals.len()
    }

    /// The number of ledger states.
    pub fn state_count(&self) -> (n: usize)
        ensures
            n == self@.trade_states.len(),
    {
        self.trade_states.len()
    }

    /// The bar at `index`, counted in ascending order of timestamp.
    pub fn candle_at(&self, index: usize) -> (r: Candle)
        requires
            index < self@.candles.len(),
        ensures
            r == self@.candles[index as int],
    {
        self.candles[index]
    }

    /// The deal at `index`, counted in ascending order of timestamp.
    pub fn deal_at(&self, index: usize) -> (r: Deal)
        requires
            index < self@.deals.len(),
        ensures
            r == self@.deals[index as int],
    {
        self.deals[index]
    }

    /// The ledger state at `index`, counted in ascending order of timestamp.
    pub fn state_at(&self, index: usize) -> (r: TradeState)
        requires
            index < self@.trade_states.len(),
        ensures
            r == self@.trade_states[index as int],
    {
        self.trade_states[index]
    }

    /// Whether a deal carries the timestamp `timestamp`.
    pub fn has_deal(&self, timestamp: i64) -> (r: bool)
        requires
            self.wf(),
        ensures
            r == has_key(self@.deals, timestamp as int),
    {
        contains_key(&self.deals, timestamp)
    }

    pub(crate) fn last_state(&self) -> (r: TradeState)
        requires
            self@.trade_states.len() > 0,
        ensures
            r == self@.trade_states.last(),
    {
        self.trade_states[self.trade_states.len() - 1]
    }

    pub(crate) fn put_candle(&mut self, row: Candle)
        requires
            old(self).wf(),
        ensures
            final(self).wf(),
            final(self)@.candles == upsert_spec(old(self)@.candles, row),
            final(self)@.deals == old(self)@.deals,
            final(self)@.trade_states == old(self)@.trade_states,
    {
        upsert(&mut self.candles, row);
    }

    pub(crate) fn put_deal(&mut self, row: Deal)
        requires
            old(self).wf(),
        ensures
            final(self).wf(),
            final(self)@.deals == upsert_spec(old(self)@.deals, row),
            final(self)@.candles == old(self)@.candles,
            final(self)@.trade_states == old(self)@.trade_states,
    {
        upsert(&mut self.deals, row);
    }

    pub(crate) fn put_state(&mut self, row: TradeState)
        requires
            old(self).wf(),
        ensures
            final(self).wf(),
            final(self)@.trade_states == upsert_spec(old(self)@.trade_states, row),
            final(self)@.candles == old(self)@.candles,
            final(self)@.deals == old(self)@.deals,
    {
        upsert(&mut self.trade_states, row);
    }

    pub(crate) fn replace_deals(&mut self, deals: Vec<Deal>)
        requires
            old(self).wf(),
            sorted(deals@),
        ensures
            final(self).wf(),
            final(self)@.deals == deals@,
            final(self)@.candles == old(self)@.candles,
            final(self)@.trade_states == old(self)@.trade_states,
    {
        self.deals = deals;
    }

    pub(crate) fn clear_deals(&mut self)
        requires
            old(self).wf(),
        ensures
            final(self).wf(),
            final(self)@.deals.len() == 0,
            final(self)@.candles == old(self)@.candles,
            final(self)@.trade_states == old(self)@.trade_states,
    {
        self.deals.clear();
    }

    pub(crate) fn clear_states(&mut self)
        requires
            old(self).wf(),
        ensures
            final(self).wf(),
            final(self)@.trade_states.len() == 0,
            final(self)@.candles == old(self)@.candles,
            final(self)@.deals == old(self)@.deals,
    {
        self.trade_states.clear();
    }
}

} // verus!
