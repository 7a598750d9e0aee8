//! The ledger: the capital and the number of open deals, as they stand
//! after a bar.
use vstd::prelude::*;
use crate::database::Database;
use crate::table::{upsert_spec, Keyed};

verus! {

/// The state of the ledger after the bar at `timestamp`. The two capital
/// amounts are fixed-point values.
#[derive(Clone, Copy, Debug, PartialEq, Eq, Structural)]
pub struct TradeState {
    pub timestamp: i64,
    /// The realized capital.
    pub trade_capital: i64,
    /// The capital that is free to back new deals.
    pub available_capital: i64,
    /// The number of deals of which no leg has been filled.
    pub awaited_deals: i64,
    /// The number of deals of which one leg has been filled.
    pub stuck_deals: i64,
}

impl Keyed for TradeState {
    open spec fn key(&self) -> int {
        self.timestamp as int
    }

    fn key_of(&self) -> (k: i64) {
        self.timestamp
    }
}

impl TradeState {
    /// The first state of a ledger that starts with `capital` at `timestamp`.
    pub open spec fn first(timestamp: i64, capital: i64) -> TradeState {
        TradeState {
            timestamp,
            trade_capital: capital,
            available_capital: capital,
            awaited_deals: 0,
            stuck_deals: 0,
        }
    }

    /// Writes the state to the ledger table, in place of the state with the
    /// same timestamp if there is one.
    pub fn save_to_database(&self, database: &mut Database)
        requires
            old(database).wf(),
        ensures
            final(database).wf(),
            final(database)@.trade_states == upsert_spec(old(database)@.trade_states, *self),
            final(database)@.deals == old(database)@.deals,
            final(database)@.candles == old(database)@.candles,
    {
        database.put_state(*self);
    }

    /// Starts the ledger if it is empty: writes a first state with `capital`
    /// as both the realized and the available capital. A ledger that has a
    /// state is left as it is.
    pub fn initiate(database: &mut Database, capital: i64, last_candle_timestamp: i64)
        requires
            old(database).wf(),
        ensures
            final(database).wf(),
            final(database)@.deals == old(database)@.deals,
            final(database)@.candles == old(database)@.candles,
            final(database)@.trade_states == if old(database)@.trade_states.len() == 0 {
                seq![Self::first(last_candle_timestamp, capital)]
            } else {
                old(database)@.trade_states
            },
    {
        if database.state_count() == 0 {
            let first_state = TradeState {
                timestamp: last_candle_timestamp,
                trade_capital: capital,
                available_capital: capital,
                awaited_deals: 0,
                stuck_deals: 0,
            };
            proof {
                assert(upsert_spec(Seq::<TradeState>::empty(), first_state) =~= seq![first_state]);
                assert(database@.trade_states =~= Seq::<TradeState>::empty());
            }
            first_state.save_to_database(database);
        }
    }

    /// The state with the latest timestamp.
    pub fn get_last_state(database: &Database) -> (r: TradeState)
        requires
            database.wf(),
            database@.trade_states.len() > 0,
        ensures
            r == database@.trade_states.last(),
    {
        database.last_state()
    }

    /// Empties the ledger table.
    pub fn truncate(database: &mut Database)
        requires
            old(database).wf(),
        ensures
            final(database).wf(),
            final(database)@.trade_states.len() == 0,
            final(database)@.deals == old(database)@.deals,
            final(database)@.candles == old(database)@.candles,
    {
        database.clear_states();
    }
}

} // verus!
