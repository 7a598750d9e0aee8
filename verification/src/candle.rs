//! Price bars.
use vstd::prelude::*;
use vstd::utf8::encode_utf8;
use crate::number::{decimal_spec, integer_spec, parse_decimal, parse_integer};
use crate::database::Database;
use crate::table::{upsert_spec, Keyed};

verus! {

/// One OHLC bar. `timestamp` is in milliseconds and identifies the bar; the
/// four prices are fixed-point values.
#[derive(Clone, Copy, Debug, PartialEq, Eq, Structural)]
pub struct Candle {
    pub timestamp: i64,
    pub open: i64,
    pub high: i64,
    pub low: i64,
    pub close: i64,
}

/// A bar as the exchange sends it: the timestamp, the open, the high, the
/// low, the close, the volume and the turnover, each as text.
#[derive(Debug)]
pub struct RawCandle(
    pub String,
    pub String,
    pub String,
    pub String,
    pub String,
    pub String,
    pub String,
);

/// The field of a raw bar that could not be read.
#[derive(Clone, Copy, Debug, PartialEq, Eq, Structural)]
pub enum CandleError {
    Timestamp,
    Open,
    High,
    Low,
    Close,
}

/// The bar that a raw bar writes, or the first field, in the order
/// timestamp, open, high, low, close, that is no number.
#[verifier::opaque]
pub open spec fn from_raw_spec(raw: RawCandle) -> Result<Candle, CandleError> {
    match integer_spec(encode_utf8(raw.0@)) {
        None => Err(CandleError::Timestamp),
        Some(timestamp) => match decimal_spec(encode_utf8(raw.1@)) {
            None => Err(CandleError::Open),
            Some(open) => match decimal_spec(encode_utf8(raw.2@)) {
                None => Err(CandleError::High),
                Some(high) => match decimal_spec(encode_utf8(raw.3@)) {
                    None => Err(CandleError::Low),
                    Some(low) => match decimal_spec(encode_utf8(raw.4@)) {
                        None => Err(CandleError::Close),
                        Some(close) => Ok(
                            Candle {
                                timestamp: timestamp as i64,
                                open: open as i64,
                                high: high as i64,
                                low: low as i64,
                                close: close as i64,
                            },
                        ),
                    },
                },
            },
        },
    }
}

impl Keyed for Candle {
    open spec fn key(&self) -> int {
        self.timestamp as int
    }

    fn key_of(&self) -> (k: i64) {
        self.timestamp
    }
}

/// The table after each of `rows` has been written to it, in order.
pub open spec fn upsert_all_spec(table: Seq<Candle>, rows: Seq<Candle>) -> Seq<Candle>
    decreases rows.len(),
{
    if rows.len() == 0 {
        table
    } else {
        upsert_spec(upsert_all_spec(table, rows.drop_last()), rows.last())
    }
}

/// The last `limit` rows of a table, or all of them where `limit` is
/// negative or exceeds their number.
pub open spec fn latest_spec(table: Seq<Candle>, limit: int) -> Seq<Candle> {
    if limit < 0 || limit >= table.len() {
        table
    } else {
        table.skip(table.len() - limit)
    }
}

impl Candle {
    /// Reads a raw bar: the timestamp as a whole number, the four prices as
    /// decimal numbers. The volume and the turnover are not read.
    pub fn from_raw(raw: RawCandle) -> (r: Result<Candle, CandleError>)
        ensures
            r == from_raw_spec(raw),
    {
        Self::read(&raw)
    }

    /// Reads a raw bar that stays with the caller: see `from_raw`.
    pub fn read(raw: &RawCandle) -> (r: Result<Candle, CandleError>)
        ensures
            r == from_raw_spec(*raw),
    {
        reveal(from_raw_spec);
        let timestamp = match parse_integer(raw.0.as_str()) {
            Some(v) => v,
            None => {
                return Err(CandleError::Timestamp);
            },
        };
        let open = match parse_decimal(raw.1.as_str()) {
            Some(v) => v,
            None => {
                return Err(CandleError::Open);
            },
        };
        let high = match parse_decimal(raw.2.as_str()) {
            Some(v) => v,
            None => {
                return Err(CandleError::High);
            },
        };
        let low = match parse_decimal(raw.3.as_str()) {
            Some(v) => v,
            None => {
                return Err(CandleError::Low);
            },
        };
        let close = match parse_decimal(raw.4.as_str()) {
            Some(v) => v,
            None => {
                return Err(CandleError::Close);
            },
        };
        Ok(Candle { timestamp, open, high, low, close })
    }

    /// A bar of positive prices whose open and close lie between its low and
    /// its high.
    pub open spec fn wf(self) -> bool {
        &&& 0 < self.low
        &&& self.low <= self.open <= self.high
        &&& self.low <= self.close <= self.high
    }

    /// Writes the bars to the bar table, each in place of the bar with the
    /// same timestamp if there is one.
    pub fn upsert_candles(database: &mut Database, candles: Vec<Candle>)
        requires
            old(database).wf(),
        ensures
            final(database).wf(),
            final(database)@.candles == upsert_all_spec(old(database)@.candles, candles@),
            final(database)@.deals == old(database)@.deals,
            final(database)@.trade_states == old(database)@.trade_states,
    {
        let mut i: usize = 0;
        proof {
            assert(candles@.take(0) =~= Seq::<Candle>::empty());
        }
        while i < candles.len()
            invariant
                i <= candles.len(),
                database.wf(),
                database@.candles == upsert_all_spec(old(database)@.candles, candles@.take(i as int)),
                database@.deals == old(database)@.deals,
                database@.trade_states == old(database)@.trade_states,
            decreases candles.len() - i,
        {
            proof {
                assert(candles@.take(i + 1).drop_last() =~= candles@.take(i as int));
            }
            database.put_candle(candles[i]);
            i = i + 1;
        }
        proof {
            assert(candles@.take(candles.len() as int) =~= candles@);
        }
    }

    /// The latest `limit` bars in ascending order of timestamp, or all bars
    /// where `limit` is negative.
    pub fn get_candles(database: &Database, limit: i32) -> (r: Vec<Candle>)
        ensures
            r@ == latest_spec(database@.candles, limit as int),
    {
        let n = database.candle_count();
        let start: usize = if limit < 0 || limit as usize >= n {
            0
        } else {
            n - limit as usize
        };
        let mut candles: Vec<Candle> = Vec::new();
        let mut i: usize = start;
        while i < n
            invariant
                start <= i <= n,
                n == database@.candles.len(),
                candles@ == database@.candles.subrange(start as int, i as int),
            decreases n - i,
        {
            candles.push(database.candle_at(i));
            proof {
                assert(database@.candles.subrange(start as int, i + 1)
                    =~= database@.candles.subrange(start as int, i as int).push(
                    database@.candles[i as int],
                ));
            }
            i = i + 1;
        }
        proof {
            assert(database@.candles.subrange(start as int, n as int) =~= latest_spec(
                database@.candles,
                limit as int,
            ));
        }
        candles
    }

    /// The timestamp of the latest bar of a table, or zero where it has none.
    pub open spec fn last_timestamp_spec(table: Seq<Candle>) -> i64 {
        if table.len() == 0 {
            0
        } else {
            table.last().timestamp
        }
    }

    /// The timestamp of the latest bar, or zero where there is no bar.
    pub fn get_last_candle_timestamp(database: &Database) -> (r: i64)
        ensures
            r == Self::last_timestamp_spec(database@.candles),
    {
        let n = database.candle_count();
        if n == 0 {
            0
        } else {
            database.candle_at(n - 1).timestamp
        }
    }

    /// Whether the bar is well formed.
    pub fn is_wf(&self) -> (r: bool)
        ensures
            r == self.wf(),
    {
        0 < self.low && self.low <= self.open && self.open <= self.high && self.low <= self.close
            && self.close <= self.high
    }
}

} // verus!
