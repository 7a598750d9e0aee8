//! Catching up with the exchange: fetching the bars that the store lacks.
//!
//! The store is brought up to date page by page. Each page is asked for
//! from one millisecond before the latest bar known, so it starts with that
//! bar; a page that is empty, or that ends with the latest bar known, shows
//! that nothing is missing. `CandleSync` decides what to ask for next;
//! whoever drives it fetches the page and hands it over.
use vstd::prelude::*;
use crate::candle::{upsert_all_spec, Candle};
use crate::database::Database;
use crate::dates::{parse_rfc3339, rfc3339_millis};
use crate::retry::{count_failure, one_more, RetryPolicy};

verus! {

/// The instant from which bars are fetched into an empty store.
pub const SYNC_FROM: &'static str = "2021-06-01T00:00:00-00:00";

/// The delay before a page that could not be fetched is asked for again, in
/// milliseconds.
pub const SYNC_RETRY_MS: u64 = 5000;

/// The delay between two pages, in milliseconds.
pub const SYNC_PAGE_MS: u64 = 300;

/// What to do next while catching up.
#[derive(Clone, Copy, Debug, PartialEq, Eq, Structural)]
pub enum SyncCommand {
    /// Wait `delay_ms` milliseconds, then fetch the bars from `from` on.
    Fetch { from: i64, delay_ms: u64 },
    /// The store is up to date.
    Finished,
    /// A page could not be fetched as often as the retry policy lets it.
    GiveUp,
}

/// How far catching up has come.
#[derive(Clone, Copy, Debug, PartialEq, Eq, Structural)]
pub enum SyncStatus {
    Running,
    Finished,
    GaveUp,
}

/// The progress of catching up.
#[derive(Clone, Copy, Debug, PartialEq, Eq, Structural)]
pub struct CandleSync {
    /// The timestamp of the latest bar known.
    pub last_timestamp: i64,
    /// Whether the store was empty at the start.
    pub is_full_sync: bool,
    pub status: SyncStatus,
    /// How often a page that cannot be fetched is asked for again.
    pub retry: RetryPolicy,
    /// How often the page under way could not be fetched.
    pub failures: u64,
}

/// The timestamp to fetch from: one millisecond before `last_timestamp`,
/// or the earliest timestamp there is.
pub open spec fn fetch_from_spec(last_timestamp: i64) -> i64 {
    if last_timestamp > i64::MIN {
        (last_timestamp - 1) as i64
    } else {
        i64::MIN
    }
}

impl CandleSync {
    /// What is under way: the page from one millisecond before the latest
    /// bar known, after `delay_ms`, or nothing any more.
    pub open spec fn pending(self, delay_ms: u64) -> SyncCommand {
        match self.status {
            SyncStatus::Running => SyncCommand::Fetch {
                from: fetch_from_spec(self.last_timestamp),
                delay_ms,
            },
            SyncStatus::Finished => SyncCommand::Finished,
            SyncStatus::GaveUp => SyncCommand::GiveUp,
        }
    }

    /// The progress at the start, from the bar at `last_timestamp`.
    pub open spec fn starting(last_timestamp: i64, is_full_sync: bool) -> CandleSync {
        CandleSync {
            last_timestamp,
            is_full_sync,
            status: SyncStatus::Running,
            retry: RetryPolicy { delay_ms: SYNC_RETRY_MS, max_attempts: 0 },
            failures: 0,
        }
    }

    /// Starts catching up from the latest bar of the store, or from
    /// `SYNC_FROM` where the store has no bar or its latest bar has the
    /// timestamp zero. A page that cannot be fetched is asked for again
    /// after `SYNC_RETRY_MS`, without bound. `None` where `SYNC_FROM` is
    /// needed and does not name an instant.
    pub fn new(database: &Database) -> (r: Option<CandleSync>)
        ensures
            r == if Candle::last_timestamp_spec(database@.candles) != 0 {
                Some(Self::starting(Candle::last_timestamp_spec(database@.candles), false))
            } else {
                match rfc3339_millis(SYNC_FROM@) {
                    Some(ms) => Some(Self::starting(ms as i64, true)),
                    None => None,
                }
            },
    {
        let known = Candle::get_last_candle_timestamp(database);
        let (last_timestamp, is_full_sync) = if known != 0 {
            (known, false)
        } else {
            (parse_rfc3339(SYNC_FROM)?, true)
        };
        Some(
            CandleSync {
                last_timestamp,
                is_full_sync,
                status: SyncStatus::Running,
                retry: RetryPolicy::unbounded(SYNC_RETRY_MS),
                failures: 0,
            },
        )
    }

    /// The first request: the page from one millisecond before the latest
    /// bar known, at once.
    pub fn start(&self) -> (r: SyncCommand)
        ensures
            r == self.pending(0),
    {
        self.command(0)
    }

    fn command(&self, delay_ms: u64) -> (r: SyncCommand)
        ensures
            r == self.pending(delay_ms),
    {
        match self.status {
            SyncStatus::Finished => SyncCommand::Finished,
            SyncStatus::GaveUp => SyncCommand::GiveUp,
            SyncStatus::Running => if self.last_timestamp > i64::MIN {
                SyncCommand::Fetch { from: self.last_timestamp - 1, delay_ms }
            } else {
                SyncCommand::Fetch { from: i64::MIN, delay_ms }
            },
        }
    }

    /// Takes the page that was fetched, `None` where fetching failed, and
    /// returns what to do next.
    ///
    /// A failure is counted, and the same page is asked for again after the
    /// delay of the retry policy, or, where the policy allows no other
    /// attempt, the sync gives up. An empty page, or one whose last bar is
    /// the latest bar known, finishes the sync and leaves the store as it
    /// is. Any other page is written to the store, its last bar becomes the
    /// latest bar known, and the next page is asked for after
    /// `SYNC_PAGE_MS`. Once the sync has finished or given up, nothing
    /// changes any more.
    pub fn sync(&mut self, database: &mut Database, fetched: Option<Vec<Candle>>) -> (r:
        SyncCommand)
        requires
            old(database).wf(),
        ensures
            final(database).wf(),
            final(database)@.deals == old(database)@.deals,
            final(database)@.trade_states == old(database)@.trade_states,
            match fetched {
                _ if old(self).status != SyncStatus::Running => {
                    &&& *final(self) == *old(self)
                    &&& final(database)@.candles == old(database)@.candles
                    &&& r == old(self).pending(0)
                },
                None => {
                    let failures = one_more(old(self).failures);
                    &&& final(database)@.candles == old(database)@.candles
                    &&& *final(self) == (CandleSync {
                        failures,
                        status: if old(self).retry.allows(failures) {
                            SyncStatus::Running
                        } else {
                            SyncStatus::GaveUp
                        },
                        ..*old(self)
                    })
                    &&& r == final(self).pending(old(self).retry.delay_ms)
                },
                Some(candles) => if candles@.len() == 0 || candles@.last().timestamp == old(
                    self,
                ).last_timestamp {
                    &&& *final(self) == (CandleSync {
                        failures: 0,
                        status: SyncStatus::Finished,
                        ..*old(self)
                    })
                    &&& final(database)@.candles == old(database)@.candles
                    &&& r == SyncCommand::Finished
                } else {
                    &&& *final(self) == (CandleSync {
                        failures: 0,
                        last_timestamp: candles@.last().timestamp,
                        ..*old(self)
                    })
                    &&& final(database)@.candles == upsert_all_spec(
                        old(database)@.candles,
                        candles@,
                    )
                    &&& r == final(self).pending(SYNC_PAGE_MS)
                },
            },
    {
        match self.status {
            SyncStatus::Running => {},
            _ => {
                return self.command(0);
            },
        }
        match fetched {
            None => {
                self.failures = count_failure(self.failures);
                match self.retry.next_delay(self.failures) {
                    Some(delay_ms) => self.command(delay_ms),
                    None => {
                        self.status = SyncStatus::GaveUp;
                        SyncCommand::GiveUp
                    },
                }
            },
            Some(candles) => {
                self.failures = 0;
                if candles.len() == 0 || candles[candles.len() - 1].timestamp
                    == self.last_timestamp {
                    self.status = SyncStatus::Finished;
                    return SyncCommand::Finished;
                }
                self.last_timestamp = candles[candles.len() - 1].timestamp;
                Candle::upsert_candles(database, candles);
                self.command(SYNC_PAGE_MS)
            },
        }
    }
}

} // verus!
