//! Deals: one rung of the grid, a buy and a sell threshold around a base
//! price with a stop threshold behind each, and the state it is in.
use vstd::prelude::*;
use vstd::string::StringExecFns;
use crate::candle::Candle;
use crate::database::Database;
use crate::table::{upsert_spec, Keyed};
use crate::fixed::{fixed_add, in_range, lemma_percent_monotonic, lemma_percent_not_negative};
use crate::fixed::{percent_of, percent_spec};

verus! {

/// The state of a deal. `Profit`, `FailBuy` and `FailSell` are terminal.
#[derive(Clone, Copy, Debug, PartialEq, Eq, Structural)]
pub enum DealStatus {
    Initial,
    FilledBuy,
    FilledSell,
    Profit,
    FailBuy,
    FailSell,
}

/// What to do with a deal whose buy and sell thresholds are both crossed by
/// one bar while it is still `Initial`.
#[derive(Clone, Copy, Debug, PartialEq, Eq, Structural)]
pub enum TieBreak {
    /// Both legs are taken as filled: the deal ends in `Profit` at once.
    OptimisticProfit,
    /// Only the sell leg is taken as filled: the deal becomes `FilledSell`
    /// and a later bar has to cross the buy threshold again.
    ConservativeSequentialCheck,
}

/// Why a deal could not be laid out around a base price.
#[derive(Clone, Copy, Debug, PartialEq, Eq, Structural)]
pub enum DealError {
    /// A threshold does not fit in the fixed-point range.
    Overflow,
    /// The padding rounds to nothing, so the buy and sell thresholds would
    /// not lie strictly around the base price.
    Degenerate,
}

impl DealStatus {
    /// Whether the deal has ended.
    pub open spec fn terminal(self) -> bool {
        self is Profit || self is FailBuy || self is FailSell
    }

    /// Whether neither leg has been filled.
    pub open spec fn awaited(self) -> bool {
        self is Initial
    }

    /// Whether exactly one leg has been filled.
    pub open spec fn stuck(self) -> bool {
        self is FilledBuy || self is FilledSell
    }

    /// The name of the state, as the store writes it.
    pub open spec fn name_spec(self) -> Seq<char> {
        match self {
            DealStatus::Initial => "Initial"@,
            DealStatus::FilledBuy => "FilledBuy"@,
            DealStatus::FilledSell => "FilledSell"@,
            DealStatus::Profit => "Profit"@,
            DealStatus::FailBuy => "FailBuy"@,
            DealStatus::FailSell => "FailSell"@,
        }
    }

    /// The name of the state, as the store writes it.
    pub fn name(&self) -> (r: &'static str)
        ensures
            r@ == self.name_spec(),
    {
        match self {
            DealStatus::Initial => "Initial",
            DealStatus::FilledBuy => "FilledBuy",
            DealStatus::FilledSell => "FilledSell",
            DealStatus::Profit => "Profit",
            DealStatus::FailBuy => "FailBuy",
            DealStatus::FailSell => "FailSell",
        }
    }

    /// The state that `text` names, or `None` where it names none.
    pub fn from_name(text: &String) -> (r: Option<DealStatus>)
        ensures
            forall|status: DealStatus|
                r == Some(status) <==> text@ == #[trigger] status.name_spec(),
    {
        let r = if *text == String::from_str("Initial") {
            Some(DealStatus::Initial)
        } else if *text == String::from_str("FilledBuy") {
            Some(DealStatus::FilledBuy)
        } else if *text == String::from_str("FilledSell") {
            Some(DealStatus::FilledSell)
        } else if *text == String::from_str("Profit") {
            Some(DealStatus::Profit)
        } else if *text == String::from_str("FailBuy") {
            Some(DealStatus::FailBuy)
        } else if *text == String::from_str("FailSell") {
            Some(DealStatus::FailSell)
        } else {
            None
        };
        proof {
            lemma_names_differ();
            assert forall|status: DealStatus|
                r == Some(status) <==> text@ == #[trigger] status.name_spec() by {
                match r {
                    Some(found) => {
                        assert(text@ == found.name_spec());
                    },
                    None => {
                        assert(text@ != DealStatus::Initial.name_spec());
                        assert(text@ != DealStatus::FilledBuy.name_spec());
                        assert(text@ != DealStatus::FilledSell.name_spec());
                        assert(text@ != DealStatus::Profit.name_spec());
                        assert(text@ != DealStatus::FailBuy.name_spec());
                        assert(text@ != DealStatus::FailSell.name_spec());
                    },
                }
            }
        }
        r
    }

    /// Whether the deal has ended.
    pub fn is_terminal(&self) -> (r: bool)
        ensures
            r == self.terminal(),
    {
        match self {
            DealStatus::Profit | DealStatus::FailBuy | DealStatus::FailSell => true,
            _ => false,
        }
    }

    /// Whether exactly one leg has been filled.
    pub fn is_stuck(&self) -> (r: bool)
        ensures
            r == self.stuck(),
    {
        match self {
            DealStatus::FilledBuy | DealStatus::FilledSell => true,
            _ => false,
        }
    }
}

/// One rung of the grid. `timestamp` is the time of the bar that created it
/// and identifies it. All other numbers are fixed-point values.
#[derive(Clone, Copy, Debug, PartialEq, Eq, Structural)]
pub struct Deal {
    pub timestamp: i64,
    pub status: DealStatus,
    pub amount: i64,
    pub unfilled_amount: i64,
    pub base_price: i64,
    pub buy_price: i64,
    pub buy_stop_price: i64,
    pub sell_price: i64,
    pub sell_stop_price: i64,
}

impl Keyed for Deal {
    open spec fn key(&self) -> int {
        self.timestamp as int
    }

    fn key_of(&self) -> (k: i64) {
        self.timestamp
    }
}

/// No two states have the same name.
pub proof fn lemma_names_differ()
    ensures
        forall|a: DealStatus, b: DealStatus|
            #[trigger] a.name_spec() == #[trigger] b.name_spec() ==> a == b,
{
    reveal_strlit("Initial");
    reveal_strlit("FilledBuy");
    reveal_strlit("FilledSell");
    reveal_strlit("Profit");
    reveal_strlit("FailBuy");
    reveal_strlit("FailSell");
    assert forall|a: DealStatus, b: DealStatus| #[trigger] a.name_spec() == #[trigger] b.name_spec()
    implies a == b by {
        let x = a.name_spec();
        let y = b.name_spec();
        if a != b {
            assert(x.len() != y.len() || x[1] != y[1] || x[4] != y[4] || x[6] != y[6]);
        }
    }
}

/// The property of not having ended.
pub open spec fn is_open() -> spec_fn(Deal) -> bool {
    |deal: Deal| !deal.status.terminal()
}

/// The property of having no leg filled.
pub open spec fn is_awaited() -> spec_fn(Deal) -> bool {
    |deal: Deal| deal.status.awaited()
}

/// The property of having exactly one leg filled.
pub open spec fn is_stuck() -> spec_fn(Deal) -> bool {
    |deal: Deal| deal.status.stuck()
}

/// The padding around `base_price`: `base_price * percent / 100`.
pub open spec fn offset_spec(base_price: int, percent: int) -> int {
    percent_spec(base_price, percent)
}

/// The next state of a deal in state `status` with the given thresholds,
/// after a bar with the given high and low. The first rule that matches
/// decides. A terminal deal stays as it is.
pub open spec fn next_status(deal: Deal, high: int, low: int, tie_break: TieBreak) -> DealStatus {
    match deal.status {
        DealStatus::Initial => {
            if high > deal.sell_stop_price {
                DealStatus::FailSell
            } else if low < deal.buy_stop_price {
                DealStatus::FailBuy
            } else if high > deal.sell_price && low < deal.buy_price {
                match tie_break {
                    TieBreak::OptimisticProfit => DealStatus::Profit,
                    TieBreak::ConservativeSequentialCheck => DealStatus::FilledSell,
                }
            } else if high > deal.sell_price {
                DealStatus::FilledSell
            } else if low < deal.buy_price {
                DealStatus::FilledBuy
            } else {
                DealStatus::Initial
            }
        },
        DealStatus::FilledBuy => {
            if low < deal.buy_stop_price {
                DealStatus::FailBuy
            } else if high > deal.sell_price {
                DealStatus::Profit
            } else {
                DealStatus::FilledBuy
            }
        },
        DealStatus::FilledSell => {
            if high > deal.sell_stop_price {
                DealStatus::FailSell
            } else if low < deal.buy_price {
                DealStatus::Profit
            } else {
                DealStatus::FilledSell
            }
        },
        _ => deal.status,
    }
}

impl Deal {
    /// The thresholds lie in order around the base price:
    /// `buy_stop_price <= buy_price < base_price < sell_price <= sell_stop_price`.
    pub open spec fn bracket_ordered(self) -> bool {
        &&& self.buy_stop_price <= self.buy_price
        &&& self.buy_price < self.base_price
        &&& self.base_price < self.sell_price
        &&& self.sell_price <= self.sell_stop_price
    }

    /// The deal with another status and everything else as it is.
    pub open spec fn with_status(self, status: DealStatus) -> Deal {
        Deal { status, ..self }
    }

    /// The deal after a bar: its status moves as `next_status` says, nothing
    /// else changes.
    pub open spec fn after(self, candle: Candle, tie_break: TieBreak) -> Deal {
        self.with_status(next_status(self, candle.high as int, candle.low as int, tie_break))
    }

    /// Whether a deal can be laid out: the padding is at least one unit and
    /// the upper stop threshold fits.
    pub open spec fn layout_ok(base_price: i64, padding_percent: i64, stop_percent: i64) -> bool {
        &&& offset_spec(base_price as int, padding_percent as int) >= 1
        &&& in_range(base_price + offset_spec(base_price as int, stop_percent as int))
    }

    /// A new `Initial` deal of `quantity` around `base_price`, with the buy
    /// and sell thresholds `padding_percent` away from it and the stop
    /// thresholds `stop_percent` away, for any stop that is at least as wide
    /// as the padding. The thresholds of the deal lie in order:
    /// `buy_stop_price <= buy_price < base_price < sell_price <= sell_stop_price`.
    ///
    /// Fails with `Degenerate` when the padding rounds to zero, else with
    /// `Overflow` when the upper stop threshold does not fit.
    pub fn new(
        timestamp: i64,
        quantity: i64,
        base_price: i64,
        padding_percent: i64,
        stop_percent: i64,
    ) -> (r: Result<Deal, DealError>)
        requires
            base_price > 0,
            0 <= padding_percent <= stop_percent,
        ensures
            match r {
                Ok(deal) => {
                    &&& Self::layout_ok(base_price, padding_percent, stop_percent)
                    &&& deal.timestamp == timestamp
                    &&& deal.status == DealStatus::Initial
                    &&& deal.amount == quantity
                    &&& deal.unfilled_amount == 0
                    &&& deal.base_price == base_price
                    &&& deal.buy_stop_price == base_price - offset_spec(
                        base_price as int,
                        stop_percent as int,
                    )
                    &&& deal.buy_price == base_price - offset_spec(
                        base_price as int,
                        padding_percent as int,
                    )
                    &&& deal.sell_price == base_price + offset_spec(
                        base_price as int,
                        padding_percent as int,
                    )
                    &&& deal.sell_stop_price == base_price + offset_spec(
                        base_price as int,
                        stop_percent as int,
                    )
                    &&& deal.bracket_ordered()
                },
                Err(DealError::Degenerate) => offset_spec(base_price as int, padding_percent as int)
                    < 1,
                Err(DealError::Overflow) => {
                    &&& offset_spec(base_price as int, padding_percent as int) >= 1
                    &&& !in_range(
                        base_price + offset_spec(base_price as int, stop_percent as int),
                    )
                },
            },
    {
        proof {
            lemma_percent_monotonic(
                base_price as int,
                padding_percent as int,
                stop_percent as int,
            );
        }
        proof {
            lemma_percent_not_negative(base_price as int, padding_percent as int);
        }
        let padding_size = match percent_of(base_price, padding_percent) {
            Some(v) => v,
            None => {
                return Err(DealError::Overflow);
            },
        };
        if padding_size < 1 {
            return Err(DealError::Degenerate);
        }
        let stop_padding_size = match percent_of(base_price, stop_percent) {
            Some(v) => v,
            None => {
                return Err(DealError::Overflow);
            },
        };
        let sell_stop_price = match fixed_add(base_price, stop_padding_size) {
            Some(v) => v,
            None => {
                return Err(DealError::Overflow);
            },
        };
        let sell_price = base_price + padding_size;
        let buy_price = base_price - padding_size;
        let buy_stop_price = base_price - stop_padding_size;
        Ok(
            Deal {
                timestamp,
                status: DealStatus::Initial,
                amount: quantity,
                unfilled_amount: 0,
                base_price,
                buy_price,
                buy_stop_price,
                sell_price,
                sell_stop_price,
            },
        )
    }

    /// Writes the deal to the deal table, in place of the deal with the same
    /// timestamp if there is one.
    pub fn save_to_database(&self, database: &mut Database)
        requires
            old(database).wf(),
        ensures
            final(database).wf(),
            final(database)@.deals == upsert_spec(old(database)@.deals, *self),
            final(database)@.trade_states == old(database)@.trade_states,
            final(database)@.candles == old(database)@.candles,
    {
        database.put_deal(*self);
    }

    /// The deals that have not ended, in ascending order of timestamp.
    pub fn get_opened(database: &Database) -> (r: Vec<Deal>)
        ensures
            r@ == database@.deals.filter(is_open()),
    {
        let mut opened: Vec<Deal> = Vec::new();
        let n = database.deal_count();
        let mut i: usize = 0;
        proof {
            reveal(Seq::filter);
            assert(database@.deals.take(0) =~= Seq::<Deal>::empty());
        }
        while i < n
            invariant
                i <= n,
                n == database@.deals.len(),
                opened@ == database@.deals.take(i as int).filter(is_open()),
            decreases n - i,
        {
            let deal = database.deal_at(i);
            proof {
                reveal(Seq::filter);
                assert(database@.deals.take(i + 1).drop_last() =~= database@.deals.take(i as int));
            }
            if !deal.status.is_terminal() {
                opened.push(deal);
            }
            i = i + 1;
        }
        proof {
            assert(database@.deals.take(n as int) =~= database@.deals);
        }
        opened
    }

    /// Empties the deal table.
    pub fn truncate(database: &mut Database)
        requires
            old(database).wf(),
        ensures
            final(database).wf(),
            final(database)@.deals.len() == 0,
            final(database)@.trade_states == old(database)@.trade_states,
            final(database)@.candles == old(database)@.candles,
    {
        database.clear_deals();
    }

    /// The state that a deal that has not ended moves to after `candle`.
    pub fn next(&self, candle: &Candle, tie_break: TieBreak) -> (r: DealStatus)
        requires
            !self.status.terminal(),
        ensures
            r == next_status(*self, candle.high as int, candle.low as int, tie_break),
    {
        match self.status {
            DealStatus::Initial => {
                if candle.high > self.sell_stop_price {
                    DealStatus::FailSell
                } else if candle.low < self.buy_stop_price {
                    DealStatus::FailBuy
                } else if candle.high > self.sell_price && candle.low < self.buy_price {
                    match tie_break {
                        TieBreak::OptimisticProfit => DealStatus::Profit,
                        TieBreak::ConservativeSequentialCheck => DealStatus::FilledSell,
                    }
                } else if candle.high > self.sell_price {
                    DealStatus::FilledSell
                } else if candle.low < self.buy_price {
                    DealStatus::FilledBuy
                } else {
                    DealStatus::Initial
                }
            },
            DealStatus::FilledBuy => {
                if candle.low < self.buy_stop_price {
                    DealStatus::FailBuy
                } else if candle.high > self.sell_price {
                    DealStatus::Profit
                } else {
                    DealStatus::FilledBuy
                }
            },
            DealStatus::FilledSell => {
                if candle.high > self.sell_stop_price {
                    DealStatus::FailSell
                } else if candle.low < self.buy_price {
                    DealStatus::Profit
                } else {
                    DealStatus::FilledSell
                }
            },
            DealStatus::Profit => DealStatus::Profit,
            DealStatus::FailBuy => DealStatus::FailBuy,
            DealStatus::FailSell => DealStatus::FailSell,
        }
    }
}

/// Thresholds that are laid out around a positive base price lie in order
/// around it, `buy_stop <= buy < base < sell <= sell_stop`, wherever the
/// padding is at least one unit and the stop is at least as wide as the
/// padding.
pub proof fn lemma_layout_is_ordered(base_price: int, padding_percent: int, stop_percent: int)
    requires
        base_price > 0,
        0 <= padding_percent <= stop_percent,
        offset_spec(base_price, padding_percent) >= 1,
    ensures
        base_price - offset_spec(base_price, stop_percent) <= base_price - offset_spec(
            base_price,
            padding_percent,
        ),
        base_price - offset_spec(base_price, padding_percent) < base_price,
        base_price < base_price + offset_spec(base_price, padding_percent),
        base_price + offset_spec(base_price, padding_percent) <= base_price + offset_spec(
            base_price,
            stop_percent,
        ),
{
    lemma_percent_monotonic(base_price, padding_percent, stop_percent);
}

/// A bar moves the status of a deal and nothing else, so thresholds that lie
/// in order before a transition lie in order after it.
pub proof fn lemma_transition_keeps_bracket(deal: Deal, candle: Candle, tie_break: TieBreak)
    ensures
        deal.after(candle, tie_break).with_status(deal.status) == deal,
        deal.bracket_ordered() <==> deal.after(candle, tie_break).bracket_ordered(),
{
}

/// A deal that has ended never changes again.
pub proof fn lemma_terminal_is_final(deal: Deal, candle: Candle, tie_break: TieBreak)
    requires
        deal.status.terminal(),
    ensures
        deal.after(candle, tie_break) == deal,
{
}

/// A deal changes state at most once per bar and never returns to an earlier
/// state: an `Initial` deal may go anywhere, a stuck deal only to a terminal
/// state of its own side or to `Profit`.
pub proof fn lemma_transition_moves_forward(deal: Deal, candle: Candle, tie_break: TieBreak)
    ensures
        ({
            let next = deal.after(candle, tie_break).status;
            &&& deal.status is FilledBuy ==> next is FilledBuy || next is FailBuy || next is Profit
            &&& deal.status is FilledSell ==> next is FilledSell || next is FailSell
                || next is Profit
            &&& deal.status.terminal() ==> next == deal.status
        }),
{
}

} // verus!
