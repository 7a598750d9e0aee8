//! A grid-trading engine in fixed-point arithmetic.
//!
//! The strategy keeps a ladder of buy and sell orders around the price. The
//! crate holds its rules and proves them: how an order is sized
//! ([`sizing`]), how a deal is laid out and moves from state to state
//! ([`deal`]), how a bar resolves the open deals and changes the ledger, and
//! how a history of bars is replayed ([`simulator`]), a coarser replay on an
//! order book ([`collision`]), and the steps of the live loop ([`trader`])
//! and of catching up with the exchange ([`sync`]).
//!
//! Nothing here talks to the exchange or to a disk. The crate describes
//! requests and signs them ([`stock`]), reads what the exchange answers
//! ([`dto`], [`candle`], [`number`]), and keeps its rows in a store in
//! memory ([`database`], [`table`]); whoever uses it sends, receives and
//! persists.
//!
//! All amounts are fixed-point numbers with eight decimal places
//! ([`fixed`]).
pub mod candle;
pub mod collision;
pub mod config;
pub mod count;
pub mod database;
pub mod dates;
pub mod deal;
pub mod dto;
pub mod fixed;
pub mod number;
pub mod retry;
pub mod simulator;
pub mod sizing;
pub mod stock;
pub mod sync;
pub mod table;
pub mod text;
pub mod trade_state;
pub mod trader;
