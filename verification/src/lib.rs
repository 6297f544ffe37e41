//! A terminal explorer for a Substrate-style chain, together with the
//! settlement engine of an on-chain binary prediction market.
//!
//! The engine (`prediction_market`) is a deterministic state machine:
//! stakes are escrowed per market, the market is settled once from an
//! externally supplied final price, and winners are paid pro rata exactly
//! once each.  The remaining modules hold the explorer's plain state;
//! terminal rendering and network transport live outside the library.

use vstd::prelude::*;

pub mod app;
pub mod prediction_market;
pub mod rpc_explorer;
pub mod stake_math;
pub mod ui;

verus! {

/// Default WebSocket URL for the node the explorer connects to.
pub const DEFAULT_NODE_URL: &'static str = "ws://localhost:9944";

} // verus!
