//! Canonical order book model shared by all exchanges.

use vstd::prelude::*;
use crate::Exchange;

verus! {

/// One resting level of an order book: the price and the size resting at
/// that price, both in fixed-point ticks (see [`crate::decimal`]).
#[derive(Debug, Clone, Copy, PartialEq, Eq, Structural)]
pub struct OrderBookLevel {
    pub price: u64,
    pub amount: u64,
}

/// A normalized snapshot of the entire currently-known book from one
/// exchange at one point in time. Each inbound exchange message becomes one
/// snapshot, which replaces — never patches — the previous snapshot for that
/// exchange. `sequence` is exchange-supplied and carried as informational
/// metadata only; it is not validated for monotonicity or gaps.
#[derive(Debug, Clone)]
pub struct OrderBook {
    pub exchange: Exchange,
    pub sequence: u64,
    pub instrument: String,
    pub bids: Vec<OrderBookLevel>,
    pub asks: Vec<OrderBookLevel>,
}

} // verus!
