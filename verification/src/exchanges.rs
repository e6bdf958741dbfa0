//! Exchange-specific wire schemas and their normalization into the
//! canonical model. The transport layer decodes each inbound frame into
//! these plain wire structs — numeric fields kept as the decimal strings
//! the exchange sent — and this crate parses and normalizes them.

use vstd::prelude::*;
use crate::decimal::{decimal_ticks, parse_ticks, valid_decimal};
use crate::model::OrderBookLevel;

pub mod binance;
pub mod bitstamp;

verus! {

/// A wire-format price level: price and amount exactly as the exchange
/// sent them, decimal strings.
#[derive(Debug, Clone)]
pub struct RawLevel {
    pub price: String,
    pub amount: String,
}

/// Both strings of the level are decimals whose tick counts fit in `u64`.
pub open spec fn raw_level_ok(l: RawLevel) -> bool {
    &&& valid_decimal(l.price@)
    &&& decimal_ticks(l.price@) <= u64::MAX
    &&& valid_decimal(l.amount@)
    &&& decimal_ticks(l.amount@) <= u64::MAX
}

/// The canonical level a wire level denotes.
pub open spec fn raw_level_ticks(l: RawLevel) -> OrderBookLevel {
    OrderBookLevel {
        price: decimal_ticks(l.price@) as u64,
        amount: decimal_ticks(l.amount@) as u64,
    }
}

/// Every level of the side parses.
pub open spec fn raw_side_ok(s: Seq<RawLevel>) -> bool {
    forall|i: int| 0 <= i < s.len() ==> raw_level_ok(#[trigger] s[i])
}

/// The canonical levels a wire side denotes.
pub open spec fn raw_side_ticks(s: Seq<RawLevel>) -> Seq<OrderBookLevel> {
    Seq::new(s.len(), |i: int| raw_level_ticks(s[i]))
}

/// Parses one side of a wire snapshot into canonical levels; `None` exactly
/// when some level's price or amount is not a decimal this crate accepts.
pub fn convert_levels(v: &Vec<RawLevel>) -> (r: Option<Vec<OrderBookLevel>>)
    ensures
        match r {
            Some(out) => raw_side_ok(v@) && out@ == raw_side_ticks(v@),
            None => !raw_side_ok(v@),
        },
{
    let mut out: Vec<OrderBookLevel> = Vec::new();
    let mut i: usize = 0;
    while i < v.len()
        invariant
            0 <= i <= v.len(),
            forall|k: int| 0 <= k < i ==> raw_level_ok(#[trigger] v@[k]),
            out@ =~= raw_side_ticks(v@).subrange(0, i as int),
        decreases v.len() - i,
    {
        let price = match parse_ticks(v[i].price.as_str()) {
            Some(p) => p,
            None => {
                return None;
            },
        };
        let amount = match parse_ticks(v[i].amount.as_str()) {
            Some(a) => a,
            None => {
                return None;
            },
        };
        out.push(OrderBookLevel { price, amount });
        i += 1;
    }
    proof {
        assert(out@ =~= raw_side_ticks(v@));
    }
    Some(out)
}

} // verus!
