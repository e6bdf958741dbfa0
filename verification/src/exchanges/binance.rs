//! The Binance depth-snapshot wire schema and its normalization.

use vstd::prelude::*;
use crate::{Exchange, Instrument, symbol_compact_usdt};
use crate::exchanges::{RawLevel, raw_side_ok, raw_side_ticks};
use crate::model::OrderBook;

verus! {

/// A Binance depth snapshot as decoded from the wire: an update id and the
/// two sides, numbers still the strings the exchange sent.
#[derive(Debug, Clone)]
pub struct BinanceOrderBook {
    pub last_update_id: u64,
    pub bids: Vec<RawLevel>,
    pub asks: Vec<RawLevel>,
}

/// `ob` is the canonical snapshot that the Binance wire book `b` denotes
/// for instrument symbol `instr`.
pub open spec fn is_binance_snapshot(ob: OrderBook, b: BinanceOrderBook, instr: Seq<char>) -> bool {
    &&& ob.exchange == Exchange::Binance
    &&& ob.sequence == b.last_update_id
    &&& ob.instrument@ == instr
    &&& ob.bids@ == raw_side_ticks(b.bids@)
    &&& ob.asks@ == raw_side_ticks(b.asks@)
}

impl OrderBook {
    /// Normalizes a Binance wire book into the canonical model, stamped
    /// with the Binance identity; `None` exactly when some level does not
    /// parse.
    pub fn from_binance(b: &BinanceOrderBook, instrument: String) -> (r: Option<OrderBook>)
        ensures
            match r {
                Some(ob) => {
                    &&& raw_side_ok(b.bids@)
                    &&& raw_side_ok(b.asks@)
                    &&& is_binance_snapshot(ob, *b, instrument@)
                },
                None => !raw_side_ok(b.bids@) || !raw_side_ok(b.asks@),
            },
    {
        let bids = match crate::exchanges::convert_levels(&b.bids) {
            Some(v) => v,
            None => {
                return None;
            },
        };
        let asks = match crate::exchanges::convert_levels(&b.asks) {
            Some(v) => v,
            None => {
                return None;
            },
        };
        Some(
            OrderBook {
                exchange: Exchange::Binance,
                sequence: b.last_update_id,
                instrument,
                bids,
                asks,
            },
        )
    }
}

/// The websocket endpoint of the Binance depth stream for an instrument.
pub fn stream_url(instrument: &Instrument) -> (r: String)
    ensures
        r@ == "wss://stream.binance.com:9443/ws/"@ + symbol_compact_usdt(*instrument)
            + "@depth20@100ms"@,
{
    let mut s = String::from_str("wss://stream.binance.com:9443/ws/");
    let sym = instrument.get_symbol_compact_usdt();
    s.append(sym.as_str());
    s.append("@depth20@100ms");
    s
}

} // verus!
