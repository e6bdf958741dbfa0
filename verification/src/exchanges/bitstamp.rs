//! The Bitstamp order-book wire schema, its event classification, the
//! subscription handshake text, and normalization.

use vstd::prelude::*;
use crate::{Exchange, Instrument, str_eq};
use crate::decimal::{all_digits, digits_val, parse_u64};
use crate::exchanges::{RawLevel, raw_side_ok, raw_side_ticks};
use crate::model::OrderBook;

verus! {

/// The payload of a Bitstamp order-book frame: timestamps as the digit
/// strings the exchange sent, and the two sides.
#[derive(Debug, Clone)]
pub struct BitStampOrderBook {
    pub timestamp: String,
    pub microtimestamp: String,
    pub bids: Vec<RawLevel>,
    pub asks: Vec<RawLevel>,
}

/// A whole Bitstamp frame: the event name, the channel it arrived on, and
/// the payload.
#[derive(Debug, Clone)]
pub struct BitStampOrderBookWrapper {
    pub event: String,
    pub channel: String,
    pub data: BitStampOrderBook,
}

/// What a Bitstamp event name announces.
#[derive(Debug, Clone, Copy, PartialEq, Eq, Structural)]
pub enum BitstampEventKind {
    /// An order-book snapshot follows.
    Data,
    /// The subscription handshake was acknowledged.
    SubscriptionSucceeded,
    /// Any other, unclassified event.
    Other,
}

/// Classifies a Bitstamp event name.
pub fn classify_event(event: &str) -> (k: BitstampEventKind)
    ensures
        k is Data <==> event@ == "data"@,
        k is SubscriptionSucceeded <==> event@ == "bts:subscription_succeeded"@,
{
    proof {
        reveal_strlit("data");
        reveal_strlit("bts:subscription_succeeded");
        assert("data"@.len() == 4);
        assert("bts:subscription_succeeded"@.len() == 26);
    }
    if str_eq(event, "data") {
        BitstampEventKind::Data
    } else if str_eq(event, "bts:subscription_succeeded") {
        BitstampEventKind::SubscriptionSucceeded
    } else {
        BitstampEventKind::Other
    }
}

/// The timestamp string is all digits and its value fits the sequence
/// field.
pub open spec fn timestamp_ok(s: Seq<char>) -> bool {
    &&& s.len() >= 1
    &&& all_digits(s)
    &&& digits_val(s) <= u64::MAX
}

/// `ob` is the canonical snapshot that the Bitstamp frame `w` denotes for
/// instrument symbol `instr`.
pub open spec fn is_bitstamp_snapshot(ob: OrderBook, w: BitStampOrderBookWrapper, instr: Seq<char>) -> bool {
    &&& ob.exchange == Exchange::Bitstamp
    &&& ob.sequence == digits_val(w.data.timestamp@)
    &&& ob.instrument@ == instr
    &&& ob.bids@ == raw_side_ticks(w.data.bids@)
    &&& ob.asks@ == raw_side_ticks(w.data.asks@)
}

impl OrderBook {
    /// Normalizes a Bitstamp frame into the canonical model, stamped with
    /// the Bitstamp identity and sequenced by the frame's timestamp;
    /// `None` exactly when the timestamp or some level does not parse.
    pub fn from_bitstamp(w: &BitStampOrderBookWrapper, instrument: String) -> (r: Option<
        OrderBook,
    >)
        ensures
            match r {
                Some(ob) => {
                    &&& timestamp_ok(w.data.timestamp@)
                    &&& raw_side_ok(w.data.bids@)
                    &&& raw_side_ok(w.data.asks@)
                    &&& is_bitstamp_snapshot(ob, *w, instrument@)
                },
                None => !timestamp_ok(w.data.timestamp@) || !raw_side_ok(w.data.bids@)
                    || !raw_side_ok(w.data.asks@),
            },
    {
        let sequence = match parse_u64(w.data.timestamp.as_str()) {
            Some(t) => t,
            None => {
                return None;
            },
        };
        proof {
            crate::decimal::lemma_digits_val_bounds(w.data.timestamp@);
        }
        let bids = match crate::exchanges::convert_levels(&w.data.bids) {
            Some(v) => v,
            None => {
                return None;
            },
        };
        let asks = match crate::exchanges::convert_levels(&w.data.asks) {
            Some(v) => v,
            None => {
                return None;
            },
        };
        Some(
            OrderBook {
                exchange: Exchange::Bitstamp,
                sequence,
                instrument,
                bids,
                asks,
            },
        )
    }
}

/// The subscription handshake frame that opens the Bitstamp order-book
/// channel for an instrument; Bitstamp sends no data until it arrives.
pub fn subscribe_text(instrument: &Instrument) -> (r: String)
    ensures
        r@ == "{\"event\":\"bts:subscribe\",\"data\":{\"channel\":\"order_book_"@
            + instrument.base@ + instrument.quote@ + "\"}}"@,
{
    let mut s = String::from_str("{\"event\":\"bts:subscribe\",\"data\":{\"channel\":\"order_book_");
    let sym = instrument.get_symbol_compact();
    s.append(sym.as_str());
    s.append("\"}}");
    s
}

} // verus!
