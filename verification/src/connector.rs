//! Per-exchange connector decisions.
//!
//! The transport layer owns the websocket session: it reads frames, sends
//! what it is told to send, sleeps, and reconnects. Every decision — what a
//! frame means, what to emit, when to reply to a keep-alive, how long to
//! back off — is made here, on plain values.
//!
//! A frame that does not decode is skipped and the session kept, rather
//! than treated as fatal: one bad frame should not forfeit the stream.

use vstd::prelude::*;
use crate::Instrument;
use crate::backoff::{BASE_DELAY_MS, Backoff, spec_next_delay};
use crate::exchanges::binance::{BinanceOrderBook, is_binance_snapshot};
use crate::exchanges::bitstamp::{
    BitStampOrderBookWrapper, BitstampEventKind, classify_event, is_bitstamp_snapshot,
};
use crate::exchanges::raw_side_ok;
use crate::exchanges::bitstamp::timestamp_ok;
use crate::model::OrderBook;

verus! {

/// One inbound Binance frame, as the transport hands it over. `Book` is a
/// decoded depth snapshot; `Malformed` is a text frame that did not
/// decode; `Other` is any recognized frame of an unhandled kind.
pub enum BinanceMessage {
    Book(BinanceOrderBook),
    Binary,
    Ping,
    Other,
    Malformed,
}

/// One inbound Bitstamp frame. A text frame carries its event name and,
/// when the frame carried one, the decoded order-book payload.
pub enum BitstampMessage {
    Text(String, Option<BitStampOrderBookWrapper>),
    Binary,
    Ping,
    Malformed,
}

/// What the transport should do with the frame it handed in.
pub enum ConnectorAction {
    /// Put this normalized snapshot on the shared update channel; a send
    /// failure there means nobody is listening and is not fatal.
    Emit(OrderBook),
    /// Reply to the keep-alive; failure to send it ends the session.
    SendPong,
    /// Nothing to send or emit (the frame was logged or skipped).
    Skip,
}

/// Connector state that survives sessions: the reconnect backoff.
pub struct ConnectorState {
    pub backoff: Backoff,
}

impl ConnectorState {
    /// A connector that has not failed yet.
    pub fn new() -> (r: Self)
        ensures
            r.backoff.delay_ms == BASE_DELAY_MS,
    {
        ConnectorState { backoff: Backoff::new() }
    }

    /// Decision for one inbound Binance frame: a decoded book whose
    /// numbers parse is emitted (stamped with the compact symbol) and
    /// counts as a successfully processed message, resetting the backoff;
    /// binary and unhandled frames are skipped but still reset it; a ping
    /// asks for a pong; a frame that did not decode, or whose numbers do
    /// not parse, is skipped without touching the backoff.
    pub fn on_binance_message(&mut self, instrument: &Instrument, msg: BinanceMessage) -> (a:
        ConnectorAction)
        ensures
            match msg {
                BinanceMessage::Book(b) => {
                    if raw_side_ok(b.bids@) && raw_side_ok(b.asks@) {
                        &&& (a matches ConnectorAction::Emit(ob) && is_binance_snapshot(
                            ob,
                            b,
                            instrument.base@ + instrument.quote@,
                        ))
                        &&& final(self).backoff.delay_ms == BASE_DELAY_MS
                    } else {
                        a is Skip && final(self).backoff == old(self).backoff
                    }
                },
                BinanceMessage::Binary => a is Skip && final(self).backoff.delay_ms
                    == BASE_DELAY_MS,
                BinanceMessage::Ping => a is SendPong && final(self).backoff == old(self).backoff,
                BinanceMessage::Other => a is Skip && final(self).backoff.delay_ms
                    == BASE_DELAY_MS,
                BinanceMessage::Malformed => a is Skip && final(self).backoff == old(
                    self,
                ).backoff,
            },
    {
        match msg {
            BinanceMessage::Book(b) => {
                let sym = instrument.get_symbol_compact();
                match OrderBook::from_binance(&b, sym) {
                    Some(ob) => {
                        self.backoff.reset();
                        ConnectorAction::Emit(ob)
                    },
                    None => ConnectorAction::Skip,
                }
            },
            BinanceMessage::Binary => {
                self.backoff.reset();
                ConnectorAction::Skip
            },
            BinanceMessage::Ping => ConnectorAction::SendPong,
            BinanceMessage::Other => {
                self.backoff.reset();
                ConnectorAction::Skip
            },
            BinanceMessage::Malformed => ConnectorAction::Skip,
        }
    }

    /// Decision for one inbound Bitstamp frame. A text frame whose event
    /// names data is emitted when its payload decoded and parses, and then
    /// resets the backoff; other classified text events are acknowledged
    /// or logged and also reset it; a data event without a usable payload
    /// is skipped without touching the backoff, as are binary frames and
    /// frames that did not decode; a ping asks for a pong.
    pub fn on_bitstamp_message(&mut self, instrument: &Instrument, msg: BitstampMessage) -> (a:
        ConnectorAction)
        ensures
            match msg {
                BitstampMessage::Text(event, body) => {
                    if event@ == "data"@ {
                        match body {
                            Some(w) => {
                                if timestamp_ok(w.data.timestamp@) && raw_side_ok(w.data.bids@)
                                    && raw_side_ok(w.data.asks@) {
                                    &&& (a matches ConnectorAction::Emit(ob)
                                        && is_bitstamp_snapshot(
                                        ob,
                                        w,
                                        instrument.base@ + instrument.quote@,
                                    ))
                                    &&& final(self).backoff.delay_ms == BASE_DELAY_MS
                                } else {
                                    a is Skip && final(self).backoff == old(self).backoff
                                }
                            },
                            None => a is Skip && final(self).backoff == old(self).backoff,
                        }
                    } else {
                        a is Skip && final(self).backoff.delay_ms == BASE_DELAY_MS
                    }
                },
                BitstampMessage::Binary => a is Skip && final(self).backoff == old(self).backoff,
                BitstampMessage::Ping => a is SendPong && final(self).backoff == old(
                    self,
                ).backoff,
                BitstampMessage::Malformed => a is Skip && final(self).backoff == old(
                    self,
                ).backoff,
            },
    {
        match msg {
            BitstampMessage::Text(event, body) => {
                match classify_event(event.as_str()) {
                    BitstampEventKind::Data => {
                        match body {
                            Some(w) => {
                                let sym = instrument.get_symbol_compact();
                                match OrderBook::from_bitstamp(&w, sym) {
                                    Some(ob) => {
                                        self.backoff.reset();
                                        ConnectorAction::Emit(ob)
                                    },
                                    None => ConnectorAction::Skip,
                                }
                            },
                            None => ConnectorAction::Skip,
                        }
                    },
                    BitstampEventKind::SubscriptionSucceeded => {
                        self.backoff.reset();
                        ConnectorAction::Skip
                    },
                    BitstampEventKind::Other => {
                        self.backoff.reset();
                        ConnectorAction::Skip
                    },
                }
            },
            BitstampMessage::Binary => ConnectorAction::Skip,
            BitstampMessage::Ping => ConnectorAction::SendPong,
            BitstampMessage::Malformed => ConnectorAction::Skip,
        }
    }

    /// The keep-alive reply went out: that counts as a successfully
    /// processed message.
    pub fn on_pong_sent(&mut self)
        ensures
            final(self).backoff.delay_ms == BASE_DELAY_MS,
    {
        self.backoff.reset();
    }

    /// The session ended (transport error, stream end, or a failed pong):
    /// returns how many milliseconds to sleep before reconnecting and
    /// doubles the next delay.
    pub fn on_disconnect(&mut self) -> (d: u64)
        ensures
            d == old(self).backoff.delay_ms,
            final(self).backoff.delay_ms == spec_next_delay(old(self).backoff.delay_ms as int),
    {
        self.backoff.next_delay()
    }
}

} // verus!
