//! Symbols, handshake texts, event classification, backoff, and the
//! per-frame connector decisions.

use orderbook_aggregator::{Exchange, Instrument};
use orderbook_aggregator::backoff::Backoff;
use orderbook_aggregator::connector::{
    BinanceMessage, BitstampMessage, ConnectorAction, ConnectorState,
};
use orderbook_aggregator::exchanges::RawLevel;
use orderbook_aggregator::exchanges::binance::{BinanceOrderBook, stream_url};
use orderbook_aggregator::exchanges::bitstamp::{
    BitStampOrderBook, BitStampOrderBookWrapper, BitstampEventKind, classify_event, subscribe_text,
};

fn pair(base: &str, quote: &str) -> Instrument {
    Instrument { base: base.to_string(), quote: quote.to_string() }
}

#[test]
fn default_exchange_is_binance() {
    assert_eq!(Exchange::default(), Exchange::Binance);
}

#[test]
fn symbol_renderings() {
    let i = pair("eth", "btc");
    assert_eq!(i.get_symbol_compact(), "ethbtc");
    assert_eq!(i.get_symbol_dash(), "eth-btc");
    assert_eq!(i.get_symbol_slash(), "eth/btc");
    assert_eq!(i.get_symbol_compact_usdt(), "ethbtc");
}

#[test]
fn usdt_symbol_widens_a_usd_side() {
    assert_eq!(pair("usd", "btc").get_symbol_compact_usdt(), "usdtbtc");
    assert_eq!(pair("btc", "USD").get_symbol_compact_usdt(), "btcUSDt");
    assert_eq!(pair("Usd", "btc").get_symbol_compact_usdt(), "Usdtbtc");
    assert_eq!(pair("usdc", "btc").get_symbol_compact_usdt(), "usdcbtc");
}

#[test]
fn binance_stream_url_text() {
    assert_eq!(
        stream_url(&pair("eth", "btc")),
        "wss://stream.binance.com:9443/ws/ethbtc@depth20@100ms"
    );
}

#[test]
fn bitstamp_subscribe_frame_text() {
    assert_eq!(
        subscribe_text(&pair("eth", "btc")),
        "{\"event\":\"bts:subscribe\",\"data\":{\"channel\":\"order_book_ethbtc\"}}"
    );
}

#[test]
fn bitstamp_event_classification() {
    assert_eq!(classify_event("data"), BitstampEventKind::Data);
    assert_eq!(
        classify_event("bts:subscription_succeeded"),
        BitstampEventKind::SubscriptionSucceeded
    );
    assert_eq!(classify_event("bts:error"), BitstampEventKind::Other);
    assert_eq!(classify_event(""), BitstampEventKind::Other);
}

#[test]
fn backoff_doubles_until_reset() {
    let mut b = Backoff::new();
    assert_eq!(b.delay_ms, 100);
    // Consecutive failed sessions: delays strictly double.
    assert_eq!(b.next_delay(), 100);
    assert_eq!(b.next_delay(), 200);
    assert_eq!(b.next_delay(), 400);
    assert_eq!(b.delay_ms, 800);
    // A successfully processed message resets to the base value.
    b.reset();
    assert_eq!(b.next_delay(), 100);
    assert_eq!(b.delay_ms, 200);
}

#[test]
fn binance_book_frame_emits_and_resets_backoff() {
    let mut c = ConnectorState::new();
    // Pretend an earlier session already failed twice.
    c.on_disconnect();
    c.on_disconnect();
    assert_eq!(c.backoff.delay_ms, 400);
    let msg = BinanceMessage::Book(BinanceOrderBook {
        last_update_id: 9,
        bids: vec![RawLevel { price: "100.0".to_string(), amount: "2.0".to_string() }],
        asks: vec![RawLevel { price: "101.0".to_string(), amount: "1.0".to_string() }],
    });
    match c.on_binance_message(&pair("eth", "btc"), msg) {
        ConnectorAction::Emit(ob) => {
            assert_eq!(ob.exchange, Exchange::Binance);
            assert_eq!(ob.instrument, "ethbtc");
            assert_eq!(ob.sequence, 9);
            assert_eq!(ob.bids[0].price, 10_000_000_000);
        }
        _ => panic!("expected an emitted snapshot"),
    }
    assert_eq!(c.backoff.delay_ms, 100);
}

#[test]
fn binance_ping_asks_for_pong_without_reset() {
    let mut c = ConnectorState::new();
    c.on_disconnect();
    let a = c.on_binance_message(&pair("eth", "btc"), BinanceMessage::Ping);
    assert!(matches!(a, ConnectorAction::SendPong));
    assert_eq!(c.backoff.delay_ms, 200);
    // The pong going out counts as a processed message.
    c.on_pong_sent();
    assert_eq!(c.backoff.delay_ms, 100);
}

#[test]
fn binance_malformed_frame_is_skipped_and_session_kept() {
    let mut c = ConnectorState::new();
    c.on_disconnect();
    let a = c.on_binance_message(&pair("eth", "btc"), BinanceMessage::Malformed);
    assert!(matches!(a, ConnectorAction::Skip));
    assert_eq!(c.backoff.delay_ms, 200);
}

#[test]
fn bitstamp_data_frame_emits() {
    let mut c = ConnectorState::new();
    let w = BitStampOrderBookWrapper {
        event: "data".to_string(),
        channel: "order_book_ethbtc".to_string(),
        data: BitStampOrderBook {
            timestamp: "1667896987".to_string(),
            microtimestamp: "1667896987123456".to_string(),
            bids: vec![RawLevel { price: "100.5".to_string(), amount: "1.0".to_string() }],
            asks: vec![RawLevel { price: "100.8".to_string(), amount: "0.5".to_string() }],
        },
    };
    let msg = BitstampMessage::Text("data".to_string(), Some(w));
    match c.on_bitstamp_message(&pair("eth", "btc"), msg) {
        ConnectorAction::Emit(ob) => {
            assert_eq!(ob.exchange, Exchange::Bitstamp);
            assert_eq!(ob.sequence, 1_667_896_987);
            assert_eq!(ob.asks[0].price, 10_080_000_000);
        }
        _ => panic!("expected an emitted snapshot"),
    }
}

#[test]
fn bitstamp_acknowledgement_is_logged_only() {
    let mut c = ConnectorState::new();
    c.on_disconnect();
    let msg = BitstampMessage::Text("bts:subscription_succeeded".to_string(), None);
    let a = c.on_bitstamp_message(&pair("eth", "btc"), msg);
    assert!(matches!(a, ConnectorAction::Skip));
    // A classified non-data event still counts as a processed message.
    assert_eq!(c.backoff.delay_ms, 100);
}

#[test]
fn reconnect_delays_come_from_the_backoff() {
    let mut c = ConnectorState::new();
    assert_eq!(c.on_disconnect(), 100);
    assert_eq!(c.on_disconnect(), 200);
    assert_eq!(c.on_disconnect(), 400);
}
