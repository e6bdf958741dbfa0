//! Storage and merge behaviour on concrete snapshots.

use orderbook_aggregator::Exchange;
use orderbook_aggregator::fanout::FanOut;
use orderbook_aggregator::model::{OrderBook, OrderBookLevel};
use orderbook_aggregator::storage::{OrderbookStorage, process_update};
use orderbook_aggregator::summary::Level;

/// One whole unit in ticks (eight decimal places).
const UNIT: u64 = 100_000_000;

fn level(price_units: u64, price_frac: u64, amount_units: u64, amount_frac: u64) -> OrderBookLevel {
    OrderBookLevel {
        price: price_units * UNIT + price_frac,
        amount: amount_units * UNIT + amount_frac,
    }
}

fn book(exchange: Exchange, bids: Vec<OrderBookLevel>, asks: Vec<OrderBookLevel>) -> OrderBook {
    OrderBook { exchange, sequence: 1, instrument: "ethbtc".to_string(), bids, asks }
}

#[test]
fn two_exchange_merge_scenario() {
    // Exchange A (Binance): bid (100.0, 2.0), ask (101.0, 1.0).
    // Exchange B (Bitstamp): bid (100.5, 1.0), ask (100.8, 0.5).
    let mut storage = OrderbookStorage::new();
    storage.update(
        Exchange::Binance,
        book(Exchange::Binance, vec![level(100, 0, 2, 0)], vec![level(101, 0, 1, 0)]),
    );
    storage.update(
        Exchange::Bitstamp,
        book(
            Exchange::Bitstamp,
            vec![level(100, 50_000_000, 1, 0)],
            vec![level(100, 80_000_000, 0, 50_000_000)],
        ),
    );
    let s = storage.merge().expect("both sides present");
    assert_eq!(
        s.bids,
        vec![
            Level { exchange: Exchange::Bitstamp, price: 100 * UNIT + 50_000_000, amount: UNIT },
            Level { exchange: Exchange::Binance, price: 100 * UNIT, amount: 2 * UNIT },
        ]
    );
    assert_eq!(
        s.asks,
        vec![
            Level {
                exchange: Exchange::Bitstamp,
                price: 100 * UNIT + 80_000_000,
                amount: 50_000_000,
            },
            Level { exchange: Exchange::Binance, price: 101 * UNIT, amount: UNIT },
        ]
    );
    // Spread 100.8 - 100.5 = 0.3.
    assert_eq!(s.spread, 30_000_000);
}

#[test]
fn second_update_replaces_first() {
    // A updates twice before B sends anything: only A's latest levels show.
    let mut storage = OrderbookStorage::new();
    storage.update(
        Exchange::Binance,
        book(Exchange::Binance, vec![level(90, 0, 5, 0)], vec![level(95, 0, 5, 0)]),
    );
    storage.update(
        Exchange::Binance,
        book(Exchange::Binance, vec![level(91, 0, 1, 0)], vec![level(94, 0, 2, 0)]),
    );
    let s = storage.merge().expect("both sides present");
    assert_eq!(s.bids, vec![Level { exchange: Exchange::Binance, price: 91 * UNIT, amount: UNIT }]);
    assert_eq!(
        s.asks,
        vec![Level { exchange: Exchange::Binance, price: 94 * UNIT, amount: 2 * UNIT }]
    );
    assert_eq!(s.spread, 3 * UNIT as i128);
    assert!(storage.get(&Exchange::Bitstamp).is_none());
    assert_eq!(storage.get(&Exchange::Binance).unwrap().bids[0].price, 91 * UNIT);
}

#[test]
fn no_summary_while_a_side_is_empty() {
    let mut storage = OrderbookStorage::new();
    assert!(storage.merge().is_none());
    // Bids only: still no summary.
    storage.update(Exchange::Binance, book(Exchange::Binance, vec![level(100, 0, 1, 0)], vec![]));
    assert!(storage.merge().is_none());
    // An ask arrives from the other exchange: now both sides exist.
    storage.update(Exchange::Bitstamp, book(Exchange::Bitstamp, vec![], vec![level(101, 0, 1, 0)]));
    let s = storage.merge().expect("both sides present");
    assert_eq!(s.spread, UNIT as i128);
}

#[test]
fn sides_truncate_to_ten_levels() {
    let mut bids = Vec::new();
    let mut asks = Vec::new();
    for i in 0..8u64 {
        bids.push(level(100 + i, 0, 1, 0));
        asks.push(level(200 + i, 0, 1, 0));
    }
    let mut storage = OrderbookStorage::new();
    storage.update(Exchange::Binance, book(Exchange::Binance, bids.clone(), asks.clone()));
    storage.update(Exchange::Bitstamp, book(Exchange::Bitstamp, bids, asks));
    let s = storage.merge().expect("both sides present");
    // Sixteen levels per side were stored; only ten survive.
    assert_eq!(s.bids.len(), 10);
    assert_eq!(s.asks.len(), 10);
    // Best bid is the highest price, best ask the lowest.
    assert_eq!(s.bids[0].price, 107 * UNIT);
    assert_eq!(s.asks[0].price, 200 * UNIT);
}

#[test]
fn sort_orders_prices_and_breaks_ties_by_amount() {
    let mut storage = OrderbookStorage::new();
    storage.update(
        Exchange::Binance,
        book(
            Exchange::Binance,
            vec![level(100, 0, 1, 0), level(102, 0, 1, 0)],
            vec![level(103, 0, 1, 0)],
        ),
    );
    storage.update(
        Exchange::Bitstamp,
        book(
            Exchange::Bitstamp,
            vec![level(102, 0, 3, 0)],
            vec![level(103, 0, 2, 0), level(104, 0, 1, 0)],
        ),
    );
    let s = storage.merge().expect("both sides present");
    // Bids non-increasing in price, the 102.0 tie broken by larger amount.
    assert_eq!(s.bids[0], Level { exchange: Exchange::Bitstamp, price: 102 * UNIT, amount: 3 * UNIT });
    assert_eq!(s.bids[1], Level { exchange: Exchange::Binance, price: 102 * UNIT, amount: UNIT });
    assert_eq!(s.bids[2], Level { exchange: Exchange::Binance, price: 100 * UNIT, amount: UNIT });
    // Asks non-decreasing in price, the 103.0 tie broken by larger amount.
    assert_eq!(s.asks[0], Level { exchange: Exchange::Bitstamp, price: 103 * UNIT, amount: 2 * UNIT });
    assert_eq!(s.asks[1], Level { exchange: Exchange::Binance, price: 103 * UNIT, amount: UNIT });
    assert_eq!(s.asks[2], Level { exchange: Exchange::Bitstamp, price: 104 * UNIT, amount: UNIT });
}

#[test]
fn recomputing_gives_identical_output() {
    let mut storage = OrderbookStorage::new();
    storage.update(
        Exchange::Binance,
        book(Exchange::Binance, vec![level(100, 0, 2, 0)], vec![level(101, 0, 1, 0)]),
    );
    storage.update(
        Exchange::Bitstamp,
        book(Exchange::Bitstamp, vec![level(100, 50_000_000, 1, 0)], vec![level(100, 80_000_000, 1, 0)]),
    );
    let a = storage.merge().expect("both sides present");
    let b = storage.merge().expect("both sides present");
    assert_eq!(a.spread, b.spread);
    assert_eq!(a.bids, b.bids);
    assert_eq!(a.asks, b.asks);
}

#[test]
fn engine_step_publishes_to_every_subscriber() {
    let mut storage = OrderbookStorage::new();
    let mut fanout = FanOut::new();
    let first = fanout.subscribe();
    // Only bids so far: no summary goes out.
    let published = process_update(
        &mut storage,
        &mut fanout,
        book(Exchange::Binance, vec![level(100, 0, 1, 0)], vec![]),
    );
    assert!(!published);
    assert!(fanout.recv(first).is_none());
    // The other exchange brings an ask: the summary reaches both
    // subscribers, including the one that joined in between.
    let second = fanout.subscribe();
    let published = process_update(
        &mut storage,
        &mut fanout,
        book(Exchange::Bitstamp, vec![], vec![level(101, 0, 1, 0)]),
    );
    assert!(published);
    let to_first = fanout.recv(first).expect("pending");
    let to_second = fanout.recv(second).expect("pending");
    assert_eq!(to_first.spread, UNIT as i128);
    assert_eq!(to_second.spread, UNIT as i128);
    assert_eq!(to_first.bids, to_second.bids);
    assert_eq!(to_first.asks, to_second.asks);
}

#[test]
fn spread_can_be_negative_when_books_cross() {
    let mut storage = OrderbookStorage::new();
    storage.update(
        Exchange::Binance,
        book(Exchange::Binance, vec![level(102, 0, 1, 0)], vec![level(103, 0, 1, 0)]),
    );
    storage.update(
        Exchange::Bitstamp,
        book(Exchange::Bitstamp, vec![level(99, 0, 1, 0)], vec![level(101, 0, 1, 0)]),
    );
    let s = storage.merge().expect("both sides present");
    // Best bid 102.0 on Binance, best ask 101.0 on Bitstamp.
    assert_eq!(s.spread, -(UNIT as i128));
}
