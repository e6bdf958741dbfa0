//! Fan-out distribution semantics.

use orderbook_aggregator::Exchange;
use orderbook_aggregator::fanout::{FanOut, SUBSCRIBER_CAPACITY};
use orderbook_aggregator::summary::{Level, Summary};

fn summary(tag: i128) -> Summary {
    Summary {
        spread: tag,
        bids: vec![Level { exchange: Exchange::Binance, price: 100, amount: 1 }],
        asks: vec![Level { exchange: Exchange::Bitstamp, price: 101, amount: 1 }],
    }
}

#[test]
fn late_subscriber_sees_only_later_summaries() {
    let mut fanout = FanOut::new();
    let early = fanout.subscribe();
    // Five summaries go out before the late subscriber arrives.
    for k in 1..=5 {
        fanout.publish(&summary(k));
    }
    let late = fanout.subscribe();
    fanout.publish(&summary(6));
    // The late subscriber receives summary six and nothing before it.
    let got = fanout.recv(late).expect("one pending summary");
    assert_eq!(got.spread, 6);
    assert!(fanout.recv(late).is_none());
    // The early subscriber has all six pending, oldest first.
    for k in 1..=6 {
        assert_eq!(fanout.recv(early).expect("pending").spread, k);
    }
    assert!(fanout.recv(early).is_none());
}

#[test]
fn full_queue_drops_oldest_unread() {
    let mut fanout = FanOut::new();
    let id = fanout.subscribe();
    let total = SUBSCRIBER_CAPACITY as i128 + 3;
    for k in 1..=total {
        fanout.publish(&summary(k));
    }
    // The three oldest were displaced; the rest arrive in order.
    for k in 4..=total {
        assert_eq!(fanout.recv(id).expect("pending").spread, k);
    }
    assert!(fanout.recv(id).is_none());
}

#[test]
fn publisher_is_not_blocked_by_a_slow_subscriber() {
    let mut fanout = FanOut::new();
    let slow = fanout.subscribe();
    let fast = fanout.subscribe();
    for k in 1..=40 {
        fanout.publish(&summary(k));
        // The fast subscriber keeps up and sees every summary.
        assert_eq!(fanout.recv(fast).expect("pending").spread, k);
    }
    // The slow subscriber missed the overflow but gets the latest ones.
    assert_eq!(
        fanout.recv(slow).expect("pending").spread,
        41 - SUBSCRIBER_CAPACITY as i128
    );
}

#[test]
fn dropped_subscriber_stops_receiving() {
    let mut fanout = FanOut::new();
    let a = fanout.subscribe();
    let b = fanout.subscribe();
    fanout.publish(&summary(1));
    fanout.drop_subscriber(a);
    fanout.publish(&summary(2));
    // The dropped queue is empty and stays empty.
    assert!(fanout.recv(a).is_none());
    // The other subscriber is untouched.
    assert_eq!(fanout.recv(b).expect("pending").spread, 1);
    assert_eq!(fanout.recv(b).expect("pending").spread, 2);
    assert_eq!(fanout.subscriber_count(), 2);
}
