//! Aggregated per-exchange storage and the merged summary computation.
//!
//! The storage maps each exchange to its most recent snapshot; every update
//! replaces that exchange's entry wholesale. It is meant to be owned by a
//! single sequential consumer of the merged update stream, so it needs no
//! locking.

use vstd::prelude::*;
use crate::Exchange;
use crate::fanout::{FanOut, offered};
use crate::model::OrderBook;
use crate::summary::{
    Level, Summary, SUMMARY_DEPTH, lemma_sort_levels_sorted, lemma_take_depth, side_sorted,
    sort_levels, sort_side, tag_levels, tag_seq, take_depth,
};

verus! {

/// Latest snapshot per exchange; absence of an entry means that exchange
/// has not reported yet.
#[derive(Debug, Clone)]
pub struct OrderbookStorage {
    binance: Option<OrderBook>,
    bitstamp: Option<OrderBook>,
}

impl View for OrderbookStorage {
    type V = Map<Exchange, OrderBook>;

    closed spec fn view(&self) -> Map<Exchange, OrderBook> {
        let m = Map::empty();
        let m = match self.binance {
            Some(b) => m.insert(Exchange::Binance, b),
            None => m,
        };
        match self.bitstamp {
            Some(b) => m.insert(Exchange::Bitstamp, b),
            None => m,
        }
    }
}

/// One side of one stored snapshot, tagged; empty when the exchange has no
/// entry.
pub open spec fn side_of(m: Map<Exchange, OrderBook>, ex: Exchange, bid_side: bool) -> Seq<Level> {
    if m.contains_key(ex) {
        tag_seq(ex, if bid_side { m[ex].bids@ } else { m[ex].asks@ })
    } else {
        Seq::empty()
    }
}

/// All stored levels of one side, in the fixed exchange enumeration order.
pub open spec fn all_levels(m: Map<Exchange, OrderBook>, bid_side: bool) -> Seq<Level> {
    side_of(m, Exchange::Binance, bid_side) + side_of(m, Exchange::Bitstamp, bid_side)
}

/// The bid side of the summary computed from storage content `m`.
pub open spec fn merged_bids(m: Map<Exchange, OrderBook>) -> Seq<Level> {
    take_depth(sort_levels(true, all_levels(m, true)))
}

/// The ask side of the summary computed from storage content `m`.
pub open spec fn merged_asks(m: Map<Exchange, OrderBook>) -> Seq<Level> {
    take_depth(sort_levels(false, all_levels(m, false)))
}

impl OrderbookStorage {
    /// Fresh storage with no entry for any exchange.
    pub fn new() -> (r: Self)
        ensures
            r@ == Map::<Exchange, OrderBook>::empty(),
    {
        let r = Self { binance: None, bitstamp: None };
        proof {
            assert(r@ =~= Map::<Exchange, OrderBook>::empty());
        }
        r
    }

    /// Replaces the stored snapshot for `exchange` wholesale; levels of an
    /// older snapshot from the same exchange never survive an update.
    pub fn update(&mut self, exchange: Exchange, orderbook: OrderBook)
        ensures
            final(self)@ == old(self)@.insert(exchange, orderbook),
    {
        match exchange {
            Exchange::Binance => {
                self.binance = Some(orderbook);
            },
            Exchange::Bitstamp => {
                self.bitstamp = Some(orderbook);
            },
        }
        proof {
            assert(self@ =~= old(self)@.insert(exchange, orderbook));
        }
    }

    /// The stored snapshot for `key`, if that exchange has reported.
    pub fn get(&self, key: &Exchange) -> (r: Option<&OrderBook>)
        ensures
            r is Some <==> self@.contains_key(*key),
            r matches Some(b) ==> *b == self@[*key],
    {
        match key {
            Exchange::Binance => self.binance.as_ref(),
            Exchange::Bitstamp => self.bitstamp.as_ref(),
        }
    }

    /// Recomputes the cross-exchange summary from scratch: concatenate all
    /// stored levels of each side, sort (bids by descending price, asks by
    /// ascending price, ties by descending amount), truncate each side to
    /// [`SUMMARY_DEPTH`], and take the spread as best ask minus best bid.
    /// Returns `None` — no summary — while either side is still empty.
    pub fn merge(&self) -> (r: Option<Summary>)
        ensures
            match r {
                Some(s) => {
                    &&& merged_bids(self@).len() > 0
                    &&& merged_asks(self@).len() > 0
                    &&& s.bids@ == merged_bids(self@)
                    &&& s.asks@ == merged_asks(self@)
                    &&& s.spread == merged_asks(self@)[0].price - merged_bids(self@)[0].price
                    &&& s.spread == s.asks@[0].price - s.bids@[0].price
                },
                None => merged_bids(self@).len() == 0 || merged_asks(self@).len() == 0,
            },
    {
        let mut bids: Vec<Level> = Vec::new();
        let mut asks: Vec<Level> = Vec::new();
        match &self.binance {
            Some(ob) => {
                let mut tb = tag_levels(Exchange::Binance, &ob.bids);
                let mut ta = tag_levels(Exchange::Binance, &ob.asks);
                bids.append(&mut tb);
                asks.append(&mut ta);
            },
            None => {},
        }
        proof {
            assert(bids@ =~= side_of(self@, Exchange::Binance, true));
            assert(asks@ =~= side_of(self@, Exchange::Binance, false));
        }
        match &self.bitstamp {
            Some(ob) => {
                let mut tb = tag_levels(Exchange::Bitstamp, &ob.bids);
                let mut ta = tag_levels(Exchange::Bitstamp, &ob.asks);
                bids.append(&mut tb);
                asks.append(&mut ta);
            },
            None => {},
        }
        proof {
            assert(bids@ =~= all_levels(self@, true));
            assert(asks@ =~= all_levels(self@, false));
        }
        let mut sorted_bids = sort_side(true, bids);
        let mut sorted_asks = sort_side(false, asks);
        sorted_bids.truncate(SUMMARY_DEPTH);
        sorted_asks.truncate(SUMMARY_DEPTH);
        proof {
            assert(sorted_bids@ =~= merged_bids(self@));
            assert(sorted_asks@ =~= merged_asks(self@));
        }
        if sorted_bids.len() == 0 || sorted_asks.len() == 0 {
            return None;
        }
        let spread: i128 = sorted_asks[0].price as i128 - sorted_bids[0].price as i128;
        Some(Summary { spread, bids: sorted_bids, asks: sorted_asks })
    }
}

/// The view of the summary computed from storage content `m`: its spread
/// and its two merged sides.
pub open spec fn summary_view_of(m: Map<Exchange, OrderBook>) -> (int, Seq<Level>, Seq<Level>) {
    (merged_asks(m)[0].price - merged_bids(m)[0].price, merged_bids(m), merged_asks(m))
}

/// One step of the aggregation engine, run for every snapshot arriving on
/// the merged update stream: replace that exchange's entry wholesale,
/// recompute the summary from scratch, and — when both sides are nonempty
/// — offer it to every open subscriber queue. Returns whether a summary
/// was published.
pub fn process_update(storage: &mut OrderbookStorage, fanout: &mut FanOut, book: OrderBook) -> (published: bool)
    ensures
        final(storage)@ == old(storage)@.insert(book.exchange, book),
        published == (merged_bids(final(storage)@).len() > 0 && merged_asks(final(storage)@).len()
            > 0),
        final(fanout)@.len() == old(fanout)@.len(),
        published ==> forall|k: int| 0 <= k < old(fanout)@.len() ==> offered(
            old(fanout)@[k],
            final(fanout)@[k],
            summary_view_of(final(storage)@),
        ),
        !published ==> final(fanout)@ == old(fanout)@,
{
    let exchange = book.exchange;
    storage.update(exchange, book);
    match storage.merge() {
        Some(s) => {
            fanout.publish(&s);
            true
        },
        None => false,
    }
}

/// Both sides of every computed summary are sorted — bids non-increasing in
/// price with ties non-increasing in amount, asks non-decreasing in price
/// with ties non-increasing in amount — and neither side is ever deeper
/// than [`SUMMARY_DEPTH`], however many levels the exchanges reported.
pub proof fn lemma_summary_sides_sorted_and_bounded(m: Map<Exchange, OrderBook>)
    ensures
        side_sorted(true, merged_bids(m)),
        side_sorted(false, merged_asks(m)),
        merged_bids(m).len() <= SUMMARY_DEPTH,
        merged_asks(m).len() <= SUMMARY_DEPTH,
{
    lemma_sort_levels_sorted(true, all_levels(m, true));
    lemma_sort_levels_sorted(false, all_levels(m, false));
    lemma_take_depth(true, sort_levels(true, all_levels(m, true)));
    lemma_take_depth(false, sort_levels(false, all_levels(m, false)));
}

/// Recomputing the summary from the same storage content always yields the
/// same result: the merged sides are functions of the stored map alone,
/// with no dependence on update arrival order beyond it.
pub proof fn lemma_merge_deterministic(m1: Map<Exchange, OrderBook>, m2: Map<Exchange, OrderBook>)
    requires
        m1 =~= m2,
    ensures
        merged_bids(m1) == merged_bids(m2),
        merged_asks(m1) == merged_asks(m2),
{
}

/// The storage content after a sequence of updates applied to `m`, each
/// replacing its exchange's entry.
pub open spec fn apply_updates(m: Map<Exchange, OrderBook>, ups: Seq<OrderBook>) -> Map<
    Exchange,
    OrderBook,
>
    decreases ups.len(),
{
    if ups.len() == 0 {
        m
    } else {
        apply_updates(m, ups.drop_last()).insert(ups.last().exchange, ups.last())
    }
}

/// Some update in `ups` comes from `ex`.
pub open spec fn has_update_for(ups: Seq<OrderBook>, ex: Exchange) -> bool {
    exists|i: int| 0 <= i < ups.len() && ups[i].exchange == ex
}

/// Index of the most recent update from `ex`; meaningful only when one
/// exists.
pub open spec fn last_index_for(ups: Seq<OrderBook>, ex: Exchange) -> int
    decreases ups.len(),
{
    if ups.len() == 0 {
        -1
    } else if ups.last().exchange == ex {
        ups.len() - 1
    } else {
        last_index_for(ups.drop_last(), ex)
    }
}

/// After any sequence of updates, storage holds exactly the most recently
/// applied snapshot for each exchange that sent at least one update, and is
/// untouched for every exchange that sent none.
pub proof fn lemma_storage_holds_latest(m: Map<Exchange, OrderBook>, ups: Seq<OrderBook>, ex: Exchange)
    ensures
        has_update_for(ups, ex) ==> {
            let li = last_index_for(ups, ex);
            &&& 0 <= li < ups.len()
            &&& ups[li].exchange == ex
            &&& forall|j: int| li < j < ups.len() ==> ups[j].exchange != ex
            &&& apply_updates(m, ups).contains_key(ex)
            &&& apply_updates(m, ups)[ex] == ups[li]
        },
        !has_update_for(ups, ex) ==> {
            &&& apply_updates(m, ups).contains_key(ex) == m.contains_key(ex)
            &&& m.contains_key(ex) ==> apply_updates(m, ups)[ex] == m[ex]
        },
    decreases ups.len(),
{
    if ups.len() == 0 {
    } else {
        let rest = ups.drop_last();
        let l = ups.last();
        lemma_storage_holds_latest(m, rest, ex);
        if l.exchange == ex {
            assert(has_update_for(ups, ex));
        } else {
            assert(has_update_for(rest, ex) ==> has_update_for(ups, ex));
            if has_update_for(ups, ex) {
                let w = choose|i: int| 0 <= i < ups.len() && ups[i].exchange == ex;
                assert(w < ups.len() - 1);
                assert(rest[w] == ups[w]);
                assert(has_update_for(rest, ex));
                assert(forall|j: int|
                    last_index_for(rest, ex) < j < rest.len() ==> rest[j] == ups[j]);
            }
        }
    }
}

} // verus!
