//! The merged top-of-book summary: tagging levels with their exchange,
//! sorting each side, and truncating to the depth limit.
//!
//! Sorting is specified as a mathematical insertion sort, so a computed
//! summary is pinned to a function of the stored snapshots alone.

use vstd::prelude::*;
use crate::Exchange;
use crate::model::OrderBookLevel;

verus! {

/// Depth limit of each summary side.
pub const SUMMARY_DEPTH: usize = 10;

/// A price level tagged with the exchange that reported it.
#[derive(Debug, Clone, Copy, PartialEq, Eq, Structural)]
pub struct Level {
    pub exchange: Exchange,
    pub price: u64,
    pub amount: u64,
}

/// The merged, sorted, depth-limited cross-exchange view. `spread` is the
/// best ask price minus the best bid price, in ticks; it may be negative
/// when the merged book is crossed. A summary is only built when both sides
/// are nonempty.
#[derive(Debug)]
pub struct Summary {
    pub spread: i128,
    pub bids: Vec<Level>,
    pub asks: Vec<Level>,
}

/// `a` strictly precedes `b` on the bid side: higher price first, equal
/// prices broken by larger amount.
pub open spec fn bid_precedes(a: Level, b: Level) -> bool {
    a.price > b.price || (a.price == b.price && a.amount > b.amount)
}

/// `a` strictly precedes `b` on the ask side: lower price first, equal
/// prices broken by larger amount.
pub open spec fn ask_precedes(a: Level, b: Level) -> bool {
    a.price < b.price || (a.price == b.price && a.amount > b.amount)
}

/// The strict order of the chosen side.
pub open spec fn precedes(bid_side: bool, a: Level, b: Level) -> bool {
    if bid_side {
        bid_precedes(a, b)
    } else {
        ask_precedes(a, b)
    }
}

/// `a` may stand before `b` in a sorted side: `b` does not strictly precede
/// `a`.
pub open spec fn ordered(bid_side: bool, a: Level, b: Level) -> bool {
    !precedes(bid_side, b, a)
}

/// Every pair of the sequence stands in order.
pub open spec fn side_sorted(bid_side: bool, s: Seq<Level>) -> bool {
    forall|i: int, j: int| 0 <= i < j < s.len() ==> ordered(bid_side, s[i], s[j])
}

/// Insertion of `x` into `s`, before the first element that `x` strictly
/// precedes.
pub open spec fn insert_level(bid_side: bool, s: Seq<Level>, x: Level) -> Seq<Level>
    decreases s.len(),
{
    if s.len() == 0 {
        seq![x]
    } else if precedes(bid_side, x, s[0]) {
        seq![x] + s
    } else {
        seq![s[0]] + insert_level(bid_side, s.drop_first(), x)
    }
}

/// Insertion sort of a side: the canonical sorted arrangement of `s`.
pub open spec fn sort_levels(bid_side: bool, s: Seq<Level>) -> Seq<Level>
    decreases s.len(),
{
    if s.len() == 0 {
        Seq::empty()
    } else {
        insert_level(bid_side, sort_levels(bid_side, s.drop_last()), s.last())
    }
}

/// The first `SUMMARY_DEPTH` entries of a side.
pub open spec fn take_depth(s: Seq<Level>) -> Seq<Level> {
    if s.len() <= SUMMARY_DEPTH {
        s
    } else {
        s.subrange(0, SUMMARY_DEPTH as int)
    }
}

/// The levels of one snapshot side, each tagged with its exchange.
pub open spec fn tag_seq(ex: Exchange, levels: Seq<OrderBookLevel>) -> Seq<Level> {
    Seq::new(levels.len(), |i: int| Level { exchange: ex, price: levels[i].price, amount: levels[i].amount })
}

proof fn lemma_insert_len(bid_side: bool, s: Seq<Level>, x: Level)
    ensures
        insert_level(bid_side, s, x).len() == s.len() + 1,
    decreases s.len(),
{
    if s.len() > 0 && !precedes(bid_side, x, s[0]) {
        lemma_insert_len(bid_side, s.drop_first(), x);
    }
}

proof fn lemma_insert_elems(bid_side: bool, s: Seq<Level>, x: Level)
    ensures
        forall|k: int|
            0 <= k < insert_level(bid_side, s, x).len() ==> (#[trigger] insert_level(bid_side, s, x)[k]) == x
                || s.contains(insert_level(bid_side, s, x)[k]),
    decreases s.len(),
{
    let r = insert_level(bid_side, s, x);
    if s.len() == 0 {
    } else if precedes(bid_side, x, s[0]) {
        assert forall|k: int| 0 <= k < r.len() implies r[k] == x || s.contains(r[k]) by {
            if k > 0 {
                assert(r[k] == s[k - 1]);
            }
        }
    } else {
        lemma_insert_elems(bid_side, s.drop_first(), x);
        let rest = insert_level(bid_side, s.drop_first(), x);
        assert forall|k: int| 0 <= k < r.len() implies r[k] == x || s.contains(r[k]) by {
            if k == 0 {
                assert(s.contains(s[0]));
            } else {
                assert(r[k] == rest[k - 1]);
                if rest[k - 1] != x {
                    let m = choose|m: int|
                        0 <= m < s.drop_first().len() && s.drop_first()[m] == rest[k - 1];
                    assert(s[m + 1] == rest[k - 1]);
                }
            }
        }
    }
}

proof fn lemma_insert_sorted(bid_side: bool, s: Seq<Level>, x: Level)
    requires
        side_sorted(bid_side, s),
    ensures
        side_sorted(bid_side, insert_level(bid_side, s, x)),
    decreases s.len(),
{
    let r = insert_level(bid_side, s, x);
    if s.len() == 0 {
    } else if precedes(bid_side, x, s[0]) {
        assert forall|i: int, j: int| 0 <= i < j < r.len() implies ordered(bid_side, r[i], r[j]) by {
            if i == 0 {
                assert(r[j] == s[j - 1]);
                if j - 1 > 0 {
                    assert(ordered(bid_side, s[0], s[j - 1]));
                }
            } else {
                assert(r[i] == s[i - 1] && r[j] == s[j - 1]);
            }
        }
    } else {
        let df = s.drop_first();
        assert(side_sorted(bid_side, df)) by {
            assert forall|i: int, j: int| 0 <= i < j < df.len() implies ordered(
                bid_side,
                df[i],
                df[j],
            ) by {
                assert(df[i] == s[i + 1] && df[j] == s[j + 1]);
            }
        }
        lemma_insert_sorted(bid_side, df, x);
        lemma_insert_elems(bid_side, df, x);
        let rest = insert_level(bid_side, df, x);
        assert forall|i: int, j: int| 0 <= i < j < r.len() implies ordered(bid_side, r[i], r[j]) by {
            if i == 0 {
                assert(r[j] == rest[j - 1]);
                if rest[j - 1] == x {
                    assert(ordered(bid_side, s[0], x));
                } else {
                    let m = choose|m: int| 0 <= m < df.len() && df[m] == rest[j - 1];
                    assert(s[m + 1] == rest[j - 1]);
                    assert(ordered(bid_side, s[0], s[m + 1]));
                }
            } else {
                assert(r[i] == rest[i - 1] && r[j] == rest[j - 1]);
            }
        }
    }
}

proof fn lemma_insert_multiset(bid_side: bool, s: Seq<Level>, x: Level)
    ensures
        insert_level(bid_side, s, x).to_multiset() =~= s.to_multiset().insert(x),
    decreases s.len(),
{
    broadcast use vstd::seq_lib::group_to_multiset_ensures;

    if s.len() == 0 {
        assert(seq![x] =~= Seq::<Level>::empty().push(x));
    } else if precedes(bid_side, x, s[0]) {
        vstd::seq_lib::lemma_multiset_commutative(seq![x], s);
        assert(seq![x] =~= Seq::<Level>::empty().push(x));
    } else {
        let df = s.drop_first();
        let rest = insert_level(bid_side, df, x);
        lemma_insert_multiset(bid_side, df, x);
        vstd::seq_lib::lemma_multiset_commutative(seq![s[0]], rest);
        vstd::seq_lib::lemma_multiset_commutative(seq![s[0]], df);
        assert(s =~= seq![s[0]] + df);
    }
}

/// Sorting a side keeps its length and exactly its levels, and yields a
/// sorted sequence.
pub proof fn lemma_sort_levels_sorted(bid_side: bool, s: Seq<Level>)
    ensures
        side_sorted(bid_side, sort_levels(bid_side, s)),
        sort_levels(bid_side, s).len() == s.len(),
        sort_levels(bid_side, s).to_multiset() == s.to_multiset(),
    decreases s.len(),
{
    broadcast use vstd::seq_lib::group_to_multiset_ensures;

    if s.len() > 0 {
        lemma_sort_levels_sorted(bid_side, s.drop_last());
        lemma_insert_sorted(bid_side, sort_levels(bid_side, s.drop_last()), s.last());
        lemma_insert_len(bid_side, sort_levels(bid_side, s.drop_last()), s.last());
        lemma_insert_multiset(bid_side, sort_levels(bid_side, s.drop_last()), s.last());
        assert(s =~= s.drop_last().push(s.last()));
    }
}

/// A truncated sorted side is still sorted and never deeper than the limit.
pub proof fn lemma_take_depth(bid_side: bool, s: Seq<Level>)
    requires
        side_sorted(bid_side, s),
    ensures
        side_sorted(bid_side, take_depth(s)),
        take_depth(s).len() <= SUMMARY_DEPTH,
        take_depth(s).len() == if s.len() <= SUMMARY_DEPTH {
            s.len() as int
        } else {
            SUMMARY_DEPTH as int
        },
        forall|i: int| 0 <= i < take_depth(s).len() ==> take_depth(s)[i] == s[i],
{
}

/// Where the scan stopped is where the specified insertion puts `x`.
proof fn lemma_insert_at(bid_side: bool, s: Seq<Level>, x: Level, j: int)
    requires
        0 <= j <= s.len(),
        forall|k: int| 0 <= k < j ==> !precedes(bid_side, x, s[k]),
        j < s.len() ==> precedes(bid_side, x, s[j]),
    ensures
        insert_level(bid_side, s, x) == s.subrange(0, j) + seq![x] + s.subrange(j, s.len() as int),
    decreases j,
{
    if j == 0 {
        if s.len() == 0 {
            assert(insert_level(bid_side, s, x) =~= s.subrange(0, 0) + seq![x] + s.subrange(
                0,
                s.len() as int,
            ));
        } else {
            assert(precedes(bid_side, x, s[0]));
            assert(insert_level(bid_side, s, x) =~= s.subrange(0, 0) + seq![x] + s.subrange(
                0,
                s.len() as int,
            ));
        }
    } else {
        let df = s.drop_first();
        assert(!precedes(bid_side, x, s[0]));
        assert(forall|k: int| 0 <= k < j - 1 ==> df[k] == s[k + 1]);
        assert(j - 1 < df.len() ==> precedes(bid_side, x, df[j - 1]));
        lemma_insert_at(bid_side, df, x, j - 1);
        assert(seq![s[0]] + (df.subrange(0, j - 1) + seq![x] + df.subrange(j - 1, df.len() as int))
            =~= s.subrange(0, j) + seq![x] + s.subrange(j, s.len() as int));
    }
}

/// The strict order of the chosen side, executably.
pub fn level_precedes(bid_side: bool, a: Level, b: Level) -> (r: bool)
    ensures
        r == precedes(bid_side, a, b),
{
    if bid_side {
        a.price > b.price || (a.price == b.price && a.amount > b.amount)
    } else {
        a.price < b.price || (a.price == b.price && a.amount > b.amount)
    }
}

/// Sorts one side into the canonical arrangement given by [`sort_levels`].
pub fn sort_side(bid_side: bool, v: Vec<Level>) -> (r: Vec<Level>)
    ensures
        r@ == sort_levels(bid_side, v@),
{
    let mut r: Vec<Level> = Vec::new();
    let mut i: usize = 0;
    while i < v.len()
        invariant
            0 <= i <= v.len(),
            r@ == sort_levels(bid_side, v@.subrange(0, i as int)),
        decreases v.len() - i,
    {
        let x = v[i];
        let ghost s0 = r@;
        let mut j: usize = 0;
        while j < r.len() && !level_precedes(bid_side, x, r[j])
            invariant
                0 <= j <= r.len(),
                r@ == s0,
                forall|k: int| 0 <= k < j ==> !precedes(bid_side, x, s0[k]),
            decreases r.len() - j,
        {
            j += 1;
        }
        proof {
            lemma_insert_at(bid_side, s0, x, j as int);
        }
        r.insert(j, x);
        proof {
            assert(r@ =~= s0.subrange(0, j as int) + seq![x] + s0.subrange(
                j as int,
                s0.len() as int,
            ));
            assert(v@.subrange(0, i + 1).drop_last() =~= v@.subrange(0, i as int));
            assert(r@ == sort_levels(bid_side, v@.subrange(0, i + 1)));
        }
        i += 1;
    }
    proof {
        assert(v@.subrange(0, v@.len() as int) =~= v@);
    }
    r
}

/// Tags every level of one snapshot side with its exchange.
pub fn tag_levels(ex: Exchange, levels: &Vec<OrderBookLevel>) -> (r: Vec<Level>)
    ensures
        r@ == tag_seq(ex, levels@),
{
    let mut r: Vec<Level> = Vec::new();
    let mut i: usize = 0;
    while i < levels.len()
        invariant
            0 <= i <= levels.len(),
            r@ =~= tag_seq(ex, levels@).subrange(0, i as int),
        decreases levels.len() - i,
    {
        let l = levels[i];
        r.push(Level { exchange: ex, price: l.price, amount: l.amount });
        i += 1;
    }
    proof {
        assert(tag_seq(ex, levels@).subrange(0, levels@.len() as int) =~= tag_seq(ex, levels@));
    }
    r
}

impl View for Summary {
    type V = (int, Seq<Level>, Seq<Level>);

    open spec fn view(&self) -> (int, Seq<Level>, Seq<Level>) {
        (self.spread as int, self.bids@, self.asks@)
    }
}

impl Summary {
    /// A value-equal copy, for handing one published summary to several
    /// subscriber queues.
    pub fn duplicate(&self) -> (r: Summary)
        ensures
            r.spread == self.spread,
            r.bids@ == self.bids@,
            r.asks@ == self.asks@,
    {
        Summary { spread: self.spread, bids: copy_levels(&self.bids), asks: copy_levels(&self.asks) }
    }
}

fn copy_levels(v: &Vec<Level>) -> (r: Vec<Level>)
    ensures
        r@ == v@,
{
    let mut r: Vec<Level> = Vec::new();
    let mut i: usize = 0;
    while i < v.len()
        invariant
            0 <= i <= v.len(),
            r@ =~= v@.subrange(0, i as int),
        decreases v.len() - i,
    {
        r.push(v[i]);
        i += 1;
    }
    proof {
        assert(v@.subrange(0, v@.len() as int) =~= v@);
    }
    r
}

} // verus!
