//! Cross-exchange order book aggregation.
//!
//! Connectors normalize exchange-native order book feeds into one canonical
//! snapshot model; an aggregation engine keeps the latest snapshot per
//! exchange and recomputes a merged, sorted, depth-limited summary on every
//! update; a fan-out point distributes each summary to independently-paced
//! subscribers.
//!
//! Prices and amounts are held as fixed-point integer ticks (see
//! [`decimal::SCALE_DIGITS`]); the transport edges (websocket reads, timed
//! sleeps, channel plumbing) live outside this crate and hand plain values in
//! and out.

use vstd::prelude::*;

pub mod backoff;
pub mod connector;
pub mod decimal;
pub mod exchanges;
pub mod fanout;
pub mod model;
pub mod storage;
pub mod summary;

verus! {

/// A trading pair, immutable after construction.
#[derive(Debug, Clone, Hash, Eq, PartialEq)]
pub struct Instrument {
    pub quote: String,
    pub base: String,
}

/// The compact USDT-aware symbol of a pair, as a sequence of characters.
pub open spec fn symbol_compact_usdt(i: Instrument) -> Seq<char> {
    if is_usd_ci(i.base@) {
        i.base@ + seq!['t'] + i.quote@
    } else if is_usd_ci(i.quote@) {
        i.base@ + i.quote@ + seq!['t']
    } else {
        i.base@ + i.quote@
    }
}

/// The token `s` spells "usd" up to ASCII case.
pub open spec fn is_usd_ci(s: Seq<char>) -> bool {
    &&& s.len() == 3
    &&& (s[0] == 'u' || s[0] == 'U')
    &&& (s[1] == 's' || s[1] == 'S')
    &&& (s[2] == 'd' || s[2] == 'D')
}

impl Instrument {
    /// Symbol rendering with base and quote concatenated, e.g. `ethbtc`.
    pub fn get_symbol_compact(&self) -> (r: String)
        ensures
            r@ == self.base@ + self.quote@,
    {
        let mut s = self.base.clone();
        s.append(self.quote.as_str());
        s
    }

    /// Symbol rendering with a dash, e.g. `eth-btc`.
    pub fn get_symbol_dash(&self) -> (r: String)
        ensures
            r@ == self.base@ + seq!['-'] + self.quote@,
    {
        proof {
            reveal_strlit("-");
            assert("-"@ =~= seq!['-']);
        }
        let mut s = self.base.clone();
        s.append("-");
        s.append(self.quote.as_str());
        s
    }

    /// Symbol rendering with a slash, e.g. `eth/btc`.
    pub fn get_symbol_slash(&self) -> (r: String)
        ensures
            r@ == self.base@ + seq!['/'] + self.quote@,
    {
        proof {
            reveal_strlit("/");
            assert("/"@ =~= seq!['/']);
        }
        let mut s = self.base.clone();
        s.append("/");
        s.append(self.quote.as_str());
        s
    }

    /// Compact symbol with a USD side widened to USDT, e.g. `usd`/`btc`
    /// becomes `usdtbtc` and `btc`/`USD` becomes `btcUSDt`.
    pub fn get_symbol_compact_usdt(&self) -> (r: String)
        ensures
            r@ == symbol_compact_usdt(*self),
    {
        proof {
            reveal_strlit("t");
            assert("t"@ =~= seq!['t']);
        }
        if is_usd_token(self.base.as_str()) {
            let mut s = self.base.clone();
            s.append("t");
            s.append(self.quote.as_str());
            s
        } else if is_usd_token(self.quote.as_str()) {
            let mut s = self.base.clone();
            s.append(self.quote.as_str());
            s.append("t");
            s
        } else {
            let mut s = self.base.clone();
            s.append(self.quote.as_str());
            s
        }
    }
}

/// Decides whether a pair side names USD, ignoring ASCII case.
fn is_usd_token(s: &str) -> (r: bool)
    ensures
        r == is_usd_ci(s@),
{
    if s.unicode_len() != 3 {
        return false;
    }
    let c0 = s.get_char(0);
    let c1 = s.get_char(1);
    let c2 = s.get_char(2);
    (c0 == 'u' || c0 == 'U') && (c1 == 's' || c1 == 'S') && (c2 == 'd' || c2 == 'D')
}

/// Character-for-character string equality.
pub fn str_eq(a: &str, b: &str) -> (r: bool)
    ensures
        r == (a@ == b@),
{
    let n = a.unicode_len();
    if n != b.unicode_len() {
        return false;
    }
    let mut i: usize = 0;
    while i < n
        invariant
            0 <= i <= n,
            n == a@.len(),
            n == b@.len(),
            forall|k: int| 0 <= k < i ==> a@[k] == b@[k],
        decreases n - i,
    {
        if a.get_char(i) != b.get_char(i) {
            return false;
        }
        i += 1;
    }
    proof {
        assert(a@ =~= b@);
    }
    true
}

/// The closed set of supported exchanges; the key that identifies the source
/// of a snapshot.
#[derive(Debug, Clone, Copy, PartialEq, Eq, Hash, Structural)]
pub enum Exchange {
    Binance,
    Bitstamp,
}

impl Default for Exchange {
    /// The first supported exchange, as the conventional placeholder.
    fn default() -> (r: Self)
        ensures
            r == Exchange::Binance,
    {
        Exchange::Binance
    }
}

/// The instrument to track and the exchanges to aggregate; the composition
/// point that the transport layer turns into one running connector per
/// exchange, all feeding a shared update channel.
#[derive(Debug, Clone)]
pub struct Subscriptions {
    pub instrument: Instrument,
    pub exchanges: Vec<Exchange>,
}

} // verus!
