use std::collections::VecDeque;
use vstd::prelude::*;
use vstd::std_specs::vecdeque::VecDequeAdditionalSpecFns;

use crate::client::Exchange;
use crate::decimal::{decimal_text, to_text, Dec};
use crate::error::Error;
use crate::gdax::Ticker;
use crate::hyperliquid::Trade as HlTrade;
use crate::kraken::WsTrade;
use crate::timestamp::{
    iso8601_instant, lemma_utc_of_nanos, parse_iso8601, seconds_to_nanos, utc_of_nanos, UtcTime,
};

verus! {

/// The most trades a tape holds.
pub const TAPE_CAPACITY: usize = 100;

/// A trade print in canonical form. Price and size keep the exchange's text.
#[derive(Debug)]
pub struct Trade {
    pub price: String,
    pub size: String,
    pub dt: UtcTime,
    pub exchange: Exchange,
}

/// The value of a trade.
pub struct TradeView {
    pub price: Seq<char>,
    pub size: Seq<char>,
    pub dt: UtcTime,
    pub exchange: Exchange,
}

impl View for Trade {
    type V = TradeView;

    open spec fn view(&self) -> TradeView {
        TradeView { price: self.price@, size: self.size@, dt: self.dt, exchange: self.exchange }
    }
}

impl Clone for Trade {
    fn clone(&self) -> (r: Trade)
        ensures
            r == *self,
    {
        Trade {
            price: self.price.clone(),
            size: self.size.clone(),
            dt: self.dt,
            exchange: self.exchange,
        }
    }
}

/// The canonical trade of a Coinbase ticker, if its time reads as ISO 8601.
pub open spec fn ticker_trade(t: Ticker) -> Option<TradeView> {
    match iso8601_instant(t.time@) {
        Some(dt) => Some(
            TradeView { price: t.price@, size: t.size@, dt, exchange: Exchange::Gdax },
        ),
        None => None,
    }
}

/// The instant `t` seconds after 1970, cut to nanoseconds toward zero, if
/// the count of nanoseconds fits 64 bits.
pub open spec fn instant_of_seconds(t: Dec) -> Option<UtcTime> {
    let n = seconds_to_nanos(t);
    if i64::MIN <= n <= i64::MAX {
        Some(utc_of_nanos(n))
    } else {
        None
    }
}

/// The canonical trade of a Kraken trade print, if its time is in range.
pub open spec fn kraken_trade(t: WsTrade) -> Option<TradeView> {
    match instant_of_seconds(t.time) {
        Some(dt) => Some(
            TradeView {
                price: decimal_text(t.price.mantissa as int, t.price.scale as int),
                size: decimal_text(t.volume.mantissa as int, t.volume.scale as int),
                dt,
                exchange: Exchange::Kraken,
            },
        ),
        None => None,
    }
}

/// The canonical trade of a Hyperliquid trade print.
pub open spec fn hyperliquid_trade(t: HlTrade) -> TradeView {
    TradeView {
        price: t.px@,
        size: t.sz@,
        dt: utc_of_nanos(t.time * 1_000_000),
        exchange: Exchange::Hyperliquid,
    }
}

/// A Kraken trade print is well formed when its numbers are.
pub open spec fn ws_trade_wf(t: WsTrade) -> bool {
    t.price.wf() && t.volume.wf() && t.time.wf()
}

impl Trade {
    /// Converts a Coinbase ticker; fails when its time is not ISO 8601.
    pub fn from_ticker(t: Ticker) -> (r: Result<Trade, Error>)
        ensures
            r is Ok <==> ticker_trade(t) is Some,
            r matches Ok(trade) ==> Some(trade@) == ticker_trade(t),
            r matches Err(e) ==> e is Decode,
    {
        match parse_iso8601(t.time.as_str()) {
            Some(dt) => Ok(Trade { price: t.price, size: t.size, dt, exchange: Exchange::Gdax }),
            None => Err(Error::Decode("time is not ISO 8601".to_string())),
        }
    }

    /// Converts a Kraken trade print; fails when its time is out of range.
    pub fn from_kraken(t: &WsTrade) -> (r: Result<Trade, Error>)
        requires
            ws_trade_wf(*t),
        ensures
            r is Ok <==> kraken_trade(*t) is Some,
            r matches Ok(trade) ==> Some(trade@) == kraken_trade(*t),
            r matches Err(e) ==> e is Decode,
    {
        match UtcTime::from_decimal_seconds(&t.time) {
            Some(dt) => Ok(
                Trade {
                    price: to_text(&t.price),
                    size: to_text(&t.volume),
                    dt,
                    exchange: Exchange::Kraken,
                },
            ),
            None => Err(Error::Decode("trade time out of range".to_string())),
        }
    }

    /// Converts a Hyperliquid trade print.
    pub fn from_hyperliquid(t: &HlTrade) -> (r: Trade)
        ensures
            r@ == hyperliquid_trade(*t),
    {
        Trade {
            price: t.px.clone(),
            size: t.sz.clone(),
            dt: UtcTime::from_millis(t.time),
            exchange: Exchange::Hyperliquid,
        }
    }
}

/// Trade times keep each exchange's precision: a Hyperliquid time in
/// milliseconds becomes exactly that instant, a Kraken time in fractional
/// seconds becomes that instant cut to whole nanoseconds toward zero, and a
/// Coinbase time is the instant that its ISO 8601 text names.
pub proof fn lemma_trade_times(h: HlTrade, k: WsTrade, g: Ticker)
    ensures
        hyperliquid_trade(h).dt.total_nanos() == h.time * 1_000_000,
        kraken_trade(k) matches Some(tv) ==> tv.dt.total_nanos() == seconds_to_nanos(k.time),
        ticker_trade(g) matches Some(tv) ==> Some(tv.dt) == iso8601_instant(g.time@),
{
    lemma_utc_of_nanos(h.time * 1_000_000);
    if kraken_trade(k) is Some {
        lemma_utc_of_nanos(seconds_to_nanos(k.time));
    }
}

/// Adds a trade to a tape, dropping the oldest when it is full.
pub open spec fn tape_push(s: Seq<TradeView>, t: TradeView) -> Seq<TradeView> {
    if s.len() >= TAPE_CAPACITY {
        s.drop_first().push(t)
    } else {
        s.push(t)
    }
}

/// Adds trades to a tape one after another.
pub open spec fn tape_extend(s: Seq<TradeView>, ts: Seq<TradeView>) -> Seq<TradeView>
    decreases ts.len(),
{
    if ts.len() == 0 {
        s
    } else {
        tape_push(tape_extend(s, ts.drop_last()), ts.last())
    }
}

/// The last `n` items of `s`, or all of them when there are fewer.
pub open spec fn latest<A>(s: Seq<A>, n: nat) -> Seq<A> {
    if s.len() <= n {
        s
    } else {
        s.subrange(s.len() - n, s.len() as int)
    }
}

/// A tape keeps the latest trades: after any trades are added to a tape of
/// at most its capacity, it holds the last hundred of all trades, oldest
/// first, in the order they came.
pub proof fn lemma_tape_keeps_latest(s: Seq<TradeView>, ts: Seq<TradeView>)
    requires
        s.len() <= TAPE_CAPACITY,
    ensures
        tape_extend(s, ts) == latest(s + ts, TAPE_CAPACITY as nat),
    decreases ts.len(),
{
    if ts.len() > 0 {
        let front = ts.drop_last();
        lemma_tape_keeps_latest(s, front);
        let prev = latest(s + front, TAPE_CAPACITY as nat);
        let all = s + ts;
        assert(all =~= (s + front).push(ts.last()));
        if (s + front).len() < TAPE_CAPACITY {
            assert(tape_extend(s, ts) =~= latest(all, TAPE_CAPACITY as nat));
        } else {
            assert(prev.len() == TAPE_CAPACITY);
            assert(tape_extend(s, ts) =~= latest(all, TAPE_CAPACITY as nat));
        }
    }
}

/// A bounded tape of trades, oldest first.
#[derive(Debug)]
pub struct Tape {
    pub trades: VecDeque<Trade>,
}

/// The views of a sequence of trades.
pub open spec fn trade_views(s: Seq<Trade>) -> Seq<TradeView> {
    s.map_values(|t: Trade| t@)
}

impl View for Tape {
    type V = Seq<TradeView>;

    open spec fn view(&self) -> Seq<TradeView> {
        trade_views(self.trades@)
    }
}

impl Tape {
    /// An empty tape.
    pub fn new() -> (r: Tape)
        ensures
            r@ == Seq::<TradeView>::empty(),
    {
        let r = Tape { trades: VecDeque::with_capacity(TAPE_CAPACITY) };
        assert(r@ =~= Seq::<TradeView>::empty());
        r
    }

    /// Adds a trade, dropping the oldest when the tape is full.
    pub fn push(&mut self, trade: Trade)
        requires
            old(self)@.len() <= TAPE_CAPACITY,
        ensures
            final(self)@ == tape_push(old(self)@, trade@),
            final(self)@.len() <= TAPE_CAPACITY,
    {
        if self.trades.len() >= TAPE_CAPACITY {
            self.trades.pop_front();
        }
        self.trades.push_back(trade);
        proof {
            assert(self@ =~= tape_push(old(self)@, trade@));
        }
    }

    /// A copy of the trades, oldest first.
    pub fn to_deque(&self) -> (r: VecDeque<Trade>)
        ensures
            trade_views(r@) == self@,
    {
        let r = self.trades.clone();
        proof {
            assert forall|i: int| 0 <= i < r@.len() implies r@[i] == self.trades@[i] by {
                assert(vstd::pervasive::cloned(self.trades[i], r[i]));
            }
            assert(r@ =~= self.trades@);
        }
        r
    }
}

impl Clone for Tape {
    fn clone(&self) -> (r: Tape)
        ensures
            r@ == self@,
    {
        Tape { trades: self.to_deque() }
    }
}

} // verus!
