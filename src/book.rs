use core::cmp::Ordering;
use vstd::prelude::*;

use crate::app::{lemma_wf_set_book, App, AppView, TradeSide};
use crate::client::{Channel, ChannelKey};
use crate::decimal::{compare, Dec};
use crate::gdax::{L2update, Snapshot as GdaxSnapshot};
use crate::hyperliquid::{L2Book, Level as HlLevel};
use crate::kraken::{
    L2updateAsk, L2updateBid, L2updateBoth, Level as KrakenLevel, Snapshot as KrakenSnapshot,
};

verus! {

/// One price level: the size resting at a price.
#[derive(Debug, Clone, Copy, PartialEq, Eq, Structural)]
pub struct Level {
    pub price: Dec,
    pub size: Dec,
}

impl Level {
    pub open spec fn wf(self) -> bool {
        self.price.wf() && self.size.wf()
    }
}

/// Every level is well formed.
pub open spec fn levels_wf(ls: Seq<Level>) -> bool {
    forall|i: int| 0 <= i < ls.len() ==> (#[trigger] ls[i]).wf()
}

/// A side of a book: well-formed levels of nonzero size, prices strictly ascending.
pub open spec fn side_wf(s: Seq<Level>) -> bool {
    &&& forall|i: int| 0 <= i < s.len() ==> (#[trigger] s[i]).wf() && s[i].size.mantissa != 0
    &&& forall|i: int, j: int|
        0 <= i < j < s.len() ==> (#[trigger] s[i]).price.units() < (#[trigger] s[j]).price.units()
}

/// `j` splits the side into the levels priced below `k` units and the rest.
pub open spec fn is_slot(s: Seq<Level>, k: int, j: int) -> bool {
    &&& 0 <= j <= s.len()
    &&& forall|i: int| 0 <= i < j ==> (#[trigger] s[i]).price.units() < k
    &&& forall|i: int| j <= i < s.len() ==> (#[trigger] s[i]).price.units() >= k
}

/// Where a level priced `k` units stands, or would stand, in the side.
pub open spec fn slot(s: Seq<Level>, k: int) -> int {
    choose|j: int| is_slot(s, k, j)
}

/// Whether the side holds a level at `k` units.
pub open spec fn has_price(s: Seq<Level>, k: int) -> bool {
    exists|i: int| 0 <= i < s.len() && (#[trigger] s[i]).price.units() == k
}

/// One update of a side: a zero size removes the level at that price, if
/// any; another size replaces the size at that price, keeping the price as
/// first written, or adds a level in price order.
pub open spec fn apply_level(s: Seq<Level>, l: Level) -> Seq<Level> {
    let k = l.price.units();
    let j = slot(s, k);
    let hit = j < s.len() && s[j].price.units() == k;
    if l.size.mantissa == 0 {
        if hit {
            s.remove(j)
        } else {
            s
        }
    } else if hit {
        s.update(j, Level { price: s[j].price, size: l.size })
    } else {
        s.insert(j, l)
    }
}

/// Updates applied one after another, in order.
pub open spec fn apply_levels(s: Seq<Level>, ls: Seq<Level>) -> Seq<Level>
    decreases ls.len(),
{
    if ls.len() == 0 {
        s
    } else {
        apply_level(apply_levels(s, ls.drop_last()), ls.last())
    }
}

/// The side as a map from price, in units, to size.
pub open spec fn side_map(s: Seq<Level>) -> Map<int, Dec> {
    Map::new(
        |k: int| has_price(s, k),
        |k: int| s[choose|i: int| 0 <= i < s.len() && (#[trigger] s[i]).price.units() == k].size,
    )
}

/// At most one index is a slot.
proof fn lemma_slot_unique(s: Seq<Level>, k: int, j: int)
    requires
        is_slot(s, k, j),
    ensures
        slot(s, k) == j,
{
    let c = slot(s, k);
    assert(is_slot(s, k, c));
    if c < j {
        assert(s[c].price.units() < k);
    } else if c > j {
        assert(s[j].price.units() < k);
    }
}

/// A sorted side has a slot for every price.
pub proof fn lemma_slot_exists(s: Seq<Level>, k: int)
    requires
        side_wf(s),
    ensures
        is_slot(s, k, slot(s, k)),
    decreases s.len(),
{
    if s.len() == 0 {
        assert(is_slot(s, k, 0));
    } else {
        let t = s.drop_last();
        assert(side_wf(t));
        lemma_slot_exists(t, k);
        let j = slot(t, k);
        let n = s.len() - 1;
        assert forall|i: int| 0 <= i < j implies (#[trigger] s[i]).price.units() < k by {
            assert(t[i] == s[i]);
        }
        if j < n {
            assert(t[j].price.units() >= k);
            assert forall|i: int| j <= i < s.len() implies (#[trigger] s[i]).price.units() >= k by {
                if i > j {
                    assert(s[j].price.units() < s[i].price.units());
                }
            }
            assert(is_slot(s, k, j));
        } else if s[n].price.units() < k {
            assert(is_slot(s, k, s.len() as int));
        } else {
            assert(is_slot(s, k, n));
        }
    }
}

/// The level at index `i` is what the map holds at its price.
pub proof fn lemma_side_map_at(s: Seq<Level>, i: int)
    requires
        side_wf(s),
        0 <= i < s.len(),
    ensures
        side_map(s).contains_key(s[i].price.units()),
        side_map(s)[s[i].price.units()] == s[i].size,
{
    let k = s[i].price.units();
    assert(has_price(s, k));
    let c = choose|c: int| 0 <= c < s.len() && (#[trigger] s[c]).price.units() == k;
    assert(0 <= c < s.len() && s[c].price.units() == k);
    if c < i {
        assert(s[c].price.units() < s[i].price.units());
    } else if c > i {
        assert(s[i].price.units() < s[c].price.units());
    }
}

/// An update keeps a side well formed.
pub proof fn lemma_apply_level_wf(s: Seq<Level>, l: Level)
    requires
        side_wf(s),
        l.wf(),
    ensures
        side_wf(apply_level(s, l)),
{
    let k = l.price.units();
    lemma_slot_exists(s, k);
    let j = slot(s, k);
    let r = apply_level(s, l);
    if l.size.mantissa != 0 && !(j < s.len() && s[j].price.units() == k) {
        assert forall|a: int, b: int| 0 <= a < b < r.len() implies (#[trigger] r[a]).price.units()
            < (#[trigger] r[b]).price.units() by {
            if b < j {
            } else if a < j && b == j {
            } else if a < j {
                assert(s[a].price.units() < s[b - 1].price.units());
            } else if a == j {
                assert(s[b - 1].price.units() >= k);
                if b - 1 > j {
                    assert(s[j].price.units() < s[b - 1].price.units());
                }
            } else {
                assert(s[a - 1].price.units() < s[b - 1].price.units());
            }
        }
    }
    if l.size.mantissa == 0 && j < s.len() && s[j].price.units() == k {
        assert forall|a: int, b: int| 0 <= a < b < r.len() implies (#[trigger] r[a]).price.units()
            < (#[trigger] r[b]).price.units() by {
            if b < j {
            } else if a < j {
                assert(s[a].price.units() < s[b + 1].price.units());
            } else {
                assert(s[a + 1].price.units() < s[b + 1].price.units());
            }
        }
    }
}

/// The map view of an update: a zero size takes the price out, another size
/// sets it, and no other price changes. Sizes are replaced, never added up.
#[verifier::rlimit(80)]
#[verifier::spinoff_prover]
pub proof fn lemma_apply_level_map(s: Seq<Level>, l: Level)
    requires
        side_wf(s),
        l.wf(),
    ensures
        side_map(apply_level(s, l)) == (if l.size.mantissa == 0 {
            side_map(s).remove(l.price.units())
        } else {
            side_map(s).insert(l.price.units(), l.size)
        }),
{
    let k = l.price.units();
    lemma_slot_exists(s, k);
    let j = slot(s, k);
    let r = apply_level(s, l);
    let hit = j < s.len() && s[j].price.units() == k;
    lemma_apply_level_wf(s, l);
    let expected = if l.size.mantissa == 0 {
        side_map(s).remove(k)
    } else {
        side_map(s).insert(k, l.size)
    };
    // Each level of the result maps to the expected size.
    assert forall|m: int| 0 <= m < r.len() implies expected.contains_key(
        (#[trigger] r[m]).price.units(),
    ) && expected[r[m].price.units()] == r[m].size by {
        lemma_side_map_at(r, m);
        let km = r[m].price.units();
        if l.size.mantissa == 0 {
            if hit {
                let o = if m < j {
                    m
                } else {
                    m + 1
                };
                lemma_side_map_at(s, o);
                if o != j {
                    if o < j {
                        assert(s[o].price.units() < s[j].price.units());
                    } else {
                        assert(s[j].price.units() < s[o].price.units());
                    }
                }
            } else {
                lemma_side_map_at(s, m);
            }
        } else if hit {
            lemma_side_map_at(s, m);
            if m != j {
                if m < j {
                    assert(s[m].price.units() < s[j].price.units());
                } else {
                    assert(s[j].price.units() < s[m].price.units());
                }
            }
        } else {
            if m < j {
                lemma_side_map_at(s, m);
            } else if m > j {
                lemma_side_map_at(s, m - 1);
                assert(s[m - 1].price.units() >= k);
                assert(s[m - 1].price.units() != k) by {
                    if m - 1 > j {
                        assert(s[j].price.units() < s[m - 1].price.units());
                    }
                }
            }
        }
    }
    // Each expected price is held by a level of the result.
    assert forall|kk: int| #[trigger] expected.contains_key(kk) implies has_price(r, kk) by {
        if kk == k && l.size.mantissa != 0 {
            assert(r[j].price.units() == k);
        } else {
            let i = choose|i: int| 0 <= i < s.len() && (#[trigger] s[i]).price.units() == kk;
            if l.size.mantissa == 0 {
                if hit {
                    assert(i != j);
                    if i < j {
                        assert(r[i].price.units() == kk);
                    } else {
                        assert(r[i - 1].price.units() == kk);
                    }
                } else {
                    assert(r[i].price.units() == kk);
                }
            } else if hit {
                assert(r[i].price.units() == kk);
            } else if i < j {
                assert(r[i].price.units() == kk);
            } else {
                assert(r[i + 1].price.units() == kk);
            }
        }
    }
    assert forall|kk: int| #[trigger] side_map(r).contains_key(kk) implies expected.contains_key(kk)
        && side_map(r)[kk] == expected[kk] by {
        let m = choose|m: int| 0 <= m < r.len() && (#[trigger] r[m]).price.units() == kk;
        lemma_side_map_at(r, m);
    }
    assert(side_map(r) =~= expected);
}

/// Whether `a` is a lower price than `b`.
fn price_below(a: &Dec, b: &Dec) -> (r: bool)
    requires
        a.wf(),
        b.wf(),
    ensures
        r == (a.units() < b.units()),
{
    match compare(a, b) {
        Ordering::Less => true,
        _ => false,
    }
}

/// Whether `a` and `b` are the same price.
fn price_equal(a: &Dec, b: &Dec) -> (r: bool)
    requires
        a.wf(),
        b.wf(),
    ensures
        r == (a.units() == b.units()),
{
    match compare(a, b) {
        Ordering::Equal => true,
        _ => false,
    }
}

/// Updates applied one after another to a map from price, in units, to size.
pub open spec fn map_apply(m: Map<int, Dec>, ls: Seq<Level>) -> Map<int, Dec>
    decreases ls.len(),
{
    if ls.len() == 0 {
        m
    } else {
        let l = ls.last();
        let before = map_apply(m, ls.drop_last());
        if l.size.mantissa == 0 {
            before.remove(l.price.units())
        } else {
            before.insert(l.price.units(), l.size)
        }
    }
}

/// A batch of updates does to a side's map what the updates do one by one.
pub proof fn lemma_apply_levels_map(s: Seq<Level>, ls: Seq<Level>)
    requires
        side_wf(s),
        levels_wf(ls),
    ensures
        side_wf(apply_levels(s, ls)),
        side_map(apply_levels(s, ls)) == map_apply(side_map(s), ls),
    decreases ls.len(),
{
    if ls.len() > 0 {
        let front = ls.drop_last();
        assert(levels_wf(front)) by {
            assert forall|i: int| 0 <= i < front.len() implies (#[trigger] front[i]).wf() by {
                assert(front[i] == ls[i]);
            }
        }
        lemma_apply_levels_map(s, front);
        assert(ls.last() == ls[ls.len() - 1]);
        lemma_apply_level_wf(apply_levels(s, front), ls.last());
        lemma_apply_level_map(apply_levels(s, front), ls.last());
    }
}

/// A snapshot replaces the whole book: afterwards each side holds exactly
/// the snapshot's levels (the last size written at each price, zero sizes
/// left out) and nothing of what was held before.
pub proof fn lemma_snapshot_replaces(m: AppView, c: ChannelKey, bids: Seq<Level>, asks: Seq<Level>)
    requires
        levels_wf(bids),
        levels_wf(asks),
    ensures
        ({
            let b = m.with_book(c, snapshot_book(bids, asks)).books[c];
            &&& side_map(b.bids) == map_apply(Map::empty(), bids)
            &&& side_map(b.asks) == map_apply(Map::empty(), asks)
        }),
{
    let e = Seq::<Level>::empty();
    assert(side_map(e) =~= Map::<int, Dec>::empty());
    lemma_apply_levels_map(e, bids);
    lemma_apply_levels_map(e, asks);
}

/// Finds where a level priced like `price` stands or would stand.
fn find_slot(side: &Vec<Level>, price: &Dec) -> (r: usize)
    requires
        side_wf(side@),
        price.wf(),
    ensures
        is_slot(side@, price.units(), r as int),
        r as int == slot(side@, price.units()),
{
    let mut i: usize = 0;
    while i < side.len() && price_below(&side[i].price, price)
        invariant
            side_wf(side@),
            price.wf(),
            i <= side.len(),
            forall|m: int| 0 <= m < i ==> (#[trigger] side@[m]).price.units() < price.units(),
        decreases side.len() - i,
    {
        i = i + 1;
    }
    proof {
        assert forall|m: int| i <= m < side@.len() implies (#[trigger] side@[m]).price.units()
            >= price.units() by {
            if m > i {
                assert(side@[i as int].price.units() < side@[m].price.units());
            }
        }
        lemma_slot_unique(side@, price.units(), i as int);
    }
    i
}

/// Applies one update to a side.
pub fn set_level(side: &mut Vec<Level>, level: Level)
    requires
        side_wf(old(side)@),
        level.wf(),
    ensures
        final(side)@ == apply_level(old(side)@, level),
        side_wf(final(side)@),
{
    proof {
        lemma_apply_level_wf(side@, level);
    }
    let j = find_slot(side, &level.price);
    let hit = j < side.len() && price_equal(&side[j].price, &level.price);
    if level.size.is_zero() {
        if hit {
            side.remove(j);
        }
    } else if hit {
        let price = side[j].price;
        side.set(j, Level { price, size: level.size });
    } else {
        side.insert(j, level);
    }
    proof {
        assert(side@ =~= apply_level(old(side)@, level));
    }
}

/// Applies updates to a side, in order.
pub fn set_levels(side: &mut Vec<Level>, levels: &Vec<Level>)
    requires
        side_wf(old(side)@),
        levels_wf(levels@),
    ensures
        final(side)@ == apply_levels(old(side)@, levels@),
        side_wf(final(side)@),
{
    let mut i: usize = 0;
    while i < levels.len()
        invariant
            i <= levels.len(),
            levels_wf(levels@),
            side_wf(side@),
            side@ == apply_levels(old(side)@, levels@.subrange(0, i as int)),
        decreases levels.len() - i,
    {
        proof {
            assert(levels@.subrange(0, i as int + 1).drop_last() =~= levels@.subrange(0, i as int));
        }
        set_level(side, levels[i]);
        i = i + 1;
    }
    proof {
        assert(levels@.subrange(0, i as int) =~= levels@);
    }
}

} // verus!

verus! {

/// An order book: bids and asks, each ascending by price.
#[derive(Debug)]
pub struct Book {
    pub bids: Vec<Level>,
    pub asks: Vec<Level>,
}

/// The levels of a book.
pub struct BookView {
    pub bids: Seq<Level>,
    pub asks: Seq<Level>,
}

impl BookView {
    pub open spec fn wf(self) -> bool {
        side_wf(self.bids) && side_wf(self.asks)
    }

    /// A book with no levels.
    pub open spec fn empty() -> BookView {
        BookView { bids: Seq::empty(), asks: Seq::empty() }
    }

    /// One update on one side.
    pub open spec fn update(self, side: TradeSide, l: Level) -> BookView {
        match side {
            TradeSide::Buy => BookView { bids: apply_level(self.bids, l), asks: self.asks },
            TradeSide::Sell => BookView { bids: self.bids, asks: apply_level(self.asks, l) },
        }
    }

    /// Updates on each side, bids first.
    pub open spec fn update_both(self, bids: Seq<Level>, asks: Seq<Level>) -> BookView {
        BookView { bids: apply_levels(self.bids, bids), asks: apply_levels(self.asks, asks) }
    }
}

/// The book that a snapshot describes, whatever was held before.
pub open spec fn snapshot_book(bids: Seq<Level>, asks: Seq<Level>) -> BookView {
    BookView::empty().update_both(bids, asks)
}

impl View for Book {
    type V = BookView;

    open spec fn view(&self) -> BookView {
        BookView { bids: self.bids@, asks: self.asks@ }
    }
}

impl Book {
    /// A book with no levels.
    pub fn new() -> (r: Book)
        ensures
            r@ == BookView::empty(),
    {
        let r = Book { bids: Vec::new(), asks: Vec::new() };
        assert(r@.bids =~= Seq::<Level>::empty());
        assert(r@.asks =~= Seq::<Level>::empty());
        r
    }

    /// The book a snapshot describes.
    pub fn from_snapshot(bids: &Vec<Level>, asks: &Vec<Level>) -> (r: Book)
        requires
            levels_wf(bids@),
            levels_wf(asks@),
        ensures
            r@ == snapshot_book(bids@, asks@),
            r@.wf(),
    {
        let mut r = Book::new();
        r.update_both(bids, asks);
        r
    }

    /// Applies one update to the side it names.
    pub fn update(&mut self, side: TradeSide, level: Level)
        requires
            old(self)@.wf(),
            level.wf(),
        ensures
            final(self)@ == old(self)@.update(side, level),
            final(self)@.wf(),
    {
        match side {
            TradeSide::Buy => set_level(&mut self.bids, level),
            TradeSide::Sell => set_level(&mut self.asks, level),
        }
    }

    /// Applies updates to the bids, then to the asks.
    pub fn update_both(&mut self, bids: &Vec<Level>, asks: &Vec<Level>)
        requires
            old(self)@.wf(),
            levels_wf(bids@),
            levels_wf(asks@),
        ensures
            final(self)@ == old(self)@.update_both(bids@, asks@),
            final(self)@.wf(),
    {
        set_levels(&mut self.bids, bids);
        set_levels(&mut self.asks, asks);
    }
}

impl Clone for Book {
    fn clone(&self) -> (r: Book)
        ensures
            r@ == self@,
    {
        let r = Book { bids: self.bids.clone(), asks: self.asks.clone() };
        assert(r.bids@ =~= self.bids@);
        assert(r.asks@ =~= self.asks@);
        r
    }
}

impl Default for Book {
    fn default() -> (r: Book)
        ensures
            r@ == BookView::empty(),
    {
        Book::new()
    }
}

} // verus!

verus! {

/// Coinbase changes, applied in order.
pub open spec fn gdax_changes(b: BookView, cs: Seq<(TradeSide, Dec, Dec)>) -> BookView
    decreases cs.len(),
{
    if cs.len() == 0 {
        b
    } else {
        gdax_changes(b, cs.drop_last()).update(
            cs.last().0,
            Level { price: cs.last().1, size: cs.last().2 },
        )
    }
}

/// Every price and size in the changes is well formed.
pub open spec fn changes_wf(cs: Seq<(TradeSide, Dec, Dec)>) -> bool {
    forall|i: int| 0 <= i < cs.len() ==> (#[trigger] cs[i]).1.wf() && cs[i].2.wf()
}

/// Kraken levels as book levels: price and volume.
pub open spec fn kraken_levels(ls: Seq<KrakenLevel>) -> Seq<Level> {
    ls.map_values(|l: KrakenLevel| Level { price: l.price, size: l.volume })
}

/// Every Kraken level's price and volume is well formed.
pub open spec fn kraken_levels_wf(ls: Seq<KrakenLevel>) -> bool {
    forall|i: int| 0 <= i < ls.len() ==> (#[trigger] ls[i]).price.wf() && ls[i].volume.wf()
}

/// Hyperliquid levels as book levels: price and size.
pub open spec fn hyperliquid_levels(ls: Seq<HlLevel>) -> Seq<Level> {
    ls.map_values(|l: HlLevel| Level { price: l.px, size: l.sz })
}

/// Every Hyperliquid level's price and size is well formed.
pub open spec fn hyperliquid_levels_wf(ls: Seq<HlLevel>) -> bool {
    forall|i: int| 0 <= i < ls.len() ==> (#[trigger] ls[i]).px.wf() && ls[i].sz.wf()
}

/// Book levels of Kraken levels.
fn from_kraken_levels(ls: &Vec<KrakenLevel>) -> (r: Vec<Level>)
    requires
        kraken_levels_wf(ls@),
    ensures
        r@ == kraken_levels(ls@),
        levels_wf(r@),
{
    let mut r: Vec<Level> = Vec::new();
    let mut i: usize = 0;
    while i < ls.len()
        invariant
            i <= ls@.len(),
            r@ == kraken_levels(ls@.subrange(0, i as int)),
        decreases ls@.len() - i,
    {
        r.push(Level { price: ls[i].price, size: ls[i].volume });
        i = i + 1;
        proof {
            assert(r@ =~= kraken_levels(ls@.subrange(0, i as int)));
        }
    }
    proof {
        assert(ls@.subrange(0, i as int) =~= ls@);
    }
    r
}

/// Book levels of Hyperliquid levels.
fn from_hyperliquid_levels(ls: &Vec<HlLevel>) -> (r: Vec<Level>)
    requires
        hyperliquid_levels_wf(ls@),
    ensures
        r@ == hyperliquid_levels(ls@),
        levels_wf(r@),
{
    let mut r: Vec<Level> = Vec::new();
    let mut i: usize = 0;
    while i < ls.len()
        invariant
            i <= ls@.len(),
            r@ == hyperliquid_levels(ls@.subrange(0, i as int)),
        decreases ls@.len() - i,
    {
        r.push(Level { price: ls[i].px, size: ls[i].sz });
        i = i + 1;
        proof {
            assert(r@ =~= hyperliquid_levels(ls@.subrange(0, i as int)));
        }
    }
    proof {
        assert(ls@.subrange(0, i as int) =~= ls@);
    }
    r
}

impl App {
    /// Sets the channel's book, whether or not it had one.
    fn replace_book(&mut self, channel: Channel, book: Book)
        requires
            old(self).wf(),
            book@.wf(),
        ensures
            final(self).wf(),
            final(self)@ == old(self)@.with_book(channel@, book@),
    {
        let ghost key = channel@;
        let ghost v = book@;
        self.state.books.insert(channel, book);
        proof {
            lemma_wf_set_book(old(self)@, self@, key, v);
        }
    }

    /// Applies updates to the channel's book, if it has one: bids, then asks.
    fn update_book(&mut self, channel: Channel, bids: &Vec<Level>, asks: &Vec<Level>)
        requires
            old(self).wf(),
            levels_wf(bids@),
            levels_wf(asks@),
        ensures
            final(self).wf(),
            final(self)@ == old(self)@.with_book_updates(channel@, bids@, asks@),
    {
        let ghost key = channel@;
        match self.state.books.remove(&channel) {
            Some(mut book) => {
                proof {
                    assert(old(self)@.books.contains_key(key));
                }
                book.update_both(bids, asks);
                let ghost v = book@;
                self.state.books.insert(channel, book);
                proof {
                    assert(self.state.books@ =~= old(self).state.books@.insert(key, v));
                    lemma_wf_set_book(old(self)@, self@, key, v);
                }
            },
            None => {
                proof {
                    assert(self.state.books@ =~= old(self).state.books@);
                }
            },
        }
    }

    /// Replaces the channel's book with a Coinbase snapshot.
    pub fn insert_gdax_snapshot(&mut self, channel: Channel, snapshot: GdaxSnapshot)
        requires
            old(self).wf(),
            levels_wf(snapshot.bids@),
            levels_wf(snapshot.asks@),
        ensures
            final(self).wf(),
            final(self)@ == old(self)@.with_book(
                channel@,
                snapshot_book(snapshot.bids@, snapshot.asks@),
            ),
    {
        let book = Book::from_snapshot(&snapshot.bids, &snapshot.asks);
        self.replace_book(channel, book);
    }

    /// Applies Coinbase changes to the channel's book, if it has one.
    pub fn insert_gdax_l2update(&mut self, channel: Channel, l2update: L2update)
        requires
            old(self).wf(),
            changes_wf(l2update.changes@),
        ensures
            final(self).wf(),
            final(self)@ == (if old(self)@.books.contains_key(channel@) {
                old(self)@.with_book(
                    channel@,
                    gdax_changes(old(self)@.books[channel@], l2update.changes@),
                )
            } else {
                old(self)@
            }),
    {
        let ghost key = channel@;
        let changes = &l2update.changes;
        match self.state.books.remove(&channel) {
            Some(mut book) => {
                proof {
                    assert(old(self)@.books.contains_key(key));
                }
                let ghost b0 = book@;
                let mut i: usize = 0;
                while i < changes.len()
                    invariant
                        i <= changes@.len(),
                        changes_wf(changes@),
                        book@.wf(),
                        book@ == gdax_changes(b0, changes@.subrange(0, i as int)),
                    decreases changes@.len() - i,
                {
                    let (side, price, size) = changes[i];
                    proof {
                        assert(changes@.subrange(0, i as int + 1).drop_last() =~= changes@.subrange(
                            0,
                            i as int,
                        ));
                        assert(changes@[i as int].1.wf());
                    }
                    book.update(side, Level { price, size });
                    i = i + 1;
                }
                proof {
                    assert(changes@.subrange(0, i as int) =~= changes@);
                }
                let ghost v = book@;
                self.state.books.insert(channel, book);
                proof {
                    assert(self.state.books@ =~= old(self).state.books@.insert(key, v));
                    lemma_wf_set_book(old(self)@, self@, key, v);
                }
            },
            None => {
                proof {
                    assert(self.state.books@ =~= old(self).state.books@);
                }
            },
        }
    }

    /// Replaces the channel's book with a Kraken snapshot.
    pub fn insert_kraken_snapshot(&mut self, channel: Channel, snapshot: KrakenSnapshot)
        requires
            old(self).wf(),
            kraken_levels_wf(snapshot.snapshot.bs@),
            kraken_levels_wf(snapshot.snapshot.asks@),
        ensures
            final(self).wf(),
            final(self)@ == old(self)@.with_book(
                channel@,
                snapshot_book(
                    kraken_levels(snapshot.snapshot.bs@),
                    kraken_levels(snapshot.snapshot.asks@),
                ),
            ),
    {
        let bids = from_kraken_levels(&snapshot.snapshot.bs);
        let asks = from_kraken_levels(&snapshot.snapshot.asks);
        let book = Book::from_snapshot(&bids, &asks);
        self.replace_book(channel, book);
    }

    /// Applies Kraken ask changes to the channel's book, if it has one.
    pub fn insert_kraken_update_ask(&mut self, channel: Channel, update: L2updateAsk)
        requires
            old(self).wf(),
            kraken_levels_wf(update.ask.update@),
        ensures
            final(self).wf(),
            final(self)@ == old(self)@.with_book_updates(
                channel@,
                Seq::empty(),
                kraken_levels(update.ask.update@),
            ),
    {
        let asks = from_kraken_levels(&update.ask.update);
        let bids: Vec<Level> = Vec::new();
        proof {
            assert(bids@ =~= Seq::<Level>::empty());
        }
        self.update_book(channel, &bids, &asks);
    }

    /// Applies Kraken bid changes to the channel's book, if it has one.
    pub fn insert_kraken_update_bid(&mut self, channel: Channel, update: L2updateBid)
        requires
            old(self).wf(),
            kraken_levels_wf(update.bid.update@),
        ensures
            final(self).wf(),
            final(self)@ == old(self)@.with_book_updates(
                channel@,
                kraken_levels(update.bid.update@),
                Seq::empty(),
            ),
    {
        let bids = from_kraken_levels(&update.bid.update);
        let asks: Vec<Level> = Vec::new();
        proof {
            assert(asks@ =~= Seq::<Level>::empty());
        }
        self.update_book(channel, &bids, &asks);
    }

    /// Applies Kraken bid changes, then ask changes, to the channel's book,
    /// if it has one.
    pub fn insert_kraken_update_both(&mut self, channel: Channel, update: L2updateBoth)
        requires
            old(self).wf(),
            kraken_levels_wf(update.bid.update@),
            kraken_levels_wf(update.ask.update@),
        ensures
            final(self).wf(),
            final(self)@ == old(self)@.with_book_updates(
                channel@,
                kraken_levels(update.bid.update@),
                kraken_levels(update.ask.update@),
            ),
    {
        let bids = from_kraken_levels(&update.bid.update);
        let asks = from_kraken_levels(&update.ask.update);
        self.update_book(channel, &bids, &asks);
    }

    /// Replaces the channel's book with a Hyperliquid snapshot.
    pub fn insert_hyperliquid_snapshot(&mut self, channel: Channel, snapshot: L2Book)
        requires
            old(self).wf(),
            hyperliquid_levels_wf(snapshot.levels.bids@),
            hyperliquid_levels_wf(snapshot.levels.asks@),
        ensures
            final(self).wf(),
            final(self)@ == old(self)@.with_book(
                channel@,
                snapshot_book(
                    hyperliquid_levels(snapshot.levels.bids@),
                    hyperliquid_levels(snapshot.levels.asks@),
                ),
            ),
    {
        let bids = from_hyperliquid_levels(&snapshot.levels.bids);
        let asks = from_hyperliquid_levels(&snapshot.levels.asks);
        let book = Book::from_snapshot(&bids, &asks);
        self.replace_book(channel, book);
    }
}

} // verus!
