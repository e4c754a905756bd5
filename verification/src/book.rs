//! One side of a price-level order book.
//!
//! Prices and quantities are carried as 64-bit keys that preserve the order
//! of the exchange's decimal values, so that levels can be kept sorted and
//! found again by price. The key [`QTY_ZERO`] stands for a zero quantity.
use std::collections::BTreeMap;
use vstd::prelude::*;
use vstd::std_specs::btree::increasing_seq;
use vstd::std_specs::cmp::OrdSpec;

verus! {

/// The quantity key that stands for a zero quantity.
pub const QTY_ZERO: u64 = 0x8000_0000_0000_0000u64;

/// A price level: price key and quantity key.
pub type Level = (u64, u64);

/// Prices strictly increase along `s`.
pub open spec fn strictly_ascending(s: Seq<Level>) -> bool {
    forall|i: int, j: int| 0 <= i < j < s.len() ==> s[i].0 < s[j].0
}

/// Prices strictly decrease along `s`.
pub open spec fn strictly_descending(s: Seq<Level>) -> bool {
    forall|i: int, j: int| 0 <= i < j < s.len() ==> s[i].0 > s[j].0
}

/// Whether `s` holds a level at `price`.
pub open spec fn has_price(s: Seq<Level>, price: u64) -> bool {
    exists|i: int| 0 <= i < s.len() && s[i].0 == price
}

/// The levels of `s` as a map from price to quantity.
pub open spec fn entries(s: Seq<Level>) -> Map<u64, u64> {
    Map::new(
        |p: u64| has_price(s, p),
        |p: u64| s[choose|i: int| 0 <= i < s.len() && s[i].0 == p].1,
    )
}

/// No level of `s` has a zero quantity.
pub open spec fn no_zero_qty(s: Seq<Level>) -> bool {
    forall|i: int| 0 <= i < s.len() ==> #[trigger] s[i].1 != QTY_ZERO
}

/// In a sequence whose prices are all distinct, the map gives each level's quantity.
pub proof fn lemma_entries_at(s: Seq<Level>, i: int)
    requires
        0 <= i < s.len(),
        strictly_ascending(s) || strictly_descending(s),
    ensures
        entries(s).contains_key(s[i].0),
        entries(s)[s[i].0] == s[i].1,
{
    let p = s[i].0;
    assert(has_price(s, p));
    let w = choose|k: int| 0 <= k < s.len() && s[k].0 == p;
    assert(w == i) by {
        if w < i {
            assert(s[w].0 != s[i].0);
        } else if w > i {
            assert(s[i].0 != s[w].0);
        }
    }
}

/// The prices of a walk over a map's entries.
spec fn price_keys(s: Seq<(&u64, &u64)>) -> Seq<u64> {
    s.map_values(|kv: (&u64, &u64)| *kv.0)
}

/// Entries whose prices increase have strictly increasing prices.
broadcast proof fn lemma_increasing_prices(s: Seq<(&u64, &u64)>)
    ensures
        #[trigger] increasing_seq(price_keys(s)) ==> forall|i: int, j: int|
            #![trigger s[i], s[j]]
            0 <= i < j < s.len() ==> *s[i].0 < *s[j].0,
{
    broadcast use vstd::laws_cmp::group_laws_cmp, vstd::std_specs::btree::group_btree_axioms;
    let t = price_keys(s);
    if increasing_seq(t) {
        assert(vstd::laws_cmp::obeys_cmp::<u64>());
        assert forall|i: int, j: int| 0 <= i < j < s.len() implies *s[i].0 < *s[j].0 by {
            assert(t[i] == *s[i].0);
            assert(t[j] == *s[j].0);
            assert(t[i].cmp_spec(&t[j]) is Less);
        }
    }
}

/// A sequence of levels whose prices are all distinct, each level an entry
/// of `m`, and which names every price of `m`, lists exactly `m`.
proof fn lemma_entries_exact(s: Seq<Level>, m: Map<u64, u64>)
    requires
        strictly_ascending(s),
        forall|i: int| 0 <= i < s.len() ==> m.contains_key(#[trigger] s[i].0) && m[s[i].0] == s[i].1,
        forall|k: u64| #[trigger] m.contains_key(k) ==> has_price(s, k),
    ensures
        entries(s) == m,
{
    assert forall|p: u64| #[trigger] entries(s).contains_key(p) implies entries(s)[p] == m[p] by {
        let k = choose|k: int| 0 <= k < s.len() && s[k].0 == p;
        lemma_entries_at(s, k);
    }
    assert(entries(s) =~= m);
}

/// The side `m` after one level update: a zero quantity removes the level,
/// any other quantity sets it.
pub open spec fn apply_level(m: Map<u64, u64>, l: Level) -> Map<u64, u64> {
    if l.1 == QTY_ZERO {
        m.remove(l.0)
    } else {
        m.insert(l.0, l.1)
    }
}

/// The side `m` after the level updates `ls`, applied in order.
pub open spec fn apply_levels(m: Map<u64, u64>, ls: Seq<Level>) -> Map<u64, u64>
    decreases ls.len(),
{
    if ls.len() == 0 {
        m
    } else {
        apply_level(apply_levels(m, ls.drop_last()), ls.last())
    }
}

/// The side built from the levels `ls` of a full snapshot: each level with a
/// quantity above zero is set, in order; the others are skipped.
pub open spec fn loaded_levels(ls: Seq<Level>) -> Map<u64, u64>
    decreases ls.len(),
{
    if ls.len() == 0 {
        Map::empty()
    } else if ls.last().1 > QTY_ZERO {
        loaded_levels(ls.drop_last()).insert(ls.last().0, ls.last().1)
    } else {
        loaded_levels(ls.drop_last())
    }
}

/// The last level of `ls` at a price decides that price: after applying
/// `ls`, the side holds the price exactly when that level's quantity is not
/// zero, and then with that quantity.
pub proof fn law_last_update_wins(m: Map<u64, u64>, ls: Seq<Level>, i: int)
    requires
        0 <= i < ls.len(),
        forall|j: int| i < j < ls.len() ==> ls[j].0 != ls[i].0,
    ensures
        apply_levels(m, ls).contains_key(ls[i].0) == (ls[i].1 != QTY_ZERO),
        ls[i].1 != QTY_ZERO ==> apply_levels(m, ls)[ls[i].0] == ls[i].1,
    decreases ls.len(),
{
    if i < ls.len() - 1 {
        law_last_update_wins(m, ls.drop_last(), i);
    }
}

/// A price that no level of `ls` names keeps its entry.
pub proof fn law_untouched_price_kept(m: Map<u64, u64>, ls: Seq<Level>, p: u64)
    requires
        forall|j: int| 0 <= j < ls.len() ==> ls[j].0 != p,
    ensures
        apply_levels(m, ls).contains_key(p) == m.contains_key(p),
        m.contains_key(p) ==> apply_levels(m, ls)[p] == m[p],
    decreases ls.len(),
{
    if ls.len() > 0 {
        law_untouched_price_kept(m, ls.drop_last(), p);
    }
}

/// No level that a side holds after updates has a zero quantity, when none
/// had before.
pub proof fn law_no_zero_quantity_kept(m: Map<u64, u64>, ls: Seq<Level>)
    requires
        forall|p: u64| m.contains_key(p) ==> m[p] != QTY_ZERO,
    ensures
        forall|p: u64| apply_levels(m, ls).contains_key(p) ==> apply_levels(m, ls)[p] != QTY_ZERO,
    decreases ls.len(),
{
    if ls.len() > 0 {
        law_no_zero_quantity_kept(m, ls.drop_last());
        let before = apply_levels(m, ls.drop_last());
        assert forall|p: u64| apply_levels(m, ls).contains_key(p) implies apply_levels(m, ls)[p] != QTY_ZERO by {
            if p != ls.last().0 {
                assert(before.contains_key(p));
            }
        }
    }
}

/// The levels of both sides of a book, as published: bids from the highest
/// price down, asks from the lowest price up.
#[derive(Debug)]
pub struct BookLevels {
    pub bids: Vec<Level>,
    pub asks: Vec<Level>,
}

/// `v` lists the side `side` from the highest price down.
pub open spec fn lists_descending(v: Seq<Level>, side: Map<u64, u64>) -> bool {
    strictly_descending(v) && no_zero_qty(v) && entries(v) == side
}

/// `v` lists the side `side` from the lowest price up.
pub open spec fn lists_ascending(v: Seq<Level>, side: Map<u64, u64>) -> bool {
    strictly_ascending(v) && no_zero_qty(v) && entries(v) == side
}

/// The levels of a book with sides `bids` and `asks`.
pub fn book_levels(bids: &BookSide, asks: &BookSide) -> (l: BookLevels)
    ensures
        lists_descending(l.bids@, bids@),
        lists_ascending(l.asks@, asks@),
{
    BookLevels { bids: bids.descending(), asks: asks.ascending() }
}

/// One side of an order book: a map from price key to quantity key, with no
/// level at a zero quantity. The map keeps its levels ordered by price.
#[derive(Debug)]
pub struct BookSide {
    levels: BTreeMap<u64, u64>,
}

impl View for BookSide {
    type V = Map<u64, u64>;

    /// The side as a map from price key to quantity key.
    closed spec fn view(&self) -> Map<u64, u64> {
        self.levels@
    }
}

impl BookSide {
    #[verifier::type_invariant]
    spec fn inv(&self) -> bool {
        forall|p: u64| #[trigger] self.levels@.contains_key(p) ==> self.levels@[p] != QTY_ZERO
    }

    pub fn new() -> (s: Self)
        ensures
            s@ == Map::<u64, u64>::empty(),
    {
        BookSide { levels: BTreeMap::new() }
    }

    /// Removes every level.
    pub fn clear(&mut self)
        ensures
            final(self)@ == Map::<u64, u64>::empty(),
    {
        self.levels = BTreeMap::new();
    }

    /// Number of levels.
    pub fn len(&self) -> (n: usize)
        ensures
            n == self@.dom().len(),
            self@.dom().finite(),
    {
        broadcast use vstd::laws_cmp::group_laws_cmp;
        self.levels.len()
    }

    /// Sets the quantity at `price`, adding the level when there is none.
    pub fn insert_level(&mut self, price: u64, qty: u64)
        requires
            qty != QTY_ZERO,
        ensures
            final(self)@ == old(self)@.insert(price, qty),
    {
        broadcast use vstd::laws_cmp::group_laws_cmp;
        proof {
            use_type_invariant(&*self);
        }
        let mut levels: BTreeMap<u64, u64> = BTreeMap::new();
        std::mem::swap(&mut levels, &mut self.levels);
        levels.insert(price, qty);
        self.levels = levels;
    }

    /// Removes the level at `price`, if any.
    pub fn remove_level(&mut self, price: u64)
        ensures
            final(self)@ == old(self)@.remove(price),
    {
        broadcast use vstd::laws_cmp::group_laws_cmp;
        proof {
            use_type_invariant(&*self);
        }
        let mut levels: BTreeMap<u64, u64> = BTreeMap::new();
        std::mem::swap(&mut levels, &mut self.levels);
        levels.remove(&price);
        self.levels = levels;
    }

    /// Applies one level update: a zero quantity removes the level, any other
    /// quantity sets it.
    pub fn apply(&mut self, price: u64, qty: u64)
        ensures
            final(self)@ == if qty == QTY_ZERO {
                old(self)@.remove(price)
            } else {
                old(self)@.insert(price, qty)
            },
    {
        if qty == QTY_ZERO {
            self.remove_level(price);
        } else {
            self.insert_level(price, qty);
        }
    }

    /// Applies the level updates `levels` in order.
    pub fn apply_all(&mut self, levels: &[Level])
        ensures
            final(self)@ == apply_levels(old(self)@, levels@),
    {
        let mut i: usize = 0;
        while i < levels.len()
            invariant
                i <= levels@.len(),
                self@ == apply_levels(old(self)@, levels@.take(i as int)),
            decreases levels.len() - i,
        {
            let (price, qty) = levels[i];
            self.apply(price, qty);
            assert(levels@.take(i + 1).drop_last() =~= levels@.take(i as int));
            i = i + 1;
        }
        assert(levels@.take(levels@.len() as int) =~= levels@);
    }

    /// Replaces the side by the levels of a full snapshot, skipping those
    /// whose quantity is not above zero.
    pub fn load(&mut self, levels: &[Level])
        ensures
            final(self)@ == loaded_levels(levels@),
    {
        self.clear();
        let mut i: usize = 0;
        while i < levels.len()
            invariant
                i <= levels@.len(),
                self@ == loaded_levels(levels@.take(i as int)),
            decreases levels.len() - i,
        {
            let (price, qty) = levels[i];
            if qty > QTY_ZERO {
                self.insert_level(price, qty);
            }
            assert(levels@.take(i + 1).drop_last() =~= levels@.take(i as int));
            i = i + 1;
        }
        assert(levels@.take(levels@.len() as int) =~= levels@);
    }

    /// The levels from the lowest price to the highest.
    pub fn ascending(&self) -> (v: Vec<Level>)
        ensures
            strictly_ascending(v@),
            entries(v@) == self@,
            no_zero_qty(v@),
    {
        broadcast use vstd::laws_cmp::group_laws_cmp, lemma_increasing_prices;
        proof {
            use_type_invariant(self);
        }
        let ghost m = self.levels@;
        let mut v: Vec<Level> = Vec::new();
        for kv in it: self.levels.iter()
            invariant
                m == self@,
                forall|p: u64| #[trigger] m.contains_key(p) ==> m[p] != QTY_ZERO,
                v@.len() == it.index(),
                forall|i: int| #![trigger v@[i]] #![trigger it.seq()[i]]
                    0 <= i < it.index() ==> v@[i] == (*it.seq()[i].0, *it.seq()[i].1),
                forall|i: int| 0 <= i < it.seq().len() ==> m.contains_key(*#[trigger] it.seq()[i].0) && m[*it.seq()[i].0] == *it.seq()[i].1,
                forall|k: u64| #[trigger] m.contains_key(k) ==> it.seq().contains((&k, &m[k])),
                forall|i: int, j: int|
                    #![trigger it.seq()[i], it.seq()[j]]
                    #![trigger price_keys(it.seq())[i], price_keys(it.seq())[j]]
                    0 <= i < j < it.seq().len() ==> price_keys(it.seq())[i] < price_keys(it.seq())[j]
                        && *it.seq()[i].0 < *it.seq()[j].0,
                strictly_ascending(v@),
                no_zero_qty(v@),
                forall|i: int| 0 <= i < v@.len() ==> m.contains_key(#[trigger] v@[i].0) && m[v@[i].0] == v@[i].1,
        {
            v.push((*kv.0, *kv.1));
        }
        proof {
            assert forall|k: u64| #[trigger] m.contains_key(k) implies has_price(v@, k) by {}
            lemma_entries_exact(v@, m);
        }
        v
    }

    /// The levels from the highest price to the lowest.
    pub fn descending(&self) -> (v: Vec<Level>)
        ensures
            strictly_descending(v@),
            entries(v@) == self@,
            no_zero_qty(v@),
    {
        let a = self.ascending();
        let ghost s = a@;
        let mut v: Vec<Level> = Vec::new();
        let mut i: usize = a.len();
        while i > 0
            invariant
                i <= s.len(),
                s == a@,
                strictly_ascending(s),
                no_zero_qty(s),
                v@.len() == s.len() - i,
                forall|k: int| 0 <= k < v@.len() ==> v@[k] == s[s.len() - 1 - k],
            decreases i,
        {
            v.push(a[i - 1]);
            i = i - 1;
        }
        assert(strictly_descending(v@)) by {
            assert forall|x: int, y: int| 0 <= x < y < v@.len() implies v@[x].0 > v@[y].0 by {
                assert(v@[x] == s[s.len() - 1 - x]);
                assert(v@[y] == s[s.len() - 1 - y]);
            }
        }
        assert(entries(v@) =~= entries(s)) by {
            assert forall|p: u64| has_price(v@, p) <==> has_price(s, p) by {
                if has_price(v@, p) {
                    let k = choose|k: int| 0 <= k < v@.len() && v@[k].0 == p;
                    assert(s[s.len() - 1 - k].0 == p);
                }
                if has_price(s, p) {
                    let k = choose|k: int| 0 <= k < s.len() && s[k].0 == p;
                    assert(v@[s.len() - 1 - k] == s[k]);
                }
            }
            assert forall|p: u64| #[trigger] entries(v@).contains_key(p) implies entries(v@)[p] == entries(s)[p] by {
                let k = choose|k: int| 0 <= k < v@.len() && v@[k].0 == p;
                lemma_entries_at(v@, k);
                lemma_entries_at(s, s.len() - 1 - k);
            }
        }
        v
    }
}

} // verus!
