use vstd::prelude::*;

use crate::data::types::{Fraction, Side};

verus! {

/// Number of price levels kept per side of the book.
pub const MAX_LEVELS: usize = 16;

/// Largest magnitude of a price (in ticks) or a size (in lots) the book holds:
/// 2^53, the range in which a binary64 float holds every integer exactly.
pub const MAX_UNITS: i64 = 9007199254740992;

/// One resting price level: a price in ticks and a size in lots.
#[derive(Debug, Clone, Copy, PartialEq, Eq, Structural)]
pub struct PriceLevel {
    pub price: i64,
    pub size: i64,
}

impl PriceLevel {
    pub fn new(price: i64, size: i64) -> (r: Self)
        ensures
            r == (PriceLevel { price, size }),
    {
        PriceLevel { price, size }
    }
}

// ---------------------------------------------------------------------------
// The model: each side of the book is a sequence of levels ordered from the
// worst price to the best, so that the best level is the last one.
// ---------------------------------------------------------------------------

/// Price `a` is strictly better than price `b` on `side`
/// (higher for bids, lower for asks).
pub open spec fn better(side: Side, a: i64, b: i64) -> bool {
    match side {
        Side::Bid => a > b,
        Side::Ask => a < b,
    }
}

/// Prices strictly improve from the first level (worst) to the last (best).
pub open spec fn sorted_side(side: Side, s: Seq<PriceLevel>) -> bool {
    forall|i: int, j: int|
        #![trigger s[i], s[j]]
        0 <= i < j < s.len() ==> better(side, s[j].price, s[i].price)
}

pub open spec fn in_units(v: i64) -> bool {
    -MAX_UNITS <= v <= MAX_UNITS
}

/// A well-formed side: at most `MAX_LEVELS` levels, sorted worst to best,
/// no empty level, every price and size within `MAX_UNITS`.
pub open spec fn valid_side(side: Side, s: Seq<PriceLevel>) -> bool {
    &&& s.len() <= MAX_LEVELS
    &&& sorted_side(side, s)
    &&& forall|i: int|
        #![trigger s[i]]
        0 <= i < s.len() ==> s[i].size != 0 && in_units(s[i].price) && in_units(s[i].size)
}

pub open spec fn has_price(s: Seq<PriceLevel>, p: i64) -> bool {
    exists|i: int| 0 <= i < s.len() && s[i].price == p
}

pub open spec fn index_of_price(s: Seq<PriceLevel>, p: i64) -> int {
    choose|i: int| 0 <= i < s.len() && s[i].price == p
}

/// The size resting at price `p`, if any.
pub open spec fn size_at(s: Seq<PriceLevel>, p: i64) -> Option<i64> {
    if has_price(s, p) {
        Some(s[index_of_price(s, p)].size)
    } else {
        None
    }
}

/// `k` splits `s` into the levels worse than `p` (before `k`) and the levels
/// better than `p` (from `k` on).
pub open spec fn splits_at(side: Side, s: Seq<PriceLevel>, p: i64, k: int) -> bool {
    &&& 0 <= k <= s.len()
    &&& forall|j: int| #![trigger s[j]] 0 <= j < k ==> better(side, p, s[j].price)
    &&& forall|j: int| #![trigger s[j]] k <= j < s.len() ==> better(side, s[j].price, p)
}

/// Where a level at price `p` goes in the sorted side `s`.
pub open spec fn insertion_point(side: Side, s: Seq<PriceLevel>, p: i64) -> int {
    choose|k: int| splits_at(side, s, p, k)
}

/// `s` with level `l` inserted at its sorted position.
pub open spec fn insert_sorted(side: Side, s: Seq<PriceLevel>, l: PriceLevel) -> Seq<PriceLevel> {
    s.insert(insertion_point(side, s, l.price), l)
}

/// The side after an update of price `p` to size `q` (`q == 0` deletes):
/// an existing level is resized or deleted; a new level is inserted in order
/// while there is room; in a full side it replaces the worst level when it is
/// better than that level, and is dropped otherwise.
pub open spec fn updated_side(side: Side, s: Seq<PriceLevel>, p: i64, q: i64) -> Seq<PriceLevel> {
    let l = PriceLevel { price: p, size: q };
    if has_price(s, p) {
        if q == 0 {
            s.remove(index_of_price(s, p))
        } else {
            s.update(index_of_price(s, p), l)
        }
    } else if q == 0 {
        s
    } else if s.len() < MAX_LEVELS {
        insert_sorted(side, s, l)
    } else if better(side, p, s[0].price) {
        insert_sorted(side, s.remove(0), l)
    } else {
        s
    }
}

/// Sum of the sizes of `s`.
pub open spec fn sum_sizes(s: Seq<PriceLevel>) -> int
    decreases s.len(),
{
    if s.len() == 0 {
        0
    } else {
        sum_sizes(s.drop_last()) + s.last().size
    }
}

/// Sum of `price * size` over `s`.
pub open spec fn sum_notional(s: Seq<PriceLevel>) -> int
    decreases s.len(),
{
    if s.len() == 0 {
        0
    } else {
        sum_notional(s.drop_last()) + s.last().price * s.last().size
    }
}

pub open spec fn min_int(a: int, b: int) -> int {
    if a <= b {
        a
    } else {
        b
    }
}

/// Index of the level just below the best one (0 when there is at most one).
pub open spec fn below_top(s: Seq<PriceLevel>) -> int {
    if s.len() >= 2 {
        s.len() - 2
    } else {
        0
    }
}

/// The levels that a top-`n` scan adds to the best one: the next `n - 1`
/// levels going down from the best (all of them when the side has fewer).
pub open spec fn top_window(s: Seq<PriceLevel>, n: int) -> Seq<PriceLevel> {
    let m = min_int(n - 1, s.len() - 1);
    s.subrange(s.len() - 1 - m, s.len() - 1)
}

/// `sum_{i < min(n, len)} size(level i from the top) * (n - i)`: the
/// top-`n` volume with weights `1 - i/n`, scaled by `n`.
pub open spec fn weighted_volume(s: Seq<PriceLevel>, n: int, c: int) -> int
    decreases c,
{
    if c <= 0 {
        0
    } else {
        weighted_volume(s, n, c - 1) + s[s.len() - c].size * (n - (c - 1))
    }
}

/// The level `i` steps below a wall candidate breaks the "two levels behind"
/// rule: its size exceeds the sum of the sizes of the next two deeper levels.
pub open spec fn wall_at(s: Seq<PriceLevel>, i: int) -> bool {
    s[i].size > s[i - 1].size + s[i - 2].size
}

// ---------------------------------------------------------------------------
// Lemmas on the model.
// ---------------------------------------------------------------------------

pub(crate) proof fn lemma_index_of_price(side: Side, s: Seq<PriceLevel>, i: int)
    requires
        sorted_side(side, s),
        0 <= i < s.len(),
    ensures
        has_price(s, s[i].price),
        index_of_price(s, s[i].price) == i,
{
    let p = s[i].price;
    assert(has_price(s, p));
    let c = index_of_price(s, p);
    if c < i {
        assert(better(side, s[i].price, s[c].price));
    } else if c > i {
        assert(better(side, s[c].price, s[i].price));
    }
}

pub(crate) proof fn lemma_insertion_point(side: Side, s: Seq<PriceLevel>, p: i64, k: int)
    requires
        splits_at(side, s, p, k),
    ensures
        insertion_point(side, s, p) == k,
{
    let c = insertion_point(side, s, p);
    assert(splits_at(side, s, p, c));
    if c < k {
        assert(better(side, p, s[c].price));
        assert(better(side, s[c].price, p));
    } else if c > k {
        assert(better(side, p, s[k].price));
        assert(better(side, s[k].price, p));
    }
}

/// Inserting a level at a split point of its price keeps a side sorted.
pub(crate) proof fn lemma_insert_keeps_sorted(side: Side, s: Seq<PriceLevel>, k: int, l: PriceLevel)
    requires
        sorted_side(side, s),
        splits_at(side, s, l.price, k),
    ensures
        sorted_side(side, s.insert(k, l)),
{
    let t = s.insert(k, l);
    assert forall|i: int, j: int| #![trigger t[i], t[j]] 0 <= i < j < t.len() implies better(
        side,
        t[j].price,
        t[i].price,
    ) by {
        if i < k && j < k {
            assert(t[i] == s[i] && t[j] == s[j]);
        } else if i < k && j == k {
        } else if i < k {
            assert(t[i] == s[i] && t[j] == s[j - 1]);
        } else if i == k {
            assert(t[j] == s[j - 1]);
        } else {
            assert(t[i] == s[i - 1] && t[j] == s[j - 1]);
        }
    }
}

proof fn lemma_insert_valid(side: Side, s: Seq<PriceLevel>, k: int, l: PriceLevel)
    requires
        valid_side(side, s),
        s.len() < MAX_LEVELS,
        splits_at(side, s, l.price, k),
        l.size != 0,
        in_units(l.price),
        in_units(l.size),
    ensures
        valid_side(side, s.insert(k, l)),
{
    let t = s.insert(k, l);
    lemma_insert_keeps_sorted(side, s, k, l);
    assert forall|i: int| #![trigger t[i]] 0 <= i < t.len() implies t[i].size != 0 && in_units(
        t[i].price,
    ) && in_units(t[i].size) by {
        if i < k {
            assert(t[i] == s[i]);
        } else if i > k {
            assert(t[i] == s[i - 1]);
        }
    }
}

pub(crate) proof fn lemma_remove_valid(side: Side, s: Seq<PriceLevel>, k: int)
    requires
        valid_side(side, s),
        0 <= k < s.len(),
    ensures
        valid_side(side, s.remove(k)),
{
    let t = s.remove(k);
    assert forall|i: int, j: int| #![trigger t[i], t[j]] 0 <= i < j < t.len() implies better(
        side,
        t[j].price,
        t[i].price,
    ) by {
        let ii = if i < k { i } else { i + 1 };
        let jj = if j < k { j } else { j + 1 };
        assert(t[i] == s[ii] && t[j] == s[jj]);
    }
    assert forall|i: int| #![trigger t[i]] 0 <= i < t.len() implies t[i].size != 0 && in_units(
        t[i].price,
    ) && in_units(t[i].size) by {
        let ii = if i < k { i } else { i + 1 };
        assert(t[i] == s[ii]);
    }
}

proof fn lemma_resize_valid(side: Side, s: Seq<PriceLevel>, k: int, q: i64)
    requires
        valid_side(side, s),
        0 <= k < s.len(),
        q != 0,
        in_units(q),
    ensures
        valid_side(side, s.update(k, PriceLevel { price: s[k].price, size: q })),
{
    let t = s.update(k, PriceLevel { price: s[k].price, size: q });
    assert forall|i: int, j: int| #![trigger t[i], t[j]] 0 <= i < j < t.len() implies better(
        side,
        t[j].price,
        t[i].price,
    ) by {
        assert(t[i].price == s[i].price && t[j].price == s[j].price);
    }
}

/// When `p` is absent from a sorted side, it splits the side somewhere.
pub(crate) proof fn lemma_splits_exist(side: Side, s: Seq<PriceLevel>, p: i64, k: int)
    requires
        sorted_side(side, s),
        !has_price(s, p),
        0 <= k <= s.len(),
        forall|j: int| #![trigger s[j]] k <= j < s.len() ==> better(side, s[j].price, p),
        k == 0 || !better(side, s[k - 1].price, p),
    ensures
        splits_at(side, s, p, k),
{
    assert forall|j: int| #![trigger s[j]] 0 <= j < k implies better(side, p, s[j].price) by {
        assert(s[k - 1].price != p);
        if j < k - 1 {
            assert(better(side, s[k - 1].price, s[j].price));
        }
    }
}

pub(crate) proof fn lemma_sum_sizes_bound(s: Seq<PriceLevel>)
    requires
        forall|i: int| #![trigger s[i]] 0 <= i < s.len() ==> in_units(s[i].size),
    ensures
        -s.len() * MAX_UNITS <= sum_sizes(s) <= s.len() * MAX_UNITS,
    decreases s.len(),
{
    if s.len() > 0 {
        let t = s.drop_last();
        assert forall|i: int| #![trigger t[i]] 0 <= i < t.len() implies in_units(t[i].size) by {
            assert(t[i] == s[i]);
        }
        lemma_sum_sizes_bound(t);
        assert(in_units(s[s.len() - 1].size));
    }
}

pub(crate) proof fn lemma_product_bound(a: i64, b: i64)
    requires
        in_units(a),
        in_units(b),
    ensures
        -MAX_UNITS * MAX_UNITS <= a * b <= MAX_UNITS * MAX_UNITS,
{
    assert(-MAX_UNITS * MAX_UNITS <= a * b <= MAX_UNITS * MAX_UNITS) by (nonlinear_arith)
        requires
            -MAX_UNITS <= a <= MAX_UNITS,
            -MAX_UNITS <= b <= MAX_UNITS,
    ;
}

pub(crate) proof fn lemma_sum_notional_bound(s: Seq<PriceLevel>)
    requires
        forall|i: int|
            #![trigger s[i]]
            0 <= i < s.len() ==> in_units(s[i].price) && in_units(s[i].size),
    ensures
        -s.len() * (MAX_UNITS * MAX_UNITS) <= sum_notional(s) <= s.len() * (MAX_UNITS * MAX_UNITS),
    decreases s.len(),
{
    if s.len() > 0 {
        let t = s.drop_last();
        assert forall|i: int| #![trigger t[i]] 0 <= i < t.len() implies in_units(t[i].price)
            && in_units(t[i].size) by {
            assert(t[i] == s[i]);
        }
        lemma_sum_notional_bound(t);
        let l = s[s.len() - 1];
        lemma_product_bound(l.price, l.size);
    }
}

proof fn lemma_subrange_take(s: Seq<PriceLevel>, lo: int, j: int)
    requires
        0 <= lo <= j < s.len(),
    ensures
        s.subrange(lo, j + 1).drop_last() == s.subrange(lo, j),
        s.subrange(lo, j + 1).last() == s[j],
{
    assert(s.subrange(lo, j + 1).drop_last() =~= s.subrange(lo, j));
}

// ---------------------------------------------------------------------------
// Operations on one side, kept as a vector of levels worst to best.
// ---------------------------------------------------------------------------

fn price_better(side: Side, a: i64, b: i64) -> (r: bool)
    ensures
        r == better(side, a, b),
{
    match side {
        Side::Bid => a > b,
        Side::Ask => a < b,
    }
}

/// Where a new level at `price` goes: scan down from the best level while the
/// level below the slot is better than `price`.
fn insertion_index(levels: &Vec<PriceLevel>, side: Side, price: i64) -> (k: usize)
    requires
        sorted_side(side, levels@),
        !has_price(levels@, price),
    ensures
        splits_at(side, levels@, price, k as int),
        k as int == insertion_point(side, levels@, price),
{
    let mut i = levels.len();
    while i > 0 && price_better(side, levels[i - 1].price, price)
        invariant
            i <= levels.len(),
            forall|j: int|
                #![trigger levels@[j]]
                i <= j < levels.len() ==> better(side, levels@[j].price, price),
        decreases i,
    {
        i -= 1;
    }
    proof {
        lemma_splits_exist(side, levels@, price, i as int);
        lemma_insertion_point(side, levels@, price, i as int);
    }
    i
}

fn update_side(levels: &mut Vec<PriceLevel>, side: Side, price: i64, size: i64)
    requires
        valid_side(side, old(levels)@),
        in_units(price),
        in_units(size),
    ensures
        valid_side(side, final(levels)@),
        final(levels)@ == updated_side(side, old(levels)@, price, size),
{
    let depth = levels.len();
    let mut i: usize = 0;
    while i < depth
        invariant
            depth == levels.len(),
            levels@ == old(levels)@,
            valid_side(side, levels@),
            in_units(price),
            in_units(size),
            0 <= i <= depth,
            forall|j: int| #![trigger levels@[j]] 0 <= j < i ==> levels@[j].price != price,
        decreases depth - i,
    {
        if levels[i].price == price {
            proof {
                lemma_index_of_price(side, levels@, i as int);
            }
            if size == 0 {
                proof {
                    lemma_remove_valid(side, levels@, i as int);
                }
                levels.remove(i);
            } else {
                proof {
                    lemma_resize_valid(side, levels@, i as int, size);
                }
                levels.set(i, PriceLevel::new(price, size));
            }
            return ;
        }
        i += 1;
    }
    assert(!has_price(levels@, price));
    if size == 0 {
        return ;
    }
    let lvl = PriceLevel::new(price, size);
    if depth < MAX_LEVELS {
        let k = insertion_index(levels, side, price);
        proof {
            lemma_insert_valid(side, levels@, k as int, lvl);
        }
        levels.insert(k, lvl);
    } else {
        // The side is full: the incoming level only enters when it beats the
        // worst level kept, which then makes room for it.
        let worst_px = levels[0].price;
        if !price_better(side, price, worst_px) {
            return ;
        }
        proof {
            lemma_remove_valid(side, levels@, 0);
        }
        levels.remove(0);
        assert(!has_price(levels@, price)) by {
            if has_price(levels@, price) {
                let j = choose|j: int| 0 <= j < levels@.len() && levels@[j].price == price;
                assert(old(levels)@[j + 1] == levels@[j]);
            }
        }
        let k = insertion_index(levels, side, price);
        proof {
            lemma_insert_valid(side, levels@, k as int, lvl);
        }
        levels.insert(k, lvl);
    }
}

// ---------------------------------------------------------------------------
// The book.
// ---------------------------------------------------------------------------

/// A two-sided L2 book holding the `MAX_LEVELS` best levels of each side.
#[derive(Debug)]
pub struct OrderBookL2 {
    ts_ms: u64,
    bids: Vec<PriceLevel>,
    asks: Vec<PriceLevel>,
}

impl OrderBookL2 {
    /// The levels of one side, worst to best.
    pub closed spec fn levels(&self, side: Side) -> Seq<PriceLevel> {
        match side {
            Side::Bid => self.bids@,
            Side::Ask => self.asks@,
        }
    }

    /// The time stamp of the book, in milliseconds.
    pub closed spec fn stamp(&self) -> u64 {
        self.ts_ms
    }

    pub open spec fn well_formed(&self) -> bool {
        &&& valid_side(Side::Bid, self.levels(Side::Bid))
        &&& valid_side(Side::Ask, self.levels(Side::Ask))
    }

    /// Every book value is well formed.
    #[verifier::type_invariant]
    spec fn book_invariant(&self) -> bool {
        self.well_formed()
    }

    /// Every book is well formed: its sides are sorted, hold at most
    /// `MAX_LEVELS` levels, and carry no empty level.
    pub fn check_well_formed(&self)
        ensures
            self.well_formed(),
    {
        proof {
            use_type_invariant(self);
        }
    }

    pub fn new() -> (r: Self)
        ensures
            r.well_formed(),
            r.stamp() == 0,
            r.levels(Side::Bid).len() == 0,
            r.levels(Side::Ask).len() == 0,
    {
        let r = OrderBookL2 {
            ts_ms: 0,
            bids: Vec::with_capacity(MAX_LEVELS),
            asks: Vec::with_capacity(MAX_LEVELS),
        };
        proof {
            use_type_invariant(&r);
        }
        r
    }

    /// Sets the book's time stamp, in milliseconds.
    pub fn set_timestamp(&mut self, ts_ms: u64)
        ensures
            final(self).stamp() == ts_ms,
            final(self).levels(Side::Bid) == old(self).levels(Side::Bid),
            final(self).levels(Side::Ask) == old(self).levels(Side::Ask),
    {
        proof {
            use_type_invariant(&*self);
        }
        self.ts_ms = ts_ms;
    }

    /// The book's time stamp, in milliseconds.
    pub fn timestamp(&self) -> (r: u64)
        ensures
            r == self.stamp(),
    {
        self.ts_ms
    }

    fn side_vec(&self, side: Side) -> (v: &Vec<PriceLevel>)
        ensures
            v@ == self.levels(side),
    {
        match side {
            Side::Bid => &self.bids,
            Side::Ask => &self.asks,
        }
    }

    /// Best price of a side: the last level.
    fn best_price(&self, side: Side) -> (r: Option<i64>)
        ensures
            r == best_price_of(self.levels(side)),
    {
        let v = self.side_vec(side);
        if v.len() > 0 {
            Some(v[v.len() - 1].price)
        } else {
            None
        }
    }

    pub fn best_bid(&self) -> (r: Option<i64>)
        ensures
            r == best_price_of(self.levels(Side::Bid)),
    {
        self.best_price(Side::Bid)
    }

    pub fn best_ask(&self) -> (r: Option<i64>)
        ensures
            r == best_price_of(self.levels(Side::Ask)),
    {
        self.best_price(Side::Ask)
    }

    pub fn is_empty(&self) -> (r: bool)
        ensures
            r == (self.levels(Side::Bid).len() == 0 && self.levels(Side::Ask).len() == 0),
    {
        self.bids.len() == 0 && self.asks.len() == 0
    }

    /// Removes every level of both sides.
    pub fn clear(&mut self)
        ensures
            final(self).well_formed(),
            final(self).stamp() == old(self).stamp(),
            final(self).levels(Side::Bid).len() == 0,
            final(self).levels(Side::Ask).len() == 0,
    {
        proof {
            use_type_invariant(&*self);
        }
        self.bids = Vec::with_capacity(MAX_LEVELS);
        self.asks = Vec::with_capacity(MAX_LEVELS);
        proof {
            use_type_invariant(&*self);
        }
    }

    /// The levels of one side as `(price, size)` pairs, best first.
    pub fn levels_as_real(&self, side: Side) -> (r: Vec<(i64, i64)>)
        ensures
            r@ == best_first(self.levels(side)),
    {
        let v = self.side_vec(side);
        let depth = v.len();
        let mut out: Vec<(i64, i64)> = Vec::with_capacity(depth);
        let mut k: usize = 0;
        while k < depth
            invariant
                depth == v@.len(),
                k <= depth,
                out@.len() == k,
                forall|j: int|
                    #![trigger out@[j]]
                    0 <= j < k ==> out@[j] == (v@[depth - 1 - j].price, v@[depth - 1 - j].size),
            decreases depth - k,
        {
            let lvl = v[depth - 1 - k];
            out.push((lvl.price, lvl.size));
            k += 1;
        }
        assert(out@ =~= best_first(v@));
        out
    }

    /// The best level of a side with its index.
    fn top_raw(&self, side: Side) -> (r: Option<(i64, i64, usize)>)
        ensures
            self.levels(side).len() == 0 ==> r is None,
            self.levels(side).len() > 0 ==> r == Some(
                (
                    self.levels(side).last().price,
                    self.levels(side).last().size,
                    (self.levels(side).len() - 1) as usize,
                ),
            ),
    {
        let v = self.side_vec(side);
        if v.len() == 0 {
            return None;
        }
        let i = v.len() - 1;
        let lvl = v[i];
        Some((lvl.price, lvl.size, i))
    }

    /// The level at index `idx` (0 is the deepest kept).
    fn level(&self, side: Side, idx: usize) -> (r: Option<(i64, i64)>)
        ensures
            r == level_at(self.levels(side), idx as int),
    {
        let v = self.side_vec(side);
        if idx >= v.len() {
            return None;
        }
        let lvl = v[idx];
        Some((lvl.price, lvl.size))
    }

    pub fn best_bid_level(&self) -> (r: Option<(i64, i64)>)
        ensures
            r == best_level_of(self.levels(Side::Bid)),
    {
        let v = &self.bids;
        if v.len() == 0 {
            return None;
        }
        let lvl = v[v.len() - 1];
        Some((lvl.price, lvl.size))
    }

    pub fn best_ask_level(&self) -> (r: Option<(i64, i64)>)
        ensures
            r == best_level_of(self.levels(Side::Ask)),
    {
        let v = &self.asks;
        if v.len() == 0 {
            return None;
        }
        let lvl = v[v.len() - 1];
        Some((lvl.price, lvl.size))
    }

    /// Cumulative size of the levels with index `0..=idx_inclusive`
    /// (index 0 is the deepest level kept).
    pub fn cumulative_to(&self, side: Side, idx_inclusive: usize) -> (r: i128)
        ensures
            r == sum_sizes(
                self.levels(side).take(min_int(idx_inclusive + 1, self.levels(side).len() as int)),
            ),
    {
        proof {
            use_type_invariant(self);
        }
        let depth = self.side_vec(side).len();
        let last = depth.saturating_sub(1);
        let end = if idx_inclusive < last {
            idx_inclusive
        } else {
            last
        };
        let ghost s = self.levels(side);
        let mut acc: i128 = 0;
        let mut i: usize = 0;
        while i <= end
            invariant
                s == self.levels(side),
                forall|j: int| #![trigger s[j]] 0 <= j < s.len() ==> in_units(s[j].size),
                depth == s.len(),
                end < MAX_LEVELS,
                end == 0 || end < depth,
                i <= end + 1,
                acc == sum_sizes(s.take(min_int(i as int, depth as int))),
            decreases end + 1 - i,
        {
            proof {
                lemma_sum_sizes_bound(s.take(min_int(i as int, depth as int)));
            }
            if let Some((_, sz)) = self.level(side, i) {
                proof {
                    assert(s.take(i + 1).drop_last() =~= s.take(i as int));
                }
                acc = acc + sz as i128;
            }
            i += 1;
        }
        acc
    }

    /// The first "wall" within `scan` levels below the one under the best:
    /// scanning down from there, the first level whose size exceeds the sum of
    /// the two levels behind it. Returns its price.
    pub fn find_wall(&self, side: Side, scan: usize) -> (r: Option<i64>)
        ensures
            wall_result(self.levels(side), scan as int, r),
    {
        proof {
            use_type_invariant(self);
        }
        let top = match self.top_raw(side) {
            Some((_px, _sz, t)) => t,
            None => {
                return None;
            },
        };
        let ghost s = self.levels(side);
        let start = top.saturating_sub(1);
        let span = if scan < start {
            scan
        } else {
            start
        };
        let end = start - span;
        let lo = if end > 2 {
            end
        } else {
            2
        };
        // `k` is one above the next candidate; candidates run from `start`
        // down to `lo`.
        let mut k = start + 1;
        while k > lo
            invariant
                s == self.levels(side),
                valid_side(side, s),
                s.len() > 0,
                start as int == below_top(s),
                lo as int == wall_low(s, scan as int),
                k <= start + 1,
                forall|j: int| k <= j <= start ==> !wall_at(s, j),
            decreases k,
        {
            let i = k - 1;
            let (p_i, s_i) = self.level(side, i).unwrap();
            let (_, s1) = self.level(side, i - 1).unwrap();
            let (_, s2) = self.level(side, i - 2).unwrap();
            assert(in_units(s[i - 1].size) && in_units(s[i - 2].size));
            if s_i > s1 + s2 {
                return Some(p_i);
            }
            k -= 1;
        }
        None
    }

    /// Size of the best level over the total size of the top `n` levels
    /// (0 for `n == 0`, an empty side, or a total that is not positive).
    pub fn top_over_top_n(&self, side: Side, n: usize) -> (r: Fraction)
        ensures
            r == top_share(self.levels(side), n as int),
    {
        proof {
            use_type_invariant(self);
        }
        if n == 0 {
            return Fraction::zero();
        }
        let (_px0, s0, top) = match self.top_raw(side) {
            Some(t) => t,
            None => {
                return Fraction::zero();
            },
        };
        let ghost s = self.levels(side);
        // the `n - 1` levels below the best, or all of them when fewer
        let m = if n - 1 < top {
            n - 1
        } else {
            top
        };
        let lo = top - m;
        let mut sum: i128 = s0 as i128;
        let mut j = lo;
        while j < top
            invariant
                s == self.levels(side),
                valid_side(side, s),
                s.len() > 0,
                top as int == s.len() - 1,
                lo as int == s.len() - 1 - min_int(n - 1, s.len() - 1),
                lo <= j <= top,
                s0 == s.last().size,
                sum == s0 + sum_sizes(s.subrange(lo as int, j as int)),
            decreases top - j,
        {
            proof {
                lemma_subrange_take(s, lo as int, j as int);
                lemma_sum_sizes_bound(s.subrange(lo as int, j as int));
            }
            if let Some((_, sz)) = self.level(side, j) {
                sum = sum + sz as i128;
            }
            j += 1;
        }
        if sum > 0 {
            Fraction { num: s0 as i128, den: sum }
        } else {
            Fraction::zero()
        }
    }

    /// Best bid size over best ask size (0 when there is no ask).
    pub fn top_ba_ratio(&self) -> (r: Fraction)
        ensures
            r == ba_ratio(self.levels(Side::Bid), self.levels(Side::Ask)),
    {
        let b: i64 = match self.top_raw(Side::Bid) {
            Some((_, s, _)) => s,
            None => 0,
        };
        let a: i64 = match self.top_raw(Side::Ask) {
            Some((_, s, _)) => s,
            None => 0,
        };
        if a > 0 {
            Fraction { num: b as i128, den: a as i128 }
        } else {
            Fraction::zero()
        }
    }

    /// Volume-weighted average price (in ticks) of the top `n` levels.
    pub fn vwap_top_n(&self, side: Side, n: usize) -> (r: Option<Fraction>)
        ensures
            r == vwap_of(self.levels(side), n as int),
    {
        proof {
            use_type_invariant(self);
        }
        if n == 0 {
            return None;
        }
        let (px0, s0, top) = match self.top_raw(side) {
            Some(t) => t,
            None => {
                return None;
            },
        };
        let ghost s = self.levels(side);
        proof {
            lemma_product_bound(s0, px0);
        }
        // the `n - 1` levels below the best, or all of them when fewer
        let m = if n - 1 < top {
            n - 1
        } else {
            top
        };
        let lo = top - m;
        let mut v_sum: i128 = s0 as i128 * px0 as i128;
        let mut s_sum: i128 = s0 as i128;
        let mut j = lo;
        while j < top
            invariant
                s == self.levels(side),
                valid_side(side, s),
                s.len() > 0,
                top as int == s.len() - 1,
                lo as int == s.len() - 1 - min_int(n - 1, s.len() - 1),
                lo <= j <= top,
                s0 == s.last().size,
                px0 == s.last().price,
                -MAX_UNITS * MAX_UNITS <= s0 * px0 <= MAX_UNITS * MAX_UNITS,
                v_sum == s0 * px0 + sum_notional(s.subrange(lo as int, j as int)),
                s_sum == s0 + sum_sizes(s.subrange(lo as int, j as int)),
            decreases top - j,
        {
            proof {
                let w = s.subrange(lo as int, j as int);
                lemma_subrange_take(s, lo as int, j as int);
                assert forall|t: int| #![trigger w[t]] 0 <= t < w.len() implies in_units(w[t].price)
                    && in_units(w[t].size) by {
                    assert(w[t] == s[lo + t]);
                }
                lemma_sum_sizes_bound(w);
                lemma_sum_notional_bound(w);
                lemma_product_bound(s[j as int].price, s[j as int].size);
            }
            if let Some((p, sz)) = self.level(side, j) {
                v_sum = v_sum + sz as i128 * p as i128;
                s_sum = s_sum + sz as i128;
                assert(sz * p == p * sz) by (nonlinear_arith);
            }
            j += 1;
        }
        if s_sum > 0 {
            Some(Fraction { num: v_sum, den: s_sum })
        } else {
            None
        }
    }

    /// Distance of the top-`n` VWAPs from the mid price, in ticks:
    /// `(mid - vwap_bid, vwap_ask - mid)`; `None` when either VWAP is
    /// unavailable.
    pub fn vwap_distance_from_mid_top_n(&self, n: usize) -> (r: Option<(Fraction, Fraction)>)
        ensures
            r == vwap_distance_of(self.levels(Side::Bid), self.levels(Side::Ask), n as int),
    {
        proof {
            use_type_invariant(self);
        }
        let bid = match self.best_bid() {
            Some(p) => p,
            None => {
                return None;
            },
        };
        let ask = match self.best_ask() {
            Some(p) => p,
            None => {
                return None;
            },
        };
        let vb = match self.vwap_top_n(Side::Bid, n) {
            Some(f) => f,
            None => {
                return None;
            },
        };
        let va = match self.vwap_top_n(Side::Ask, n) {
            Some(f) => f,
            None => {
                return None;
            },
        };
        let ghost sb = self.levels(Side::Bid);
        let ghost sa = self.levels(Side::Ask);
        proof {
            lemma_vwap_parts_bound(sb, n as int);
            lemma_vwap_parts_bound(sa, n as int);
            assert(in_units(bid) && in_units(ask));
            lemma_mid_times_bound(bid as int + ask as int, vb.den as int);
            lemma_mid_times_bound(bid as int + ask as int, va.den as int);
        }
        let two_mid: i128 = bid as i128 + ask as i128;
        let below = Fraction { num: two_mid * vb.den - 2 * vb.num, den: 2 * vb.den };
        let above = Fraction { num: 2 * va.num - two_mid * va.den, den: 2 * va.den };
        Some((below, above))
    }

    /// Total size of the `n` best levels of a side (all of them when fewer).
    fn top_size_sum(&self, side: Side, n: usize) -> (r: i128)
        requires
            self.well_formed(),
        ensures
            r == sum_sizes(top_levels(self.levels(side), n as int)),
    {
        let depth = self.side_vec(side).len();
        let lo = if n < depth {
            depth - n
        } else {
            0
        };
        let ghost s = self.levels(side);
        let mut acc: i128 = 0;
        let mut j = lo;
        while j < depth
            invariant
                s == self.levels(side),
                valid_side(side, s),
                depth == s.len(),
                lo as int == s.len() - min_int(n as int, s.len() as int),
                lo <= j <= depth,
                acc == sum_sizes(s.subrange(lo as int, j as int)),
            decreases depth - j,
        {
            proof {
                let w = s.subrange(lo as int, j as int);
                lemma_subrange_take(s, lo as int, j as int);
                assert forall|t: int| #![trigger w[t]] 0 <= t < w.len() implies in_units(w[t].size) by {
                    assert(w[t] == s[lo + t]);
                }
                lemma_sum_sizes_bound(w);
            }
            let (_, sz) = self.level(side, j).unwrap();
            acc = acc + sz as i128;
            j += 1;
        }
        acc
    }

    /// Order-book imbalance over the top `n` levels:
    /// `(bid_sum - ask_sum) / (bid_sum + ask_sum)` with each sum taken over
    /// the `n` best levels of its side; 0 when the total is not positive.
    pub fn obi_top_n(&self, n: usize) -> (r: Fraction)
        ensures
            r == obi_of(self.levels(Side::Bid), self.levels(Side::Ask), n as int),
    {
        proof {
            use_type_invariant(self);
        }
        if n == 0 {
            return Fraction::zero();
        }
        let bid_sum = self.top_size_sum(Side::Bid, n);
        let ask_sum = self.top_size_sum(Side::Ask, n);
        proof {
            lemma_top_levels_bound(self.levels(Side::Bid), n as int);
            lemma_top_levels_bound(self.levels(Side::Ask), n as int);
        }
        let denom = bid_sum + ask_sum;
        if denom > 0 {
            Fraction { num: bid_sum - ask_sum, den: denom }
        } else {
            Fraction::zero()
        }
    }

    /// Weighted imbalance over the top `n` levels, level `i` from the top
    /// weighted `1 - i/n`: `(WB - WA) / (WB + WA)`, 0 when the total is 0.
    pub fn weighted_obi_top_n(&self, n: usize) -> (r: Fraction)
        ensures
            r == weighted_obi_of(self.levels(Side::Bid), self.levels(Side::Ask), n as int),
    {
        proof {
            use_type_invariant(self);
        }
        if n == 0 {
            return Fraction::zero();
        }
        let wb = self.weighted_sum_volume(Side::Bid, n);
        let wa = self.weighted_sum_volume(Side::Ask, n);
        let denom = wb + wa;
        if denom == 0 {
            Fraction::zero()
        } else {
            Fraction { num: wb - wa, den: denom }
        }
    }

    /// `n` times the weighted top-`n` volume of a side (weights `1 - i/n`).
    fn weighted_sum_volume(&self, side: Side, n: usize) -> (r: i128)
        requires
            self.well_formed(),
        ensures
            r == weighted_volume(
                self.levels(side),
                n as int,
                min_int(n as int, self.levels(side).len() as int),
            ),
            -weighted_bound() <= r <= weighted_bound(),
    {
        let depth = self.side_vec(side).len();
        let upto = if n < depth {
            n
        } else {
            depth
        };
        if upto == 0 || n == 0 {
            return 0;
        }
        let ghost s = self.levels(side);
        let mut acc: i128 = 0;
        let mut i: usize = 0;
        while i < upto
            invariant
                s == self.levels(side),
                valid_side(side, s),
                depth == s.len(),
                upto <= depth,
                upto <= n,
                i <= upto,
                acc == weighted_volume(s, n as int, i as int),
                -(i as int) * 0x20_0000_0000_0000_0000_0000_0000_0000 <= acc <= (i as int) * 0x20_0000_0000_0000_0000_0000_0000_0000,
            decreases upto - i,
        {
            let (_px, sz) = self.level(side, depth - i - 1).unwrap();
            let w: i128 = (n - i) as i128;
            proof {
                lemma_weighted_term_bound(sz, w as int);
            }
            acc = acc + sz as i128 * w;
            i += 1;
        }
        acc
    }

    /// Sets the size at `price` on `side`; a size of 0 deletes the level.
    pub fn update_level(&mut self, side: Side, price: i64, size: i64)
        requires
            in_units(price),
            in_units(size),
        ensures
            final(self).well_formed(),
            final(self).stamp() == old(self).stamp(),
            final(self).levels(side) == updated_side(side, old(self).levels(side), price, size),
            final(self).levels(opposite(side)) == old(self).levels(opposite(side)),
    {
        proof {
            use_type_invariant(&*self);
        }
        // The side is taken out while it is updated, so that the book stays
        // well formed at every step.
        let mut levels: Vec<PriceLevel> = Vec::new();
        match side {
            Side::Bid => std::mem::swap(&mut levels, &mut self.bids),
            Side::Ask => std::mem::swap(&mut levels, &mut self.asks),
        }
        update_side(&mut levels, side, price, size);
        match side {
            Side::Bid => self.bids = levels,
            Side::Ask => self.asks = levels,
        }
        proof {
            use_type_invariant(&*self);
        }
    }
}


/// A copy of the levels of a side.
fn copy_levels(v: &Vec<PriceLevel>) -> (r: Vec<PriceLevel>)
    ensures
        r@ == v@,
{
    let mut out: Vec<PriceLevel> = Vec::with_capacity(v.len());
    let mut i: usize = 0;
    while i < v.len()
        invariant
            i <= v@.len(),
            out@ == v@.subrange(0, i as int),
        decreases v@.len() - i,
    {
        out.push(v[i]);
        i += 1;
        assert(out@ =~= v@.subrange(0, i as int));
    }
    assert(v@.subrange(0, v@.len() as int) =~= v@);
    out
}

impl Clone for OrderBookL2 {
    fn clone(&self) -> (r: Self)
        ensures
            r.stamp() == self.stamp(),
            r.levels(Side::Bid) == self.levels(Side::Bid),
            r.levels(Side::Ask) == self.levels(Side::Ask),
    {
        proof {
            use_type_invariant(self);
        }
        OrderBookL2 { ts_ms: self.ts_ms, bids: copy_levels(&self.bids), asks: copy_levels(&self.asks) }
    }
}

pub open spec fn best_price_of(s: Seq<PriceLevel>) -> Option<i64> {
    if s.len() == 0 {
        None
    } else {
        Some(s.last().price)
    }
}

pub open spec fn best_level_of(s: Seq<PriceLevel>) -> Option<(i64, i64)> {
    if s.len() == 0 {
        None
    } else {
        Some((s.last().price, s.last().size))
    }
}

pub open spec fn level_at(s: Seq<PriceLevel>, idx: int) -> Option<(i64, i64)> {
    if 0 <= idx < s.len() {
        Some((s[idx].price, s[idx].size))
    } else {
        None
    }
}

/// The levels of `s` as `(price, size)` pairs, best first.
pub open spec fn best_first(s: Seq<PriceLevel>) -> Seq<(i64, i64)> {
    Seq::new(s.len(), |j: int| (s[s.len() - 1 - j].price, s[s.len() - 1 - j].size))
}

/// Lowest index a wall scan of `scan` levels looks at.
pub open spec fn wall_low(s: Seq<PriceLevel>, scan: int) -> int {
    let start = below_top(s);
    let end = start - min_int(scan, start);
    if end > 2 {
        end
    } else {
        2
    }
}

/// `r` is what a wall scan of `scan` levels reports on side `s`: the price
/// of the first wall going down from the level under the best, or `None`
/// when no level in the scanned range is one.
pub open spec fn wall_result(s: Seq<PriceLevel>, scan: int, r: Option<i64>) -> bool {
    &&& s.len() == 0 ==> r is None
    &&& s.len() > 0 ==> match r {
        Some(p) => exists|i: int|
            wall_low(s, scan) <= i <= below_top(s) && wall_at(s, i) && #[trigger] s[i].price == p
                && forall|j: int| i < j <= below_top(s) ==> !wall_at(s, j),
        None => forall|i: int| wall_low(s, scan) <= i <= below_top(s) ==> !wall_at(s, i),
    }
}

pub open spec fn fraction_zero() -> Fraction {
    Fraction { num: 0, den: 1 }
}

/// Best size over best size plus the sizes of `top_window(s, n)`.
pub open spec fn top_share(s: Seq<PriceLevel>, n: int) -> Fraction {
    if n == 0 || s.len() == 0 {
        fraction_zero()
    } else {
        let s0 = s.last().size;
        let total = s0 + sum_sizes(top_window(s, n));
        if total > 0 {
            Fraction { num: s0 as i128, den: total as i128 }
        } else {
            fraction_zero()
        }
    }
}

pub open spec fn ba_ratio(bids: Seq<PriceLevel>, asks: Seq<PriceLevel>) -> Fraction {
    let b = if bids.len() == 0 { 0 } else { bids.last().size };
    let a = if asks.len() == 0 { 0 } else { asks.last().size };
    if a > 0 {
        Fraction { num: b as i128, den: a as i128 }
    } else {
        fraction_zero()
    }
}

/// Total notional over total size of the best level and `top_window(s, n)`.
pub open spec fn vwap_of(s: Seq<PriceLevel>, n: int) -> Option<Fraction> {
    if n == 0 || s.len() == 0 {
        None
    } else {
        let l = s.last();
        let v = l.size * l.price + sum_notional(top_window(s, n));
        let total = l.size + sum_sizes(top_window(s, n));
        if total > 0 {
            Some(Fraction { num: v as i128, den: total as i128 })
        } else {
            None
        }
    }
}

/// The `n` best levels of `s` (all of them when there are fewer).
pub open spec fn top_levels(s: Seq<PriceLevel>, n: int) -> Seq<PriceLevel> {
    s.subrange(s.len() - min_int(n, s.len() as int), s.len() as int)
}

pub(crate) proof fn lemma_top_levels_bound(s: Seq<PriceLevel>, n: int)
    requires
        forall|i: int| #![trigger s[i]] 0 <= i < s.len() ==> in_units(s[i].size),
        s.len() <= MAX_LEVELS,
        n >= 0,
    ensures
        -16 * MAX_UNITS <= sum_sizes(top_levels(s, n)) <= 16 * MAX_UNITS,
{
    let w = top_levels(s, n);
    let lo = s.len() - min_int(n, s.len() as int);
    assert forall|t: int| #![trigger w[t]] 0 <= t < w.len() implies in_units(w[t].size) by {
        assert(w[t] == s[lo + t]);
    }
    lemma_sum_sizes_bound(w);
    assert(w.len() * MAX_UNITS <= 16 * MAX_UNITS) by (nonlinear_arith)
        requires
            w.len() <= 16,
    ;
    assert(-w.len() * MAX_UNITS >= -16 * MAX_UNITS) by (nonlinear_arith)
        requires
            w.len() <= 16,
    ;
}

pub open spec fn obi_of(bids: Seq<PriceLevel>, asks: Seq<PriceLevel>, n: int) -> Fraction {
    if n == 0 {
        fraction_zero()
    } else {
        let b = sum_sizes(top_levels(bids, n));
        let a = sum_sizes(top_levels(asks, n));
        if b + a > 0 {
            Fraction { num: (b - a) as i128, den: (b + a) as i128 }
        } else {
            fraction_zero()
        }
    }
}

pub open spec fn weighted_obi_of(bids: Seq<PriceLevel>, asks: Seq<PriceLevel>, n: int) -> Fraction {
    if n == 0 {
        fraction_zero()
    } else {
        let wb = weighted_volume(bids, n, min_int(n, bids.len() as int));
        let wa = weighted_volume(asks, n, min_int(n, asks.len() as int));
        if wb + wa == 0 {
            fraction_zero()
        } else {
            Fraction { num: (wb - wa) as i128, den: (wb + wa) as i128 }
        }
    }
}

/// Bound on one term `size * (n - i)` of a weighted volume.
pub open spec fn term_bound() -> int {
    0x20_0000_0000_0000_0000_0000_0000_0000
}

/// Bound on a weighted volume: `MAX_LEVELS` terms.
pub open spec fn weighted_bound() -> int {
    0x200_0000_0000_0000_0000_0000_0000_0000
}

pub(crate) proof fn lemma_weighted_term_bound(sz: i64, w: int)
    requires
        in_units(sz),
        0 < w <= 0x1_0000_0000_0000_0000,
    ensures
        -term_bound() <= sz * w <= term_bound(),
{
    assert(-term_bound() <= sz * w <= term_bound()) by (nonlinear_arith)
        requires
            -MAX_UNITS <= sz <= MAX_UNITS,
            0 < w <= 0x1_0000_0000_0000_0000,
    ;
}


/// `(mid - vwap_bid, vwap_ask - mid)` over the top `n` levels, each as an
/// exact fraction with denominator twice the VWAP's total size.
pub open spec fn vwap_distance_of(bids: Seq<PriceLevel>, asks: Seq<PriceLevel>, n: int) -> Option<
    (Fraction, Fraction),
> {
    match (vwap_of(bids, n), vwap_of(asks, n)) {
        (Some(vb), Some(va)) => {
            let two_mid = bids.last().price + asks.last().price;
            Some(
                (
                    Fraction {
                        num: (two_mid * vb.den - 2 * vb.num) as i128,
                        den: (2 * vb.den) as i128,
                    },
                    Fraction {
                        num: (2 * va.num - two_mid * va.den) as i128,
                        den: (2 * va.den) as i128,
                    },
                ),
            )
        },
        _ => None,
    }
}

/// The exact numerator and denominator of a VWAP stay well inside 128 bits.
proof fn lemma_vwap_parts_bound(s: Seq<PriceLevel>, n: int)
    requires
        forall|i: int|
            #![trigger s[i]]
            0 <= i < s.len() ==> in_units(s[i].price) && in_units(s[i].size),
        s.len() <= MAX_LEVELS,
        n >= 0,
    ensures
        vwap_of(s, n) matches Some(f) ==> -0x1_0000_0000_0000_0000_0000_0000_0000 <= f.num
            <= 0x1_0000_0000_0000_0000_0000_0000_0000 && 0 < f.den <= 0x400_0000_0000_0000,
{
    if n != 0 && s.len() > 0 {
        let w = top_window(s, n);
        let m = min_int(n - 1, s.len() - 1);
        assert forall|t: int| #![trigger w[t]] 0 <= t < w.len() implies in_units(w[t].price)
            && in_units(w[t].size) by {
            assert(w[t] == s[s.len() - 1 - m + t]);
        }
        lemma_sum_sizes_bound(w);
        lemma_sum_notional_bound(w);
        let l = s.last();
        lemma_product_bound(l.size, l.price);
        assert(w.len() <= 16);
        assert(w.len() * (MAX_UNITS * MAX_UNITS) <= 16 * (MAX_UNITS * MAX_UNITS)) by (
        nonlinear_arith)
            requires
                w.len() <= 16,
        ;
        assert(w.len() * MAX_UNITS <= 16 * MAX_UNITS) by (nonlinear_arith)
            requires
                w.len() <= 16,
        ;
        assert(-w.len() * (MAX_UNITS * MAX_UNITS) >= -16 * (MAX_UNITS * MAX_UNITS)) by (
        nonlinear_arith)
            requires
                w.len() <= 16,
        ;
        assert(-w.len() * MAX_UNITS >= -16 * MAX_UNITS) by (nonlinear_arith)
            requires
                w.len() <= 16,
        ;
        let v = l.size * l.price + sum_notional(w);
        let total = l.size + sum_sizes(w);
        assert(-17 * (MAX_UNITS * MAX_UNITS) <= v <= 17 * (MAX_UNITS * MAX_UNITS));
        assert(total <= 17 * MAX_UNITS);
        if total > 0 {
            assert(vwap_of(s, n) == Some(Fraction { num: v as i128, den: total as i128 }));
        }
    }
}

proof fn lemma_mid_times_bound(two_mid: int, den: int)
    requires
        -2 * MAX_UNITS <= two_mid <= 2 * MAX_UNITS,
        0 < den <= 0x400_0000_0000_0000,
    ensures
        -0x1_0000_0000_0000_0000_0000_0000_0000 <= two_mid * den
            <= 0x1_0000_0000_0000_0000_0000_0000_0000,
{
    assert(-0x1_0000_0000_0000_0000_0000_0000_0000 <= two_mid * den
        <= 0x1_0000_0000_0000_0000_0000_0000_0000) by (nonlinear_arith)
        requires
            -2 * MAX_UNITS <= two_mid <= 2 * MAX_UNITS,
            0 < den <= 0x400_0000_0000_0000,
    ;
}

/// A weighted volume over at most `c` levels stays within `c` term bounds.
pub(crate) proof fn lemma_weighted_volume_bound(s: Seq<PriceLevel>, n: int, c: int)
    requires
        forall|i: int| #![trigger s[i]] 0 <= i < s.len() ==> in_units(s[i].size),
        0 <= c <= s.len(),
        c <= n <= 0x1_0000_0000_0000_0000,
    ensures
        -c * 0x20_0000_0000_0000_0000_0000_0000_0000 <= weighted_volume(s, n, c) <= c
            * 0x20_0000_0000_0000_0000_0000_0000_0000,
    decreases c,
{
    if c > 0 {
        lemma_weighted_volume_bound(s, n, c - 1);
        lemma_weighted_term_bound(s[s.len() - c].size, n - (c - 1));
    }
}

pub open spec fn opposite(side: Side) -> Side {
    match side {
        Side::Bid => Side::Ask,
        Side::Ask => Side::Bid,
    }
}

} // verus!
