use vstd::prelude::*;

use crate::data::orderbook::{
    below_top, wall_at, wall_low,
    ba_ratio, lemma_product_bound, lemma_sum_notional_bound, sum_notional, vwap_of, wall_result,
    lemma_index_of_price, lemma_insert_keeps_sorted, lemma_insertion_point, lemma_remove_valid, lemma_splits_exist,
    lemma_sum_sizes_bound, lemma_top_levels_bound, lemma_weighted_volume_bound, top_levels,
    better, has_price, in_units, index_of_price, insert_sorted, insertion_point, min_int,
    obi_of, size_at, sorted_side, splits_at, sum_sizes, top_share, top_window, updated_side,
    valid_side, weighted_obi_of, weighted_volume, PriceLevel, MAX_LEVELS, MAX_UNITS,
};
use crate::data::types::{Fraction, Side};

verus! {

// ---------------------------------------------------------------------------
// Facts about well-formed sides used by the laws below.
// ---------------------------------------------------------------------------

/// In a sorted side, the level found at an index is the one `size_at` reads.
proof fn lemma_read_at(side: Side, s: Seq<PriceLevel>, i: int)
    requires
        sorted_side(side, s),
        0 <= i < s.len(),
    ensures
        size_at(s, s[i].price) == Some(s[i].size),
{
    lemma_index_of_price(side, s, i);
}

/// A sorted side without price `p` splits at its insertion point.
proof fn lemma_split_point(side: Side, s: Seq<PriceLevel>, p: i64)
    requires
        sorted_side(side, s),
        !has_price(s, p),
    ensures
        splits_at(side, s, p, insertion_point(side, s, p)),
{
    lemma_split_from(side, s, p, s.len() as int);
}

proof fn lemma_split_from(side: Side, s: Seq<PriceLevel>, p: i64, k: int)
    requires
        sorted_side(side, s),
        !has_price(s, p),
        0 <= k <= s.len(),
        forall|j: int| #![trigger s[j]] k <= j < s.len() ==> better(side, s[j].price, p),
    ensures
        splits_at(side, s, p, insertion_point(side, s, p)),
    decreases k,
{
    if k > 0 && better(side, s[k - 1].price, p) {
        lemma_split_from(side, s, p, k - 1);
    } else {
        lemma_splits_exist(side, s, p, k);
        lemma_insertion_point(side, s, p, k);
    }
}

/// Inserting at the split point keeps a side sorted.
proof fn lemma_insert_sorted(side: Side, s: Seq<PriceLevel>, l: PriceLevel)
    requires
        sorted_side(side, s),
        !has_price(s, l.price),
    ensures
        sorted_side(side, insert_sorted(side, s, l)),
        insert_sorted(side, s, l)[insertion_point(side, s, l.price)] == l,
        0 <= insertion_point(side, s, l.price) <= s.len(),
{
    lemma_split_point(side, s, l.price);
    lemma_insert_keeps_sorted(side, s, insertion_point(side, s, l.price), l);
}

/// Dropping the worst level of a side that lacks `p` leaves a side that
/// lacks `p`.
proof fn lemma_remove_keeps_absent(s: Seq<PriceLevel>, k: int, p: i64)
    requires
        !has_price(s, p),
        0 <= k < s.len(),
    ensures
        !has_price(s.remove(k), p),
{
    let t = s.remove(k);
    if has_price(t, p) {
        let j = choose|j: int| 0 <= j < t.len() && t[j].price == p;
        if j < k {
            assert(t[j] == s[j]);
        } else {
            assert(t[j] == s[j + 1]);
        }
    }
}

/// `size_at` after an update, at a price other than the updated one, in the
/// cases where no level is evicted.
proof fn lemma_other_price(side: Side, s: Seq<PriceLevel>, t: Seq<PriceLevel>, r: i64)
    requires
        sorted_side(side, s),
        sorted_side(side, t),
        forall|j: int|
            #![trigger t[j]]
            0 <= j < t.len() && t[j].price == r ==> exists|i: int|
                0 <= i < s.len() && #[trigger] s[i] == t[j],
        forall|i: int|
            #![trigger s[i]]
            0 <= i < s.len() && s[i].price == r ==> exists|j: int|
                0 <= j < t.len() && #[trigger] t[j] == s[i],
    ensures
        size_at(t, r) == size_at(s, r),
{
    if has_price(s, r) {
        let i = index_of_price(s, r);
        lemma_read_at(side, s, i);
        let j = choose|j: int| 0 <= j < t.len() && #[trigger] t[j] == s[i];
        lemma_read_at(side, t, j);
    } else if has_price(t, r) {
        let j = index_of_price(t, r);
        let i = choose|i: int| 0 <= i < s.len() && #[trigger] s[i] == t[j];
        assert(s[i].price == r);
    }
}

// ---------------------------------------------------------------------------
// Laws of `OrderBookL2::update_level`, stated over `updated_side`, which its
// `ensures` gives for the updated side.
// ---------------------------------------------------------------------------

/// Read after write: once price `p` is set to a nonzero size `q`, the side
/// holds `q` at `p`, unless the side was full, lacked `p`, and `p` is no
/// better than its worst level (then the update is dropped).
pub proof fn law_update_then_read(side: Side, s: Seq<PriceLevel>, p: i64, q: i64)
    requires
        valid_side(side, s),
        q != 0,
        has_price(s, p) || s.len() < MAX_LEVELS || better(side, p, s[0].price),
    ensures
        size_at(updated_side(side, s, p, q), p) == Some(q),
{
    let l = PriceLevel { price: p, size: q };
    if has_price(s, p) {
        let i = index_of_price(s, p);
        let t = s.update(i, l);
        assert forall|a: int, b: int| #![trigger t[a], t[b]] 0 <= a < b < t.len() implies better(
            side,
            t[b].price,
            t[a].price,
        ) by {
            assert(t[a].price == s[a].price && t[b].price == s[b].price);
        }
        lemma_read_at(side, t, i);
    } else if s.len() < MAX_LEVELS {
        lemma_insert_sorted(side, s, l);
        lemma_read_at(side, insert_sorted(side, s, l), insertion_point(side, s, p));
    } else {
        lemma_remove_valid(side, s, 0);
        lemma_remove_keeps_absent(s, 0, p);
        let t = s.remove(0);
        lemma_insert_sorted(side, t, l);
        lemma_read_at(side, insert_sorted(side, t, l), insertion_point(side, t, p));
    }
}

/// Setting a price to size 0 leaves no level at that price.
pub proof fn law_delete_then_read(side: Side, s: Seq<PriceLevel>, p: i64)
    requires
        valid_side(side, s),
    ensures
        size_at(updated_side(side, s, p, 0), p) is None,
{
    if has_price(s, p) {
        let i = index_of_price(s, p);
        let t = s.remove(i);
        if has_price(t, p) {
            let j = choose|j: int| 0 <= j < t.len() && t[j].price == p;
            let jj = if j < i { j } else { j + 1 };
            assert(t[j] == s[jj]);
            if jj < i {
                assert(better(side, s[i].price, s[jj].price));
            } else {
                assert(better(side, s[jj].price, s[i].price));
            }
        }
    }
}

proof fn lemma_others_after_remove(side: Side, s: Seq<PriceLevel>, i: int, r: i64)
    requires
        valid_side(side, s),
        0 <= i < s.len(),
        s[i].price != r,
    ensures
        size_at(s.remove(i), r) == size_at(s, r),
{
    let t = s.remove(i);
    lemma_remove_valid(side, s, i);
    assert forall|j: int|
        #![trigger t[j]]
        0 <= j < t.len() && t[j].price == r implies exists|a: int|
        0 <= a < s.len() && #[trigger] s[a] == t[j] by {
        if j < i {
            assert(s[j] == t[j]);
        } else {
            assert(s[j + 1] == t[j]);
        }
    }
    assert forall|a: int|
        #![trigger s[a]]
        0 <= a < s.len() && s[a].price == r implies exists|j: int|
        0 <= j < t.len() && #[trigger] t[j] == s[a] by {
        if a < i {
            assert(t[a] == s[a]);
        } else {
            assert(a != i);
            assert(t[a - 1] == s[a]);
        }
    }
    lemma_other_price(side, s, t, r);
}

proof fn lemma_others_after_resize(side: Side, s: Seq<PriceLevel>, i: int, l: PriceLevel, r: i64)
    requires
        sorted_side(side, s),
        0 <= i < s.len(),
        s[i].price == l.price,
        l.price != r,
    ensures
        size_at(s.update(i, l), r) == size_at(s, r),
{
    let t = s.update(i, l);
    assert forall|a: int, b: int| #![trigger t[a], t[b]] 0 <= a < b < t.len() implies better(
        side,
        t[b].price,
        t[a].price,
    ) by {
        assert(t[a].price == s[a].price && t[b].price == s[b].price);
    }
    assert forall|j: int|
        #![trigger t[j]]
        0 <= j < t.len() && t[j].price == r implies exists|a: int|
        0 <= a < s.len() && #[trigger] s[a] == t[j] by {
        assert(s[j] == t[j]);
    }
    assert forall|a: int|
        #![trigger s[a]]
        0 <= a < s.len() && s[a].price == r implies exists|j: int|
        0 <= j < t.len() && #[trigger] t[j] == s[a] by {
        assert(t[a] == s[a]);
    }
    lemma_other_price(side, s, t, r);
}

proof fn lemma_others_after_insert(side: Side, s: Seq<PriceLevel>, l: PriceLevel, r: i64)
    requires
        sorted_side(side, s),
        !has_price(s, l.price),
        l.price != r,
    ensures
        size_at(insert_sorted(side, s, l), r) == size_at(s, r),
{
    lemma_insert_sorted(side, s, l);
    let k = insertion_point(side, s, l.price);
    let t = insert_sorted(side, s, l);
    assert forall|j: int|
        #![trigger t[j]]
        0 <= j < t.len() && t[j].price == r implies exists|a: int|
        0 <= a < s.len() && #[trigger] s[a] == t[j] by {
        if j < k {
            assert(s[j] == t[j]);
        } else {
            assert(j != k);
            assert(s[j - 1] == t[j]);
        }
    }
    assert forall|a: int|
        #![trigger s[a]]
        0 <= a < s.len() && s[a].price == r implies exists|j: int|
        0 <= j < t.len() && #[trigger] t[j] == s[a] by {
        if a < k {
            assert(t[a] == s[a]);
        } else {
            assert(t[a + 1] == s[a]);
        }
    }
    lemma_other_price(side, s, t, r);
}

/// An update leaves the size at every other price as it was, unless it
/// evicts the worst level of a full side.
pub proof fn law_update_keeps_others(side: Side, s: Seq<PriceLevel>, p: i64, q: i64, r: i64)
    requires
        valid_side(side, s),
        r != p,
        has_price(s, p) || q == 0 || s.len() < MAX_LEVELS,
    ensures
        size_at(updated_side(side, s, p, q), r) == size_at(s, r),
{
    let l = PriceLevel { price: p, size: q };
    if has_price(s, p) {
        let i = index_of_price(s, p);
        if q == 0 {
            lemma_others_after_remove(side, s, i, r);
        } else {
            lemma_others_after_resize(side, s, i, l, r);
        }
    } else if q != 0 {
        lemma_others_after_insert(side, s, l, r);
    }
}

/// In a full side, a new better level evicts exactly the worst level: the
/// evicted level is worse than every level kept, and every other level
/// keeps its size.
pub proof fn law_full_side_evicts_worst(side: Side, s: Seq<PriceLevel>, p: i64, q: i64, r: i64)
    requires
        valid_side(side, s),
        s.len() == MAX_LEVELS,
        !has_price(s, p),
        q != 0,
        better(side, p, s[0].price),
        r != p,
        r != s[0].price,
    ensures
        size_at(updated_side(side, s, p, q), s[0].price) is None,
        forall|i: int|
            #![trigger updated_side(side, s, p, q)[i]]
            0 <= i < updated_side(side, s, p, q).len() ==> better(
                side,
                updated_side(side, s, p, q)[i].price,
                s[0].price,
            ),
        size_at(updated_side(side, s, p, q), r) == size_at(s, r),
{
    let l = PriceLevel { price: p, size: q };
    let u = s.remove(0);
    lemma_remove_valid(side, s, 0);
    lemma_remove_keeps_absent(s, 0, p);
    lemma_insert_sorted(side, u, l);
    let k = insertion_point(side, u, p);
    let t = insert_sorted(side, u, l);
    assert(t == updated_side(side, s, p, q));
    assert forall|i: int| #![trigger t[i]] 0 <= i < t.len() implies better(
        side,
        t[i].price,
        s[0].price,
    ) by {
        if i < k {
            assert(t[i] == u[i] && u[i] == s[i + 1]);
        } else if i > k {
            assert(t[i] == u[i - 1] && u[i - 1] == s[i]);
        }
    }
    if has_price(t, s[0].price) {
        let j = choose|j: int| 0 <= j < t.len() && t[j].price == s[0].price;
        assert(better(side, t[j].price, s[0].price));
    }
    assert forall|j: int|
        #![trigger t[j]]
        0 <= j < t.len() && t[j].price == r implies exists|a: int|
        0 <= a < s.len() && #[trigger] s[a] == t[j] by {
        if j < k {
            assert(s[j + 1] == t[j]);
        } else {
            assert(j != k);
            assert(s[j] == t[j]);
        }
    }
    assert forall|a: int|
        #![trigger s[a]]
        0 <= a < s.len() && s[a].price == r implies exists|j: int|
        0 <= j < t.len() && #[trigger] t[j] == s[a] by {
        assert(a != 0);
        if a - 1 < k {
            assert(t[a - 1] == s[a]);
        } else {
            assert(t[a] == s[a]);
        }
    }
    lemma_other_price(side, s, t, r);
}

/// Applying the same update twice is the same as applying it once.
pub proof fn law_update_idempotent(side: Side, s: Seq<PriceLevel>, p: i64, q: i64)
    requires
        valid_side(side, s),
        in_units(p),
        in_units(q),
    ensures
        updated_side(side, updated_side(side, s, p, q), p, q) == updated_side(side, s, p, q),
{
    let u = updated_side(side, s, p, q);
    let l = PriceLevel { price: p, size: q };
    if q == 0 {
        law_delete_then_read(side, s, p);
        assert(!has_price(u, p));
    } else if has_price(s, p) || s.len() < MAX_LEVELS || better(side, p, s[0].price) {
        law_update_then_read(side, s, p, q);
        assert(has_price(u, p));
        let i = index_of_price(u, p);
        assert(u[i] == l);
        assert(u.update(i, l) =~= u);
    } else {
        assert(u == s);
    }
}

/// The best level of a side (its last one) is better than every other level.
pub proof fn law_best_is_last(side: Side, s: Seq<PriceLevel>)
    requires
        valid_side(side, s),
        s.len() > 0,
    ensures
        forall|i: int|
            #![trigger s[i]]
            0 <= i < s.len() - 1 ==> better(side, s[s.len() - 1].price, s[i].price),
{
}

/// Every level of `s` has a positive size.
pub open spec fn positive_sizes(s: Seq<PriceLevel>) -> bool {
    forall|i: int| #![trigger s[i]] 0 <= i < s.len() ==> s[i].size > 0
}

proof fn lemma_sum_sizes_nonneg(s: Seq<PriceLevel>)
    requires
        positive_sizes(s),
    ensures
        sum_sizes(s) >= 0,
    decreases s.len(),
{
    if s.len() > 0 {
        let t = s.drop_last();
        assert forall|i: int| #![trigger t[i]] 0 <= i < t.len() implies t[i].size > 0 by {
            assert(t[i] == s[i]);
        }
        lemma_sum_sizes_nonneg(t);
        assert(s[s.len() - 1].size > 0);
    }
}

proof fn lemma_weighted_volume_nonneg(s: Seq<PriceLevel>, n: int, c: int)
    requires
        positive_sizes(s),
        c <= n,
        c <= s.len(),
    ensures
        weighted_volume(s, n, c) >= 0,
    decreases c,
{
    if c > 0 {
        lemma_weighted_volume_nonneg(s, n, c - 1);
        let z = s[s.len() - c].size;
        assert(z > 0);
        assert(z * (n - (c - 1)) > 0) by (nonlinear_arith)
            requires
                z > 0,
                n - (c - 1) > 0,
        ;
    }
}

/// With positive sizes, the share of the best level in the top `n` levels
/// lies between 0 and 1.
pub proof fn law_top_share_at_most_one(side: Side, s: Seq<PriceLevel>, n: int)
    requires
        valid_side(side, s),
        positive_sizes(s),
        n >= 0,
    ensures
        top_share(s, n).den > 0,
        0 <= top_share(s, n).num <= top_share(s, n).den,
{
    if n != 0 && s.len() > 0 {
        let w = top_window(s, n);
        let m = min_int(n - 1, s.len() - 1);
        assert forall|t: int| #![trigger w[t]] 0 <= t < w.len() implies w[t].size > 0 by {
            assert(w[t] == s[s.len() - 1 - m + t]);
        }
        assert forall|t: int| #![trigger w[t]] 0 <= t < w.len() implies in_units(w[t].size) by {
            assert(w[t] == s[s.len() - 1 - m + t]);
        }
        lemma_sum_sizes_nonneg(w);
        lemma_sum_sizes_bound(w);
        assert(s[s.len() - 1].size > 0);
        assert(in_units(s[s.len() - 1].size));
    }
}

/// With positive sizes, the book imbalance over the top `n` levels lies
/// between -1 and 1.
pub proof fn law_obi_within_unit(bids: Seq<PriceLevel>, asks: Seq<PriceLevel>, n: int)
    requires
        valid_side(Side::Bid, bids),
        valid_side(Side::Ask, asks),
        positive_sizes(bids),
        positive_sizes(asks),
        n >= 0,
    ensures
        obi_of(bids, asks, n).den > 0,
        -obi_of(bids, asks, n).den <= obi_of(bids, asks, n).num <= obi_of(bids, asks, n).den,
{
    if n != 0 {
        let tb = top_levels(bids, n);
        let ta = top_levels(asks, n);
        let lb = bids.len() - min_int(n, bids.len() as int);
        let la = asks.len() - min_int(n, asks.len() as int);
        assert forall|i: int| #![trigger tb[i]] 0 <= i < tb.len() implies tb[i].size > 0 by {
            assert(tb[i] == bids[lb + i]);
        }
        assert forall|i: int| #![trigger ta[i]] 0 <= i < ta.len() implies ta[i].size > 0 by {
            assert(ta[i] == asks[la + i]);
        }
        lemma_sum_sizes_nonneg(tb);
        lemma_sum_sizes_nonneg(ta);
        lemma_top_levels_bound(bids, n);
        lemma_top_levels_bound(asks, n);
    }
}

/// With positive sizes, the weighted imbalance over the top `n` levels lies
/// between -1 and 1.
pub proof fn law_weighted_obi_within_unit(bids: Seq<PriceLevel>, asks: Seq<PriceLevel>, n: int)
    requires
        valid_side(Side::Bid, bids),
        valid_side(Side::Ask, asks),
        positive_sizes(bids),
        positive_sizes(asks),
        0 <= n <= usize::MAX,
    ensures
        weighted_obi_of(bids, asks, n).den != 0,
        -weighted_obi_of(bids, asks, n).den <= weighted_obi_of(bids, asks, n).num
            <= weighted_obi_of(bids, asks, n).den,
{
    if n != 0 {
        lemma_weighted_volume_nonneg(bids, n, min_int(n, bids.len() as int));
        lemma_weighted_volume_nonneg(asks, n, min_int(n, asks.len() as int));
        lemma_weighted_volume_bound(bids, n, min_int(n, bids.len() as int));
        lemma_weighted_volume_bound(asks, n, min_int(n, asks.len() as int));
    }
}

// ---------------------------------------------------------------------------
// What the statistics compute, stated directly over the levels.
// ---------------------------------------------------------------------------

/// A reported wall is a level under the best, within `scan` levels of the
/// one just below the best, whose size exceeds the sizes of the two levels
/// directly deeper than it added together, and no level between it and the
/// best is such a wall; when nothing is reported, no level of that range is
/// one.
pub proof fn law_find_wall_compares_two_deeper_levels(
    side: Side,
    s: Seq<PriceLevel>,
    scan: int,
    r: Option<i64>,
)
    requires
        valid_side(side, s),
        scan >= 0,
        wall_result(s, scan, r),
    ensures
        r matches Some(p) ==> exists|i: int|
            2 <= i <= s.len() - 2 && s.len() - 2 - scan <= i && #[trigger] s[i].price == p
                && s[i].size > s[i - 1].size + s[i - 2].size && forall|j: int|
                i < j <= s.len() - 2 ==> #[trigger] s[j].size <= s[j - 1].size + s[j - 2].size,
        r is None ==> forall|i: int|
            2 <= i <= s.len() - 2 && s.len() - 2 - scan <= i ==> #[trigger] s[i].size <= s[i
                - 1].size + s[i - 2].size,
{
    if s.len() > 0 {
        let start = below_top(s);
        let lo = wall_low(s, scan);
        assert(s.len() >= 2 ==> start == s.len() - 2);
        assert(s.len() >= 2 ==> lo == if s.len() - 2 - scan > 2 {
            s.len() - 2 - scan
        } else {
            2
        });
        assert(s.len() < 2 ==> start == 0 && lo == 2);
        if let Some(p) = r {
            let i = choose|i: int|
                lo <= i <= start && wall_at(s, i) && #[trigger] s[i].price == p && forall|j: int|
                    i < j <= start ==> !wall_at(s, j);
            assert(s[i].size > s[i - 1].size + s[i - 2].size);
            assert forall|j: int| i < j <= s.len() - 2 implies #[trigger] s[j].size <= s[j - 1].size
                + s[j - 2].size by {
                assert(!wall_at(s, j));
            }
        } else {
            assert forall|i: int| 2 <= i <= s.len() - 2 && s.len() - 2 - scan <= i implies #[trigger] s[i].size
                <= s[i - 1].size + s[i - 2].size by {
                assert(!wall_at(s, i));
            }
        }
    }
}

/// The VWAP of the top `n` levels: its numerator is the sum of
/// `price * size` and its denominator the sum of sizes over exactly the
/// `min(n, depth)` best levels; there is none when that total size is not
/// positive.
pub proof fn law_vwap_averages_the_n_best_levels(side: Side, s: Seq<PriceLevel>, n: int)
    requires
        valid_side(side, s),
        n >= 1,
        s.len() >= 1,
    ensures
        ({
            let m = if n <= s.len() { n } else { s.len() as int };
            let best = s.subrange(s.len() - m, s.len() as int);
            match vwap_of(s, n) {
                Some(f) => sum_sizes(best) > 0 && f.num == sum_notional(best) && f.den == sum_sizes(
                    best,
                ),
                None => sum_sizes(best) <= 0,
            }
        }),
{
    let m = if n <= s.len() { n } else { s.len() as int };
    let best = s.subrange(s.len() - m, s.len() as int);
    lemma_best_splits(s, n);
    let l = s.last();
    assert(best.len() > 0);
    assert(best.last() == l);
    assert forall|t: int|
        #![trigger best[t]]
        0 <= t < best.len() implies in_units(best[t].price) && in_units(best[t].size) by {
        assert(best[t] == s[s.len() - m + t]);
    }
    lemma_sum_sizes_bound(best);
    lemma_sum_notional_bound(best);
    lemma_product_bound(l.price, l.size);
    assert(l.size * l.price == l.price * l.size) by (nonlinear_arith);
    assert(best.len() * MAX_UNITS <= 16 * MAX_UNITS) by (nonlinear_arith)
        requires
            best.len() <= 16,
    ;
    assert(-best.len() * MAX_UNITS >= -16 * MAX_UNITS) by (nonlinear_arith)
        requires
            best.len() <= 16,
    ;
    assert(best.len() * (MAX_UNITS * MAX_UNITS) <= 16 * (MAX_UNITS * MAX_UNITS)) by (
    nonlinear_arith)
        requires
            best.len() <= 16,
    ;
    assert(-best.len() * (MAX_UNITS * MAX_UNITS) >= -16 * (MAX_UNITS * MAX_UNITS)) by (
    nonlinear_arith)
        requires
            best.len() <= 16,
    ;
}

/// The share of the best level in the top `n`: the best size over the sum of
/// the sizes of exactly the `min(n, depth)` best levels, or 0 when that sum
/// is not positive.
pub proof fn law_top_share_over_the_n_best_levels(side: Side, s: Seq<PriceLevel>, n: int)
    requires
        valid_side(side, s),
        n >= 1,
        s.len() >= 1,
    ensures
        ({
            let m = if n <= s.len() { n } else { s.len() as int };
            let best = s.subrange(s.len() - m, s.len() as int);
            if sum_sizes(best) > 0 {
                top_share(s, n) == Fraction {
                    num: s[s.len() - 1].size as i128,
                    den: sum_sizes(best) as i128,
                }
            } else {
                top_share(s, n) == Fraction { num: 0, den: 1 }
            }
        }),
{
    let m = if n <= s.len() { n } else { s.len() as int };
    let best = s.subrange(s.len() - m, s.len() as int);
    lemma_best_splits(s, n);
    assert(best.last() == s.last());
    assert forall|t: int| #![trigger best[t]] 0 <= t < best.len() implies in_units(best[t].size) by {
        assert(best[t] == s[s.len() - m + t]);
    }
    lemma_sum_sizes_bound(best);
    assert(best.len() * MAX_UNITS <= 16 * MAX_UNITS) by (nonlinear_arith)
        requires
            best.len() <= 16,
    ;
}

/// The `min(n, depth)` best levels are the best level after the levels a
/// top-`n` scan adds to it.
proof fn lemma_best_splits(s: Seq<PriceLevel>, n: int)
    requires
        n >= 1,
        s.len() >= 1,
    ensures
        ({
            let m = if n <= s.len() { n } else { s.len() as int };
            let best = s.subrange(s.len() - m, s.len() as int);
            &&& best.drop_last() == top_window(s, n)
            &&& best.last() == s.last()
            &&& sum_sizes(best) == sum_sizes(top_window(s, n)) + s.last().size
            &&& sum_notional(best) == sum_notional(top_window(s, n)) + s.last().price
                * s.last().size
        }),
{
    let m = if n <= s.len() { n } else { s.len() as int };
    let best = s.subrange(s.len() - m, s.len() as int);
    assert(best.drop_last() =~= top_window(s, n));
}

/// The best-size ratio: with a best ask of positive size it is the best bid
/// size (0 when there is no bid) over the best ask size; otherwise it is 0.
pub proof fn law_ba_ratio_divides_best_sizes(bids: Seq<PriceLevel>, asks: Seq<PriceLevel>)
    requires
        valid_side(Side::Bid, bids),
        valid_side(Side::Ask, asks),
    ensures
        asks.len() > 0 && asks[asks.len() - 1].size > 0 ==> ba_ratio(bids, asks) == (Fraction {
            num: if bids.len() > 0 { bids[bids.len() - 1].size as i128 } else { 0 },
            den: asks[asks.len() - 1].size as i128,
        }),
        !(asks.len() > 0 && asks[asks.len() - 1].size > 0) ==> ba_ratio(bids, asks) == (Fraction {
            num: 0,
            den: 1,
        }),
{
}

} // verus!
