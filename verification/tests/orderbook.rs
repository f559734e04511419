use hft_skeleton::data::types::{Fraction, OrderBookL2, Side, MAX_LEVELS, MAX_UNITS};

fn frac(num: i128, den: i128) -> Fraction {
    Fraction { num, den }
}

/// Bids 100:1, 101:2, 102:3 and asks 103:6, 104:5, 105:4.
fn sample_book() -> OrderBookL2 {
    let mut ob = OrderBookL2::new();
    ob.update_level(Side::Bid, 101, 2);
    ob.update_level(Side::Bid, 100, 1);
    ob.update_level(Side::Bid, 102, 3);
    ob.update_level(Side::Ask, 104, 5);
    ob.update_level(Side::Ask, 103, 6);
    ob.update_level(Side::Ask, 105, 4);
    ob
}

#[test]
fn new_book_is_empty() {
    let ob = OrderBookL2::new();
    assert!(ob.is_empty());
    assert_eq!(ob.timestamp(), 0);
    assert_eq!(ob.best_bid(), None);
    assert_eq!(ob.best_ask(), None);
    assert_eq!(ob.best_bid_level(), None);
    assert!(ob.levels_as_real(Side::Bid).is_empty());
}

#[test]
fn levels_are_kept_sorted_best_first() {
    let ob = sample_book();
    assert_eq!(ob.levels_as_real(Side::Bid), vec![(102, 3), (101, 2), (100, 1)]);
    assert_eq!(ob.levels_as_real(Side::Ask), vec![(103, 6), (104, 5), (105, 4)]);
    assert_eq!(ob.best_bid(), Some(102));
    assert_eq!(ob.best_ask(), Some(103));
    assert_eq!(ob.best_bid_level(), Some((102, 3)));
    assert_eq!(ob.best_ask_level(), Some((103, 6)));
    assert!(!ob.is_empty());
}

#[test]
fn update_resizes_an_existing_level() {
    let mut ob = sample_book();
    ob.update_level(Side::Bid, 101, 7);
    assert_eq!(ob.levels_as_real(Side::Bid), vec![(102, 3), (101, 7), (100, 1)]);
    assert_eq!(ob.levels_as_real(Side::Ask), vec![(103, 6), (104, 5), (105, 4)]);
}

#[test]
fn zero_size_deletes_a_level() {
    let mut ob = sample_book();
    ob.update_level(Side::Bid, 102, 0);
    assert_eq!(ob.levels_as_real(Side::Bid), vec![(101, 2), (100, 1)]);
    assert_eq!(ob.best_bid(), Some(101));
}

#[test]
fn zero_size_for_a_missing_price_changes_nothing() {
    let mut ob = sample_book();
    ob.update_level(Side::Ask, 110, 0);
    assert_eq!(ob.levels_as_real(Side::Ask), vec![(103, 6), (104, 5), (105, 4)]);
}

#[test]
fn update_is_idempotent() {
    let mut a = sample_book();
    a.update_level(Side::Bid, 99, 5);
    let once = a.levels_as_real(Side::Bid);
    a.update_level(Side::Bid, 99, 5);
    assert_eq!(a.levels_as_real(Side::Bid), once);
}

#[test]
fn full_side_drops_a_worse_level() {
    let mut ob = OrderBookL2::new();
    for i in 0..MAX_LEVELS as i64 {
        ob.update_level(Side::Bid, 100 + i, 1 + i);
    }
    assert_eq!(ob.levels_as_real(Side::Bid).len(), MAX_LEVELS);
    ob.update_level(Side::Bid, 50, 9);
    let lv = ob.levels_as_real(Side::Bid);
    assert_eq!(lv.len(), MAX_LEVELS);
    assert_eq!(lv[MAX_LEVELS - 1], (100, 1));
    assert!(lv.iter().all(|&(p, _)| p != 50));
}

#[test]
fn full_side_evicts_the_worst_for_a_better_level() {
    let mut ob = OrderBookL2::new();
    for i in 0..MAX_LEVELS as i64 {
        ob.update_level(Side::Ask, 200 + i, 1);
    }
    // the worst ask is 215; 190 beats it and becomes the best ask
    ob.update_level(Side::Ask, 190, 4);
    let lv = ob.levels_as_real(Side::Ask);
    assert_eq!(lv.len(), MAX_LEVELS);
    assert_eq!(lv[0], (190, 4));
    assert_eq!(lv[MAX_LEVELS - 1], (214, 1));
    assert!(lv.iter().all(|&(p, _)| p != 215));
    // a level between kept levels also enters, evicting 214
    ob.update_level(Side::Ask, 205, 0);
    ob.update_level(Side::Ask, 205, 3);
    assert_eq!(ob.levels_as_real(Side::Ask).len(), MAX_LEVELS);
}

#[test]
fn clear_empties_both_sides() {
    let mut ob = sample_book();
    ob.set_timestamp(42);
    ob.clear();
    assert!(ob.is_empty());
    assert_eq!(ob.timestamp(), 42);
}

#[test]
fn cumulative_sizes_from_the_deepest_level() {
    let ob = sample_book();
    assert_eq!(ob.cumulative_to(Side::Bid, 0), 1);
    assert_eq!(ob.cumulative_to(Side::Bid, 1), 3);
    assert_eq!(ob.cumulative_to(Side::Bid, 10), 6);
    assert_eq!(ob.cumulative_to(Side::Ask, 1), 9);
    assert_eq!(OrderBookL2::new().cumulative_to(Side::Bid, 3), 0);
}

#[test]
fn find_wall_reports_the_first_jump_below_the_top() {
    let mut ob = OrderBookL2::new();
    let sizes = [1, 1, 10, 1, 1, 1];
    for (i, s) in sizes.iter().enumerate() {
        ob.update_level(Side::Bid, 100 + i as i64, *s);
    }
    assert_eq!(ob.find_wall(Side::Bid, 10), Some(102));
    assert_eq!(ob.find_wall(Side::Bid, 1), None);
    assert_eq!(ob.find_wall(Side::Ask, 10), None);
}

#[test]
fn top_over_top_n_counts_the_levels_below_the_best() {
    let ob = sample_book();
    assert_eq!(ob.top_over_top_n(Side::Bid, 0), frac(0, 1));
    assert_eq!(ob.top_over_top_n(Side::Bid, 1), frac(3, 3));
    assert_eq!(ob.top_over_top_n(Side::Bid, 2), frac(3, 5));
    assert_eq!(ob.top_over_top_n(Side::Bid, 10), frac(3, 6));
    let mut one = OrderBookL2::new();
    one.update_level(Side::Bid, 100, 4);
    // a single level is the whole top
    assert_eq!(one.top_over_top_n(Side::Bid, 3), frac(4, 4));
    assert_eq!(one.vwap_top_n(Side::Bid, 3), Some(frac(400, 4)));
    assert_eq!(one.top_over_top_n(Side::Ask, 3), frac(0, 1));
}

#[test]
fn top_ba_ratio_divides_best_sizes() {
    let ob = sample_book();
    assert_eq!(ob.top_ba_ratio(), frac(3, 6));
    let mut bids_only = OrderBookL2::new();
    bids_only.update_level(Side::Bid, 100, 4);
    assert_eq!(bids_only.top_ba_ratio(), frac(0, 1));
}

#[test]
fn vwap_over_the_top_levels() {
    let ob = sample_book();
    assert_eq!(ob.vwap_top_n(Side::Bid, 2), Some(frac(508, 5)));
    assert_eq!(ob.vwap_top_n(Side::Ask, 1), Some(frac(618, 6)));
    assert_eq!(ob.vwap_top_n(Side::Bid, 0), None);
    assert_eq!(OrderBookL2::new().vwap_top_n(Side::Bid, 3), None);
}

#[test]
fn obi_uses_the_best_levels() {
    let ob = sample_book();
    assert_eq!(ob.obi_top_n(2), frac(-6, 16));
    assert_eq!(ob.obi_top_n(10), frac(-9, 21));
    let mut b = OrderBookL2::new();
    b.update_level(Side::Bid, 100, 3);
    b.update_level(Side::Bid, 99, 1);
    b.update_level(Side::Ask, 101, 1);
    b.update_level(Side::Ask, 102, 3);
    assert_eq!(b.obi_top_n(1), frac(2, 4));
    assert_eq!(ob.obi_top_n(0), frac(0, 1));
    assert_eq!(OrderBookL2::new().obi_top_n(3), frac(0, 1));
}

#[test]
fn weighted_obi_over_the_top_levels() {
    let ob = sample_book();
    assert_eq!(ob.weighted_obi_top_n(2), frac(-9, 25));
    assert_eq!(ob.weighted_obi_top_n(0), frac(0, 1));
    assert_eq!(OrderBookL2::new().weighted_obi_top_n(4), frac(0, 1));
}

#[test]
fn vwap_distance_from_mid() {
    let ob = sample_book();
    assert_eq!(ob.vwap_distance_from_mid_top_n(2), Some((frac(9, 10), frac(21, 22))));
    let mut bids_only = OrderBookL2::new();
    bids_only.update_level(Side::Bid, 100, 4);
    assert_eq!(bids_only.vwap_distance_from_mid_top_n(2), None);
}

#[test]
fn ratios_stay_within_unit_for_positive_sizes() {
    let ob = sample_book();
    for n in 0..20 {
        let f = ob.top_over_top_n(Side::Ask, n);
        assert!(f.den > 0 && 0 <= f.num && f.num <= f.den);
        let o = ob.obi_top_n(n);
        assert!(o.den > 0 && -o.den <= o.num && o.num <= o.den);
        let w = ob.weighted_obi_top_n(n);
        assert!(w.den > 0 && -w.den <= w.num && w.num <= w.den);
    }
}

#[test]
fn extreme_units_are_held_exactly() {
    let mut ob = OrderBookL2::new();
    ob.update_level(Side::Bid, MAX_UNITS, MAX_UNITS);
    ob.update_level(Side::Bid, -MAX_UNITS, -MAX_UNITS);
    assert_eq!(ob.levels_as_real(Side::Bid), vec![(MAX_UNITS, MAX_UNITS), (-MAX_UNITS, -MAX_UNITS)]);
    // the two sizes cancel: no VWAP over both levels
    assert_eq!(ob.vwap_top_n(Side::Bid, 2), None);
    let m = MAX_UNITS as i128;
    assert_eq!(ob.vwap_top_n(Side::Bid, 1), Some(frac(m * m, m)));
}
