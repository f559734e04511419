use hft_skeleton::data::types::{BestBidAskTicks, Fraction, OrderBookL2, Side};

fn bbo(ts_ms: u64, bid_px: i64, bid_amt: i64, ask_px: i64, ask_amt: i64) -> BestBidAskTicks {
    BestBidAskTicks { ts_ms, bid_px, bid_amt, ask_px, ask_amt }
}

#[test]
fn new_bbo_is_zero() {
    let b = BestBidAskTicks::new();
    assert_eq!((b.ts_ms, b.bid_px, b.bid_amt, b.ask_px, b.ask_amt), (0, 0, 0, 0, 0));
}

#[test]
fn ofi_bid_up_ask_unchanged() {
    let prev = bbo(1, 100, 5, 102, 7);
    let curr = bbo(2, 101, 3, 102, 4);
    // bid improved: +3; ask unchanged: 4 - 7 = -3; total 3 - (-3) = 6
    assert_eq!(curr.ofi_against(&prev), (3, -3, 6));
}

#[test]
fn ofi_bid_down_ask_up_and_down() {
    let prev = bbo(1, 100, 5, 102, 7);
    // bid worsened: -2; ask price rose (worse for the ask): -9
    assert_eq!(bbo(2, 99, 2, 103, 9).ofi_against(&prev), (-2, -9, 7));
    // ask price fell (better for the ask): +8
    assert_eq!(bbo(2, 100, 5, 101, 8).ofi_against(&prev), (0, 8, -8));
}

#[test]
fn ofi_against_itself_is_zero() {
    let t = bbo(9, 100, 5, 102, 7);
    assert_eq!(t.ofi_against(&t), (0, 0, 0));
}

#[test]
fn ofi_series_pairs_consecutive_ticks() {
    let ticks = [bbo(1, 100, 5, 102, 7), bbo(2, 101, 3, 102, 4), bbo(3, 101, 6, 103, 1)];
    let s = BestBidAskTicks::ofi_series(&ticks);
    assert_eq!(s, vec![(2, 3, -3, 6), (3, 3, -1, 4)]);
    assert!(BestBidAskTicks::ofi_series(&ticks[..1]).is_empty());
    assert!(BestBidAskTicks::ofi_series(&[]).is_empty());
}

#[test]
fn mid_price_is_half_the_sum() {
    assert_eq!(bbo(0, 100, 1, 103, 1).mid_price(), Some(Fraction { num: 203, den: 2 }));
}

#[test]
fn bbo_from_orderbook_needs_both_sides() {
    let mut ob = OrderBookL2::new();
    ob.set_timestamp(77);
    ob.update_level(Side::Bid, 100, 2);
    assert!(BestBidAskTicks::from_orderbook(&ob).is_none());
    let mut b = bbo(1, 1, 1, 1, 1);
    assert!(!b.update_from_orderbook(&ob));
    assert_eq!((b.ts_ms, b.bid_px, b.ask_px), (1, 1, 1));

    ob.update_level(Side::Ask, 105, 3);
    ob.update_level(Side::Ask, 104, 8);
    let got = BestBidAskTicks::from_orderbook(&ob).unwrap();
    assert_eq!((got.ts_ms, got.bid_px, got.bid_amt, got.ask_px, got.ask_amt), (77, 100, 2, 104, 8));
    assert!(b.update_from_orderbook(&ob));
    assert_eq!((b.ts_ms, b.bid_px, b.bid_amt, b.ask_px, b.ask_amt), (77, 100, 2, 104, 8));
}
