use vstd::prelude::*;

pub use crate::data::orderbook::{OrderBookL2, PriceLevel, MAX_LEVELS, MAX_UNITS};
pub use crate::infra::time::TimestampMs;

verus! {

/// Side of the book a quote rests on.
#[derive(Debug, Clone, Copy, PartialEq, Eq, Structural)]
pub enum Side {
    Bid,
    Ask,
}

/// An exact ratio `num / den` with `den != 0`.
///
/// Order-book statistics that are ratios of integer quantities (prices in
/// ticks, sizes in lots) are returned exactly in this form; a caller that
/// wants a float divides `num` by `den`.
#[derive(Debug, Clone, Copy, PartialEq, Eq, Structural)]
pub struct Fraction {
    pub num: i128,
    pub den: i128,
}

impl Fraction {
    /// The ratio `0 / 1`.
    pub fn zero() -> (r: Self)
        ensures
            r == (Fraction { num: 0, den: 1 }),
    {
        Fraction { num: 0, den: 1 }
    }
}

/// Best bid and ask of a book: prices in ticks, amounts in lots.
#[derive(Debug, Clone, Copy)]
pub struct BestBidAskTicks {
    pub ts_ms: u64,
    pub bid_px: i64,
    pub bid_amt: i64,
    pub ask_px: i64,
    pub ask_amt: i64,
}

/// Order-flow contribution of one side between a previous quote
/// `(p_p, q_p)` and the current quote `(p_t, q_t)`: `+q_t` when the price
/// improved, `q_t - q_p` when it is unchanged, `-q_t` when it worsened
/// (improving means higher for the bid, lower for the ask).
pub open spec fn side_ofi(p_t: i64, q_t: i64, p_p: i64, q_p: i64, is_bid: bool) -> int {
    let improved = if is_bid {
        p_t > p_p
    } else {
        p_t < p_p
    };
    if improved {
        q_t as int
    } else if p_t == p_p {
        q_t - q_p
    } else {
        -q_t
    }
}

/// `(of_bid, of_ask, of_bid - of_ask)` from `prev` to `curr`.
pub open spec fn ofi_of(curr: BestBidAskTicks, prev: BestBidAskTicks) -> (i128, i128, i128) {
    let b = side_ofi(curr.bid_px, curr.bid_amt, prev.bid_px, prev.bid_amt, true);
    let a = side_ofi(curr.ask_px, curr.ask_amt, prev.ask_px, prev.ask_amt, false);
    (b as i128, a as i128, (b - a) as i128)
}

/// The best bid and ask of `ob`, when both sides have a level.
pub open spec fn bbo_of(ob: OrderBookL2) -> Option<BestBidAskTicks> {
    let bids = ob.levels(Side::Bid);
    let asks = ob.levels(Side::Ask);
    if bids.len() > 0 && asks.len() > 0 {
        Some(
            BestBidAskTicks {
                ts_ms: ob.stamp(),
                bid_px: bids.last().price,
                bid_amt: bids.last().size,
                ask_px: asks.last().price,
                ask_amt: asks.last().size,
            },
        )
    } else {
        None
    }
}

fn side_ofi_exec(p_t: i64, q_t: i64, p_p: i64, q_p: i64, is_bid: bool) -> (r: i128)
    ensures
        r == side_ofi(p_t, q_t, p_p, q_p, is_bid),
{
    let improved = if is_bid {
        p_t > p_p
    } else {
        p_t < p_p
    };
    if improved {
        q_t as i128
    } else if p_t == p_p {
        q_t as i128 - q_p as i128
    } else {
        -(q_t as i128)
    }
}

impl BestBidAskTicks {
    pub fn new() -> (r: Self)
        ensures
            r.ts_ms == 0 && r.bid_px == 0 && r.bid_amt == 0 && r.ask_px == 0 && r.ask_amt == 0,
    {
        BestBidAskTicks { ts_ms: 0, bid_px: 0, bid_amt: 0, ask_px: 0, ask_amt: 0 }
    }

    /// Order-flow imbalance between `prev` and `self`: the bid and ask
    /// contributions (see `side_ofi`) and their difference.
    pub fn ofi_against(&self, prev: &BestBidAskTicks) -> (r: (i128, i128, i128))
        ensures
            r == ofi_of(*self, *prev),
    {
        let of_bid = side_ofi_exec(self.bid_px, self.bid_amt, prev.bid_px, prev.bid_amt, true);
        let of_ask = side_ofi_exec(self.ask_px, self.ask_amt, prev.ask_px, prev.ask_amt, false);
        (of_bid, of_ask, of_bid - of_ask)
    }

    /// The OFI of each tick against the one before it, as
    /// `(ts_ms, of_bid, of_ask, ofi_total)`; empty for fewer than two ticks.
    pub fn ofi_series(ticks: &[BestBidAskTicks]) -> (r: Vec<(u64, i128, i128, i128)>)
        ensures
            ticks@.len() <= 1 ==> r@.len() == 0,
            ticks@.len() > 1 ==> r@.len() == ticks@.len() - 1,
            forall|i: int|
                #![trigger r@[i]]
                0 <= i < r@.len() ==> {
                    let o = ofi_of(ticks@[i + 1], ticks@[i]);
                    r@[i] == (ticks@[i + 1].ts_ms, o.0, o.1, o.2)
                },
    {
        if ticks.len() <= 1 {
            return Vec::new();
        }
        let mut out: Vec<(u64, i128, i128, i128)> = Vec::with_capacity(ticks.len() - 1);
        let mut w: usize = 0;
        while w < ticks.len() - 1
            invariant
                ticks@.len() > 1,
                w + 1 <= ticks@.len(),
                out@.len() == w,
                forall|i: int|
                    #![trigger out@[i]]
                    0 <= i < w ==> {
                        let o = ofi_of(ticks@[i + 1], ticks@[i]);
                        out@[i] == (ticks@[i + 1].ts_ms, o.0, o.1, o.2)
                    },
            decreases ticks@.len() - w,
        {
            let prev = &ticks[w];
            let curr = &ticks[w + 1];
            let (ob, oa, ot) = curr.ofi_against(prev);
            out.push((curr.ts_ms, ob, oa, ot));
            w += 1;
        }
        out
    }

    /// The best bid and ask of `ob`, when both sides have a level.
    pub fn from_orderbook(ob: &OrderBookL2) -> (r: Option<Self>)
        ensures
            r == bbo_of(*ob),
    {
        let (bid_px, bid_amt) = match ob.best_bid_level() {
            Some(l) => l,
            None => {
                return None;
            },
        };
        let (ask_px, ask_amt) = match ob.best_ask_level() {
            Some(l) => l,
            None => {
                return None;
            },
        };
        let ts_ms = ob.timestamp();
        Some(BestBidAskTicks { ts_ms, bid_px, bid_amt, ask_px, ask_amt })
    }

    /// Overwrites `self` with the best bid and ask of `ob` when both sides
    /// have a level; returns whether it did.
    pub fn update_from_orderbook(&mut self, ob: &OrderBookL2) -> (r: bool)
        ensures
            r == bbo_of(*ob) is Some,
            r ==> *final(self) == bbo_of(*ob)->0,
            !r ==> *final(self) == *old(self),
    {
        if let Some((bid_px, bid_amt)) = ob.best_bid_level() {
            if let Some((ask_px, ask_amt)) = ob.best_ask_level() {
                self.ts_ms = ob.timestamp();
                self.bid_px = bid_px;
                self.bid_amt = bid_amt;
                self.ask_px = ask_px;
                self.ask_amt = ask_amt;
                return true;
            }
        }
        false
    }

    /// Mid price in ticks: `(bid_px + ask_px) / 2`. Integer quotes are
    /// always finite, so a mid is always available.
    pub fn mid_price(&self) -> (r: Option<Fraction>)
        ensures
            r == Some(Fraction { num: (self.bid_px + self.ask_px) as i128, den: 2 }),
    {
        Some(Fraction { num: self.bid_px as i128 + self.ask_px as i128, den: 2 })
    }
}

/// The OFI of a quote against itself is zero on both sides.
pub proof fn law_ofi_against_self_is_zero(t: BestBidAskTicks)
    ensures
        ofi_of(t, t) == (0i128, 0i128, 0i128),
{
}

/// A trade print: price in ticks, quantity in lots.
#[derive(Debug, Clone)]
pub struct TradePrint {
    pub px_ticks: i64,
    pub qty_lots: i64,
    pub is_buy: bool,
    pub ts_ms: TimestampMs,
}

#[derive(Debug, Clone)]
pub struct PositionSnapshot {
    pub symbol: String,
    pub qty_lots: i64,
    pub entry_px_ticks: i64,
    pub ts_ms: TimestampMs,
}

#[derive(Debug, Clone)]
pub enum MarketEvent {
    OrderBookUpdate { symbol: String, book: OrderBookL2, bbo: BestBidAskTicks, ts_ms: TimestampMs },
    Trade { symbol: String, trade: TradePrint },
}

/// Account events; balances are in integer lots of the asset.
#[derive(Debug, Clone)]
pub enum AccountEvent {
    BalanceUpdate { asset: String, free: i64, locked: i64, ts_ms: TimestampMs },
    PositionUpdate(PositionSnapshot),
    OrderUpdate {
        client_id: u64,
        exchange_id: u64,
        status: String,
        filled_qty: i64,
        ts_ms: TimestampMs,
    },
}

#[derive(Debug, Clone)]
pub enum WsEvent {
    Market(MarketEvent),
    Account(AccountEvent),
    Pong,
    Reconnected,
}

} // verus!
