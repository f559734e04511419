use vstd::prelude::*;

use crate::data::types::{AccountEvent, MarketEvent, WsEvent};
use crate::infra::ringbuf::{ring_pop, ring_push};
use crate::infra::{RingConsumer, RingProducer};

verus! {

/// Where a websocket event goes: its payload to the market ring or to the
/// account ring, or nowhere.
pub enum Routed {
    Market(MarketEvent),
    Account(AccountEvent),
    Dropped,
}

/// The route of `event`: a market event's payload to the market ring, an
/// account event's payload to the account ring; pongs and reconnect notices
/// go nowhere.
pub open spec fn route_of(event: WsEvent) -> Routed {
    match event {
        WsEvent::Market(m) => Routed::Market(m),
        WsEvent::Account(a) => Routed::Account(a),
        WsEvent::Pong | WsEvent::Reconnected => Routed::Dropped,
    }
}

/// Decides where `event` goes.
pub fn route_ws_event(event: WsEvent) -> (r: Routed)
    ensures
        r == route_of(event),
{
    match event {
        WsEvent::Market(market) => Routed::Market(market),
        WsEvent::Account(account) => Routed::Account(account),
        WsEvent::Pong | WsEvent::Reconnected => Routed::Dropped,
    }
}

/// Routes websocket events into the market and account rings.
pub struct FeedDispatcher {
    pub market_tx: RingProducer<MarketEvent>,
    pub account_tx: RingProducer<AccountEvent>,
}

impl FeedDispatcher {
    /// Pushes the payload that `route_ws_event` picks into its ring,
    /// dropping it when that ring is full; pongs and reconnect notices are
    /// not forwarded.
    pub fn dispatch_ws_event(&mut self, event: WsEvent)
        ensures
            route_of(event) is Market ==> final(self).account_tx == old(self).account_tx,
            route_of(event) is Account ==> final(self).market_tx == old(self).market_tx,
            route_of(event) is Dropped ==> *final(self) == *old(self),
    {
        match route_ws_event(event) {
            Routed::Market(market) => {
                let _ = ring_push(&mut self.market_tx, market);
            },
            Routed::Account(account) => {
                let _ = ring_push(&mut self.account_tx, account);
            },
            Routed::Dropped => {},
        }
    }
}

/// Reading ends of the market and account rings.
pub struct FeedRouter {
    pub market_rx: RingConsumer<MarketEvent>,
    pub account_rx: RingConsumer<AccountEvent>,
}

impl FeedRouter {
    /// Takes the next market event, if one is waiting.
    pub fn poll_market(&mut self) -> (r: Option<MarketEvent>)
        ensures
            final(self).account_rx == old(self).account_rx,
    {
        ring_pop(&mut self.market_rx)
    }

    /// Takes the next account event, if one is waiting.
    pub fn poll_account(&mut self) -> (r: Option<AccountEvent>)
        ensures
            final(self).market_rx == old(self).market_rx,
    {
        ring_pop(&mut self.account_rx)
    }
}

} // verus!
