use hft_skeleton::data::binance_rest::{RestClient, RestSnapshot};
use hft_skeleton::data::types::{
    AccountEvent, BestBidAskTicks, MarketEvent, OrderBookL2, PositionSnapshot, TradePrint, WsEvent,
};
use hft_skeleton::data::{route_ws_event, FeedDispatcher, FeedRouter, Routed};
use hft_skeleton::execution::oms::{ClientId, OmsStatus, OrderHandle};
use hft_skeleton::execution::router::{ExecPolicy, OrderCommand, OrderIntent, OrderRouter};
use hft_skeleton::execution::timeout::{TimeoutEngine, TimeoutRule};
use hft_skeleton::infra::ringbuf::Ring;
use hft_skeleton::infra::time::millis_from_parts;
use hft_skeleton::infra::Clock;
use hft_skeleton::risk::limits::{RiskDecision, RiskLimits, RiskState};
use hft_skeleton::risk::position::PositionState;
use hft_skeleton::risk::reconcile::Reconciler;
use hft_skeleton::strategy::signals::SignalEngine;

fn trade(ts_ms: u64) -> MarketEvent {
    MarketEvent::Trade {
        symbol: "BTCUSDT".to_string(),
        trade: TradePrint { px_ticks: 100, qty_lots: 2, is_buy: true, ts_ms },
    }
}

fn balance(free: i64) -> AccountEvent {
    AccountEvent::BalanceUpdate { asset: "USDT".to_string(), free, locked: 0, ts_ms: 1 }
}

fn feeds(capacity: usize) -> (FeedDispatcher, FeedRouter) {
    let m = Ring::new(capacity);
    let a = Ring::new(capacity);
    (
        FeedDispatcher { market_tx: m.producer, account_tx: a.producer },
        FeedRouter { market_rx: m.consumer, account_rx: a.consumer },
    )
}

#[test]
fn dispatch_routes_each_event_to_its_ring() {
    let (mut tx, mut rx) = feeds(4);
    tx.dispatch_ws_event(WsEvent::Market(trade(5)));
    tx.dispatch_ws_event(WsEvent::Account(balance(9)));
    tx.dispatch_ws_event(WsEvent::Pong);
    tx.dispatch_ws_event(WsEvent::Reconnected);
    match rx.poll_market() {
        Some(MarketEvent::Trade { trade, .. }) => assert_eq!(trade.ts_ms, 5),
        _ => panic!("expected the trade"),
    }
    assert!(rx.poll_market().is_none());
    match rx.poll_account() {
        Some(AccountEvent::BalanceUpdate { free, .. }) => assert_eq!(free, 9),
        _ => panic!("expected the balance"),
    }
    assert!(rx.poll_account().is_none());
}

#[test]
fn dispatch_drops_events_when_the_ring_is_full() {
    let (mut tx, mut rx) = feeds(1);
    tx.dispatch_ws_event(WsEvent::Market(trade(1)));
    tx.dispatch_ws_event(WsEvent::Market(trade(2)));
    let book = OrderBookL2::new();
    tx.dispatch_ws_event(WsEvent::Market(MarketEvent::OrderBookUpdate {
        symbol: "BTCUSDT".to_string(),
        book,
        bbo: BestBidAskTicks::new(),
        ts_ms: 3,
    }));
    match rx.poll_market() {
        Some(MarketEvent::Trade { trade, .. }) => assert_eq!(trade.ts_ms, 1),
        _ => panic!("expected the first trade"),
    }
    assert!(rx.poll_market().is_none());
}

#[test]
fn millis_from_duration_parts() {
    assert_eq!(millis_from_parts(0, 0), 0);
    assert_eq!(millis_from_parts(2, 999_999_999), 2_999);
    assert_eq!(millis_from_parts(85_800, 1_500_000), 85_800_001);
}

#[test]
fn clock_counts_up_from_creation() {
    let c = Clock::new();
    let a = c.now_ms();
    let b = c.now_ms();
    assert!(a <= b);
    assert!(b < 60_000);
}

fn intent() -> OrderIntent {
    OrderIntent { client: ClientId(7), side: 1, qty: 3, px: 100, reduce_only: false, ts_ms: 11 }
}

#[test]
fn router_posts_intents_and_does_not_chase() {
    let policy = ExecPolicy { post_only: true, max_chase_ticks: 2, cancel_after_ms: 500, max_slippage_ticks: 1 };
    let r = OrderRouter::new(policy);
    assert_eq!(r.policy.cancel_after_ms, 500);
    match r.to_post_only(intent()) {
        OrderCommand::Post { intent } => {
            assert_eq!(intent.client, ClientId(7));
            assert_eq!((intent.qty, intent.px, intent.ts_ms), (3, 100, 11));
        },
        _ => panic!("expected a post"),
    }
    assert!(r.maybe_chase(OrderHandle(1), 101, 12).is_none());
}

#[test]
fn timeout_engine_expires_nothing() {
    let e = TimeoutEngine::new(TimeoutRule { max_age_ms: 100 });
    assert_eq!(e.rule.max_age_ms, 100);
    let statuses = [(OrderHandle(1), OmsStatus::Live, 0u64), (OrderHandle(2), OmsStatus::PendingPost, 5)];
    assert!(e.expired_orders(1_000, &statuses).is_empty());
}

#[test]
fn risk_checks_allow_and_reconcile_is_empty() {
    let limits = RiskLimits { max_position_notional: 1_000, max_order_rate_per_sec: 10, max_daily_loss: 50 };
    let state = RiskState { pnl: 0, exposure_notional: 0, order_rate: 0 };
    assert_eq!(limits.check_pre_trade(&state, &intent()), RiskDecision::Allow);

    let snap = PositionSnapshot { symbol: "BTCUSDT".to_string(), qty_lots: 1, entry_px_ticks: 100, ts_ms: 3 };
    let mut ps = PositionState { positions: vec![snap.clone()] };
    ps.apply_snapshot(snap.clone());
    assert_eq!(ps.positions.len(), 1);

    let rest = RestSnapshot { positions: vec![snap.clone()], balance_usdt: 10, ts_ms: 4 };
    assert!(Reconciler::reconcile_positions(&[snap], &rest).is_empty());
    let _client = RestClient::new();
}

#[test]
fn signal_engine_starts_without_models() {
    let e = SignalEngine::new();
    assert!(e.lgbm.is_none());
    assert!(e.onnx.is_none());
}

#[test]
fn route_picks_the_payload_and_its_ring() {
    match route_ws_event(WsEvent::Market(trade(8))) {
        Routed::Market(MarketEvent::Trade { trade, symbol }) => {
            assert_eq!(trade.ts_ms, 8);
            assert_eq!(symbol, "BTCUSDT");
        },
        _ => panic!("expected the market payload"),
    }
    match route_ws_event(WsEvent::Account(balance(3))) {
        Routed::Account(AccountEvent::BalanceUpdate { free, .. }) => assert_eq!(free, 3),
        _ => panic!("expected the account payload"),
    }
    assert!(matches!(route_ws_event(WsEvent::Pong), Routed::Dropped));
    assert!(matches!(route_ws_event(WsEvent::Reconnected), Routed::Dropped));
}
