use vstd::prelude::*;

use crate::execution::oms::{ClientId, OrderHandle};

verus! {

#[derive(Debug, Clone, Copy)]
pub struct ExecPolicy {
    pub post_only: bool,
    pub max_chase_ticks: i64,
    pub cancel_after_ms: u64,
    pub max_slippage_ticks: i64,
}

/// What the strategy wants traded: quantity in lots, price in ticks.
#[derive(Debug, Clone)]
pub struct OrderIntent {
    pub client: ClientId,
    pub side: u8,
    pub qty: i64,
    pub px: i64,
    pub reduce_only: bool,
    pub ts_ms: u64,
}

#[derive(Debug, Clone)]
pub enum OrderCommand {
    Post { intent: OrderIntent },
    Cancel { handle: OrderHandle, ts_ms: u64 },
    Amend { handle: OrderHandle, new_px: i64, ts_ms: u64 },
    Market { client: ClientId, side: u8, qty: i64, ts_ms: u64 },
    ReduceOnly { client: ClientId, side: u8, qty: i64, ts_ms: u64 },
}

pub struct OrderRouter {
    pub policy: ExecPolicy,
}

impl OrderRouter {
    pub fn new(policy: ExecPolicy) -> (r: Self)
        ensures
            r.policy == policy,
    {
        OrderRouter { policy }
    }

    /// Turns a strategy intent into a post-only order command.
    pub fn to_post_only(&self, intent: OrderIntent) -> (r: OrderCommand)
        ensures
            r == (OrderCommand::Post { intent }),
    {
        OrderCommand::Post { intent }
    }

    /// Decides whether to chase a resting order to `_new_px`; no chase rule
    /// is defined yet, so no command is issued.
    pub fn maybe_chase(&self, _handle: OrderHandle, _new_px: i64, _ts_ms: u64) -> (r: Option<
        OrderCommand,
    >)
        ensures
            r is None,
    {
        None
    }
}

} // verus!
