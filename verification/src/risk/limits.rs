use vstd::prelude::*;

use crate::execution::router::OrderIntent;

verus! {

/// Risk limits; notional amounts in ticks times lots.
#[derive(Debug, Clone)]
pub struct RiskLimits {
    pub max_position_notional: i64,
    pub max_order_rate_per_sec: u32,
    pub max_daily_loss: i64,
}

/// Current risk figures; amounts in ticks times lots.
#[derive(Debug, Clone)]
pub struct RiskState {
    pub pnl: i64,
    pub exposure_notional: i64,
    pub order_rate: u32,
}

#[derive(Debug, Clone, Copy, PartialEq, Eq, Structural)]
pub enum RiskDecision {
    Allow,
    ReduceOnly,
    Reject,
    Halt,
}

impl RiskLimits {
    /// Pre-trade check of an intent against the limits; no limit is enforced
    /// yet, so every intent is allowed.
    pub fn check_pre_trade(&self, _state: &RiskState, _intent: &OrderIntent) -> (r: RiskDecision)
        ensures
            r == RiskDecision::Allow,
    {
        RiskDecision::Allow
    }
}

} // verus!
