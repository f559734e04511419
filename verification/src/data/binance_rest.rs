use vstd::prelude::*;

use crate::data::types::PositionSnapshot;
use crate::infra::time::TimestampMs;

verus! {

/// Positions and balance read over REST; the balance is in integer lots.
#[derive(Debug, Clone)]
pub struct RestSnapshot {
    pub positions: Vec<PositionSnapshot>,
    pub balance_usdt: i64,
    pub ts_ms: TimestampMs,
}

/// Client of the exchange's REST endpoints.
pub struct RestClient;

impl RestClient {
    pub fn new() -> Self {
        RestClient
    }
}

} // verus!
