use vstd::prelude::*;

use crate::execution::oms::{OmsStatus, OrderHandle};

verus! {

#[derive(Debug, Clone)]
pub struct TimeoutRule {
    pub max_age_ms: u64,
}

pub struct TimeoutEngine {
    pub rule: TimeoutRule,
}

impl TimeoutEngine {
    pub fn new(rule: TimeoutRule) -> (r: Self)
        ensures
            r.rule == rule,
    {
        TimeoutEngine { rule }
    }

    /// Orders to expire at `_now_ms`. No expiry rule is applied yet: the
    /// list is empty.
    pub fn expired_orders(&self, _now_ms: u64, _statuses: &[(OrderHandle, OmsStatus, u64)]) -> (r:
        Vec<OrderHandle>)
        ensures
            r@.len() == 0,
    {
        Vec::new()
    }
}

} // verus!
