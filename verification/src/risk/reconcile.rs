use vstd::prelude::*;

use crate::data::binance_rest::RestSnapshot;
use crate::data::types::PositionSnapshot;

verus! {

pub struct Reconciler;

impl Reconciler {
    /// Reconciles websocket positions with a REST snapshot; no rule is
    /// defined yet, so the result is empty.
    pub fn reconcile_positions(_ws: &[PositionSnapshot], _rest: &RestSnapshot) -> (r: Vec<
        PositionSnapshot,
    >)
        ensures
            r@.len() == 0,
    {
        Vec::new()
    }
}

} // verus!
