use vstd::prelude::*;

use crate::data::types::PositionSnapshot;

verus! {

#[derive(Debug, Clone)]
pub struct PositionState {
    pub positions: Vec<PositionSnapshot>,
}

impl PositionState {
    /// Takes in a position snapshot; merging is not defined yet, so the
    /// positions are left as they are.
    pub fn apply_snapshot(&mut self, _snap: PositionSnapshot)
        ensures
            final(self).positions@ == old(self).positions@,
    {
    }
}

} // verus!
