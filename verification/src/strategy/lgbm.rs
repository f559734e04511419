use vstd::prelude::*;

verus! {

/// Handle to a loaded LightGBM model.
#[derive(Debug)]
pub struct LgbmModelHandle;

} // verus!
