use vstd::prelude::*;

use crate::strategy::lgbm::LgbmModelHandle;
use crate::strategy::onnx::OnnxSession;

verus! {

/// Combines the model outputs into signals.
pub struct SignalEngine {
    pub lgbm: Option<LgbmModelHandle>,
    pub onnx: Option<OnnxSession>,
}

impl SignalEngine {
    /// An engine with no model loaded.
    pub fn new() -> (r: Self)
        ensures
            r.lgbm is None,
            r.onnx is None,
    {
        SignalEngine { lgbm: None, onnx: None }
    }
}

} // verus!
