use vstd::prelude::*;

verus! {

/// Handle to an ONNX inference session.
#[derive(Debug)]
pub struct OnnxSession;

} // verus!
