pub mod lgbm;
pub mod onnx;
pub mod signals;
