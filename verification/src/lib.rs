//! Building blocks of a low-latency trading system: an L2 order book over
//! integer ticks and lots, order-flow features, the websocket handshake
//! rules, feed routing over lock-free rings, and the execution and risk data
//! model.

pub mod data;
pub mod execution;
pub mod infra;
pub mod risk;
pub mod strategy;

pub use data::types::{AccountEvent, MarketEvent, WsEvent};
pub use execution::oms::{ClientId, ExchId, Oms, OmsEvent, OrderEntry, OrderHandle};
