pub mod binance_rest;
pub mod binance_ws;
pub mod book_laws;
pub mod feeds;
pub mod orderbook;
pub mod types;

pub use feeds::{route_ws_event, FeedDispatcher, FeedRouter, Routed};
pub use types::{AccountEvent, MarketEvent, WsEvent};
