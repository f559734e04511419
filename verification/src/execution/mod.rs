pub mod oms;
pub mod router;
pub mod timeout;

pub use oms::{ClientId, ExchId, Oms, OmsEvent, OrderEntry, OrderHandle};
pub use router::{ExecPolicy, OrderCommand, OrderIntent};
