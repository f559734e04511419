pub mod ringbuf;
pub mod time;

pub use ringbuf::{Ring, RingConsumer, RingProducer};
pub use time::{Clock, TimestampMs};
