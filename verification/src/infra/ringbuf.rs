use vstd::prelude::*;

use rtrb::{Consumer, Producer, RingBuffer};

verus! {

#[verifier::external_type_specification]
#[verifier::external_body]
#[verifier::reject_recursive_types(T)]
pub struct ExProducer<T>(rtrb::Producer<T>);

#[verifier::external_type_specification]
#[verifier::external_body]
#[verifier::reject_recursive_types(T)]
pub struct ExConsumer<T>(rtrb::Consumer<T>);

/// Writing end of a single-producer single-consumer ring.
pub type RingProducer<T> = Producer<T>;

/// Reading end of a single-producer single-consumer ring.
pub type RingConsumer<T> = Consumer<T>;

/// Calls `rtrb::RingBuffer::new`, which allocates `capacity` slots with
/// `Vec::with_capacity`; that call panics when the slots would take more than
/// `isize::MAX` bytes, which the `requires` rules out. The two ends it returns
/// share the buffer, so nothing is stated of them.
#[verifier::external_body]
fn ring_buffer_new<T>(capacity: usize) -> (Producer<T>, Consumer<T>)
    requires
        capacity * vstd::layout::size_of::<T>() <= isize::MAX,
{
    RingBuffer::new(capacity)
}

/// Calls `rtrb::Producer::push` and reports whether the value went in
/// (`Ok`) or was handed back because the ring was full (`Err(Full)`). Free
/// slots depend on the consumer thread, so the outcome is not stated.
#[verifier::external_body]
pub(crate) fn ring_push<T>(producer: &mut Producer<T>, value: T) -> bool {
    producer.push(value).is_ok()
}

/// Calls `rtrb::Consumer::pop`, mapping `Err(Empty)` to `None`. What is
/// waiting depends on the producer thread, so the outcome is not stated.
#[verifier::external_body]
pub(crate) fn ring_pop<T>(consumer: &mut Consumer<T>) -> Option<T> {
    consumer.pop().ok()
}

/// Both ends of a fresh ring.
#[verifier::reject_recursive_types(T)]
pub struct Ring<T> {
    pub producer: RingProducer<T>,
    pub consumer: RingConsumer<T>,
}

impl<T> Ring<T> {
    pub fn new(capacity: usize) -> Self
        requires
            capacity * vstd::layout::size_of::<T>() <= isize::MAX,
    {
        let (producer, consumer) = ring_buffer_new(capacity);
        Ring { producer, consumer }
    }
}

} // verus!
