use vstd::prelude::*;

use crate::message::MidiMessage;
use crate::midi::{ParamTemplate, Registration};
use ringbuf::{Consumer, Producer, RingBuffer};

verus! {

/// `ringbuf::RingBuffer`, a lock-free queue for one producer and one consumer.
#[verifier::external_type_specification]
#[verifier::external_body]
#[verifier::reject_recursive_types(T)]
pub struct ExRingBuffer<T>(RingBuffer<T>);

/// `ringbuf::Producer`, the pushing end of a `RingBuffer`.
#[verifier::external_type_specification]
#[verifier::external_body]
#[verifier::reject_recursive_types(T)]
pub struct ExProducer<T>(Producer<T>);

/// `ringbuf::Consumer`, the popping end of a `RingBuffer`.
#[verifier::external_type_specification]
#[verifier::external_body]
#[verifier::reject_recursive_types(T)]
pub struct ExConsumer<T>(Consumer<T>);

/// The capacity that a route buffer was made with (what
/// `ringbuf::RingBuffer::capacity` returns).
pub uninterp spec fn ring_buffer_capacity(rb: RingBuffer<Registration>) -> nat;

/// The capacity of the buffer behind a route consumer (what
/// `ringbuf::Consumer::capacity` returns).
pub uninterp spec fn consumer_capacity(c: Consumer<Registration>) -> nat;

/// Whether a route producer and a route consumer are the two ends of one
/// buffer (`ringbuf::RingBuffer::split` gives both ends one shared buffer):
/// what the producer pushes is what the consumer pops.
pub uninterp spec fn route_ends_match(producer: Producer<Registration>, consumer: Consumer<
    Registration,
>) -> bool;

/// The routes that a route producer has put into its buffer, in order (each
/// call of `ringbuf::Producer::push` that returned `Ok` added one).
pub uninterp spec fn route_pushed(producer: Producer<Registration>) -> Seq<
    (ParamTemplate, MidiMessage),
>;

/// `ringbuf::RingBuffer::new` allocates `capacity + 1` slots, so the capacity
/// must leave room for the `+ 1`. The contract claims that the buffer's
/// capacity is the one asked for (`capacity()` returns the slot count less
/// one).
#[verifier::external_body]
pub(crate) fn new_route_buffer(capacity: usize) -> (rb: RingBuffer<Registration>)
    requires
        capacity < usize::MAX,
    ensures
        ring_buffer_capacity(rb) == capacity,
{
    RingBuffer::new(capacity)
}

/// `ringbuf::RingBuffer::split` hands out the two ends of one buffer (both
/// hold one `Arc` of it). The contract claims that the two ends match, that
/// the consumer reports the buffer's capacity, and that nothing has been
/// pushed through the new producer yet.
#[verifier::external_body]
pub(crate) fn split_route_buffer(rb: RingBuffer<Registration>) -> (ends: (
    Producer<Registration>,
    Consumer<Registration>,
))
    ensures
        route_ends_match(ends.0, ends.1),
        consumer_capacity(ends.1) == ring_buffer_capacity(rb),
        route_pushed(ends.0) == Seq::<(ParamTemplate, MidiMessage)>::empty(),
{
    rb.split()
}

/// `ringbuf::Consumer::capacity`: the capacity of the buffer behind the
/// consumer.
#[verifier::external_body]
pub(crate) fn route_consumer_capacity(consumer: &Consumer<Registration>) -> (n: usize)
    ensures
        n == consumer_capacity(*consumer),
{
    consumer.capacity()
}

/// `ringbuf::Consumer::pop` removes the oldest element, or gives `None` when
/// the buffer is empty. What the buffer holds depends on the producer, which
/// runs on another thread, so nothing is claimed of the result; the contract
/// claims only that popping leaves the buffer's capacity as it was, and the
/// consumer an end of the same buffer.
#[verifier::external_body]
pub(crate) fn pop_route(consumer: &mut Consumer<Registration>) -> (res: Option<Registration>)
    ensures
        consumer_capacity(*final(consumer)) == consumer_capacity(*old(consumer)),
        forall|p: Producer<Registration>|
            route_ends_match(p, *old(consumer)) ==> #[trigger] route_ends_match(
                p,
                *final(consumer),
            ),
{
    consumer.pop()
}

/// `ringbuf::Producer::push` appends the route when there is room and
/// otherwise gives it back. Whether there is room depends on the consumer,
/// which runs on another thread. The contract claims: on `Ok` the route is
/// appended to what the producer has pushed, on `Err` the route given back is
/// the one offered and nothing was pushed; the producer stays an end of the
/// same buffer. A buffer never holds more routes than were put into it, so
/// while fewer routes than its capacity were pushed, there is room and the
/// push succeeds.
#[verifier::external_body]
pub(crate) fn push_route(producer: &mut Producer<Registration>, route: Registration) -> (res: Result<(), Registration>)
    ensures
        res is Ok ==> route_pushed(*final(producer)) == route_pushed(*old(producer)).push(
            (route.template(), route.message()),
        ),
        res matches Err(e) ==> e == route && route_pushed(*final(producer)) == route_pushed(
            *old(producer),
        ),
        forall|c: Consumer<Registration>|
            route_ends_match(*old(producer), c) ==> #[trigger] route_ends_match(
                *final(producer),
                c,
            ),
        forall|c: Consumer<Registration>|
            #[trigger] route_ends_match(*old(producer), c) && route_pushed(*old(producer)).len()
                < consumer_capacity(c) ==> res is Ok,
{
    producer.push(route)
}

} // verus!
