//! The lock-free ring buffer of the `ringbuf` crate, as the delay lines use it.
//!
//! Samples travel through it as the bit patterns of `f32` values; the ring
//! only moves them around, it never looks inside.
use vstd::prelude::*;
use ringbuf::{Consumer, Producer, RingBuffer};

verus! {

#[verifier::external_type_specification]
#[verifier::external_body]
#[verifier::reject_recursive_types(T)]
pub struct ExRingBuffer<T>(RingBuffer<T>);

/// The producer and the consumer half of one split ring buffer, kept
/// together so that the two always belong to the same ring.
#[verifier::external_body]
pub struct Ring {
    producer: Producer<u32>,
    consumer: Consumer<u32>,
}

/// The number of items a ring buffer was made to hold.
pub uninterp spec fn unsplit_capacity(ring: RingBuffer<u32>) -> nat;

/// The number of items the ring holds at most.
pub uninterp spec fn ring_capacity(ring: Ring) -> nat;

/// What the ring holds, oldest first.
pub uninterp spec fn ring_items(ring: Ring) -> Seq<u32>;

/// Calls `RingBuffer::new(capacity)`, which allocates `capacity + 1` slots
/// and makes a ring buffer that holds up to `capacity` items.  It panics when
/// `capacity + 1` overflows or the slots exceed `isize::MAX` bytes, which the
/// `requires` rules out; that an allocator failure aborts is not stated.
#[verifier::external_body]
pub(crate) fn new_ring(capacity: usize) -> (ring: RingBuffer<u32>)
    requires
        capacity < usize::MAX,
        (capacity + 1) * 4 <= isize::MAX,
    ensures
        unsplit_capacity(ring) == capacity,
{
    RingBuffer::new(capacity)
}

/// Calls `RingBuffer::split`, which hands out the producer and the consumer
/// half of the same buffer, and keeps the two together.  A `RingBuffer` can
/// only be filled through its producer, so an unsplit one is always empty.
#[verifier::external_body]
pub(crate) fn split_ring(ring: RingBuffer<u32>) -> (halves: Ring)
    ensures
        ring_items(halves) == Seq::<u32>::empty(),
        ring_capacity(halves) == unsplit_capacity(ring),
{
    let (producer, consumer) = ring.split();
    Ring { producer, consumer }
}

/// Calls `Producer::push` on the ring's producer: appends `item` behind the
/// newest item when the ring is not full, and hands `item` back as the error
/// when it is.
#[verifier::external_body]
pub(crate) fn ring_push(ring: &mut Ring, item: u32) -> (r: Result<(), u32>)
    ensures
        ring_capacity(*final(ring)) == ring_capacity(*old(ring)),
        ring_items(*old(ring)).len() < ring_capacity(*old(ring)) ==> {
            &&& r == Ok::<(), u32>(())
            &&& ring_items(*final(ring)) == ring_items(*old(ring)).push(item)
        },
        ring_items(*old(ring)).len() >= ring_capacity(*old(ring)) ==> {
            &&& r == Err::<(), u32>(item)
            &&& ring_items(*final(ring)) == ring_items(*old(ring))
        },
{
    ring.producer.push(item)
}

/// Calls `Consumer::pop` on the ring's consumer: removes and returns the
/// oldest item, or returns `None` when the ring is empty.
#[verifier::external_body]
pub(crate) fn ring_pop(ring: &mut Ring) -> (r: Option<u32>)
    ensures
        ring_capacity(*final(ring)) == ring_capacity(*old(ring)),
        ring_items(*old(ring)).len() == 0 ==> {
            &&& r == None::<u32>
            &&& ring_items(*final(ring)) == ring_items(*old(ring))
        },
        ring_items(*old(ring)).len() > 0 ==> {
            &&& r == Some(ring_items(*old(ring))[0])
            &&& ring_items(*final(ring)) == ring_items(*old(ring)).drop_first()
        },
{
    ring.consumer.pop()
}

/// Calls `Producer::is_full` on the ring's producer: whether the ring holds
/// as many items as it can (it never holds more).
#[verifier::external_body]
pub(crate) fn ring_is_full(ring: &Ring) -> (r: bool)
    ensures
        r == (ring_items(*ring).len() >= ring_capacity(*ring)),
{
    ring.producer.is_full()
}

} // verus!
