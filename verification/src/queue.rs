//! The fixed-capacity SPSC sample queue.
//!
//! `SampleQueue` owns both ends of a lock-free ring buffer. Its contents are
//! modelled by the sequence of queued samples, oldest first, together with the
//! fixed capacity chosen at construction; every operation's contract is stated
//! over that model.

use vstd::prelude::*;
use ringbuf::traits::{Consumer, Observer, Producer, Split};

verus! {

/// The silent sample: the all-zero 32-bit word.
pub const SILENCE: u32 = 0;

/// A fixed-capacity queue of audio samples.
///
/// The backing store is a lock-free ring buffer; one execution context may
/// push and another may pop concurrently once the queue has been split into
/// its two capability handles. Held whole, as here, the same operations run
/// sequentially and follow the contracts below exactly.
#[verifier::external_body]
pub struct SampleQueue {
    rb: ringbuf::HeapRb<u32>,
}

/// The samples currently queued, oldest first.
pub uninterp spec fn queue_contents(q: SampleQueue) -> Seq<u32>;

/// The fixed capacity the queue was constructed with.
pub uninterp spec fn queue_capacity(q: SampleQueue) -> nat;

impl SampleQueue {
    /// Relies on `ringbuf::HeapRb::new`: allocates an empty ring buffer of
    /// exactly the requested capacity (and panics on capacity zero, which the
    /// precondition rules out).
    #[verifier::external_body]
    pub fn with_capacity(capacity: usize) -> (q: SampleQueue)
        requires
            capacity >= 1,
        ensures
            queue_contents(q) == Seq::<u32>::empty(),
            queue_capacity(q) == capacity as nat,
    {
        SampleQueue { rb: ringbuf::HeapRb::new(capacity) }
    }

    /// Relies on `ringbuf::traits::Producer::try_push`: appends the sample at
    /// the write position and advances it, unless the buffer is at capacity,
    /// in which case it fails without modifying state.
    #[verifier::external_body]
    pub fn try_push(&mut self, sample: u32) -> (ok: bool)
        ensures
            queue_capacity(*final(self)) == queue_capacity(*old(self)),
            ok == (queue_contents(*old(self)).len() < queue_capacity(*old(self))),
            ok ==> queue_contents(*final(self)) == queue_contents(*old(self)).push(sample),
            !ok ==> queue_contents(*final(self)) == queue_contents(*old(self)),
    {
        self.rb.try_push(sample).is_ok()
    }

    /// Relies on `ringbuf::traits::Consumer::try_pop`: removes and returns the
    /// eldest sample, unless the buffer is empty, in which case it fails.
    #[verifier::external_body]
    pub fn try_pop(&mut self) -> (r: Option<u32>)
        ensures
            queue_capacity(*final(self)) == queue_capacity(*old(self)),
            queue_contents(*old(self)).len() == 0 ==> (r is None
                && queue_contents(*final(self)) == queue_contents(*old(self))),
            queue_contents(*old(self)).len() > 0 ==> (r == Some(queue_contents(*old(self)).first())
                && queue_contents(*final(self)) == queue_contents(*old(self)).drop_first()),
    {
        self.rb.try_pop()
    }

    /// Relies on `ringbuf::traits::Observer::capacity`: reports the capacity
    /// the buffer was constructed with, which never changes.
    #[verifier::external_body]
    pub fn capacity(&self) -> (c: usize)
        ensures
            c as nat == queue_capacity(*self),
    {
        self.rb.capacity().get()
    }

    /// Relies on `ringbuf::traits::Split::split`: consumes the ring buffer
    /// and hands out its producer and consumer halves, which share the same
    /// storage and may from then on be driven from two execution contexts.
    ///
    /// Once split, pushes and pops race against the other side, so the exact
    /// contents cannot be carried over; what survives are the two one-sided
    /// guarantees, which at the moment of the split are the whole queue: the
    /// consumer is owed everything queued so far, the producer is owed all
    /// the remaining room.
    #[verifier::external_body]
    pub fn split(self) -> (handles: (CaptureFeeder, PlaybackDrainer))
        ensures
            drainer_pending(handles.1) == queue_contents(self),
            feeder_room(handles.0) + queue_contents(self).len() == queue_capacity(self),
    {
        let (prod, cons) = self.rb.split();
        (CaptureFeeder { prod }, PlaybackDrainer { cons })
    }
}

/// The producer-side capability handle: the only value through which samples
/// enter the shared ring buffer.
#[verifier::external_body]
pub struct CaptureFeeder {
    prod: ringbuf::HeapProd<u32>,
}

/// The consumer-side capability handle: the only value through which samples
/// leave the shared ring buffer.
#[verifier::external_body]
pub struct PlaybackDrainer {
    cons: ringbuf::HeapCons<u32>,
}

/// The samples the consumer side is guaranteed to receive next, in order:
/// the occupied prefix of the shared ring as the consumer side last saw it.
///
/// Only the consumer removes from the front of an SPSC ring and the producer
/// appends only behind it, so a concurrent producer can extend what a pop
/// will eventually find but never shorten or disturb this prefix.
pub uninterp spec fn drainer_pending(d: PlaybackDrainer) -> Seq<u32>;

/// The free slots the producer side is guaranteed to have, as the producer
/// side last saw the shared ring.
///
/// Only the producer fills slots and a concurrent consumer only frees them,
/// so the room actually available is never below this count.
pub uninterp spec fn feeder_room(f: CaptureFeeder) -> nat;

impl CaptureFeeder {
    /// Relies on `ringbuf::traits::Producer::try_push` through the producer
    /// half of a split ring buffer. Whether the push succeeds depends on how
    /// far the concurrent consumer has drained, so only the one-sided
    /// guarantee is stated: a push backed by guaranteed room succeeds, and a
    /// push spends at most one slot of that guarantee.
    #[verifier::external_body]
    pub fn push_sample(&mut self, sample: u32) -> (ok: bool)
        ensures
            feeder_room(*old(self)) > 0 ==> ok,
            feeder_room(*final(self)) >= feeder_room(*old(self)) - 1,
    {
        self.prod.try_push(sample).is_ok()
    }
}

impl PlaybackDrainer {
    /// Relies on `ringbuf::traits::Consumer::try_pop` through the consumer
    /// half of a split ring buffer. Whether a sample is available depends on
    /// how far the concurrent producer has filled, so only the one-sided
    /// guarantee is stated: while samples are owed, a pop delivers exactly
    /// the eldest of them and the rest stay owed.
    #[verifier::external_body]
    pub fn pop_sample(&mut self) -> (r: Option<u32>)
        ensures
            drainer_pending(*old(self)).len() > 0 ==> (r == Some(
                drainer_pending(*old(self)).first(),
            ) && drainer_pending(*final(self)) == drainer_pending(*old(self)).drop_first()),
    {
        self.cons.try_pop()
    }
}

} // verus!
