//! Pipeline construction: latency arithmetic, priming, and the two
//! callback-side entry points.
//!
//! Priming runs once, single-threaded, before either device callback is
//! registered: it fills a freshly built queue with the configured cushion of
//! silence. Because the capacity is twice the cushion, every priming push is
//! proved to succeed, so a priming failure is not a runtime condition at all.

use vstd::prelude::*;
use crate::queue::{CaptureFeeder, PlaybackDrainer, SampleQueue, drainer_pending, feeder_room,
    queue_capacity, queue_contents, SILENCE};

verus! {

/// The number of silent samples the cushion holds:
/// `round(latency_ms / 1000 * sample_rate) * channels`, with the frame count
/// rounded half up.
pub open spec fn prime_count(sample_rate: u32, channels: u16, latency_ms: u32) -> int {
    (latency_ms * sample_rate + 500) / 1000 * channels
}

/// The queue contents established by priming: `count` silent samples.
pub open spec fn primed_contents(count: int) -> Seq<u32> {
    Seq::new(count as nat, |i: int| SILENCE)
}

/// Converts the configured latency into a whole number of samples.
pub fn compute_prime_count(sample_rate: u32, channels: u16, latency_ms: u32) -> (n: usize)
    requires
        2 * prime_count(sample_rate, channels, latency_ms) <= usize::MAX,
    ensures
        n == prime_count(sample_rate, channels, latency_ms),
{
    proof {
        assert((latency_ms as int) * (sample_rate as int) <= 0xffff_ffff * 0xffff_ffff)
            by (nonlinear_arith)
            requires
                latency_ms <= 0xffff_ffffu32,
                sample_rate <= 0xffff_ffffu32,
        ;
    }
    let frames: u64 = ((latency_ms as u64) * (sample_rate as u64) + 500) / 1000;
    proof {
        assert(frames * (channels as u64) == prime_count(sample_rate, channels, latency_ms));
    }
    let samples: u64 = frames * (channels as u64);
    samples as usize
}

/// Builds the sample queue for one run and primes it: the queue's capacity is
/// twice the latency cushion, and after priming it holds exactly the cushion,
/// all silence. Every priming push is proved to succeed.
pub fn primed_queue(sample_rate: u32, channels: u16, latency_ms: u32) -> (q: SampleQueue)
    requires
        prime_count(sample_rate, channels, latency_ms) >= 1,
        2 * prime_count(sample_rate, channels, latency_ms) <= usize::MAX,
    ensures
        queue_capacity(q) == 2 * prime_count(sample_rate, channels, latency_ms),
        queue_contents(q) == primed_contents(prime_count(sample_rate, channels, latency_ms)),
{
    let n = compute_prime_count(sample_rate, channels, latency_ms);
    let mut q = SampleQueue::with_capacity(2 * n);
    let mut i: usize = 0;
    while i < n
        invariant
            i <= n,
            n == prime_count(sample_rate, channels, latency_ms),
            queue_capacity(q) == 2 * n,
            queue_contents(q) == primed_contents(i as int),
        decreases n - i,
    {
        let ok = q.try_push(SILENCE);
        proof {
            assert(ok);
            assert(primed_contents(i as int).push(SILENCE) =~= primed_contents(i as int + 1));
        }
        i = i + 1;
    }
    q
}

/// Builds and primes the queue for one run, then splits it into the two
/// capability handles to register with the devices: the capture side may only
/// push, the playback side may only pop. Priming has already happened when
/// the handles come back: the playback side is owed exactly the cushion of
/// silence, and the capture side is owed the other half of the capacity as
/// room.
pub fn new_pipeline(sample_rate: u32, channels: u16, latency_ms: u32) -> (handles: (
    CaptureFeeder,
    PlaybackDrainer,
))
    requires
        prime_count(sample_rate, channels, latency_ms) >= 1,
        2 * prime_count(sample_rate, channels, latency_ms) <= usize::MAX,
    ensures
        drainer_pending(handles.1) == primed_contents(
            prime_count(sample_rate, channels, latency_ms),
        ),
        feeder_room(handles.0) == prime_count(sample_rate, channels, latency_ms),
{
    let q = primed_queue(sample_rate, channels, latency_ms);
    proof {
        assert(queue_contents(q).len() == prime_count(sample_rate, channels, latency_ms));
    }
    q.split()
}

impl CaptureFeeder {
    /// The capture callback body: pushes every newly captured sample, in
    /// order, into the shared queue; a sample that does not fit is dropped,
    /// never retried, and the batch is then reported as overrun exactly once,
    /// whichever push failed. Never blocks and applies no backpressure.
    ///
    /// The push outcomes depend on the concurrent playback side; what is
    /// guaranteed regardless is that a batch no larger than the guaranteed
    /// room goes in whole, and that the batch spends no more room than its
    /// own length. The exact batch semantics is stated on
    /// [`SampleQueue::feed_batch`], which runs the same policy on a queue
    /// held whole.
    pub fn feed(&mut self, batch: &Vec<u32>) -> (overrun: bool)
        ensures
            batch@.len() <= feeder_room(*old(self)) ==> !overrun,
            feeder_room(*final(self)) >= feeder_room(*old(self)) - batch@.len(),
    {
        let ghost room0 = feeder_room(*old(self));
        let mut overrun = false;
        let mut i: usize = 0;
        while i < batch.len()
            invariant
                i <= batch@.len(),
                feeder_room(*self) >= room0 - i,
                batch@.len() <= room0 ==> !overrun,
            decreases batch@.len() - i,
        {
            let ok = self.push_sample(batch[i]);
            if !ok {
                overrun = true;
            }
            i = i + 1;
        }
        overrun
    }
}

impl PlaybackDrainer {
    /// The playback callback body: fills every output slot, in order, with
    /// the eldest queued sample, writing silence into any slot for which the
    /// shared queue is empty; the batch is then reported as underrun exactly
    /// once, whichever slot went silent. Never blocks and never waits for
    /// more data.
    ///
    /// The pop outcomes depend on the concurrent capture side; what is
    /// guaranteed regardless is that the leading slots receive the samples
    /// the playback side is owed, in order, and that a batch covered whole by
    /// what it is owed reports no underrun. The exact batch semantics is
    /// stated on [`SampleQueue::drain_batch`], which runs the same policy on
    /// a queue held whole.
    pub fn drain(&mut self, out: &mut Vec<u32>) -> (underrun: bool)
        ensures
            final(out)@.len() == old(out)@.len(),
            forall|i: int|
                0 <= i < old(out)@.len() && i < drainer_pending(*old(self)).len()
                    ==> final(out)@[i] == drainer_pending(*old(self))[i],
            old(out)@.len() <= drainer_pending(*old(self)).len() ==> !underrun,
            old(out)@.len() <= drainer_pending(*old(self)).len() ==> drainer_pending(
                *final(self),
            ) == drainer_pending(*old(self)).skip(old(out)@.len() as int),
    {
        let ghost p0 = drainer_pending(*old(self));
        let mut underrun = false;
        let n = out.len();
        let mut i: usize = 0;
        while i < n
            invariant
                i <= n,
                out@.len() == n,
                forall|j: int| 0 <= j < i && j < p0.len() ==> out@[j] == p0[j],
                i <= p0.len() ==> (drainer_pending(*self) == p0.skip(i as int) && !underrun),
            decreases n - i,
        {
            proof {
                if i < p0.len() {
                    assert(p0.skip(i as int).first() == p0[i as int]);
                    assert(p0.skip(i as int).drop_first() =~= p0.skip(i as int + 1));
                }
            }
            let slot = match self.pop_sample() {
                Some(sample) => sample,
                None => {
                    underrun = true;
                    SILENCE
                },
            };
            out.set(i, slot);
            i = i + 1;
        }
        underrun
    }
}

} // verus!
