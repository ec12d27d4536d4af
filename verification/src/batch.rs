//! Batch transfer semantics.
//!
//! A capture batch is fed sample by sample: a sample that does not fit is
//! dropped and the batch is flagged as overrun. A playback batch is drained
//! slot by slot: a slot for which the queue is empty receives silence and the
//! batch is flagged as underrun. `feed_model` and `drain_model` state both
//! policies over the queue's sequence model, and the executable batch
//! operations are proved to follow them exactly.

use vstd::prelude::*;
use crate::queue::{SampleQueue, queue_capacity, queue_contents, SILENCE};

verus! {

/// One producer step: append the sample unless the queue is at capacity, in
/// which case drop it and report overrun.
pub open spec fn feed_step(s: Seq<u32>, cap: nat, sample: u32) -> (Seq<u32>, bool) {
    if s.len() < cap {
        (s.push(sample), false)
    } else {
        (s, true)
    }
}

/// Queue contents after feeding a whole capture batch in order, paired with
/// whether any sample of the batch was dropped.
pub open spec fn feed_model(s: Seq<u32>, cap: nat, batch: Seq<u32>) -> (Seq<u32>, bool)
    decreases batch.len(),
{
    if batch.len() == 0 {
        (s, false)
    } else {
        let prior = feed_model(s, cap, batch.drop_last());
        let step = feed_step(prior.0, cap, batch.last());
        (step.0, prior.1 || step.1)
    }
}

/// One consumer step: take the eldest sample, or substitute silence and
/// report underrun if the queue is empty.
pub open spec fn drain_step(s: Seq<u32>) -> (Seq<u32>, u32, bool) {
    if s.len() == 0 {
        (s, SILENCE, true)
    } else {
        (s.drop_first(), s.first(), false)
    }
}

/// Queue contents after draining `slots` playback slots in order, paired with
/// the values written into the slots and whether any slot received silence
/// for want of a sample.
pub open spec fn drain_model(s: Seq<u32>, slots: nat) -> (Seq<u32>, Seq<u32>, bool)
    decreases slots,
{
    if slots == 0 {
        (s, Seq::<u32>::empty(), false)
    } else {
        let prior = drain_model(s, (slots - 1) as nat);
        let step = drain_step(prior.0);
        (step.0, prior.1.push(step.1), prior.2 || step.2)
    }
}

impl SampleQueue {
    /// The capture side of one callback invocation: pushes every sample of
    /// the batch, in order; a sample that does not fit is dropped, never
    /// retried, and the whole batch is then flagged as overrun once.
    pub fn feed_batch(&mut self, batch: &Vec<u32>) -> (overrun: bool)
        ensures
            queue_capacity(*final(self)) == queue_capacity(*old(self)),
            queue_contents(*final(self)) == feed_model(
                queue_contents(*old(self)),
                queue_capacity(*old(self)),
                batch@,
            ).0,
            overrun == feed_model(
                queue_contents(*old(self)),
                queue_capacity(*old(self)),
                batch@,
            ).1,
    {
        let ghost s0 = queue_contents(*old(self));
        let ghost cap = queue_capacity(*old(self));
        let mut overrun = false;
        let mut i: usize = 0;
        while i < batch.len()
            invariant
                i <= batch@.len(),
                queue_capacity(*self) == cap,
                queue_contents(*self) == feed_model(s0, cap, batch@.take(i as int)).0,
                overrun == feed_model(s0, cap, batch@.take(i as int)).1,
            decreases batch@.len() - i,
        {
            let ok = self.try_push(batch[i]);
            if !ok {
                overrun = true;
            }
            proof {
                assert(batch@.take(i as int + 1).drop_last() =~= batch@.take(i as int));
                assert(batch@.take(i as int + 1).last() == batch@[i as int]);
            }
            i = i + 1;
        }
        proof {
            assert(batch@.take(batch@.len() as int) =~= batch@);
        }
        overrun
    }

    /// The playback side of one callback invocation: fills every output slot,
    /// in order, with the eldest queued sample, substituting silence when the
    /// queue is empty; the whole batch is then flagged as underrun once.
    pub fn drain_batch(&mut self, out: &mut Vec<u32>) -> (underrun: bool)
        ensures
            queue_capacity(*final(self)) == queue_capacity(*old(self)),
            final(out)@.len() == old(out)@.len(),
            queue_contents(*final(self)) == drain_model(
                queue_contents(*old(self)),
                old(out)@.len(),
            ).0,
            final(out)@ == drain_model(queue_contents(*old(self)), old(out)@.len()).1,
            underrun == drain_model(queue_contents(*old(self)), old(out)@.len()).2,
    {
        let ghost s0 = queue_contents(*old(self));
        let ghost cap = queue_capacity(*old(self));
        let n = out.len();
        let mut underrun = false;
        let mut i: usize = 0;
        while i < n
            invariant
                i <= n,
                out@.len() == n,
                queue_capacity(*self) == cap,
                queue_contents(*self) == drain_model(s0, i as nat).0,
                out@.take(i as int) == drain_model(s0, i as nat).1,
                underrun == drain_model(s0, i as nat).2,
            decreases n - i,
        {
            let ghost out_prev = out@;
            let slot = match self.try_pop() {
                Some(sample) => sample,
                None => {
                    underrun = true;
                    SILENCE
                },
            };
            out.set(i, slot);
            proof {
                assert(out@.take(i as int + 1) =~= out_prev.take(i as int).push(slot));
            }
            i = i + 1;
        }
        proof {
            assert(out@.take(n as int) =~= out@);
        }
        underrun
    }
}

/// A batch that fits entirely within the remaining capacity is appended
/// whole, in order, and raises no overrun.
pub proof fn lemma_feed_within_capacity(s: Seq<u32>, cap: nat, batch: Seq<u32>)
    requires
        s.len() + batch.len() <= cap,
    ensures
        feed_model(s, cap, batch).0 == s + batch,
        !feed_model(s, cap, batch).1,
    decreases batch.len(),
{
    if batch.len() == 0 {
        assert(s + batch =~= s);
    } else {
        lemma_feed_within_capacity(s, cap, batch.drop_last());
        assert(s + batch =~= (s + batch.drop_last()).push(batch.last()));
    }
}

/// A batch that would push occupancy past capacity fills the queue exactly to
/// capacity, drops every sample past that point, and raises overrun.
pub proof fn lemma_feed_past_capacity(s: Seq<u32>, cap: nat, batch: Seq<u32>)
    requires
        s.len() <= cap,
        s.len() + batch.len() > cap,
    ensures
        feed_model(s, cap, batch).0 == s + batch.take(cap - s.len()),
        feed_model(s, cap, batch).1,
        feed_model(s, cap, batch).0.len() == cap,
    decreases batch.len(),
{
    let kept = cap - s.len();
    if s.len() + batch.len() == cap + 1 {
        lemma_feed_within_capacity(s, cap, batch.drop_last());
        assert(batch.take(kept) =~= batch.drop_last());
    } else {
        lemma_feed_past_capacity(s, cap, batch.drop_last());
        assert(batch.take(kept) =~= batch.drop_last().take(kept));
    }
}

/// What draining writes: the first slots receive the queued samples in queue
/// order, every further slot receives silence; underrun is raised exactly
/// when there are more slots than samples; the drained samples leave the
/// queue, oldest first.
pub proof fn lemma_drain_values(s: Seq<u32>, slots: nat)
    ensures
        drain_model(s, slots).1.len() == slots,
        forall|i: int|
            0 <= i < slots ==> drain_model(s, slots).1[i] == (if i < s.len() {
                s[i]
            } else {
                SILENCE
            }),
        drain_model(s, slots).2 <==> slots > s.len(),
        slots <= s.len() ==> drain_model(s, slots).0 == s.skip(slots as int),
        slots > s.len() ==> drain_model(s, slots).0 == Seq::<u32>::empty(),
    decreases slots,
{
    if slots > 0 {
        lemma_drain_values(s, (slots - 1) as nat);
        if slots - 1 < s.len() {
            assert(s.skip(slots - 1).drop_first() =~= s.skip(slots as int));
            assert(s.skip(slots - 1).first() == s[slots - 1]);
        } else if slots - 1 == s.len() {
            assert(s.skip(slots - 1) =~= Seq::<u32>::empty());
        }
    }
}

/// Order preservation: any sequence of samples pushed into a queue with room
/// for all of them is stored whole, and draining exactly that many slots
/// yields the same samples in the same order, leaving the queue empty.
pub proof fn lemma_order_preservation(samples: Seq<u32>, cap: nat)
    requires
        samples.len() <= cap,
    ensures
        feed_model(Seq::<u32>::empty(), cap, samples).0 == samples,
        !feed_model(Seq::<u32>::empty(), cap, samples).1,
        drain_model(samples, samples.len()).1 == samples,
        !drain_model(samples, samples.len()).2,
        drain_model(samples, samples.len()).0 == Seq::<u32>::empty(),
{
    lemma_feed_within_capacity(Seq::<u32>::empty(), cap, samples);
    assert(Seq::<u32>::empty() + samples =~= samples);
    lemma_drain_values(samples, samples.len());
    assert(drain_model(samples, samples.len()).1 =~= samples);
    assert(samples.skip(samples.len() as int) =~= Seq::<u32>::empty());
}

/// No loss under sufficient capacity: as long as a batch never drives
/// occupancy past capacity, no sample is dropped or altered — the queue holds
/// the old samples followed by the whole batch, and draining everything
/// returns each sample exactly once, in order.
pub proof fn lemma_no_loss_within_capacity(s: Seq<u32>, cap: nat, batch: Seq<u32>)
    requires
        s.len() + batch.len() <= cap,
    ensures
        feed_model(s, cap, batch).0 == s + batch,
        !feed_model(s, cap, batch).1,
        drain_model(s + batch, s.len() + batch.len()).1 == s + batch,
        drain_model(s + batch, s.len() + batch.len()).0 == Seq::<u32>::empty(),
{
    lemma_feed_within_capacity(s, cap, batch);
    lemma_drain_values(s + batch, s.len() + batch.len());
    assert(drain_model(s + batch, s.len() + batch.len()).1 =~= s + batch);
    assert((s + batch).skip((s + batch).len() as int) =~= Seq::<u32>::empty());
}

/// Overrun correctness: feeding one sample more than the capacity into an
/// empty queue drops exactly the last sample — every earlier push succeeds —
/// raises overrun, and leaves the first `cap` samples retrievable in order.
pub proof fn lemma_overrun_drops_exactly_last(batch: Seq<u32>, cap: nat)
    requires
        batch.len() == cap + 1,
    ensures
        !feed_model(Seq::<u32>::empty(), cap, batch.drop_last()).1,
        feed_model(Seq::<u32>::empty(), cap, batch).0 == batch.drop_last(),
        feed_model(Seq::<u32>::empty(), cap, batch).1,
        drain_model(batch.drop_last(), cap).1 == batch.drop_last(),
        !drain_model(batch.drop_last(), cap).2,
{
    lemma_feed_within_capacity(Seq::<u32>::empty(), cap, batch.drop_last());
    lemma_feed_past_capacity(Seq::<u32>::empty(), cap, batch);
    assert(Seq::<u32>::empty() + batch.take(cap as int) =~= batch.drop_last());
    lemma_drain_values(batch.drop_last(), cap);
    assert(drain_model(batch.drop_last(), cap).1 =~= batch.drop_last());
}

/// Underrun correctness: draining any number of slots from an empty queue
/// fills every slot with exactly silence, and raises underrun as soon as
/// there is at least one slot to fill.
pub proof fn lemma_underrun_writes_silence(slots: nat)
    ensures
        drain_model(Seq::<u32>::empty(), slots).1 == Seq::new(slots, |i: int| SILENCE),
        drain_model(Seq::<u32>::empty(), slots).2 <==> slots > 0,
        drain_model(Seq::<u32>::empty(), slots).0 == Seq::<u32>::empty(),
{
    lemma_drain_values(Seq::<u32>::empty(), slots);
    assert(drain_model(Seq::<u32>::empty(), slots).1 =~= Seq::new(slots, |i: int| SILENCE));
}

/// Balanced steady state: a feed that fits, followed by a drain of the same
/// number of slots, raises neither overrun nor underrun and returns occupancy
/// to exactly what it was, with the surviving samples still in order.
pub proof fn lemma_steady_state_step(s: Seq<u32>, cap: nat, batch: Seq<u32>)
    requires
        s.len() + batch.len() <= cap,
    ensures
        !feed_model(s, cap, batch).1,
        !drain_model(feed_model(s, cap, batch).0, batch.len()).2,
        drain_model(feed_model(s, cap, batch).0, batch.len()).1 == (s + batch).take(
            batch.len() as int,
        ),
        drain_model(feed_model(s, cap, batch).0, batch.len()).0 == (s + batch).skip(
            batch.len() as int,
        ),
        drain_model(feed_model(s, cap, batch).0, batch.len()).0.len() == s.len(),
{
    lemma_feed_within_capacity(s, cap, batch);
    lemma_drain_values(s + batch, batch.len());
    assert(drain_model(s + batch, batch.len()).1 =~= (s + batch).take(batch.len() as int));
}

/// One queue operation of an interleaved run: a push of the given sample by
/// the producer side, or a pop by the consumer side.
pub enum QueueOp {
    Push(u32),
    Pop,
}

/// The samples a run of operations pushes, in push order.
pub open spec fn pushed_of(ops: Seq<QueueOp>) -> Seq<u32>
    decreases ops.len(),
{
    if ops.len() == 0 {
        Seq::<u32>::empty()
    } else {
        match ops.last() {
            QueueOp::Push(sample) => pushed_of(ops.drop_last()).push(sample),
            QueueOp::Pop => pushed_of(ops.drop_last()),
        }
    }
}

/// An arbitrary interleaving of single pushes and pops: yields the final
/// queue contents, the samples the pops delivered in delivery order, and
/// whether any push found the queue full. A pop on an empty queue delivers
/// nothing and changes nothing.
pub open spec fn interleaved_run(s: Seq<u32>, cap: nat, ops: Seq<QueueOp>) -> (
    Seq<u32>,
    Seq<u32>,
    bool,
)
    decreases ops.len(),
{
    if ops.len() == 0 {
        (s, Seq::<u32>::empty(), false)
    } else {
        let prior = interleaved_run(s, cap, ops.drop_last());
        match ops.last() {
            QueueOp::Push(sample) => {
                let step = feed_step(prior.0, cap, sample);
                (step.0, prior.1, prior.2 || step.1)
            },
            QueueOp::Pop => {
                if prior.0.len() == 0 {
                    prior
                } else {
                    (prior.0.drop_first(), prior.1.push(prior.0.first()), prior.2)
                }
            },
        }
    }
}

/// No loss under sufficient capacity, for every interleaving: in any run of
/// single pushes and pops in which no push ever found the queue full, the
/// samples the pops delivered followed by the samples still queued are
/// exactly the prior contents followed by every pushed sample — delivery in
/// push order, nothing lost, duplicated, reordered or altered. Applied to
/// each prefix of a run, this says the delivered samples are at every
/// instant a prefix of the prior contents followed by the pushed stream.
pub proof fn lemma_no_loss_any_interleaving(s: Seq<u32>, cap: nat, ops: Seq<QueueOp>)
    requires
        s.len() <= cap,
        !interleaved_run(s, cap, ops).2,
    ensures
        interleaved_run(s, cap, ops).1 + interleaved_run(s, cap, ops).0 == s + pushed_of(ops),
        interleaved_run(s, cap, ops).0.len() <= cap,
    decreases ops.len(),
{
    if ops.len() == 0 {
        assert(Seq::<u32>::empty() + s =~= s + Seq::<u32>::empty());
    } else {
        let prior = interleaved_run(s, cap, ops.drop_last());
        lemma_no_loss_any_interleaving(s, cap, ops.drop_last());
        match ops.last() {
            QueueOp::Push(sample) => {
                assert(prior.1 + prior.0.push(sample) =~= (prior.1 + prior.0).push(sample));
                assert((s + pushed_of(ops.drop_last())).push(sample) =~= s + pushed_of(ops));
            },
            QueueOp::Pop => {
                if prior.0.len() > 0 {
                    assert(prior.1.push(prior.0.first()) + prior.0.drop_first() =~= prior.1
                        + prior.0);
                }
            },
        }
    }
}

/// The capture stream of a whole run: the samples of every batch, in batch
/// order.
pub open spec fn joined_batches(batches: Seq<Seq<u32>>) -> Seq<u32>
    decreases batches.len(),
{
    if batches.len() == 0 {
        Seq::<u32>::empty()
    } else {
        joined_batches(batches.drop_last()) + batches.last()
    }
}

/// A run of matched callback invocations: at each tick one capture batch is
/// fed and as many playback slots are drained. Yields the final queue
/// contents, everything playback received over the run, and whether any tick
/// reported overrun or underrun.
pub open spec fn run_model(s: Seq<u32>, cap: nat, batches: Seq<Seq<u32>>) -> (
    Seq<u32>,
    Seq<u32>,
    bool,
    bool,
)
    decreases batches.len(),
{
    if batches.len() == 0 {
        (s, Seq::<u32>::empty(), false, false)
    } else {
        let prior = run_model(s, cap, batches.drop_last());
        let fed = feed_model(prior.0, cap, batches.last());
        let drained = drain_model(fed.0, batches.last().len());
        (drained.0, prior.1 + drained.1, prior.2 || fed.1, prior.3 || drained.2)
    }
}

/// Steady-state stability: over a run of matched capture and playback
/// batches, each of which fits beside the standing cushion, no overrun and no
/// underrun is ever reported, occupancy returns to the cushion after every
/// tick, and playback receives exactly the cushion followed by the captured
/// samples, in capture order — the whole stream delayed by the cushion,
/// nothing lost, nothing altered.
pub proof fn lemma_balanced_run(s: Seq<u32>, cap: nat, batches: Seq<Seq<u32>>)
    requires
        forall|i: int| 0 <= i < batches.len() ==> s.len() + #[trigger] batches[i].len() <= cap,
    ensures
        !run_model(s, cap, batches).2,
        !run_model(s, cap, batches).3,
        run_model(s, cap, batches).0 == (s + joined_batches(batches)).skip(
            joined_batches(batches).len() as int,
        ),
        run_model(s, cap, batches).1 == (s + joined_batches(batches)).take(
            joined_batches(batches).len() as int,
        ),
        run_model(s, cap, batches).0.len() == s.len(),
    decreases batches.len(),
{
    if batches.len() == 0 {
        assert((s + joined_batches(batches)).skip(0) =~= s);
    } else {
        let pre = batches.drop_last();
        let b = batches.last();
        assert(forall|i: int| 0 <= i < pre.len() ==> s.len() + #[trigger] pre[i].len() <= cap);
        lemma_balanced_run(s, cap, pre);
        let f = joined_batches(pre);
        let prior0 = run_model(s, cap, pre).0;
        assert(s.len() + b.len() <= cap);
        lemma_steady_state_step(prior0, cap, b);
        assert((prior0 + b).skip(b.len() as int) =~= (s + joined_batches(batches)).skip(
            joined_batches(batches).len() as int,
        ));
        assert(run_model(s, cap, pre).1 + (prior0 + b).take(b.len() as int) =~= (s
            + joined_batches(batches)).take(joined_batches(batches).len() as int));
    }
}

/// Overrun threshold: feeding a batch raises overrun exactly when it would
/// drive occupancy past capacity — never before.
pub proof fn lemma_overrun_exact_threshold(s: Seq<u32>, cap: nat, batch: Seq<u32>)
    requires
        s.len() <= cap,
    ensures
        feed_model(s, cap, batch).1 <==> s.len() + batch.len() > cap,
{
    if s.len() + batch.len() > cap {
        lemma_feed_past_capacity(s, cap, batch);
    } else {
        lemma_feed_within_capacity(s, cap, batch);
    }
}

} // verus!
