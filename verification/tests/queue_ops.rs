use feedback::queue::{SampleQueue, SILENCE};

#[test]
fn silence_is_the_zero_float_word() {
    assert_eq!(SILENCE, 0.0f32.to_bits());
    assert_eq!(f32::from_bits(SILENCE), 0.0f32);
}

#[test]
fn capacity_is_what_was_requested() {
    let q = SampleQueue::with_capacity(7);
    assert_eq!(q.capacity(), 7);
}

#[test]
fn order_preservation_push_then_pop() {
    let mut q = SampleQueue::with_capacity(8);
    let samples = [11u32, 22, 33, 44, 55];
    for &s in &samples {
        assert!(q.try_push(s));
    }
    for &s in &samples {
        assert_eq!(q.try_pop(), Some(s));
    }
    assert_eq!(q.try_pop(), None);
}

#[test]
fn push_fails_only_at_capacity() {
    let mut q = SampleQueue::with_capacity(4);
    for s in 1u32..=4 {
        assert!(q.try_push(s));
    }
    assert!(!q.try_push(5));
    // The failed push modified nothing: the first four remain, in order.
    for s in 1u32..=4 {
        assert_eq!(q.try_pop(), Some(s));
    }
    assert_eq!(q.try_pop(), None);
}

#[test]
fn pop_from_empty_fails_and_leaves_queue_usable() {
    let mut q = SampleQueue::with_capacity(3);
    assert_eq!(q.try_pop(), None);
    assert!(q.try_push(9));
    assert_eq!(q.try_pop(), Some(9));
    assert_eq!(q.try_pop(), None);
}

#[test]
fn no_loss_when_batches_fit() {
    let mut q = SampleQueue::with_capacity(16);
    let first: Vec<u32> = vec![1, 2, 3, 4, 5, 6];
    let second: Vec<u32> = vec![7, 8, 9, 10];
    assert!(!q.feed_batch(&first));
    assert!(!q.feed_batch(&second));
    let mut out: Vec<u32> = vec![99; 10];
    assert!(!q.drain_batch(&mut out));
    assert_eq!(out, vec![1, 2, 3, 4, 5, 6, 7, 8, 9, 10]);
    assert_eq!(q.try_pop(), None);
}

#[test]
fn overrun_drops_exactly_the_samples_past_capacity() {
    let mut q = SampleQueue::with_capacity(4);
    let batch: Vec<u32> = vec![10, 20, 30, 40, 50];
    assert!(q.feed_batch(&batch));
    // The first `capacity` samples remain retrievable in order; the last is gone.
    for &s in &[10u32, 20, 30, 40] {
        assert_eq!(q.try_pop(), Some(s));
    }
    assert_eq!(q.try_pop(), None);
}

#[test]
fn feed_batch_without_overrun_raises_no_flag() {
    let mut q = SampleQueue::with_capacity(4);
    let batch: Vec<u32> = vec![10, 20, 30, 40];
    assert!(!q.feed_batch(&batch));
}

#[test]
fn underrun_substitutes_exact_silence() {
    let mut q = SampleQueue::with_capacity(4);
    let mut out: Vec<u32> = vec![77; 3];
    assert!(q.drain_batch(&mut out));
    assert_eq!(out, vec![SILENCE; 3]);
}

#[test]
fn underrun_fills_tail_slots_with_silence_after_real_samples() {
    let mut q = SampleQueue::with_capacity(4);
    assert!(q.try_push(5));
    assert!(q.try_push(6));
    let mut out: Vec<u32> = vec![77; 5];
    assert!(q.drain_batch(&mut out));
    assert_eq!(out, vec![5, 6, SILENCE, SILENCE, SILENCE]);
}

#[test]
fn interleaved_pushes_and_pops_lose_nothing() {
    // An arbitrary interleaving of single pushes and pops that never fills
    // the queue: delivery stays a prefix of the pushed stream throughout.
    let mut q = SampleQueue::with_capacity(4);
    assert!(q.try_push(1));
    assert!(q.try_push(2));
    assert_eq!(q.try_pop(), Some(1));
    assert!(q.try_push(3));
    assert!(q.try_push(4));
    assert_eq!(q.try_pop(), Some(2));
    assert_eq!(q.try_pop(), Some(3));
    assert!(q.try_push(5));
    assert_eq!(q.try_pop(), Some(4));
    assert_eq!(q.try_pop(), Some(5));
    assert_eq!(q.try_pop(), None);
}

#[test]
fn drain_of_zero_slots_flags_nothing() {
    let mut q = SampleQueue::with_capacity(4);
    let mut out: Vec<u32> = Vec::new();
    assert!(!q.drain_batch(&mut out));
    assert!(out.is_empty());
}
