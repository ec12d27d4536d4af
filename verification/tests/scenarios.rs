use feedback::pipeline::{compute_prime_count, new_pipeline, primed_queue};
use feedback::queue::{SampleQueue, SILENCE};

#[test]
fn prime_count_rounds_the_frame_count_half_up() {
    // 1 ms at 1500 samples/s is 1.5 frames: rounds up to 2.
    assert_eq!(compute_prime_count(1500, 1, 1), 2);
    // 1 ms at 1400 samples/s is 1.4 frames: rounds down to 1.
    assert_eq!(compute_prime_count(1400, 1, 1), 1);
    // 2 ms at 48000 samples/s, stereo: 96 frames, 192 samples.
    assert_eq!(compute_prime_count(48000, 2, 2), 192);
}

#[test]
fn priming_fills_exactly_the_cushion_with_silence() {
    // latency_ms = 2, sample_rate = 48000, channels = 2:
    // round(2/1000 * 48000) * 2 = 192 samples, capacity twice that.
    let mut q = primed_queue(48000, 2, 2);
    assert_eq!(q.capacity(), 384);
    for _ in 0..192 {
        assert_eq!(q.try_pop(), Some(SILENCE));
    }
    assert_eq!(q.try_pop(), None);
}

#[test]
fn steady_state_run_raises_no_flags() {
    // Two frames of latency at 48 kHz stereo: cushion 192, capacity 384.
    let mut q = primed_queue(48000, 2, 2);
    let mut next_in: u32 = 1;
    let mut next_out_index: u64 = 0;
    for _ in 0..1000 {
        let mut batch: Vec<u32> = Vec::with_capacity(64);
        for _ in 0..64 {
            batch.push(next_in);
            next_in += 1;
        }
        assert!(!q.feed_batch(&batch));
        let mut out: Vec<u32> = vec![u32::MAX; 64];
        assert!(!q.drain_batch(&mut out));
        // Playback sees the capture stream intact, delayed by the cushion.
        for &slot in &out {
            let expected = if next_out_index < 192 {
                SILENCE
            } else {
                (next_out_index - 192 + 1) as u32
            };
            assert_eq!(slot, expected);
            next_out_index += 1;
        }
    }
}

#[test]
fn drift_run_overruns_exactly_when_capacity_would_be_exceeded() {
    // Producer 64 samples per tick, consumer 63 slots per tick: occupancy
    // grows by one each tick from the 192-sample cushion until the batch that
    // would pass the 384-sample capacity, at tick 130.
    let mut q = primed_queue(48000, 2, 2);
    let mut occupancy: usize = 192;
    let mut first_overrun_tick: Option<usize> = None;
    for tick in 1..=130 {
        let batch: Vec<u32> = vec![8; 64];
        let overrun = q.feed_batch(&batch);
        if overrun && first_overrun_tick.is_none() {
            first_overrun_tick = Some(tick);
        }
        assert_eq!(overrun, occupancy + 64 > 384);
        occupancy = (occupancy + 64).min(384);
        let mut out: Vec<u32> = vec![0; 63];
        assert!(!q.drain_batch(&mut out));
        occupancy -= 63;
    }
    assert_eq!(first_overrun_tick, Some(130));
}

#[test]
fn pipeline_handles_pass_samples_through_in_order() {
    let (mut feeder, mut drainer) = new_pipeline(48000, 2, 2);
    let batch: Vec<u32> = vec![101, 102, 103];
    assert!(!feeder.feed(&batch));
    // The cushion drains first, then the fed samples, in order.
    let mut out: Vec<u32> = vec![u32::MAX; 192];
    assert!(!drainer.drain(&mut out));
    assert_eq!(out, vec![SILENCE; 192]);
    let mut tail: Vec<u32> = vec![u32::MAX; 3];
    assert!(!drainer.drain(&mut tail));
    assert_eq!(tail, vec![101, 102, 103]);
    // One more slot than is queued: silence and an underrun report.
    let mut empty: Vec<u32> = vec![u32::MAX; 1];
    assert!(drainer.drain(&mut empty));
    assert_eq!(empty, vec![SILENCE]);
}

#[test]
fn pipeline_handles_report_overrun_when_the_buffer_is_full() {
    let (mut feeder, _drainer) = new_pipeline(48000, 2, 2);
    // The cushion occupies half the 384-sample capacity; 192 more fit.
    assert!(!feeder.feed(&vec![3; 192]));
    assert!(feeder.feed(&vec![4; 1]));
}

#[test]
fn single_pushes_and_pops_through_the_handles() {
    let (mut feeder, mut drainer) = new_pipeline(1000, 1, 1);
    // Cushion is one sample, capacity two.
    assert_eq!(drainer.pop_sample(), Some(SILENCE));
    assert!(feeder.push_sample(41));
    assert!(feeder.push_sample(42));
    assert!(!feeder.push_sample(43));
    assert_eq!(drainer.pop_sample(), Some(41));
    assert_eq!(drainer.pop_sample(), Some(42));
    assert_eq!(drainer.pop_sample(), None);
}

#[test]
fn teardown_after_both_handles_are_dropped() {
    let (mut feeder, mut drainer) = new_pipeline(48000, 2, 2);
    assert!(!feeder.feed(&vec![7; 8]));
    let mut out: Vec<u32> = vec![0; 8];
    assert!(!drainer.drain(&mut out));
    assert_eq!(out, vec![SILENCE; 8]);
    // With no invocation in flight, dropping both handles releases the
    // backing storage; nothing can touch it afterwards.
    drop(feeder);
    drop(drainer);
}

#[test]
fn queue_survives_wraparound_of_the_ring() {
    // Push and pop repeatedly so the cursors wrap the ring several times.
    let mut q = SampleQueue::with_capacity(5);
    let mut next: u32 = 0;
    let mut expect: u32 = 0;
    for _ in 0..7 {
        for _ in 0..4 {
            assert!(q.try_push(next));
            next += 1;
        }
        for _ in 0..4 {
            assert_eq!(q.try_pop(), Some(expect));
            expect += 1;
        }
    }
    assert_eq!(q.try_pop(), None);
}
