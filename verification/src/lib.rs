//! Real-time audio pass-through core.
//!
//! Live samples captured from an input device are handed to an output device
//! through a fixed-capacity single-producer/single-consumer queue, primed with
//! a configurable cushion of silence to absorb scheduling jitter and clock
//! drift between the two callback streams.
//!
//! Samples cross the core as raw 32-bit words (the bit pattern of a 32-bit
//! float amplitude); the device layer owns amplitude format conversion, and
//! the silent sample is the all-zero word.

pub mod batch;
pub mod pipeline;
pub mod queue;
