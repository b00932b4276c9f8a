//! Bits of Opus capabilities.

pub mod channel_mode;
pub mod frame_size;
pub mod sampling_frequency;
