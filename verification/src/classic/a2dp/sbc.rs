//! Bits of SBC capabilities.

pub mod allocation_method;
pub mod block_length;
pub mod channel_mode;
pub mod sampling_frequency;
pub mod subbands;
