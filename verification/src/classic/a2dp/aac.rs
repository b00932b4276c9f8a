//! Bits of AAC capabilities.

pub mod channels;
pub mod object_type;
pub mod sampling_frequency;
