//! Opus channel-mode capability bits.

use vstd::prelude::*;

verus! {

/// Mono.
pub const MONO: u8 = 0x01;

/// Stereo.
pub const STEREO: u8 = 0x02;

/// Dual mono.
pub const DUAL_MONO: u8 = 0x04;

} // verus!
