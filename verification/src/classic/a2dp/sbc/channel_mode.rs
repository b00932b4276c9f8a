//! SBC channel-mode capability bits.

use vstd::prelude::*;

verus! {

/// Mono.
pub const MONO: u8 = 0x08;

/// Dual channel.
pub const DUAL_CHANNEL: u8 = 0x04;

/// Stereo.
pub const STEREO: u8 = 0x02;

/// Joint stereo.
pub const JOINT_STEREO: u8 = 0x01;

} // verus!
