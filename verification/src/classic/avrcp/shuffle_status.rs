//! Shuffle setting values.

use vstd::prelude::*;

verus! {

/// `OFF` shuffle setting value.
pub const OFF: u8 = 0x01;

/// `ALL_TRACKS_SHUFFLE` shuffle setting value.
pub const ALL_TRACKS_SHUFFLE: u8 = 0x02;

/// `GROUP_SHUFFLE` shuffle setting value.
pub const GROUP_SHUFFLE: u8 = 0x03;

} // verus!
