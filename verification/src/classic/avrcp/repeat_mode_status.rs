//! Repeat mode setting values.

use vstd::prelude::*;

verus! {

/// `OFF` repeat mode setting value.
pub const OFF: u8 = 0x01;

/// `SINGLE_TRACK_REPEAT` repeat mode setting value.
pub const SINGLE_TRACK_REPEAT: u8 = 0x02;

/// `ALL_TRACK_REPEAT` repeat mode setting value.
pub const ALL_TRACK_REPEAT: u8 = 0x03;

/// `GROUP_REPEAT` repeat mode setting value.
pub const GROUP_REPEAT: u8 = 0x04;

} // verus!
