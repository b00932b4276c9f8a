//! Scan setting values.

use vstd::prelude::*;

verus! {

/// `OFF` scan setting value.
pub const OFF: u8 = 0x01;

/// `ALL_TRACKS_SCAN` scan setting value.
pub const ALL_TRACKS_SCAN: u8 = 0x02;

/// `GROUP_SCAN` scan setting value.
pub const GROUP_SCAN: u8 = 0x03;

} // verus!
