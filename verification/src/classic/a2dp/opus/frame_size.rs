//! Opus frame-size capability bits.

use vstd::prelude::*;

verus! {

/// 10 ms frames.
pub const FS_10MS: u8 = 0x01;

/// 20 ms frames.
pub const FS_20MS: u8 = 0x02;

} // verus!
