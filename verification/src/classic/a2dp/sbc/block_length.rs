//! SBC block-length capability bits.

use vstd::prelude::*;

verus! {

/// 4 blocks.
pub const BL_4: u8 = 0x08;

/// 8 blocks.
pub const BL_8: u8 = 0x04;

/// 12 blocks.
pub const BL_12: u8 = 0x02;

/// 16 blocks.
pub const BL_16: u8 = 0x01;

} // verus!
