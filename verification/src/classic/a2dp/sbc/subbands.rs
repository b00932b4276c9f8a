//! SBC subband-count capability bits.

use vstd::prelude::*;

verus! {

/// 4 subbands.
pub const S_4: u8 = 0x02;

/// 8 subbands.
pub const S_8: u8 = 0x01;

} // verus!
