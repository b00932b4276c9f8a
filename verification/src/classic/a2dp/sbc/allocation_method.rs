//! SBC bit-allocation-method capability bits.

use vstd::prelude::*;

verus! {

/// SNR allocation.
pub const SNR: u8 = 0x02;

/// Loudness allocation.
pub const LOUDNESS: u8 = 0x01;

} // verus!
