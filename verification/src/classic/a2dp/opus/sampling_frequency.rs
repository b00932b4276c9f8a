//! Opus sampling-frequency capability bits.

use vstd::prelude::*;

verus! {

/// 48 kHz.
pub const SF_48000: u8 = 0x01;

} // verus!
