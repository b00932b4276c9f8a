//! SBC sampling-frequency capability bits.

use vstd::prelude::*;

verus! {

/// 16 kHz.
pub const SF_16000: u8 = 0x08;

/// 32 kHz.
pub const SF_32000: u8 = 0x04;

/// 44.1 kHz.
pub const SF_44100: u8 = 0x02;

/// 48 kHz.
pub const SF_48000: u8 = 0x01;

} // verus!
