//! AAC sampling-frequency capability bits.

use vstd::prelude::*;

verus! {

/// 8 kHz.
pub const SF_8000: u16 = 0x0800;

/// 11.025 kHz.
pub const SF_11025: u16 = 0x0400;

/// 12 kHz.
pub const SF_12000: u16 = 0x0200;

/// 16 kHz.
pub const SF_16000: u16 = 0x0100;

/// 22.05 kHz.
pub const SF_22050: u16 = 0x0080;

/// 24 kHz.
pub const SF_24000: u16 = 0x0040;

/// 32 kHz.
pub const SF_32000: u16 = 0x0020;

/// 44.1 kHz.
pub const SF_44100: u16 = 0x0010;

/// 48 kHz.
pub const SF_48000: u16 = 0x0008;

/// 64 kHz.
pub const SF_64000: u16 = 0x0004;

/// 88.2 kHz.
pub const SF_88200: u16 = 0x0002;

/// 96 kHz.
pub const SF_96000: u16 = 0x0001;

} // verus!
