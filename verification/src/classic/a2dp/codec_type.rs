//! Media codec types.

use vstd::prelude::*;

verus! {

/// SBC, the mandatory A2DP codec.
pub const SBC: u8 = 0x00;

/// MPEG-1/2 Audio (MP3).
pub const MPEG_1_2_AUDIO: u8 = 0x01;

/// MPEG-2/4 AAC.
pub const MPEG_2_4_AAC: u8 = 0x02;

/// ATRAC family.
pub const ATRAC_FAMILY: u8 = 0x03;

/// Vendor-specific (non-A2DP) codec.
pub const NON_A2DP: u8 = 0xFF;

} // verus!
