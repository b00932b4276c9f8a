//! AAC object-type capability bits.

use vstd::prelude::*;

verus! {

/// MPEG-2 AAC LC.
pub const MPEG_2_AAC_LC: u8 = 0x80;

/// MPEG-4 AAC LC.
pub const MPEG_4_AAC_LC: u8 = 0x40;

/// MPEG-4 AAC LTP.
pub const MPEG_4_AAC_LTP: u8 = 0x20;

/// MPEG-4 AAC Scalable.
pub const MPEG_4_AAC_SCALABLE: u8 = 0x10;

} // verus!
