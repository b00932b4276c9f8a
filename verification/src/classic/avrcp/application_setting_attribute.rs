//! Player application setting attribute IDs.

use vstd::prelude::*;

verus! {

/// `EQUALIZER_ON_OFF` player application setting attribute.
pub const EQUALIZER_ON_OFF: u8 = 0x01;

/// `REPEAT_MODE` player application setting attribute.
pub const REPEAT_MODE: u8 = 0x02;

/// `SHUFFLE_ON_OFF` player application setting attribute.
pub const SHUFFLE_ON_OFF: u8 = 0x03;

/// `SCAN_ON_OFF` player application setting attribute.
pub const SCAN_ON_OFF: u8 = 0x04;

} // verus!
