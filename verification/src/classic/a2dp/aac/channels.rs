//! AAC channel-count capability bits.

use vstd::prelude::*;

verus! {

/// One channel (mono).
pub const MONO: u8 = 0x02;

/// Two channels (stereo).
pub const STEREO: u8 = 0x01;

} // verus!
