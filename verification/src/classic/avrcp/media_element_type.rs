//! Media types for `MediaElementItem`.

use vstd::prelude::*;

verus! {

/// `AUDIO` media type.
pub const AUDIO: u8 = 0x00;

/// `VIDEO` media type.
pub const VIDEO: u8 = 0x01;

} // verus!
