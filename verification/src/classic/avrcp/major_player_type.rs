//! Major player types for `MediaPlayerItem`.

use vstd::prelude::*;

verus! {

/// `AUDIO` major player type.
pub const AUDIO: u8 = 0x01;

/// `VIDEO` major player type.
pub const VIDEO: u8 = 0x02;

/// `BROADCASTING_AUDIO` major player type.
pub const BROADCASTING_AUDIO: u8 = 0x04;

/// `BROADCASTING_VIDEO` major player type.
pub const BROADCASTING_VIDEO: u8 = 0x08;

} // verus!
