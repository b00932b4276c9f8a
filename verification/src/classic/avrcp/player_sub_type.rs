//! Player sub-types for `MediaPlayerItem`.

use vstd::prelude::*;

verus! {

/// `AUDIO_BOOK` player sub-type.
pub const AUDIO_BOOK: u32 = 0x01;

/// `PODCAST` player sub-type.
pub const PODCAST: u32 = 0x02;

} // verus!
