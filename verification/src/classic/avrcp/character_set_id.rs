//! Character set IDs (MIBenum values; UTF-8 is mandatory).

use vstd::prelude::*;

verus! {

/// `UTF_8` character set.
pub const UTF_8: u16 = 0x006A;

} // verus!
