//! Equalizer setting values.

use vstd::prelude::*;

verus! {

/// `OFF` equalizer setting value.
pub const OFF: u8 = 0x01;

/// `ON` equalizer setting value.
pub const ON: u8 = 0x02;

} // verus!
