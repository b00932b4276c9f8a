//! ChangePath directions.

use vstd::prelude::*;

verus! {

/// `UP` ChangePath direction.
pub const UP: u8 = 0x00;

/// `DOWN` ChangePath direction.
pub const DOWN: u8 = 0x01;

} // verus!
