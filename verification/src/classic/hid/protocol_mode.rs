//! Protocol modes.

use vstd::prelude::*;

verus! {

/// Boot Protocol mode.
pub const BOOT: u8 = 0x00;

/// Report Protocol mode.
pub const REPORT: u8 = 0x01;

} // verus!
