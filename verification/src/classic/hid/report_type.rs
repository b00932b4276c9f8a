//! Report types.

use vstd::prelude::*;

verus! {

/// Other (untyped) report.
pub const OTHER: u8 = 0x00;

/// Input report (device to host).
pub const INPUT: u8 = 0x01;

/// Output report (host to device).
pub const OUTPUT: u8 = 0x02;

/// Feature report.
pub const FEATURE: u8 = 0x03;

} // verus!
