//! Play status values.

use vstd::prelude::*;

verus! {

/// `STOPPED` play status.
pub const STOPPED: u8 = 0x00;

/// `PLAYING` play status.
pub const PLAYING: u8 = 0x01;

/// `PAUSED` play status.
pub const PAUSED: u8 = 0x02;

/// `FWD_SEEK` play status.
pub const FWD_SEEK: u8 = 0x03;

/// `REV_SEEK` play status.
pub const REV_SEEK: u8 = 0x04;

/// `ERROR` play status.
pub const ERROR: u8 = 0xFF;

} // verus!
