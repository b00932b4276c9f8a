//! Frame types: the control field without the P/F bit.

use vstd::prelude::*;

verus! {

/// Sets up a DLC, or the multiplexer on DLCI 0.
pub const SABM: u8 = 0x2F;

/// Acknowledges SABM or DISC.
pub const UA: u8 = 0x63;

/// Disconnected mode: rejects a connection.
pub const DM: u8 = 0x0F;

/// Tears down a DLC or the multiplexer.
pub const DISC: u8 = 0x43;

/// Information with a check of the header alone (data and control commands).
pub const UIH: u8 = 0xEF;

/// Information (not used here).
pub const UI: u8 = 0x03;

} // verus!
