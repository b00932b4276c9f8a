//! Control operations.

use vstd::prelude::*;

verus! {

/// Suspend the device.
pub const SUSPEND: u8 = 0x03;

/// Resume from suspend.
pub const EXIT_SUSPEND: u8 = 0x04;

/// Tear down the virtual cable.
pub const VIRTUAL_CABLE_UNPLUG: u8 = 0x05;

} // verus!
