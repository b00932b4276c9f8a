//! Battery status values for InformBatteryStatusOfCT.

use vstd::prelude::*;

verus! {

/// `NORMAL` battery status for InformBatteryStatusOfCT.
pub const NORMAL: u8 = 0x00;

/// `WARNING` battery status for InformBatteryStatusOfCT.
pub const WARNING: u8 = 0x01;

/// `CRITICAL` battery status for InformBatteryStatusOfCT.
pub const CRITICAL: u8 = 0x02;

/// `EXTERNAL` battery status for InformBatteryStatusOfCT.
pub const EXTERNAL: u8 = 0x03;

/// `FULL_CHARGE` battery status for InformBatteryStatusOfCT.
pub const FULL_CHARGE: u8 = 0x04;

} // verus!
