//! GetCapabilities capability IDs.

use vstd::prelude::*;

verus! {

/// `COMPANY_ID` GetCapabilities capability ID.
pub const COMPANY_ID: u8 = 0x02;

/// `EVENTS_SUPPORTED` GetCapabilities capability ID.
pub const EVENTS_SUPPORTED: u8 = 0x03;

} // verus!
