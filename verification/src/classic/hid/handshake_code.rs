//! Result codes of handshakes.

use vstd::prelude::*;

verus! {

/// Transaction completed successfully.
pub const SUCCESSFUL: u8 = 0x00;

/// Device not ready.
pub const NOT_READY: u8 = 0x01;

/// Invalid report ID.
pub const ERR_INVALID_REPORT_ID: u8 = 0x02;

/// Unsupported request.
pub const ERR_UNSUPPORTED_REQUEST: u8 = 0x03;

/// Invalid parameter.
pub const ERR_INVALID_PARAMETER: u8 = 0x04;

/// Unspecified error.
pub const ERR_UNKNOWN: u8 = 0x0E;

/// Fatal, unrecoverable error.
pub const ERR_FATAL: u8 = 0x0F;

} // verus!
