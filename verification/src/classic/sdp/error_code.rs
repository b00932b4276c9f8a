//! SDP error codes.

use vstd::prelude::*;

verus! {

/// Invalid or unsupported SDP version.
pub const INVALID_SDP_VERSION: u16 = 0x0001;

/// Invalid service record handle.
pub const INVALID_SERVICE_RECORD_HANDLE: u16 = 0x0002;

/// Invalid request syntax.
pub const INVALID_REQUEST_SYNTAX: u16 = 0x0003;

/// Invalid PDU size.
pub const INVALID_PDU_SIZE: u16 = 0x0004;

/// Invalid continuation state.
pub const INVALID_CONTINUATION_STATE: u16 = 0x0005;

/// Insufficient resources to satisfy the request.
pub const INSUFFICIENT_RESOURCES_TO_SATISFY_REQUEST: u16 = 0x0006;

} // verus!
