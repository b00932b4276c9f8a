//! SDP PDU identifiers.

use vstd::prelude::*;

verus! {

/// SDP_ErrorResponse.
pub const ERROR_RESPONSE: u8 = 0x01;

/// SDP_ServiceSearchRequest.
pub const SERVICE_SEARCH_REQUEST: u8 = 0x02;

/// SDP_ServiceSearchResponse.
pub const SERVICE_SEARCH_RESPONSE: u8 = 0x03;

/// SDP_ServiceAttributeRequest.
pub const SERVICE_ATTRIBUTE_REQUEST: u8 = 0x04;

/// SDP_ServiceAttributeResponse.
pub const SERVICE_ATTRIBUTE_RESPONSE: u8 = 0x05;

/// SDP_ServiceSearchAttributeRequest.
pub const SERVICE_SEARCH_ATTRIBUTE_REQUEST: u8 = 0x06;

/// SDP_ServiceSearchAttributeResponse.
pub const SERVICE_SEARCH_ATTRIBUTE_RESPONSE: u8 = 0x07;

} // verus!
