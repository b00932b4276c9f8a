//! Error codes of rejects.

use vstd::prelude::*;

verus! {

pub const BAD_HEADER_FORMAT: u8 = 0x01;

pub const BAD_LENGTH: u8 = 0x11;

pub const BAD_ACP_SEID: u8 = 0x12;

pub const SEP_IN_USE: u8 = 0x13;

pub const SEP_NOT_IN_USE: u8 = 0x14;

pub const BAD_SERV_CATEGORY: u8 = 0x17;

pub const BAD_PAYLOAD_FORMAT: u8 = 0x18;

pub const NOT_SUPPORTED_COMMAND: u8 = 0x19;

pub const INVALID_CAPABILITIES: u8 = 0x1A;

pub const BAD_RECOVERY_TYPE: u8 = 0x22;

pub const BAD_MEDIA_TRANSPORT_FORMAT: u8 = 0x23;

pub const BAD_RECOVERY_FORMAT: u8 = 0x25;

pub const BAD_ROHC_FORMAT: u8 = 0x26;

pub const BAD_CP_FORMAT: u8 = 0x27;

pub const BAD_MULTIPLEXING_FORMAT: u8 = 0x28;

pub const UNSUPPORTED_CONFIGURATION: u8 = 0x29;

pub const BAD_STATE: u8 = 0x31;

} // verus!
