//! Universal service attribute identifiers.

use vstd::prelude::*;

verus! {

/// ServiceRecordHandle attribute.
pub const SERVICE_RECORD_HANDLE: u16 = 0x0000;

/// ServiceClassIDList attribute.
pub const SERVICE_CLASS_ID_LIST: u16 = 0x0001;

/// ServiceRecordState attribute.
pub const SERVICE_RECORD_STATE: u16 = 0x0002;

/// ServiceID attribute.
pub const SERVICE_ID: u16 = 0x0003;

/// ProtocolDescriptorList attribute.
pub const PROTOCOL_DESCRIPTOR_LIST: u16 = 0x0004;

/// BrowseGroupList attribute.
pub const BROWSE_GROUP_LIST: u16 = 0x0005;

/// LanguageBaseAttributeIDList attribute.
pub const LANGUAGE_BASE_ATTRIBUTE_ID_LIST: u16 = 0x0006;

/// ServiceInfoTimeToLive attribute.
pub const SERVICE_INFO_TIME_TO_LIVE: u16 = 0x0007;

/// ServiceAvailability attribute.
pub const SERVICE_AVAILABILITY: u16 = 0x0008;

/// BluetoothProfileDescriptorList attribute.
pub const BLUETOOTH_PROFILE_DESCRIPTOR_LIST: u16 = 0x0009;

/// DocumentationURL attribute.
pub const DOCUMENTATION_URL: u16 = 0x000A;

/// ClientExecutableURL attribute.
pub const CLIENT_EXECUTABLE_URL: u16 = 0x000B;

/// IconURL attribute.
pub const ICON_URL: u16 = 0x000C;

/// AdditionalProtocolDescriptorList attribute.
pub const ADDITIONAL_PROTOCOL_DESCRIPTOR_LIST: u16 = 0x000D;

} // verus!
