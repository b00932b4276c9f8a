//! Attribute IDs of HID service records.

use vstd::prelude::*;

verus! {

/// HIDParserVersion attribute.
pub const HID_PARSER_VERSION: u16 = 0x0201;

/// HIDDeviceSubclass attribute.
pub const HID_DEVICE_SUBCLASS: u16 = 0x0202;

/// HIDCountryCode attribute.
pub const HID_COUNTRY_CODE: u16 = 0x0203;

/// HIDVirtualCable attribute.
pub const HID_VIRTUAL_CABLE: u16 = 0x0204;

/// HIDReconnectInitiate attribute.
pub const HID_RECONNECT_INITIATE: u16 = 0x0205;

/// HIDDescriptorList attribute (carries the report descriptors).
pub const HID_DESCRIPTOR_LIST: u16 = 0x0206;

/// HIDLANGIDBaseList attribute.
pub const HID_LANGID_BASE_LIST: u16 = 0x0207;

/// HIDBootDevice attribute.
pub const HID_BOOT_DEVICE: u16 = 0x020E;

} // verus!
