//! HID over Bluetooth Classic: the transactions between a host and a device
//! such as a keyboard, over a control and an interrupt channel.
//!
//! [`HidMessage`] is the wire format: a byte with the message type and a
//! parameter, and a payload. [`HidDevice`] and [`HidHost`] are synchronous
//! state machines: the device answers control transactions from the reports
//! that it stores, the host builds requests and interprets answers.

pub mod attribute_id;
pub mod control_command;
pub mod device;
pub mod finder_laws;
pub mod handshake_code;
pub mod host;
pub mod message;
pub mod message_type;
pub mod packet_laws;
pub mod protocol_mode;
pub mod report_type;
pub mod service;

pub use device::{HidDevice, HidDeviceEvent};
pub use host::{HidHost, HidHostEvent};
pub use message::{receive_interrupt, HidMessage, InterruptData};
pub use service::{
    connect_control_channel,
    connect_interrupt_channel,
    find_hid_report_descriptor,
    make_service_sdp_records,
    register_psms,
};

use vstd::prelude::*;

verus! {

/// Well-known PSM of the control channel.
pub const HID_CONTROL_PSM: u16 = 0x0011;

/// Well-known PSM of the interrupt channel.
pub const HID_INTERRUPT_PSM: u16 = 0x0013;

/// Human Interface Device service class UUID.
pub const HID_SERVICE_CLASS: u16 = 0x1124;

/// HIDP protocol UUID, for protocol descriptor lists.
pub const HIDP_PROTOCOL_ID: u16 = 0x0011;

/// Profile version 1.1.
pub const HID_PROFILE_VERSION: u16 = 0x0101;

/// Parser version 1.1.1.
pub const HID_PARSER_VERSION: u16 = 0x0111;

/// The type of a report descriptor.
pub const REPORT_DESCRIPTOR_TYPE: u16 = 0x22;

/// The subclass of a combined keyboard and pointing device.
pub const DEVICE_SUBCLASS_COMBO: u8 = 0xC0;

} // verus!
