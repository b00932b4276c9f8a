//! AV/C operation codes.

use vstd::prelude::*;

verus! {

pub const VENDOR_DEPENDENT: u8 = 0x00;

pub const RESERVE: u8 = 0x01;

pub const PLUG_INFO: u8 = 0x02;

pub const DIGITAL_OUTPUT: u8 = 0x10;

pub const DIGITAL_INPUT: u8 = 0x11;

pub const CHANNEL_USAGE: u8 = 0x12;

pub const OUTPUT_PLUG_SIGNAL_FORMAT: u8 = 0x18;

pub const INPUT_PLUG_SIGNAL_FORMAT: u8 = 0x19;

pub const GENERAL_BUS_SETUP: u8 = 0x1F;

pub const CONNECT_AV: u8 = 0x20;

pub const DISCONNECT_AV: u8 = 0x21;

pub const CONNECTIONS: u8 = 0x22;

pub const CONNECT: u8 = 0x24;

pub const DISCONNECT: u8 = 0x25;

pub const UNIT_INFO: u8 = 0x30;

pub const SUBUNIT_INFO: u8 = 0x31;

pub const PASS_THROUGH: u8 = 0x7C;

pub const GUI_UPDATE: u8 = 0x7D;

pub const PUSH_GUI_DATA: u8 = 0x7E;

pub const USER_ACTION: u8 = 0x7F;

pub const VERSION: u8 = 0xB0;

pub const POWER: u8 = 0xB2;

} // verus!
