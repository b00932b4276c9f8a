//! PASS THROUGH operation identifiers.

use vstd::prelude::*;

verus! {

pub const SELECT: u8 = 0x00;

pub const UP: u8 = 0x01;

pub const DOWN: u8 = 0x02;

pub const LEFT: u8 = 0x03;

pub const RIGHT: u8 = 0x04;

pub const RIGHT_UP: u8 = 0x05;

pub const RIGHT_DOWN: u8 = 0x06;

pub const LEFT_UP: u8 = 0x07;

pub const LEFT_DOWN: u8 = 0x08;

pub const ROOT_MENU: u8 = 0x09;

pub const SETUP_MENU: u8 = 0x0A;

pub const CONTENTS_MENU: u8 = 0x0B;

pub const FAVORITE_MENU: u8 = 0x0C;

pub const EXIT: u8 = 0x0D;

pub const NUMBER_0: u8 = 0x20;

pub const NUMBER_1: u8 = 0x21;

pub const NUMBER_2: u8 = 0x22;

pub const NUMBER_3: u8 = 0x23;

pub const NUMBER_4: u8 = 0x24;

pub const NUMBER_5: u8 = 0x25;

pub const NUMBER_6: u8 = 0x26;

pub const NUMBER_7: u8 = 0x27;

pub const NUMBER_8: u8 = 0x28;

pub const NUMBER_9: u8 = 0x29;

pub const DOT: u8 = 0x2A;

pub const ENTER: u8 = 0x2B;

pub const CLEAR: u8 = 0x2C;

pub const CHANNEL_UP: u8 = 0x30;

pub const CHANNEL_DOWN: u8 = 0x31;

pub const PREVIOUS_CHANNEL: u8 = 0x32;

pub const SOUND_SELECT: u8 = 0x33;

pub const INPUT_SELECT: u8 = 0x34;

pub const DISPLAY_INFORMATION: u8 = 0x35;

pub const HELP: u8 = 0x36;

pub const PAGE_UP: u8 = 0x37;

pub const PAGE_DOWN: u8 = 0x38;

pub const POWER: u8 = 0x40;

pub const VOLUME_UP: u8 = 0x41;

pub const VOLUME_DOWN: u8 = 0x42;

pub const MUTE: u8 = 0x43;

pub const PLAY: u8 = 0x44;

pub const STOP: u8 = 0x45;

pub const PAUSE: u8 = 0x46;

pub const RECORD: u8 = 0x47;

pub const REWIND: u8 = 0x48;

pub const FAST_FORWARD: u8 = 0x49;

pub const EJECT: u8 = 0x4A;

pub const FORWARD: u8 = 0x4B;

pub const BACKWARD: u8 = 0x4C;

pub const ANGLE: u8 = 0x50;

pub const SUBPICTURE: u8 = 0x51;

pub const F1: u8 = 0x71;

pub const F2: u8 = 0x72;

pub const F3: u8 = 0x73;

pub const F4: u8 = 0x74;

pub const F5: u8 = 0x75;

pub const VENDOR_UNIQUE: u8 = 0x7E;

} // verus!
