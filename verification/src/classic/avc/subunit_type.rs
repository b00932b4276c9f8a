//! AV/C subunit types.

use vstd::prelude::*;

verus! {

pub const MONITOR: u8 = 0x00;

pub const AUDIO: u8 = 0x01;

pub const PRINTER: u8 = 0x02;

pub const DISC: u8 = 0x03;

pub const TAPE_RECORDER_OR_PLAYER: u8 = 0x04;

pub const TUNER: u8 = 0x05;

pub const CA: u8 = 0x06;

pub const CAMERA: u8 = 0x07;

pub const PANEL: u8 = 0x09;

pub const BULLETIN_BOARD: u8 = 0x0A;

pub const VENDOR_UNIQUE: u8 = 0x1C;

pub const EXTENDED: u8 = 0x1E;

pub const UNIT: u8 = 0x1F;

} // verus!
