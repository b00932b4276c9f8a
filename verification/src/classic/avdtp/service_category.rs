//! Service categories.

use vstd::prelude::*;

verus! {

pub const MEDIA_TRANSPORT: u8 = 0x01;

pub const REPORTING: u8 = 0x02;

pub const RECOVERY: u8 = 0x03;

pub const CONTENT_PROTECTION: u8 = 0x04;

pub const HEADER_COMPRESSION: u8 = 0x05;

pub const MULTIPLEXING: u8 = 0x06;

pub const MEDIA_CODEC: u8 = 0x07;

pub const DELAY_REPORTING: u8 = 0x08;

} // verus!
