//! Signal identifiers.

use vstd::prelude::*;

verus! {

pub const DISCOVER: u8 = 0x01;

pub const GET_CAPABILITIES: u8 = 0x02;

pub const SET_CONFIGURATION: u8 = 0x03;

pub const GET_CONFIGURATION: u8 = 0x04;

pub const RECONFIGURE: u8 = 0x05;

pub const OPEN: u8 = 0x06;

pub const START: u8 = 0x07;

pub const CLOSE: u8 = 0x08;

pub const SUSPEND: u8 = 0x09;

pub const ABORT: u8 = 0x0A;

pub const SECURITY_CONTROL: u8 = 0x0B;

pub const GET_ALL_CAPABILITIES: u8 = 0x0C;

pub const DELAYREPORT: u8 = 0x0D;

} // verus!
