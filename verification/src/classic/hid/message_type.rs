//! Message types: the high nibble of the header.

use vstd::prelude::*;

verus! {

/// HANDSHAKE transaction.
pub const HANDSHAKE: u8 = 0x00;

/// HID_CONTROL transaction.
pub const CONTROL: u8 = 0x01;

/// GET_REPORT transaction.
pub const GET_REPORT: u8 = 0x04;

/// SET_REPORT transaction.
pub const SET_REPORT: u8 = 0x05;

/// GET_PROTOCOL transaction.
pub const GET_PROTOCOL: u8 = 0x06;

/// SET_PROTOCOL transaction.
pub const SET_PROTOCOL: u8 = 0x07;

/// DATA transaction (report transfer).
pub const DATA: u8 = 0x0A;

} // verus!
