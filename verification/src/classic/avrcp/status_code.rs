//! Status codes for REJECTED responses.

use vstd::prelude::*;

verus! {

/// `INVALID_COMMAND` REJECTED status code.
pub const INVALID_COMMAND: u8 = 0x00;

/// `INVALID_PARAMETER` REJECTED status code.
pub const INVALID_PARAMETER: u8 = 0x01;

/// `PARAMETER_CONTENT_ERROR` REJECTED status code.
pub const PARAMETER_CONTENT_ERROR: u8 = 0x02;

/// `INTERNAL_ERROR` REJECTED status code.
pub const INTERNAL_ERROR: u8 = 0x03;

/// `OPERATION_COMPLETED` REJECTED status code.
pub const OPERATION_COMPLETED: u8 = 0x04;

/// `UID_CHANGED` REJECTED status code.
pub const UID_CHANGED: u8 = 0x05;

/// `INVALID_DIRECTION` REJECTED status code.
pub const INVALID_DIRECTION: u8 = 0x07;

/// `NOT_A_DIRECTORY` REJECTED status code.
pub const NOT_A_DIRECTORY: u8 = 0x08;

/// `DOES_NOT_EXIST` REJECTED status code.
pub const DOES_NOT_EXIST: u8 = 0x09;

/// `INVALID_SCOPE` REJECTED status code.
pub const INVALID_SCOPE: u8 = 0x0A;

/// `RANGE_OUT_OF_BOUNDS` REJECTED status code.
pub const RANGE_OUT_OF_BOUNDS: u8 = 0x0B;

/// `FOLDER_ITEM_IS_NOT_PLAYABLE` REJECTED status code.
pub const FOLDER_ITEM_IS_NOT_PLAYABLE: u8 = 0x0C;

/// `MEDIA_IN_USE` REJECTED status code.
pub const MEDIA_IN_USE: u8 = 0x0D;

/// `NOW_PLAYING_LIST_FULL` REJECTED status code.
pub const NOW_PLAYING_LIST_FULL: u8 = 0x0E;

/// `SEARCH_NOT_SUPPORTED` REJECTED status code.
pub const SEARCH_NOT_SUPPORTED: u8 = 0x0F;

/// `SEARCH_IN_PROGRESS` REJECTED status code.
pub const SEARCH_IN_PROGRESS: u8 = 0x10;

/// `INVALID_PLAYER_ID` REJECTED status code.
pub const INVALID_PLAYER_ID: u8 = 0x11;

/// `PLAYER_NOT_BROWSABLE` REJECTED status code.
pub const PLAYER_NOT_BROWSABLE: u8 = 0x12;

/// `PLAYER_NOT_ADDRESSED` REJECTED status code.
pub const PLAYER_NOT_ADDRESSED: u8 = 0x13;

/// `NO_VALID_SEARCH_RESULTS` REJECTED status code.
pub const NO_VALID_SEARCH_RESULTS: u8 = 0x14;

/// `NO_AVAILABLE_PLAYERS` REJECTED status code.
pub const NO_AVAILABLE_PLAYERS: u8 = 0x15;

/// `ADDRESSED_PLAYER_CHANGED` REJECTED status code.
pub const ADDRESSED_PLAYER_CHANGED: u8 = 0x16;

} // verus!
