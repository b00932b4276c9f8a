//! AVRCP PDU IDs.

use vstd::prelude::*;

verus! {

/// `GET_CAPABILITIES` PDU ID.
pub const GET_CAPABILITIES: u8 = 0x10;

/// `LIST_PLAYER_APPLICATION_SETTING_ATTRIBUTES` PDU ID.
pub const LIST_PLAYER_APPLICATION_SETTING_ATTRIBUTES: u8 = 0x11;

/// `LIST_PLAYER_APPLICATION_SETTING_VALUES` PDU ID.
pub const LIST_PLAYER_APPLICATION_SETTING_VALUES: u8 = 0x12;

/// `GET_CURRENT_PLAYER_APPLICATION_SETTING_VALUE` PDU ID.
pub const GET_CURRENT_PLAYER_APPLICATION_SETTING_VALUE: u8 = 0x13;

/// `SET_PLAYER_APPLICATION_SETTING_VALUE` PDU ID.
pub const SET_PLAYER_APPLICATION_SETTING_VALUE: u8 = 0x14;

/// `GET_PLAYER_APPLICATION_SETTING_ATTRIBUTE_TEXT` PDU ID.
pub const GET_PLAYER_APPLICATION_SETTING_ATTRIBUTE_TEXT: u8 = 0x15;

/// `GET_PLAYER_APPLICATION_SETTING_VALUE_TEXT` PDU ID.
pub const GET_PLAYER_APPLICATION_SETTING_VALUE_TEXT: u8 = 0x16;

/// `INFORM_DISPLAYABLE_CHARACTER_SET` PDU ID.
pub const INFORM_DISPLAYABLE_CHARACTER_SET: u8 = 0x17;

/// `INFORM_BATTERY_STATUS_OF_CT` PDU ID.
pub const INFORM_BATTERY_STATUS_OF_CT: u8 = 0x18;

/// `GET_ELEMENT_ATTRIBUTES` PDU ID.
pub const GET_ELEMENT_ATTRIBUTES: u8 = 0x20;

/// `GET_PLAY_STATUS` PDU ID.
pub const GET_PLAY_STATUS: u8 = 0x30;

/// `REGISTER_NOTIFICATION` PDU ID.
pub const REGISTER_NOTIFICATION: u8 = 0x31;

/// `REQUEST_CONTINUING_RESPONSE` PDU ID.
pub const REQUEST_CONTINUING_RESPONSE: u8 = 0x40;

/// `ABORT_CONTINUING_RESPONSE` PDU ID.
pub const ABORT_CONTINUING_RESPONSE: u8 = 0x41;

/// `SET_ABSOLUTE_VOLUME` PDU ID.
pub const SET_ABSOLUTE_VOLUME: u8 = 0x50;

/// `SET_ADDRESSED_PLAYER` PDU ID.
pub const SET_ADDRESSED_PLAYER: u8 = 0x60;

/// `SET_BROWSED_PLAYER` PDU ID.
pub const SET_BROWSED_PLAYER: u8 = 0x70;

/// `GET_FOLDER_ITEMS` PDU ID.
pub const GET_FOLDER_ITEMS: u8 = 0x71;

/// `CHANGE_PATH` PDU ID.
pub const CHANGE_PATH: u8 = 0x72;

/// `GET_ITEM_ATTRIBUTES` PDU ID.
pub const GET_ITEM_ATTRIBUTES: u8 = 0x73;

/// `PLAY_ITEM` PDU ID.
pub const PLAY_ITEM: u8 = 0x74;

/// `GET_TOTAL_NUMBER_OF_ITEMS` PDU ID.
pub const GET_TOTAL_NUMBER_OF_ITEMS: u8 = 0x75;

/// `SEARCH` PDU ID.
pub const SEARCH: u8 = 0x80;

/// `ADD_TO_NOW_PLAYING` PDU ID.
pub const ADD_TO_NOW_PLAYING: u8 = 0x90;

} // verus!
