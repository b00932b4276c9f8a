//! Notification event IDs.

use vstd::prelude::*;

verus! {

/// `PLAYBACK_STATUS_CHANGED` notification event ID.
pub const PLAYBACK_STATUS_CHANGED: u8 = 0x01;

/// `TRACK_CHANGED` notification event ID.
pub const TRACK_CHANGED: u8 = 0x02;

/// `TRACK_REACHED_END` notification event ID.
pub const TRACK_REACHED_END: u8 = 0x03;

/// `TRACK_REACHED_START` notification event ID.
pub const TRACK_REACHED_START: u8 = 0x04;

/// `PLAYBACK_POS_CHANGED` notification event ID.
pub const PLAYBACK_POS_CHANGED: u8 = 0x05;

/// `BATT_STATUS_CHANGED` notification event ID.
pub const BATT_STATUS_CHANGED: u8 = 0x06;

/// `SYSTEM_STATUS_CHANGED` notification event ID.
pub const SYSTEM_STATUS_CHANGED: u8 = 0x07;

/// `PLAYER_APPLICATION_SETTING_CHANGED` notification event ID.
pub const PLAYER_APPLICATION_SETTING_CHANGED: u8 = 0x08;

/// `NOW_PLAYING_CONTENT_CHANGED` notification event ID.
pub const NOW_PLAYING_CONTENT_CHANGED: u8 = 0x09;

/// `AVAILABLE_PLAYERS_CHANGED` notification event ID.
pub const AVAILABLE_PLAYERS_CHANGED: u8 = 0x0A;

/// `ADDRESSED_PLAYER_CHANGED` notification event ID.
pub const ADDRESSED_PLAYER_CHANGED: u8 = 0x0B;

/// `UIDS_CHANGED` notification event ID.
pub const UIDS_CHANGED: u8 = 0x0C;

/// `VOLUME_CHANGED` notification event ID.
pub const VOLUME_CHANGED: u8 = 0x0D;

} // verus!
