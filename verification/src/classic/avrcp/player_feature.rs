//! Media player feature bits for `MediaPlayerItem`: bit N of the 16-octet
//! feature bitmask, octet 0 carrying bits 0-7.

use vstd::prelude::*;

verus! {

/// `SELECT` media player feature bit.
pub const SELECT: u128 = 0x1;

/// `UP` media player feature bit.
pub const UP: u128 = 0x2;

/// `DOWN` media player feature bit.
pub const DOWN: u128 = 0x4;

/// `LEFT` media player feature bit.
pub const LEFT: u128 = 0x8;

/// `RIGHT` media player feature bit.
pub const RIGHT: u128 = 0x10;

/// `RIGHT_UP` media player feature bit.
pub const RIGHT_UP: u128 = 0x20;

/// `RIGHT_DOWN` media player feature bit.
pub const RIGHT_DOWN: u128 = 0x40;

/// `LEFT_UP` media player feature bit.
pub const LEFT_UP: u128 = 0x80;

/// `LEFT_DOWN` media player feature bit.
pub const LEFT_DOWN: u128 = 0x100;

/// `ROOT_MENU` media player feature bit.
pub const ROOT_MENU: u128 = 0x200;

/// `SETUP_MENU` media player feature bit.
pub const SETUP_MENU: u128 = 0x400;

/// `CONTENTS_MENU` media player feature bit.
pub const CONTENTS_MENU: u128 = 0x800;

/// `FAVORITE_MENU` media player feature bit.
pub const FAVORITE_MENU: u128 = 0x1000;

/// `EXIT` media player feature bit.
pub const EXIT: u128 = 0x2000;

/// `NUM_0` media player feature bit.
pub const NUM_0: u128 = 0x4000;

/// `NUM_1` media player feature bit.
pub const NUM_1: u128 = 0x8000;

/// `NUM_2` media player feature bit.
pub const NUM_2: u128 = 0x1_0000;

/// `NUM_3` media player feature bit.
pub const NUM_3: u128 = 0x2_0000;

/// `NUM_4` media player feature bit.
pub const NUM_4: u128 = 0x4_0000;

/// `NUM_5` media player feature bit.
pub const NUM_5: u128 = 0x8_0000;

/// `NUM_6` media player feature bit.
pub const NUM_6: u128 = 0x10_0000;

/// `NUM_7` media player feature bit.
pub const NUM_7: u128 = 0x20_0000;

/// `NUM_8` media player feature bit.
pub const NUM_8: u128 = 0x40_0000;

/// `NUM_9` media player feature bit.
pub const NUM_9: u128 = 0x80_0000;

/// `DOT` media player feature bit.
pub const DOT: u128 = 0x100_0000;

/// `ENTER` media player feature bit.
pub const ENTER: u128 = 0x200_0000;

/// `CLEAR` media player feature bit.
pub const CLEAR: u128 = 0x400_0000;

/// `CHANNEL_UP` media player feature bit.
pub const CHANNEL_UP: u128 = 0x800_0000;

/// `CHANNEL_DOWN` media player feature bit.
pub const CHANNEL_DOWN: u128 = 0x1000_0000;

/// `PREVIOUS_CHANNEL` media player feature bit.
pub const PREVIOUS_CHANNEL: u128 = 0x2000_0000;

/// `SOUND_SELECT` media player feature bit.
pub const SOUND_SELECT: u128 = 0x4000_0000;

/// `INPUT_SELECT` media player feature bit.
pub const INPUT_SELECT: u128 = 0x8000_0000;

/// `DISPLAY_INFORMATION` media player feature bit.
pub const DISPLAY_INFORMATION: u128 = 0x1_0000_0000;

/// `HELP` media player feature bit.
pub const HELP: u128 = 0x2_0000_0000;

/// `PAGE_UP` media player feature bit.
pub const PAGE_UP: u128 = 0x4_0000_0000;

/// `PAGE_DOWN` media player feature bit.
pub const PAGE_DOWN: u128 = 0x8_0000_0000;

/// `POWER` media player feature bit.
pub const POWER: u128 = 0x10_0000_0000;

/// `VOLUME_UP` media player feature bit.
pub const VOLUME_UP: u128 = 0x20_0000_0000;

/// `VOLUME_DOWN` media player feature bit.
pub const VOLUME_DOWN: u128 = 0x40_0000_0000;

/// `MUTE` media player feature bit.
pub const MUTE: u128 = 0x80_0000_0000;

/// `PLAY` media player feature bit.
pub const PLAY: u128 = 0x100_0000_0000;

/// `STOP` media player feature bit.
pub const STOP: u128 = 0x200_0000_0000;

/// `PAUSE` media player feature bit.
pub const PAUSE: u128 = 0x400_0000_0000;

/// `RECORD` media player feature bit.
pub const RECORD: u128 = 0x800_0000_0000;

/// `REWIND` media player feature bit.
pub const REWIND: u128 = 0x1000_0000_0000;

/// `FAST_FORWARD` media player feature bit.
pub const FAST_FORWARD: u128 = 0x2000_0000_0000;

/// `EJECT` media player feature bit.
pub const EJECT: u128 = 0x4000_0000_0000;

/// `FORWARD` media player feature bit.
pub const FORWARD: u128 = 0x8000_0000_0000;

/// `BACKWARD` media player feature bit.
pub const BACKWARD: u128 = 0x1_0000_0000_0000;

/// `ANGLE` media player feature bit.
pub const ANGLE: u128 = 0x2_0000_0000_0000;

/// `SUBPICTURE` media player feature bit.
pub const SUBPICTURE: u128 = 0x4_0000_0000_0000;

/// `F1` media player feature bit.
pub const F1: u128 = 0x8_0000_0000_0000;

/// `F2` media player feature bit.
pub const F2: u128 = 0x10_0000_0000_0000;

/// `F3` media player feature bit.
pub const F3: u128 = 0x20_0000_0000_0000;

/// `F4` media player feature bit.
pub const F4: u128 = 0x40_0000_0000_0000;

/// `F5` media player feature bit.
pub const F5: u128 = 0x80_0000_0000_0000;

/// `VENDOR_UNIQUE` media player feature bit.
pub const VENDOR_UNIQUE: u128 = 0x100_0000_0000_0000;

/// `BASIC_GROUP_NAVIGATION` media player feature bit.
pub const BASIC_GROUP_NAVIGATION: u128 = 0x200_0000_0000_0000;

/// `ADVANCED_CONTROL_PLAYER` media player feature bit.
pub const ADVANCED_CONTROL_PLAYER: u128 = 0x400_0000_0000_0000;

/// `BROWSING` media player feature bit.
pub const BROWSING: u128 = 0x800_0000_0000_0000;

/// `SEARCHING` media player feature bit.
pub const SEARCHING: u128 = 0x1000_0000_0000_0000;

/// `ADD_TO_NOW_PLAYING` media player feature bit.
pub const ADD_TO_NOW_PLAYING: u128 = 0x2000_0000_0000_0000;

/// `UIDS_UNIQUE_IN_PLAYER_BROWSE_TREE` media player feature bit.
pub const UIDS_UNIQUE_IN_PLAYER_BROWSE_TREE: u128 = 0x4000_0000_0000_0000;

/// `ONLY_BROWSABLE_WHEN_ADDRESSED` media player feature bit.
pub const ONLY_BROWSABLE_WHEN_ADDRESSED: u128 = 0x8000_0000_0000_0000;

/// `ONLY_SEARCHABLE_WHEN_ADDRESSED` media player feature bit.
pub const ONLY_SEARCHABLE_WHEN_ADDRESSED: u128 = 0x1_0000_0000_0000_0000;

/// `NOW_PLAYING` media player feature bit.
pub const NOW_PLAYING: u128 = 0x2_0000_0000_0000_0000;

/// `UID_PERSISTENCY` media player feature bit.
pub const UID_PERSISTENCY: u128 = 0x4_0000_0000_0000_0000;

/// `NUMBER_OF_ITEMS` media player feature bit.
pub const NUMBER_OF_ITEMS: u128 = 0x8_0000_0000_0000_0000;

/// `COVER_ART` media player feature bit.
pub const COVER_ART: u128 = 0x10_0000_0000_0000_0000;

} // verus!
