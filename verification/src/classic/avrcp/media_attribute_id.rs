//! Media attribute IDs for element/item attributes.

use vstd::prelude::*;

verus! {

/// `TITLE` media attribute ID.
pub const TITLE: u32 = 0x01;

/// `ARTIST_NAME` media attribute ID.
pub const ARTIST_NAME: u32 = 0x02;

/// `ALBUM_NAME` media attribute ID.
pub const ALBUM_NAME: u32 = 0x03;

/// `TRACK_NUMBER` media attribute ID.
pub const TRACK_NUMBER: u32 = 0x04;

/// `TOTAL_NUMBER_OF_TRACKS` media attribute ID.
pub const TOTAL_NUMBER_OF_TRACKS: u32 = 0x05;

/// `GENRE` media attribute ID.
pub const GENRE: u32 = 0x06;

/// `PLAYING_TIME` media attribute ID.
pub const PLAYING_TIME: u32 = 0x07;

/// `DEFAULT_COVER_ART` media attribute ID.
pub const DEFAULT_COVER_ART: u32 = 0x08;

} // verus!
