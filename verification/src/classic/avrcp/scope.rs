//! Browsing scopes.

use vstd::prelude::*;

verus! {

/// `MEDIA_PLAYER_LIST` browsing scope.
pub const MEDIA_PLAYER_LIST: u8 = 0x00;

/// `MEDIA_PLAYER_VIRTUAL_FILESYSTEM` browsing scope.
pub const MEDIA_PLAYER_VIRTUAL_FILESYSTEM: u8 = 0x01;

/// `SEARCH` browsing scope.
pub const SEARCH: u8 = 0x02;

/// `NOW_PLAYING` browsing scope.
pub const NOW_PLAYING: u8 = 0x03;

} // verus!
