//! Folder types for `FolderItem`.

use vstd::prelude::*;

verus! {

/// `MIXED` folder type.
pub const MIXED: u8 = 0x00;

/// `TITLES` folder type.
pub const TITLES: u8 = 0x01;

/// `ALBUMS` folder type.
pub const ALBUMS: u8 = 0x02;

/// `ARTISTS` folder type.
pub const ARTISTS: u8 = 0x03;

/// `GENRES` folder type.
pub const GENRES: u8 = 0x04;

/// `PLAYLISTS` folder type.
pub const PLAYLISTS: u8 = 0x05;

/// `YEARS` folder type.
pub const YEARS: u8 = 0x06;

} // verus!
