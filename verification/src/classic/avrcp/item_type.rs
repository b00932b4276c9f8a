//! Browseable item types.

use vstd::prelude::*;

verus! {

/// `MEDIA_PLAYER` browseable item type.
pub const MEDIA_PLAYER: u8 = 0x01;

/// `FOLDER` browseable item type.
pub const FOLDER: u8 = 0x02;

/// `MEDIA_ELEMENT` browseable item type.
pub const MEDIA_ELEMENT: u8 = 0x03;

} // verus!
