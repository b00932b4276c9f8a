//! Controller SupportedFeatures bits.

use vstd::prelude::*;

verus! {

/// `CATEGORY_1` controller SupportedFeatures bit.
pub const CATEGORY_1: u16 = 0x0001;

/// `CATEGORY_2` controller SupportedFeatures bit.
pub const CATEGORY_2: u16 = 0x0002;

/// `CATEGORY_3` controller SupportedFeatures bit.
pub const CATEGORY_3: u16 = 0x0004;

/// `CATEGORY_4` controller SupportedFeatures bit.
pub const CATEGORY_4: u16 = 0x0008;

/// `SUPPORTS_BROWSING` controller SupportedFeatures bit.
pub const SUPPORTS_BROWSING: u16 = 0x0040;

/// `SUPPORTS_COVER_ART_GET_IMAGE_PROPERTIES` controller SupportedFeatures bit.
pub const SUPPORTS_COVER_ART_GET_IMAGE_PROPERTIES: u16 = 0x0080;

/// `SUPPORTS_COVER_ART_GET_IMAGE` controller SupportedFeatures bit.
pub const SUPPORTS_COVER_ART_GET_IMAGE: u16 = 0x0100;

/// `SUPPORTS_COVER_ART_GET_LINKED_THUMBNAIL` controller SupportedFeatures bit.
pub const SUPPORTS_COVER_ART_GET_LINKED_THUMBNAIL: u16 = 0x0200;

} // verus!
