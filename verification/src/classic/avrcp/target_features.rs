//! Target SupportedFeatures bits.

use vstd::prelude::*;

verus! {

/// `CATEGORY_1` target SupportedFeatures bit.
pub const CATEGORY_1: u16 = 0x0001;

/// `CATEGORY_2` target SupportedFeatures bit.
pub const CATEGORY_2: u16 = 0x0002;

/// `CATEGORY_3` target SupportedFeatures bit.
pub const CATEGORY_3: u16 = 0x0004;

/// `CATEGORY_4` target SupportedFeatures bit.
pub const CATEGORY_4: u16 = 0x0008;

/// `PLAYER_APPLICATION_SETTINGS` target SupportedFeatures bit.
pub const PLAYER_APPLICATION_SETTINGS: u16 = 0x0010;

/// `GROUP_NAVIGATION` target SupportedFeatures bit.
pub const GROUP_NAVIGATION: u16 = 0x0020;

/// `SUPPORTS_BROWSING` target SupportedFeatures bit.
pub const SUPPORTS_BROWSING: u16 = 0x0040;

/// `SUPPORTS_MULTIPLE_MEDIA_PLAYER_APPLICATIONS` target SupportedFeatures bit.
pub const SUPPORTS_MULTIPLE_MEDIA_PLAYER_APPLICATIONS: u16 = 0x0080;

/// `SUPPORTS_COVER_ART` target SupportedFeatures bit.
pub const SUPPORTS_COVER_ART: u16 = 0x0100;

} // verus!
