//! Features of the Audio Gateway in its service record. They differ from those
//! of [`ag_feature`](crate::classic::hfp::ag_feature).

use vstd::prelude::*;

verus! {

/// Three-way calling.
pub const THREE_WAY_CALLING: u16 = 0x01;

/// EC/NR function.
pub const EC_NR: u16 = 0x02;

/// Voice recognition function.
pub const VOICE_RECOGNITION_FUNCTION: u16 = 0x04;

/// In-band ring tone capability.
pub const IN_BAND_RING_TONE_CAPABILITY: u16 = 0x08;

/// Attach a number to a voice tag.
pub const VOICE_TAG: u16 = 0x10;

/// Wide-band speech.
pub const WIDE_BAND_SPEECH: u16 = 0x20;

/// Enhanced voice recognition status.
pub const ENHANCED_VOICE_RECOGNITION_STATUS: u16 = 0x40;

/// Voice recognition text.
pub const VOICE_RECOGNITION_TEXT: u16 = 0x80;

/// Super-wide-band speech.
pub const SUPER_WIDE_BAND_SPEED_SPEECH: u16 = 0x100;

} // verus!
