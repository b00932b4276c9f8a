//! Features of the Audio Gateway, as reported with `+BRSF`.

use vstd::prelude::*;

verus! {

/// Three-way calling.
pub const THREE_WAY_CALLING: u32 = 0x001;

/// EC/NR function.
pub const EC_NR: u32 = 0x002;

/// Voice recognition function.
pub const VOICE_RECOGNITION_FUNCTION: u32 = 0x004;

/// In-band ring tone capability.
pub const IN_BAND_RING_TONE_CAPABILITY: u32 = 0x008;

/// Attach a number to a voice tag.
pub const VOICE_TAG: u32 = 0x010;

/// Ability to reject a call.
pub const REJECT_CALL: u32 = 0x020;

/// Enhanced call status.
pub const ENHANCED_CALL_STATUS: u32 = 0x040;

/// Enhanced call control.
pub const ENHANCED_CALL_CONTROL: u32 = 0x080;

/// Extended error result codes.
pub const EXTENDED_ERROR_RESULT_CODES: u32 = 0x100;

/// Codec negotiation.
pub const CODEC_NEGOTIATION: u32 = 0x200;

/// HF indicators.
pub const HF_INDICATORS: u32 = 0x400;

/// eSCO S4 settings supported.
pub const ESCO_S4_SETTINGS_SUPPORTED: u32 = 0x800;

/// Enhanced voice recognition status.
pub const ENHANCED_VOICE_RECOGNITION_STATUS: u32 = 0x1000;

/// Voice recognition text.
pub const VOICE_RECOGNITION_TEXT: u32 = 0x2000;

} // verus!
