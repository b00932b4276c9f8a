//! Features of the Hands-Free, as exchanged with `AT+BRSF`.

use vstd::prelude::*;

verus! {

/// EC/NR function.
pub const EC_NR: u32 = 0x001;

/// Three-way calling.
pub const THREE_WAY_CALLING: u32 = 0x002;

/// CLI presentation capability.
pub const CLI_PRESENTATION_CAPABILITY: u32 = 0x004;

/// Voice recognition activation.
pub const VOICE_RECOGNITION_ACTIVATION: u32 = 0x008;

/// Remote volume control.
pub const REMOTE_VOLUME_CONTROL: u32 = 0x010;

/// Enhanced call status.
pub const ENHANCED_CALL_STATUS: u32 = 0x020;

/// Enhanced call control.
pub const ENHANCED_CALL_CONTROL: u32 = 0x040;

/// Codec negotiation.
pub const CODEC_NEGOTIATION: u32 = 0x080;

/// HF indicators.
pub const HF_INDICATORS: u32 = 0x100;

/// eSCO S4 settings supported.
pub const ESCO_S4_SETTINGS_SUPPORTED: u32 = 0x200;

/// Enhanced voice recognition status.
pub const ENHANCED_VOICE_RECOGNITION_STATUS: u32 = 0x400;

/// Voice recognition text.
pub const VOICE_RECOGNITION_TEXT: u32 = 0x800;

} // verus!
