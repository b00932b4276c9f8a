//! Features of the Hands-Free in its service record. They differ from those of
//! [`hf_feature`](crate::classic::hfp::hf_feature).

use vstd::prelude::*;

verus! {

/// EC/NR function.
pub const EC_NR: u16 = 0x01;

/// Three-way calling.
pub const THREE_WAY_CALLING: u16 = 0x02;

/// CLI presentation capability.
pub const CLI_PRESENTATION_CAPABILITY: u16 = 0x04;

/// Voice recognition activation.
pub const VOICE_RECOGNITION_ACTIVATION: u16 = 0x08;

/// Remote volume control.
pub const REMOTE_VOLUME_CONTROL: u16 = 0x10;

/// Wide-band speech.
pub const WIDE_BAND_SPEECH: u16 = 0x20;

/// Enhanced voice recognition status.
pub const ENHANCED_VOICE_RECOGNITION_STATUS: u16 = 0x40;

/// Voice recognition text.
pub const VOICE_RECOGNITION_TEXT: u16 = 0x80;

/// Super-wide-band speech.
pub const SUPER_WIDE_BAND: u16 = 0x100;

} // verus!
