//! A2DP: codec capabilities, audio frames, and service records of audio
//! sources and sinks.
//!
//! A2DP is mostly data over the configuration of AVDTP streams: SBC, which
//! every device has, MPEG-2/4 AAC, and vendor-specific codecs, among them
//! Opus. The codec information here is encoded to and decoded from the bytes
//! that AVDTP carries.
//!
//! Frame headers are parsed and written, those of SBC and of ADTS: they carry
//! the codec parameters, and a sink has to find the boundaries of frames. The
//! audio in the frames is not decoded.

pub mod aac;
pub mod codec_laws;
pub mod codec_type;
pub mod finder_laws;
pub mod frame;
pub mod information;
pub mod opus;
pub mod sbc;
pub mod service;

pub use frame::{
    AacFrame,
    AacProfile,
    AdtsMpegVersion,
    SbcFrame,
    AAC_SAMPLES_PER_RAW_DATA_BLOCK,
    ADTS_AAC_SAMPLING_FREQUENCIES,
    ADTS_CRC_LEN,
    ADTS_HEADER_LEN,
    ADTS_SYNC_WORD,
    SBC_DUAL_CHANNEL_MODE,
    SBC_JOINT_STEREO_CHANNEL_MODE,
    SBC_MONO_CHANNEL_MODE,
    SBC_SAMPLING_FREQUENCIES,
    SBC_STEREO_CHANNEL_MODE,
    SBC_SYNC_WORD,
};
pub use information::{
    AacMediaCodecInformation,
    MediaCodecInformation,
    OpusMediaCodecInformation,
    SbcMediaCodecInformation,
    VendorSpecificMediaCodecInformation,
};
pub use service::{
    make_audio_sink_service_sdp_records,
    make_audio_source_service_sdp_records,
    AUDIO_SINK_SERVICE_UUID,
    AUDIO_SOURCE_SERVICE_UUID,
};
