//! RTP media packets, the form in which audio travels.
//!
//! The signaling of AVDTP settles what will be streamed; the bytes themselves
//! cross a transport channel of their own as RTP packets. Every field wider
//! than a byte is big-endian, unlike in most of Bluetooth.
//!
//! Codec payloads are opaque here: an [`SbcPayload`] tells how many SBC frames
//! a packet carries and hands them on as bytes; nothing is decoded.

pub mod packet;
pub mod payload_laws;
pub mod sbc;

pub use packet::{MediaPacket, MediaPacketError, RtpHeader, DEFAULT_PAYLOAD_TYPE, RTP_VERSION};
pub use sbc::{
    packetize_sbc,
    SbcPayload,
    SbcPayloadHeader,
    SbcReassembler,
    SBC_MAX_FRAMES_PER_PAYLOAD,
};
