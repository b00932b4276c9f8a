//! AVDTP: negotiation and management of audio and video streams.
//!
//! Every signaling packet starts with a byte that holds the transaction label,
//! the packet type and the message type. Single and start packets go on with
//! the signal identifier; the payload depends on the signal. Messages larger
//! than the peer's L2CAP MTU are cut into start, continue and end packets, and
//! put together again by [`MessageAssembler`].
//!
//! [`Protocol`] is the state machine of one connection: it owns the local
//! stream endpoints, tracks the remote endpoints that were discovered, and
//! drives the stream state of each local endpoint, from idle over configured
//! and open to streaming. It is synchronous: [`Protocol::receive`] takes one
//! incoming packet and returns the packets to send and the events to report.
//!
//! Only signaling is modeled. The closing and aborting states, which exist to
//! drain a transport channel, are passed through at once: closing and aborting
//! lead straight back to idle.

pub mod assembler;
pub mod capability;
pub mod error_code;
pub mod laws;
pub mod message;
pub mod packet_laws;
pub mod protocol;
pub mod request_laws;
pub mod service;
pub mod service_category;
pub mod signal_identifier;
pub mod state;

pub use assembler::{write_message, AssembledMessage, MessageAssembler};
pub use capability::{
    MediaCodecCapabilities,
    MediaType,
    SepInfo,
    ServiceCapability,
    StreamEndPointType,
};
pub use message::{Message, MessageType};
pub use protocol::{AvdtpEvent, DiscoveredStreamEndPoint, LocalStreamEndPoint, Protocol};
pub use service::{connect_channel, find_avdtp_service, register_server};
pub use state::StreamState;

use vstd::prelude::*;

verus! {

/// Well-known PSM of AVDTP signaling.
pub const AVDTP_PSM: u16 = 0x0019;

/// Advanced Audio Distribution service class UUID.
pub const ADVANCED_AUDIO_DISTRIBUTION_SERVICE_UUID: u16 = 0x110D;

/// AVDTP protocol UUID, for protocol descriptor lists.
pub const AVDTP_PROTOCOL_UUID: u16 = 0x0019;

/// Default AVDTP version: 1.3.
pub const DEFAULT_VERSION: (u8, u8) = (1, 3);

} // verus!
