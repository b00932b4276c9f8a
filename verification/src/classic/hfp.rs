//! The Hands-Free profile: signaling with AT commands, and the state of calls
//! and audio, over the byte stream of an RFCOMM channel.
//!
//! [`HfProtocol`] is the Hands-Free, [`AgProtocol`] the Audio Gateway. Neither
//! owns a transport: `receive` takes bytes from the peer and returns lines to
//! send and events to act on, and keeps a partial line for the next call.
//!
//! There are two connections, and they are independent. The Service Level
//! Connection is set up with commands, and its end is
//! [`HfpEvent::SlcComplete`]. The audio connection is a synchronous link that
//! exists only while there is something to hear. To open it is up to the Audio
//! Gateway, whatever asked for it: [`AgProtocol::start_audio_connection`]
//! settles on a codec, and [`HfpEvent::AudioConnectionRequested`] then tells
//! whoever owns the controller to open the link. No codec is implemented here.

pub mod ag_feature;
pub mod ag_sdp_feature;
pub mod audio_laws;
pub mod call;
pub mod command_laws;
pub mod conversation;
pub mod event;
pub mod exchange;
pub mod exchange_laws;
pub mod finder_laws;
pub mod framing;
pub mod gateway;
pub mod hands_free;
pub mod hf_feature;
pub mod hf_sdp_feature;
pub mod indicator;
pub mod indicator_laws;
pub mod laws;
pub mod reading;
pub mod report_laws;
pub mod service;
pub mod slc_laws;
pub mod values;

pub use call::{parse_call_infos, parse_network_operator, CallInfo, CallLineIdentification};
pub use event::{AgConfiguration, HfConfiguration, HfpEvent};
pub use gateway::AgProtocol;
pub use hands_free::HfProtocol;
pub use indicator::{AgIndicatorState, HfIndicatorState};
pub use service::{
    find_ag_sdp_record,
    find_hf_sdp_record,
    make_ag_sdp_records,
    make_hf_sdp_records,
};
pub use values::{
    AgIndicator,
    AudioCodec,
    AudioConnectionState,
    CallHoldOperation,
    CallInfoDirection,
    CallInfoMode,
    CallInfoMultiParty,
    CallInfoStatus,
    CmeError,
    HfIndicator,
    ProfileVersion,
    VoiceRecognitionState,
};
