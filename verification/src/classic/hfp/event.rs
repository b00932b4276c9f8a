//! Configurations, events, and what a turn of either side gives.

use vstd::prelude::*;
use crate::classic::at::{AtResponse, AtResponseModel};
use crate::classic::hfp::call::{CallLineIdentification, CallerModel};
use crate::classic::hfp::framing;
use crate::classic::hfp::indicator::{AgIndicatorModel, AgIndicatorState, HfIndicatorState};
use crate::classic::hfp::values::{
    AudioCodec,
    AudioConnectionState,
    CallHoldOperation,
    HfIndicator,
    VoiceRecognitionState,
};
use crate::models;

verus! {

// ---------------------------------------------------------------------------
// Configurations
// ---------------------------------------------------------------------------

/// Configuration of the Hands-Free.
#[derive(Debug, Clone)]
pub struct HfConfiguration {
    /// Features of the Hands-Free.
    pub supported_hf_features: u32,
    /// Indicators that it has.
    pub supported_hf_indicators: Vec<HfIndicator>,
    /// Codecs that it can decode.
    pub supported_audio_codecs: Vec<AudioCodec>,
}

/// Configuration of the Audio Gateway.
#[derive(Debug, Clone)]
pub struct AgConfiguration {
    /// Features of the Audio Gateway.
    pub supported_ag_features: u32,
    /// Indicators that it has, with their values.
    pub supported_ag_indicators: Vec<AgIndicatorState>,
    /// Indicators of a Hands-Free that it takes.
    pub supported_hf_indicators: Vec<HfIndicator>,
    /// Call-hold operations that it can do.
    pub supported_ag_call_hold_operations: Vec<CallHoldOperation>,
    /// Codecs that it can encode.
    pub supported_audio_codecs: Vec<AudioCodec>,
}

// ---------------------------------------------------------------------------
// Events
// ---------------------------------------------------------------------------

/// What feeding data to either side leads to, for the caller to act on.
#[derive(Debug, Clone, PartialEq)]
pub enum HfpEvent {
    /// The Service Level Connection is up.
    SlcComplete,
    /// Hands-Free: a command outside that procedure has its final status.
    CommandCompleted {
        /// The command.
        command: String,
        /// Whether it succeeded.
        ok: bool,
        /// The responses before the final status.
        responses: Vec<AtResponse>,
    },
    /// Hands-Free: the peer updated one of its indicators.
    AgIndicatorUpdated(AgIndicatorState),
    /// Audio Gateway: the peer updated one of its indicators.
    HfIndicatorUpdated(HfIndicatorState),
    /// A codec was accepted.
    CodecNegotiated(AudioCodec),
    /// Audio Gateway: the peer listed the codecs that it can decode.
    SupportedAudioCodecs(Vec<AudioCodec>),
    /// Audio Gateway: the peer asks for audio.
    CodecConnectionRequested,
    /// Audio Gateway: the codec is settled, and the synchronous link has to
    /// be opened now.
    AudioConnectionRequested(AudioCodec),
    /// The audio connection changed its state.
    AudioConnectionState(AudioConnectionState),
    /// The peer reported a speaker volume.
    SpeakerVolume(u8),
    /// The peer reported a microphone volume.
    MicrophoneVolume(u8),
    /// Hands-Free: a call comes in.
    Ring,
    /// Hands-Free: the caller is identified.
    CliNotification(CallLineIdentification),
    /// The peer reported a voice-recognition state.
    VoiceRecognition(VoiceRecognitionState),
    /// Audio Gateway: the peer answers a call.
    Answer,
    /// Audio Gateway: the peer hangs up.
    HangUp,
    /// Audio Gateway: the peer dials a number.
    Dial(String),
    /// Audio Gateway: the peer asks for a call-hold operation.
    CallHold {
        /// The operation.
        operation: CallHoldOperation,
        /// The call that it is about, where it is about one.
        call_index: Option<u32>,
    },
}

/// The model of an [`HfpEvent`].
#[verifier::ext_equal]
pub enum EventModel {
    SlcComplete,
    CommandCompleted { command: Seq<char>, ok: bool, responses: Seq<AtResponseModel> },
    AgIndicatorUpdated(AgIndicatorModel),
    HfIndicatorUpdated(HfIndicatorState),
    CodecNegotiated(AudioCodec),
    SupportedAudioCodecs(Seq<AudioCodec>),
    CodecConnectionRequested,
    AudioConnectionRequested(AudioCodec),
    AudioConnectionState(AudioConnectionState),
    SpeakerVolume(u8),
    MicrophoneVolume(u8),
    Ring,
    CliNotification(CallerModel),
    VoiceRecognition(VoiceRecognitionState),
    Answer,
    HangUp,
    Dial(Seq<char>),
    CallHold { operation: CallHoldOperation, call_index: Option<u32> },
}

impl View for HfpEvent {
    type V = EventModel;

    open spec fn view(&self) -> EventModel {
        match *self {
            HfpEvent::SlcComplete => EventModel::SlcComplete,
            HfpEvent::CommandCompleted { command, ok, responses } => EventModel::CommandCompleted {
                command: command@,
                ok,
                responses: models::seq_views(responses@),
            },
            HfpEvent::AgIndicatorUpdated(state) => EventModel::AgIndicatorUpdated(state@),
            HfpEvent::HfIndicatorUpdated(state) => EventModel::HfIndicatorUpdated(state),
            HfpEvent::CodecNegotiated(codec) => EventModel::CodecNegotiated(codec),
            HfpEvent::SupportedAudioCodecs(codecs) => EventModel::SupportedAudioCodecs(codecs@),
            HfpEvent::CodecConnectionRequested => EventModel::CodecConnectionRequested,
            HfpEvent::AudioConnectionRequested(codec) => EventModel::AudioConnectionRequested(
                codec,
            ),
            HfpEvent::AudioConnectionState(state) => EventModel::AudioConnectionState(state),
            HfpEvent::SpeakerVolume(level) => EventModel::SpeakerVolume(level),
            HfpEvent::MicrophoneVolume(level) => EventModel::MicrophoneVolume(level),
            HfpEvent::Ring => EventModel::Ring,
            HfpEvent::CliNotification(caller) => EventModel::CliNotification(caller@),
            HfpEvent::VoiceRecognition(state) => EventModel::VoiceRecognition(state),
            HfpEvent::Answer => EventModel::Answer,
            HfpEvent::HangUp => EventModel::HangUp,
            HfpEvent::Dial(number) => EventModel::Dial(number@),
            HfpEvent::CallHold { operation, call_index } => EventModel::CallHold {
                operation,
                call_index,
            },
        }
    }
}

// ---------------------------------------------------------------------------
// Turns
// ---------------------------------------------------------------------------

/// What a turn of either side gives: lines to send, and events.
#[derive(Debug)]
pub struct Turn {
    /// Framed lines to send, in order.
    pub outgoing: Vec<Vec<u8>>,
    /// Events, in order.
    pub events: Vec<HfpEvent>,
}

/// The model of a [`Turn`].
#[verifier::ext_equal]
pub struct TurnModel {
    pub outgoing: Seq<Seq<u8>>,
    pub events: Seq<EventModel>,
}

impl View for Turn {
    type V = TurnModel;

    open spec fn view(&self) -> TurnModel {
        TurnModel {
            outgoing: models::seq_views(self.outgoing@),
            events: models::seq_views(self.events@),
        }
    }
}

/// A turn that gives nothing.
pub open spec fn nothing() -> TurnModel {
    TurnModel { outgoing: seq![], events: seq![] }
}

impl TurnModel {
    /// The turn with one more line.
    pub open spec fn sent(self, line: Seq<u8>) -> TurnModel {
        TurnModel { outgoing: self.outgoing.push(line), ..self }
    }

    /// The turn with one more command.
    pub open spec fn asked(self, command: Seq<char>) -> TurnModel {
        self.sent(framing::command_line(command))
    }

    /// The turn with one more response.
    pub open spec fn said(self, response: Seq<char>) -> TurnModel {
        self.sent(framing::response_line(response))
    }

    /// The turn with one more event.
    pub open spec fn told(self, event: EventModel) -> TurnModel {
        TurnModel { events: self.events.push(event), ..self }
    }

    /// The turn, and what another gives after it.
    pub open spec fn followed(self, next: TurnModel) -> TurnModel {
        TurnModel { outgoing: self.outgoing + next.outgoing, events: self.events + next.events }
    }
}

impl Turn {
    /// A turn that gives nothing.
    pub fn new() -> (r: Self)
        ensures
            r@ == nothing(),
    {
        let r = Turn { outgoing: Vec::new(), events: Vec::new() };
        assert(r@ =~= nothing());
        r
    }

    /// Adds a line.
    pub fn send(&mut self, line: Vec<u8>)
        ensures
            final(self)@ == old(self)@.sent(line@),
    {
        let ghost before = *self;
        self.outgoing.push(line);
        proof {
            models::lemma_seq_views_push(before.outgoing@, line);
        }
    }

    /// Adds a response.
    pub fn say(&mut self, response: &str)
        ensures
            final(self)@ == old(self)@.said(response@),
    {
        self.send(framing::response_bytes(response));
    }

    /// Adds an event.
    pub fn tell(&mut self, event: HfpEvent)
        ensures
            final(self)@ == old(self)@.told(event@),
    {
        let ghost before = *self;
        self.events.push(event);
        proof {
            models::lemma_seq_views_push(before.events@, event);
        }
    }

    /// Adds what another turn gives.
    pub fn follow(&mut self, next: Turn)
        ensures
            final(self)@ == old(self)@.followed(next@),
    {
        let ghost before = *self;
        let mut next = next;
        let ghost given = next;
        self.outgoing.append(&mut next.outgoing);
        self.events.append(&mut next.events);
        proof {
            models::lemma_seq_views_add(before.outgoing@, given.outgoing@);
            models::lemma_seq_views_add(before.events@, given.events@);
        }
    }
}

} // verus!
