//! The values that commands and responses carry.

use vstd::prelude::*;
use crate::text;

verus! {

/// An audio codec that the two ends can agree on.
#[derive(Debug, Clone, Copy, PartialEq, Eq, Structural)]
pub enum AudioCodec {
    /// CVSD (narrow-band).
    Cvsd,
    /// mSBC (wide-band speech).
    Msbc,
    /// LC3-SWB (super-wide-band).
    Lc3Swb,
}

impl AudioCodec {
    /// The codec ID.
    pub open spec fn number(self) -> u8 {
        match self {
            AudioCodec::Cvsd => 0x01,
            AudioCodec::Msbc => 0x02,
            AudioCodec::Lc3Swb => 0x03,
        }
    }

    /// The value with a given number.
    pub open spec fn numbered(value: u8) -> Option<AudioCodec> {
        match value {
            0x01 => Some(AudioCodec::Cvsd),
            0x02 => Some(AudioCodec::Msbc),
            0x03 => Some(AudioCodec::Lc3Swb),
            _ => None,
        }
    }

    /// Encodes to the codec ID.
    pub fn to_value(self) -> (r: u8)
        ensures
            r == self.number(),
    {
        match self {
            AudioCodec::Cvsd => 0x01,
            AudioCodec::Msbc => 0x02,
            AudioCodec::Lc3Swb => 0x03,
        }
    }

    /// Decodes from the codec ID.
    pub fn from_value(value: u8) -> (r: Option<Self>)
        ensures
            r == AudioCodec::numbered(value),
    {
        match value {
            0x01 => Some(AudioCodec::Cvsd),
            0x02 => Some(AudioCodec::Msbc),
            0x03 => Some(AudioCodec::Lc3Swb),
            _ => None,
        }
    }
}

impl AudioCodec {
    /// Printable name, for a transcript or a status document.
    pub open spec fn printable(self) -> Seq<char> {
        match self {
            AudioCodec::Cvsd => "CVSD"@,
            AudioCodec::Msbc => "mSBC"@,
            AudioCodec::Lc3Swb => "LC3-SWB"@,
        }
    }

    /// Printable name, for a transcript or a status document.
    pub fn name(self) -> (r: &'static str)
        ensures
            r@ == self.printable(),
    {
        match self {
            AudioCodec::Cvsd => "CVSD",
            AudioCodec::Msbc => "mSBC",
            AudioCodec::Lc3Swb => "LC3-SWB",
        }
    }
}

impl AudioCodec {
    /// Whether the codec needs an extended synchronous link: all but
    /// narrow-band speech do.
    pub open spec fn needs_esco(self) -> bool {
        self != AudioCodec::Cvsd
    }

    /// The voice setting that a host asks the controller for when it opens
    /// the synchronous link. With CVSD the controller codes the waveform and
    /// takes 16-bit linear samples; the frames of any other codec are coded
    /// by the host, and the controller has to leave them alone.
    pub fn voice_setting(self) -> (r: u16)
        ensures
            self == AudioCodec::Cvsd ==> r == 0x0060,
            self != AudioCodec::Cvsd ==> r == 0x0063,
    {
        match self {
            AudioCodec::Cvsd => 0x0060,
            AudioCodec::Msbc | AudioCodec::Lc3Swb => 0x0063,
        }
    }

    /// Whether the codec needs an extended synchronous (eSCO) link, which has
    /// retransmission and error detection.
    pub fn requires_esco(self) -> (r: bool)
        ensures
            r == self.needs_esco(),
    {
        match self {
            AudioCodec::Cvsd => false,
            _ => true,
        }
    }

    /// The packet-type mask of the request for a synchronous link: EV3 where
    /// the codec needs an extended link, HV1, HV2 and HV3 otherwise. It is
    /// this mask that tells a controller which kind of link to make.
    pub fn esco_packet_type(self) -> (r: u16)
        ensures
            self.needs_esco() ==> r == 0x0008,
            !self.needs_esco() ==> r == 0x0007,
    {
        if self.requires_esco() {
            0x0008
        } else {
            0x0007
        }
    }
}

/// Where an audio connection has got to: the synchronous link that carries a
/// call. It is independent of the Service Level Connection, and exists only
/// while there is something to hear.
#[derive(Debug, Clone, Copy, PartialEq, Eq, Structural)]
pub enum AudioConnectionState {
    /// No synchronous link, and none being set up.
    Disconnected,
    /// The codec is being negotiated: `+BCS` has gone out, and the far end's
    /// `AT+BCS` has not come back.
    Negotiating,
    /// The codec is settled and the synchronous link is being opened.
    Connecting,
    /// The synchronous link is up and carrying audio.
    Connected,
}

impl AudioConnectionState {
    /// Stable identifier, for a status document.
    pub open spec fn printable(self) -> Seq<char> {
        match self {
            AudioConnectionState::Disconnected => "disconnected"@,
            AudioConnectionState::Negotiating => "negotiating"@,
            AudioConnectionState::Connecting => "connecting"@,
            AudioConnectionState::Connected => "connected"@,
        }
    }

    /// Stable identifier, for a status document.
    pub fn name(self) -> (r: &'static str)
        ensures
            r@ == self.printable(),
    {
        match self {
            AudioConnectionState::Disconnected => "disconnected",
            AudioConnectionState::Negotiating => "negotiating",
            AudioConnectionState::Connecting => "connecting",
            AudioConnectionState::Connected => "connected",
        }
    }
}

/// An indicator of the Hands-Free.
#[derive(Debug, Clone, Copy, PartialEq, Eq, PartialOrd, Ord, Hash, Structural)]
pub enum HfIndicator {
    /// Enhanced Safety indicator.
    EnhancedSafety,
    /// Battery Level indicator.
    BatteryLevel,
}

impl HfIndicator {
    /// The assigned number.
    pub open spec fn number(self) -> u8 {
        match self {
            HfIndicator::EnhancedSafety => 1,
            HfIndicator::BatteryLevel => 2,
        }
    }

    /// The value with a given number.
    pub open spec fn numbered(value: u8) -> Option<HfIndicator> {
        match value {
            1 => Some(HfIndicator::EnhancedSafety),
            2 => Some(HfIndicator::BatteryLevel),
            _ => None,
        }
    }

    /// Encodes to the assigned number.
    pub fn to_value(self) -> (r: u8)
        ensures
            r == self.number(),
    {
        match self {
            HfIndicator::EnhancedSafety => 1,
            HfIndicator::BatteryLevel => 2,
        }
    }

    /// Decodes from the assigned number.
    pub fn from_value(value: u8) -> (r: Option<Self>)
        ensures
            r == HfIndicator::numbered(value),
    {
        match value {
            1 => Some(HfIndicator::EnhancedSafety),
            2 => Some(HfIndicator::BatteryLevel),
            _ => None,
        }
    }
}

/// A three-way or call-hold operation.
#[derive(Debug, Clone, Copy, PartialEq, Eq, Structural)]
pub enum CallHoldOperation {
    /// Release all held calls.
    ReleaseAllHeldCalls,
    /// Release all active calls, accept the other.
    ReleaseAllActiveCalls,
    /// Release a specific call.
    ReleaseSpecificCall,
    /// Hold all active calls, accept the other.
    HoldAllActiveCalls,
    /// Hold all calls except a specific one.
    HoldAllCallsExcept,
    /// Add a held call to the conversation.
    AddHeldCall,
    /// Connect the two calls and disconnect.
    ConnectTwoCalls,
}

impl CallHoldOperation {
    /// The `AT+CHLD` code.
    pub open spec fn code_text(self) -> Seq<char> {
        match self {
            CallHoldOperation::ReleaseAllHeldCalls => "0"@,
            CallHoldOperation::ReleaseAllActiveCalls => "1"@,
            CallHoldOperation::ReleaseSpecificCall => "1x"@,
            CallHoldOperation::HoldAllActiveCalls => "2"@,
            CallHoldOperation::HoldAllCallsExcept => "2x"@,
            CallHoldOperation::AddHeldCall => "3"@,
            CallHoldOperation::ConnectTwoCalls => "4"@,
        }
    }

    /// The `AT+CHLD` code.
    pub fn code(self) -> (r: &'static str)
        ensures
            r@ == self.code_text(),
    {
        match self {
            CallHoldOperation::ReleaseAllHeldCalls => "0",
            CallHoldOperation::ReleaseAllActiveCalls => "1",
            CallHoldOperation::ReleaseSpecificCall => "1x",
            CallHoldOperation::HoldAllActiveCalls => "2",
            CallHoldOperation::HoldAllCallsExcept => "2x",
            CallHoldOperation::AddHeldCall => "3",
            CallHoldOperation::ConnectTwoCalls => "4",
        }
    }
}

impl CallHoldOperation {
    /// The operation with a given `AT+CHLD` code.
    pub open spec fn coded(text: Seq<char>) -> Option<CallHoldOperation> {
        if text == "0"@ {
            Some(CallHoldOperation::ReleaseAllHeldCalls)
        } else if text == "1"@ {
            Some(CallHoldOperation::ReleaseAllActiveCalls)
        } else if text == "1x"@ {
            Some(CallHoldOperation::ReleaseSpecificCall)
        } else if text == "2"@ {
            Some(CallHoldOperation::HoldAllActiveCalls)
        } else if text == "2x"@ {
            Some(CallHoldOperation::HoldAllCallsExcept)
        } else if text == "3"@ {
            Some(CallHoldOperation::AddHeldCall)
        } else if text == "4"@ {
            Some(CallHoldOperation::ConnectTwoCalls)
        } else {
            None
        }
    }

    /// The operation with a given `AT+CHLD` code.
    pub fn from_code(text: &str) -> (r: Option<Self>)
        ensures
            r == CallHoldOperation::coded(text@),
    {
        if text::same_text(text, "0") {
            Some(CallHoldOperation::ReleaseAllHeldCalls)
        } else if text::same_text(text, "1") {
            Some(CallHoldOperation::ReleaseAllActiveCalls)
        } else if text::same_text(text, "1x") {
            Some(CallHoldOperation::ReleaseSpecificCall)
        } else if text::same_text(text, "2") {
            Some(CallHoldOperation::HoldAllActiveCalls)
        } else if text::same_text(text, "2x") {
            Some(CallHoldOperation::HoldAllCallsExcept)
        } else if text::same_text(text, "3") {
            Some(CallHoldOperation::AddHeldCall)
        } else if text::same_text(text, "4") {
            Some(CallHoldOperation::ConnectTwoCalls)
        } else {
            None
        }
    }
}

/// An indicator of the Audio Gateway.
#[derive(Debug, Clone, Copy, PartialEq, Eq, Structural)]
pub enum AgIndicator {
    /// Network service availability.
    Service,
    /// Call active.
    Call,
    /// Call setup state.
    CallSetup,
    /// Call-held state.
    CallHeld,
    /// Signal strength.
    Signal,
    /// Roaming status.
    Roam,
    /// Battery charge level.
    BatteryCharge,
}

impl AgIndicator {
    /// The name in a `+CIND` response.
    pub open spec fn wire_text(self) -> Seq<char> {
        match self {
            AgIndicator::Service => "service"@,
            AgIndicator::Call => "call"@,
            AgIndicator::CallSetup => "callsetup"@,
            AgIndicator::CallHeld => "callheld"@,
            AgIndicator::Signal => "signal"@,
            AgIndicator::Roam => "roam"@,
            AgIndicator::BatteryCharge => "battchg"@,
        }
    }

    /// The name in a `+CIND` response.
    pub fn wire_name(self) -> (r: &'static str)
        ensures
            r@ == self.wire_text(),
    {
        match self {
            AgIndicator::Service => "service",
            AgIndicator::Call => "call",
            AgIndicator::CallSetup => "callsetup",
            AgIndicator::CallHeld => "callheld",
            AgIndicator::Signal => "signal",
            AgIndicator::Roam => "roam",
            AgIndicator::BatteryCharge => "battchg",
        }
    }
}

impl AgIndicator {
    /// The indicator with a given name in a `+CIND` response.
    pub open spec fn wired(text: Seq<char>) -> Option<AgIndicator> {
        if text == "service"@ {
            Some(AgIndicator::Service)
        } else if text == "call"@ {
            Some(AgIndicator::Call)
        } else if text == "callsetup"@ {
            Some(AgIndicator::CallSetup)
        } else if text == "callheld"@ {
            Some(AgIndicator::CallHeld)
        } else if text == "signal"@ {
            Some(AgIndicator::Signal)
        } else if text == "roam"@ {
            Some(AgIndicator::Roam)
        } else if text == "battchg"@ {
            Some(AgIndicator::BatteryCharge)
        } else {
            None
        }
    }

    /// The indicator with a given name in a `+CIND` response.
    pub fn from_wire_name(text: &str) -> (r: Option<Self>)
        ensures
            r == AgIndicator::wired(text@),
    {
        if text::same_text(text, "service") {
            Some(AgIndicator::Service)
        } else if text::same_text(text, "call") {
            Some(AgIndicator::Call)
        } else if text::same_text(text, "callsetup") {
            Some(AgIndicator::CallSetup)
        } else if text::same_text(text, "callheld") {
            Some(AgIndicator::CallHeld)
        } else if text::same_text(text, "signal") {
            Some(AgIndicator::Signal)
        } else if text::same_text(text, "roam") {
            Some(AgIndicator::Roam)
        } else if text::same_text(text, "battchg") {
            Some(AgIndicator::BatteryCharge)
        } else {
            None
        }
    }
}

impl AgIndicator {
    /// The name in a message.
    pub open spec fn label_text(self) -> Seq<char> {
        match self {
            AgIndicator::Service => "Service"@,
            AgIndicator::Call => "Call"@,
            AgIndicator::CallSetup => "CallSetup"@,
            AgIndicator::CallHeld => "CallHeld"@,
            AgIndicator::Signal => "Signal"@,
            AgIndicator::Roam => "Roam"@,
            AgIndicator::BatteryCharge => "BatteryCharge"@,
        }
    }

    /// The name in a message.
    pub(crate) fn label(self) -> (r: &'static str)
        ensures
            r@ == self.label_text(),
    {
        match self {
            AgIndicator::Service => "Service",
            AgIndicator::Call => "Call",
            AgIndicator::CallSetup => "CallSetup",
            AgIndicator::CallHeld => "CallHeld",
            AgIndicator::Signal => "Signal",
            AgIndicator::Roam => "Roam",
            AgIndicator::BatteryCharge => "BatteryCharge",
        }
    }
}

/// Direction of a call in a call list.
#[derive(Debug, Clone, Copy, PartialEq, Eq, Structural)]
pub enum CallInfoDirection {
    /// Outgoing.
    MobileOriginated,
    /// Incoming.
    MobileTerminated,
}

impl CallInfoDirection {
    /// The number on the wire.
    pub open spec fn number(self) -> u8 {
        match self {
            CallInfoDirection::MobileOriginated => 0,
            CallInfoDirection::MobileTerminated => 1,
        }
    }

    /// The value with a given number.
    pub open spec fn numbered(value: u32) -> Option<CallInfoDirection> {
        match value {
            0 => Some(CallInfoDirection::MobileOriginated),
            1 => Some(CallInfoDirection::MobileTerminated),
            _ => None,
        }
    }

    /// Encodes to the number on the wire.
    pub fn to_value(self) -> (r: u8)
        ensures
            r == self.number(),
    {
        match self {
            CallInfoDirection::MobileOriginated => 0,
            CallInfoDirection::MobileTerminated => 1,
        }
    }

    /// Decodes from the number on the wire.
    pub fn from_value(value: u32) -> (r: Option<Self>)
        ensures
            r == CallInfoDirection::numbered(value),
    {
        match value {
            0 => Some(CallInfoDirection::MobileOriginated),
            1 => Some(CallInfoDirection::MobileTerminated),
            _ => None,
        }
    }
}

/// Status of a call in a call list.
#[derive(Debug, Clone, Copy, PartialEq, Eq, Structural)]
pub enum CallInfoStatus {
    /// Active call.
    Active,
    /// Held call.
    Held,
    /// Dialing (outgoing).
    Dialing,
    /// Alerting (outgoing, the remote end rings).
    Alerting,
    /// Incoming call.
    Incoming,
    /// Waiting call.
    Waiting,
}

impl CallInfoStatus {
    /// The number on the wire.
    pub open spec fn number(self) -> u8 {
        match self {
            CallInfoStatus::Active => 0,
            CallInfoStatus::Held => 1,
            CallInfoStatus::Dialing => 2,
            CallInfoStatus::Alerting => 3,
            CallInfoStatus::Incoming => 4,
            CallInfoStatus::Waiting => 5,
        }
    }

    /// The value with a given number.
    pub open spec fn numbered(value: u32) -> Option<CallInfoStatus> {
        match value {
            0 => Some(CallInfoStatus::Active),
            1 => Some(CallInfoStatus::Held),
            2 => Some(CallInfoStatus::Dialing),
            3 => Some(CallInfoStatus::Alerting),
            4 => Some(CallInfoStatus::Incoming),
            5 => Some(CallInfoStatus::Waiting),
            _ => None,
        }
    }

    /// Encodes to the number on the wire.
    pub fn to_value(self) -> (r: u8)
        ensures
            r == self.number(),
    {
        match self {
            CallInfoStatus::Active => 0,
            CallInfoStatus::Held => 1,
            CallInfoStatus::Dialing => 2,
            CallInfoStatus::Alerting => 3,
            CallInfoStatus::Incoming => 4,
            CallInfoStatus::Waiting => 5,
        }
    }

    /// Decodes from the number on the wire.
    pub fn from_value(value: u32) -> (r: Option<Self>)
        ensures
            r == CallInfoStatus::numbered(value),
    {
        match value {
            0 => Some(CallInfoStatus::Active),
            1 => Some(CallInfoStatus::Held),
            2 => Some(CallInfoStatus::Dialing),
            3 => Some(CallInfoStatus::Alerting),
            4 => Some(CallInfoStatus::Incoming),
            5 => Some(CallInfoStatus::Waiting),
            _ => None,
        }
    }
}

/// Mode of a call in a call list.
#[derive(Debug, Clone, Copy, PartialEq, Eq, Structural)]
pub enum CallInfoMode {
    /// Voice.
    Voice,
    /// Data.
    Data,
    /// Fax.
    Fax,
    /// Unknown.
    Unknown,
}

impl CallInfoMode {
    /// The number on the wire.
    pub open spec fn number(self) -> u8 {
        match self {
            CallInfoMode::Voice => 0,
            CallInfoMode::Data => 1,
            CallInfoMode::Fax => 2,
            CallInfoMode::Unknown => 9,
        }
    }

    /// The value with a given number.
    pub open spec fn numbered(value: u32) -> Option<CallInfoMode> {
        match value {
            0 => Some(CallInfoMode::Voice),
            1 => Some(CallInfoMode::Data),
            2 => Some(CallInfoMode::Fax),
            9 => Some(CallInfoMode::Unknown),
            _ => None,
        }
    }

    /// Encodes to the number on the wire.
    pub fn to_value(self) -> (r: u8)
        ensures
            r == self.number(),
    {
        match self {
            CallInfoMode::Voice => 0,
            CallInfoMode::Data => 1,
            CallInfoMode::Fax => 2,
            CallInfoMode::Unknown => 9,
        }
    }

    /// Decodes from the number on the wire.
    pub fn from_value(value: u32) -> (r: Option<Self>)
        ensures
            r == CallInfoMode::numbered(value),
    {
        match value {
            0 => Some(CallInfoMode::Voice),
            1 => Some(CallInfoMode::Data),
            2 => Some(CallInfoMode::Fax),
            9 => Some(CallInfoMode::Unknown),
            _ => None,
        }
    }
}

/// Whether a call in a call list is part of a conference.
#[derive(Debug, Clone, Copy, PartialEq, Eq, Structural)]
pub enum CallInfoMultiParty {
    /// Not in a conference.
    NotInConference,
    /// In a conference.
    InConference,
}

impl CallInfoMultiParty {
    /// The number on the wire.
    pub open spec fn number(self) -> u8 {
        match self {
            CallInfoMultiParty::NotInConference => 0,
            CallInfoMultiParty::InConference => 1,
        }
    }

    /// The value with a given number.
    pub open spec fn numbered(value: u32) -> Option<CallInfoMultiParty> {
        match value {
            0 => Some(CallInfoMultiParty::NotInConference),
            1 => Some(CallInfoMultiParty::InConference),
            _ => None,
        }
    }

    /// Encodes to the number on the wire.
    pub fn to_value(self) -> (r: u8)
        ensures
            r == self.number(),
    {
        match self {
            CallInfoMultiParty::NotInConference => 0,
            CallInfoMultiParty::InConference => 1,
        }
    }

    /// Decodes from the number on the wire.
    pub fn from_value(value: u32) -> (r: Option<Self>)
        ensures
            r == CallInfoMultiParty::numbered(value),
    {
        match value {
            0 => Some(CallInfoMultiParty::NotInConference),
            1 => Some(CallInfoMultiParty::InConference),
            _ => None,
        }
    }
}

/// Voice-recognition state.
#[derive(Debug, Clone, Copy, PartialEq, Eq, Structural)]
pub enum VoiceRecognitionState {
    /// Deactivated.
    Disable,
    /// Activated.
    Enable,
    /// Ready to accept audio.
    EnhancedReady,
}

impl VoiceRecognitionState {
    /// The number on the wire.
    pub open spec fn number(self) -> u8 {
        match self {
            VoiceRecognitionState::Disable => 0,
            VoiceRecognitionState::Enable => 1,
            VoiceRecognitionState::EnhancedReady => 2,
        }
    }

    /// The value with a given number.
    pub open spec fn numbered(value: u32) -> Option<VoiceRecognitionState> {
        match value {
            0 => Some(VoiceRecognitionState::Disable),
            1 => Some(VoiceRecognitionState::Enable),
            2 => Some(VoiceRecognitionState::EnhancedReady),
            _ => None,
        }
    }

    /// Encodes to the number on the wire.
    pub fn to_value(self) -> (r: u8)
        ensures
            r == self.number(),
    {
        match self {
            VoiceRecognitionState::Disable => 0,
            VoiceRecognitionState::Enable => 1,
            VoiceRecognitionState::EnhancedReady => 2,
        }
    }

    /// Decodes from the number on the wire.
    pub fn from_value(value: u32) -> (r: Option<Self>)
        ensures
            r == VoiceRecognitionState::numbered(value),
    {
        match value {
            0 => Some(VoiceRecognitionState::Disable),
            1 => Some(VoiceRecognitionState::Enable),
            2 => Some(VoiceRecognitionState::EnhancedReady),
            _ => None,
        }
    }
}

/// An extended error of the Audio Gateway.
#[derive(Debug, Clone, Copy, PartialEq, Eq, Structural)]
pub enum CmeError {
    /// Phone failure.
    PhoneFailure,
    /// Operation not allowed.
    OperationNotAllowed,
    /// Operation not supported.
    OperationNotSupported,
    /// Memory full.
    MemoryFull,
    /// Invalid index.
    InvalidIndex,
    /// Not found.
    NotFound,
}

impl CmeError {
    /// The `+CME ERROR` code.
    pub open spec fn number(self) -> u32 {
        match self {
            CmeError::PhoneFailure => 0,
            CmeError::OperationNotAllowed => 3,
            CmeError::OperationNotSupported => 4,
            CmeError::MemoryFull => 20,
            CmeError::InvalidIndex => 21,
            CmeError::NotFound => 22,
        }
    }

    /// Encodes to the `+CME ERROR` code.
    pub fn to_value(self) -> (r: u32)
        ensures
            r == self.number(),
    {
        match self {
            CmeError::PhoneFailure => 0,
            CmeError::OperationNotAllowed => 3,
            CmeError::OperationNotSupported => 4,
            CmeError::MemoryFull => 20,
            CmeError::InvalidIndex => 21,
            CmeError::NotFound => 22,
        }
    }
}

/// Version of the profile in a service record.
#[allow(non_camel_case_types)]
#[derive(Debug, Clone, Copy, PartialEq, Eq, Structural)]
pub enum ProfileVersion {
    /// Version 1.5.
    V1_5,
    /// Version 1.6.
    V1_6,
    /// Version 1.7.
    V1_7,
    /// Version 1.8.
    V1_8,
    /// Version 1.9.
    V1_9,
}

impl ProfileVersion {
    /// The value in a service record.
    pub open spec fn number(self) -> u16 {
        match self {
            ProfileVersion::V1_5 => 0x0105,
            ProfileVersion::V1_6 => 0x0106,
            ProfileVersion::V1_7 => 0x0107,
            ProfileVersion::V1_8 => 0x0108,
            ProfileVersion::V1_9 => 0x0109,
        }
    }

    /// The value with a given number.
    pub open spec fn numbered(value: u16) -> Option<ProfileVersion> {
        match value {
            0x0105 => Some(ProfileVersion::V1_5),
            0x0106 => Some(ProfileVersion::V1_6),
            0x0107 => Some(ProfileVersion::V1_7),
            0x0108 => Some(ProfileVersion::V1_8),
            0x0109 => Some(ProfileVersion::V1_9),
            _ => None,
        }
    }

    /// Encodes to the value in a service record.
    pub fn to_value(self) -> (r: u16)
        ensures
            r == self.number(),
    {
        match self {
            ProfileVersion::V1_5 => 0x0105,
            ProfileVersion::V1_6 => 0x0106,
            ProfileVersion::V1_7 => 0x0107,
            ProfileVersion::V1_8 => 0x0108,
            ProfileVersion::V1_9 => 0x0109,
        }
    }

    /// Decodes from the value in a service record.
    pub fn from_value(value: u16) -> (r: Option<Self>)
        ensures
            r == ProfileVersion::numbered(value),
    {
        match value {
            0x0105 => Some(ProfileVersion::V1_5),
            0x0106 => Some(ProfileVersion::V1_6),
            0x0107 => Some(ProfileVersion::V1_7),
            0x0108 => Some(ProfileVersion::V1_8),
            0x0109 => Some(ProfileVersion::V1_9),
            _ => None,
        }
    }
}

/// Every value is found again by its number.
pub proof fn law_numbers_round_trip()
    ensures
        forall|v: AudioCodec| AudioCodec::numbered(#[trigger] v.number()) == Some(v),
        forall|v: HfIndicator| HfIndicator::numbered(#[trigger] v.number()) == Some(v),
        forall|v: CallInfoDirection|
            CallInfoDirection::numbered(#[trigger] v.number() as u32) == Some(v),
        forall|v: CallInfoStatus|
            CallInfoStatus::numbered(#[trigger] v.number() as u32) == Some(v),
        forall|v: CallInfoMode| CallInfoMode::numbered(#[trigger] v.number() as u32) == Some(v),
        forall|v: CallInfoMultiParty|
            CallInfoMultiParty::numbered(#[trigger] v.number() as u32) == Some(v),
        forall|v: VoiceRecognitionState|
            VoiceRecognitionState::numbered(#[trigger] v.number() as u32) == Some(v),
        forall|v: ProfileVersion| ProfileVersion::numbered(#[trigger] v.number()) == Some(v),
{
}

/// Every call-hold operation is found again by its code.
pub proof fn law_codes_round_trip(operation: CallHoldOperation)
    ensures
        CallHoldOperation::coded(operation.code_text()) == Some(operation),
{
    reveal_strlit("0");
    reveal_strlit("1");
    reveal_strlit("1x");
    reveal_strlit("2");
    reveal_strlit("2x");
    reveal_strlit("3");
    reveal_strlit("4");
    assert("0"@[0] == '0' && "0"@.len() == 1);
    assert("1"@[0] == '1' && "1"@.len() == 1);
    assert("1x"@[0] == '1' && "1x"@.len() == 2);
    assert("2"@[0] == '2' && "2"@.len() == 1);
    assert("2x"@[0] == '2' && "2x"@.len() == 2);
    assert("3"@[0] == '3' && "3"@.len() == 1);
    assert("4"@[0] == '4' && "4"@.len() == 1);
}

/// Every indicator is found again by its name.
pub proof fn law_wire_names_round_trip(indicator: AgIndicator)
    ensures
        AgIndicator::wired(indicator.wire_text()) == Some(indicator),
{
    reveal_strlit("service");
    reveal_strlit("call");
    reveal_strlit("callsetup");
    reveal_strlit("callheld");
    reveal_strlit("signal");
    reveal_strlit("roam");
    reveal_strlit("battchg");
    assert("service"@.len() == 7 && "service"@[1] == 'e');
    assert("call"@.len() == 4 && "call"@[1] == 'a');
    assert("callsetup"@.len() == 9 && "callsetup"@[1] == 'a');
    assert("callheld"@.len() == 8 && "callheld"@[1] == 'a');
    assert("signal"@.len() == 6 && "signal"@[1] == 'i');
    assert("roam"@.len() == 4 && "roam"@[1] == 'o');
    assert("battchg"@.len() == 7 && "battchg"@[1] == 'a');
}

} // verus!
