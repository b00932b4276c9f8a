//! The Audio Gateway: it answers commands, and reports what happens.

use std::collections::HashSet;
use vstd::prelude::*;
use crate::bytes;
use crate::classic::at;
use crate::classic::at::{AtCommand, AtCommandModel, AtParameter, AtParameterModel, AtSubCode};
use crate::classic::hfp::ag_feature;
use crate::classic::hfp::call;
use crate::classic::hfp::call::{CallInfo, CallInfoModel, CallLineIdentification};
use crate::classic::hfp::event;
use crate::classic::hfp::event::{AgConfiguration, EventModel, HfpEvent, Turn, TurnModel};
use crate::classic::hfp::framing;
use crate::classic::hfp::hands_free;
use crate::classic::hfp::hf_feature;
use crate::classic::hfp::indicator;
use crate::classic::hfp::indicator::{AgIndicatorModel, AgIndicatorState, HfIndicatorState};
use crate::classic::hfp::values::{
    AgIndicator,
    AudioCodec,
    AudioConnectionState,
    CallHoldOperation,
    CmeError,
    HfIndicator,
    VoiceRecognitionState,
};
use crate::models;
use crate::text;
use crate::types::{SimbleError, SimbleErrorModel};

verus! {

broadcast use vstd::std_specs::hash::group_hash_axioms;

/// The Audio Gateway side of a connection. It owns no transport: what it
/// returns goes to the peer, and what the peer sends goes to
/// [`AgProtocol::receive`].
#[derive(Debug)]
pub struct AgProtocol {
    /// Features of the Audio Gateway.
    pub supported_ag_features: u32,
    /// Call-hold operations that it can do.
    pub supported_ag_call_hold_operations: Vec<CallHoldOperation>,
    /// Its indicators.
    pub ag_indicators: Vec<AgIndicatorState>,
    /// Indicators of a Hands-Free that it takes, by their numbers.
    pub supported_hf_indicators: Vec<HfIndicator>,
    /// Indicators of the Hands-Free that both sides have.
    pub hf_indicators: Vec<(HfIndicator, HfIndicatorState)>,
    /// Features of the Hands-Free, once known.
    pub supported_hf_features: u32,
    /// Codecs that the Audio Gateway can encode.
    pub supported_audio_codecs: Vec<AudioCodec>,
    /// Codecs that the Hands-Free can decode, empty until it lists them.
    pub hf_audio_codecs: Vec<AudioCodec>,
    /// Codec that was chosen.
    pub active_codec: AudioCodec,
    /// Where the audio connection has got to.
    pub audio_state: AudioConnectionState,
    /// Current calls.
    pub calls: Vec<CallInfo>,
    /// Whether changes of indicators are reported.
    pub indicator_report_enabled: bool,
    /// Whether errors are reported with their codes.
    pub cme_error_enabled: bool,
    /// Whether callers are identified.
    pub cli_notification_enabled: bool,
    /// Whether waiting calls are reported.
    pub call_waiting_enabled: bool,
    /// Whether ring tones are in-band.
    pub inband_ringtone_enabled: bool,
    /// Name of the network operator.
    pub network_operator: String,
    /// Whether the Hands-Free selected the format of that name.
    pub cops_format_selected: bool,
    /// Features that the Service Level Connection still waits for.
    pub remaining_slc_setup_features: HashSet<u32>,
    /// Bytes of a partial line.
    pub read_buffer: Vec<u8>,
}

/// The model of an [`AgProtocol`].
#[verifier::ext_equal]
pub struct AgModel {
    pub supported_ag_features: u32,
    pub supported_ag_call_hold_operations: Seq<CallHoldOperation>,
    pub ag_indicators: Seq<AgIndicatorModel>,
    pub supported_hf_indicators: Seq<HfIndicator>,
    pub hf_indicators: Seq<(HfIndicator, HfIndicatorState)>,
    pub supported_hf_features: u32,
    pub supported_audio_codecs: Seq<AudioCodec>,
    pub hf_audio_codecs: Seq<AudioCodec>,
    pub active_codec: AudioCodec,
    pub audio_state: AudioConnectionState,
    pub calls: Seq<CallInfoModel>,
    pub indicator_report_enabled: bool,
    pub cme_error_enabled: bool,
    pub cli_notification_enabled: bool,
    pub call_waiting_enabled: bool,
    pub inband_ringtone_enabled: bool,
    pub network_operator: Seq<char>,
    pub cops_format_selected: bool,
    pub remaining_slc_setup_features: Set<u32>,
    pub read_buffer: Seq<u8>,
}

impl View for AgProtocol {
    type V = AgModel;

    open spec fn view(&self) -> AgModel {
        AgModel {
            supported_ag_features: self.supported_ag_features,
            supported_ag_call_hold_operations: self.supported_ag_call_hold_operations@,
            ag_indicators: models::seq_views(self.ag_indicators@),
            supported_hf_indicators: self.supported_hf_indicators@,
            hf_indicators: self.hf_indicators@,
            supported_hf_features: self.supported_hf_features,
            supported_audio_codecs: self.supported_audio_codecs@,
            hf_audio_codecs: self.hf_audio_codecs@,
            active_codec: self.active_codec,
            audio_state: self.audio_state,
            calls: models::seq_views(self.calls@),
            indicator_report_enabled: self.indicator_report_enabled,
            cme_error_enabled: self.cme_error_enabled,
            cli_notification_enabled: self.cli_notification_enabled,
            call_waiting_enabled: self.call_waiting_enabled,
            inband_ringtone_enabled: self.inband_ringtone_enabled,
            network_operator: self.network_operator@,
            cops_format_selected: self.cops_format_selected,
            remaining_slc_setup_features: self.remaining_slc_setup_features@,
            read_buffer: self.read_buffer@,
        }
    }
}

// ---------------------------------------------------------------------------
// What happens
// ---------------------------------------------------------------------------

/// Indicators by their numbers, each once.
pub open spec fn in_order(indicators: Seq<HfIndicator>) -> Seq<HfIndicator> {
    indicator::unused_all(indicators).listed()
}

/// An Audio Gateway before anything has happened.
pub open spec fn initial(configuration: AgConfiguration) -> AgModel {
    AgModel {
        supported_ag_features: configuration.supported_ag_features,
        supported_ag_call_hold_operations: configuration.supported_ag_call_hold_operations@,
        ag_indicators: models::seq_views(configuration.supported_ag_indicators@),
        supported_hf_indicators: in_order(configuration.supported_hf_indicators@),
        hf_indicators: seq![],
        supported_hf_features: 0,
        supported_audio_codecs: configuration.supported_audio_codecs@,
        hf_audio_codecs: seq![],
        active_codec: AudioCodec::Cvsd,
        audio_state: AudioConnectionState::Disconnected,
        calls: seq![],
        indicator_report_enabled: false,
        cme_error_enabled: false,
        cli_notification_enabled: false,
        call_waiting_enabled: false,
        inband_ringtone_enabled: true,
        network_operator: seq![],
        cops_format_selected: false,
        remaining_slc_setup_features: Set::empty(),
        read_buffer: seq![],
    }
}

impl AgModel {
    /// Whether the Hands-Free said that it has a feature.
    pub open spec fn hf_has(self, bit: u32) -> bool {
        self.supported_hf_features & bit != 0
    }

    /// Whether the Audio Gateway has a feature.
    pub open spec fn ag_has(self, bit: u32) -> bool {
        self.supported_ag_features & bit != 0
    }
}

/// The answer that accepts a command.
pub open spec fn accept() -> TurnModel {
    event::nothing().said("OK"@)
}

/// The answer that refuses a command.
pub open spec fn refuse() -> TurnModel {
    event::nothing().said("ERROR"@)
}

/// The response that tells an error: with its code, where that is enabled.
pub open spec fn error_text(m: AgModel, error: CmeError) -> Seq<char> {
    if m.cme_error_enabled {
        "+CME ERROR: "@ + text::decimal(error.number() as nat)
    } else {
        "ERROR"@
    }
}

/// The answer that tells an error.
pub open spec fn complain(m: AgModel, error: CmeError) -> TurnModel {
    event::nothing().said(error_text(m, error))
}

/// A turn with the end of the Service Level Connection procedure, where it
/// waits for nothing more.
pub open spec fn completed(m: AgModel, turn: TurnModel) -> TurnModel {
    if m.remaining_slc_setup_features.is_empty() {
        turn.told(EventModel::SlcComplete)
    } else {
        turn
    }
}

/// Features that are waited for, with one more where both sides have it.
pub open spec fn awaiting(
    m: AgModel,
    features: Set<u32>,
    hf_bit: u32,
    ag_bit: u32,
) -> Set<u32> {
    if m.hf_has(hf_bit) && m.ag_has(ag_bit) {
        features.insert(hf_bit)
    } else {
        features
    }
}

/// `AT+BRSF=<features>`: exchange of features.
#[verifier::opaque]
pub open spec fn on_brsf(m: AgModel, p: Seq<AtParameterModel>) -> (AgModel, TurnModel) {
    let known = AgModel {
        supported_hf_features: hands_free::or_zero(call::number_at(p, 0)),
        ..m
    };
    let remaining = awaiting(
        known,
        awaiting(
            known,
            m.remaining_slc_setup_features,
            hf_feature::HF_INDICATORS,
            ag_feature::HF_INDICATORS,
        ),
        hf_feature::THREE_WAY_CALLING,
        ag_feature::THREE_WAY_CALLING,
    );
    (
        AgModel { remaining_slc_setup_features: remaining, ..known },
        event::nothing().said("+BRSF: "@ + text::decimal(m.supported_ag_features as nat)).said(
            "OK"@,
        ),
    )
}

/// The codecs in a list of numbers.
pub open spec fn codecs_in(p: Seq<AtParameterModel>) -> Seq<AudioCodec>
    decreases p.len(),
{
    if p.len() == 0 {
        seq![]
    } else {
        let before = codecs_in(p.drop_last());
        match p.last().number() {
            Some(v) => match AudioCodec::numbered(v as u8) {
                Some(codec) => before.push(codec),
                None => before,
            },
            None => before,
        }
    }
}

/// `AT+BAC=<codec>,...`: the codecs that the Hands-Free can decode.
#[verifier::opaque]
pub open spec fn on_bac(m: AgModel, p: Seq<AtParameterModel>) -> (AgModel, TurnModel) {
    (
        AgModel { hf_audio_codecs: codecs_in(p), ..m },
        accept().told(EventModel::SupportedAudioCodecs(codecs_in(p))),
    )
}

/// `AT+BCS=<codec>`: the Hands-Free accepts a codec. That ends a negotiation,
/// and the synchronous link has to be opened; without a negotiation nobody
/// asked for audio.
#[verifier::opaque]
pub open spec fn on_bcs(m: AgModel, p: Seq<AtParameterModel>) -> (AgModel, TurnModel) {
    match call::number_at(p, 0) {
        Some(v) => match AudioCodec::numbered(v as u8) {
            Some(codec) => {
                let settled = AgModel { active_codec: codec, ..m };
                let turn = accept().told(EventModel::CodecNegotiated(codec));
                if m.audio_state == AudioConnectionState::Negotiating {
                    (
                        AgModel { audio_state: AudioConnectionState::Connecting, ..settled },
                        turn.told(
                            EventModel::AudioConnectionState(AudioConnectionState::Connecting),
                        ).told(EventModel::AudioConnectionRequested(codec)),
                    )
                } else {
                    (settled, turn)
                }
            },
            None => (m, refuse()),
        },
        None => (m, refuse()),
    }
}

/// `AT+BVRA=<state>`: voice recognition.
#[verifier::opaque]
pub open spec fn on_bvra(m: AgModel, p: Seq<AtParameterModel>) -> (AgModel, TurnModel) {
    match call::number_at(p, 0) {
        Some(v) => match VoiceRecognitionState::numbered(v) {
            Some(state) => (m, accept().told(EventModel::VoiceRecognition(state))),
            None => (m, accept()),
        },
        None => (m, accept()),
    }
}

/// The operation that a call-hold request is for, and the call that it is
/// about: a code, or the first character of one and a call index.
pub open spec fn hold_request(raw: Seq<u8>) -> Option<(CallHoldOperation, Option<u32>)> {
    if raw.len() > 1 {
        match text::u32_of(raw.skip(1)) {
            Some(index) => match CallHoldOperation::coded(seq![raw[0] as char, 'x']) {
                Some(operation) => Some((operation, Some(index))),
                None => None,
            },
            None => None,
        }
    } else {
        match CallHoldOperation::coded(vstd::utf8::decode_utf8(raw)) {
            Some(operation) => Some((operation, None)),
            None => None,
        }
    }
}

/// Whether a call list holds an index.
pub open spec fn has_call(calls: Seq<CallInfoModel>, index: u32) -> bool {
    exists|i: int| 0 <= i < calls.len() && (#[trigger] calls[i]).index == index
}

/// `AT+CHLD=<code>`: a call-hold operation.
#[verifier::opaque]
pub open spec fn on_chld(m: AgModel, p: Seq<AtParameterModel>) -> (AgModel, TurnModel) {
    match call::text_at(p, 0) {
        Some(_) => match hold_request(p[0]->Value_0) {
            Some((operation, call_index)) => {
                if !m.supported_ag_call_hold_operations.contains(operation) {
                    (m, complain(m, CmeError::OperationNotSupported))
                } else if call_index is Some && !has_call(m.calls, call_index->0) {
                    (m, complain(m, CmeError::InvalidIndex))
                } else {
                    (m, accept().told(EventModel::CallHold { operation, call_index }))
                }
            },
            None => (m, complain(m, CmeError::OperationNotSupported)),
        },
        None => (m, complain(m, CmeError::OperationNotSupported)),
    }
}

/// The codes of operations.
pub open spec fn operation_codes(operations: Seq<CallHoldOperation>) -> Seq<Seq<char>> {
    Seq::new(operations.len(), |i: int| operations[i].code_text())
}

/// `AT+CHLD=?`: the call-hold operations.
#[verifier::opaque]
pub open spec fn on_chld_test(m: AgModel) -> (AgModel, TurnModel) {
    if !m.ag_has(ag_feature::THREE_WAY_CALLING) {
        (m, refuse())
    } else {
        let done = AgModel {
            remaining_slc_setup_features: m.remaining_slc_setup_features.remove(
                hf_feature::THREE_WAY_CALLING,
            ),
            ..m
        };
        let codes = text::joined(operation_codes(m.supported_ag_call_hold_operations));
        (done, completed(done, event::nothing().said("+CHLD: ("@ + codes + ")"@).said("OK"@)))
    }
}

/// The texts of indicators in a list of them.
pub open spec fn test_texts(states: Seq<AgIndicatorModel>) -> Seq<Seq<char>> {
    Seq::new(states.len(), |i: int| indicator::test_text(states[i]))
}

/// The values of indicators.
pub open spec fn status_texts(states: Seq<AgIndicatorModel>) -> Seq<Seq<char>> {
    Seq::new(states.len(), |i: int| text::decimal(states[i].current_status as nat))
}

/// `AT+CIND=?`: the indicators.
#[verifier::opaque]
pub open spec fn on_cind_test(m: AgModel) -> (AgModel, TurnModel) {
    if m.ag_indicators.len() == 0 {
        (m, complain(m, CmeError::NotFound))
    } else {
        (
            m,
            event::nothing().said("+CIND: "@ + text::joined(test_texts(m.ag_indicators))).said(
                "OK"@,
            ),
        )
    }
}

/// `AT+CIND?`: their values.
#[verifier::opaque]
pub open spec fn on_cind_read(m: AgModel) -> (AgModel, TurnModel) {
    if m.ag_indicators.len() == 0 {
        (m, complain(m, CmeError::NotFound))
    } else {
        (
            m,
            completed(
                m,
                event::nothing().said(
                    "+CIND: "@ + text::joined(status_texts(m.ag_indicators)),
                ).said("OK"@),
            ),
        )
    }
}

/// `AT+CMER=<mode>,<keypad>,<display>,<indicator>`: reports of changes. Other
/// modes than the one that exists are answered with an error before the `OK`.
#[verifier::opaque]
pub open spec fn on_cmer(m: AgModel, p: Seq<AtParameterModel>) -> (AgModel, TurnModel) {
    let indicator = hands_free::or_zero(call::number_at(p, 3));
    let known = call::number_at(p, 0) == Some(3u32) && hands_free::or_zero(call::number_at(p, 1))
        == 0 && hands_free::or_zero(call::number_at(p, 2)) == 0 && indicator <= 1;
    let turn = if known {
        event::nothing()
    } else {
        complain(m, CmeError::InvalidIndex)
    };
    (AgModel { indicator_report_enabled: indicator != 0, ..m }, turn.said("OK"@))
}

/// `AT+CMEE=<enabled>`: errors with their codes.
#[verifier::opaque]
pub open spec fn on_cmee(m: AgModel, p: Seq<AtParameterModel>) -> (AgModel, TurnModel) {
    (
        AgModel { cme_error_enabled: hands_free::or_zero(call::number_at(p, 0)) != 0, ..m },
        accept(),
    )
}

/// `AT+CCWA=<enabled>`: reports of waiting calls.
#[verifier::opaque]
pub open spec fn on_ccwa(m: AgModel, p: Seq<AtParameterModel>) -> (AgModel, TurnModel) {
    (
        AgModel { call_waiting_enabled: hands_free::or_zero(call::number_at(p, 0)) != 0, ..m },
        accept(),
    )
}

/// Whether a list holds the number of an indicator.
pub open spec fn lists_indicator(p: Seq<AtParameterModel>, indicator: HfIndicator) -> bool {
    exists|i: int|
        0 <= i < p.len() && (#[trigger] p[i]).number() is Some && HfIndicator::numbered(
            p[i].number()->0 as u8,
        ) == Some(indicator)
}

/// The indicators that a list holds the numbers of, with nothing said of them.
pub open spec fn shared_indicators(
    supported: Seq<HfIndicator>,
    p: Seq<AtParameterModel>,
) -> Seq<(HfIndicator, HfIndicatorState)>
    decreases supported.len(),
{
    if supported.len() == 0 {
        seq![]
    } else {
        let before = shared_indicators(supported.drop_last(), p);
        let indicator = supported.last();
        if lists_indicator(p, indicator) {
            before.push((indicator, indicator::unused(indicator)))
        } else {
            before
        }
    }
}

/// `AT+BIND=<indicator>,...`: the indicators of the Hands-Free.
#[verifier::opaque]
pub open spec fn on_bind(m: AgModel, p: Seq<AtParameterModel>) -> (AgModel, TurnModel) {
    if !m.ag_has(ag_feature::HF_INDICATORS) {
        (m, refuse())
    } else {
        (AgModel { hf_indicators: shared_indicators(m.supported_hf_indicators, p), ..m }, accept())
    }
}

/// `AT+BIND=?`: the indicators that the Audio Gateway takes.
#[verifier::opaque]
pub open spec fn on_bind_test(m: AgModel) -> (AgModel, TurnModel) {
    if !m.ag_has(ag_feature::HF_INDICATORS) {
        (m, refuse())
    } else {
        let numbers = text::joined(indicator::indicator_numbers(m.supported_hf_indicators));
        (m, event::nothing().said("+BIND: ("@ + numbers + ")"@).said("OK"@))
    }
}

/// The responses that tell which indicators are enabled: all of them.
pub open spec fn enabled_lines(states: Seq<(HfIndicator, HfIndicatorState)>) -> Seq<Seq<u8>> {
    Seq::new(
        states.len(),
        |i: int|
            framing::response_line(
                "+BIND: "@ + text::decimal(states[i].0.number() as nat) + ",1"@,
            ),
    )
}

/// `AT+BIND?`: the indicators that are enabled.
#[verifier::opaque]
pub open spec fn on_bind_read(m: AgModel) -> (AgModel, TurnModel) {
    if !m.ag_has(ag_feature::HF_INDICATORS) {
        (m, refuse())
    } else {
        let done = AgModel {
            remaining_slc_setup_features: m.remaining_slc_setup_features.remove(
                hf_feature::HF_INDICATORS,
            ),
            ..m
        };
        let lines = TurnModel { outgoing: enabled_lines(m.hf_indicators), events: seq![] };
        (done, completed(done, lines.said("OK"@)))
    }
}

/// The position of an indicator, or the length of the list.
pub open spec fn position_of(
    states: Seq<(HfIndicator, HfIndicatorState)>,
    indicator: HfIndicator,
) -> int
    decreases states.len(),
{
    if states.len() == 0 || states[0].0 == indicator {
        0
    } else {
        1 + position_of(states.skip(1), indicator)
    }
}

/// `AT+BIEV=<indicator>,<value>`: the value of an indicator.
#[verifier::opaque]
pub open spec fn on_biev(m: AgModel, p: Seq<AtParameterModel>) -> (AgModel, TurnModel) {
    match (call::number_at(p, 0), call::number_at(p, 1)) {
        (Some(number), Some(value)) => match HfIndicator::numbered(number as u8) {
            Some(indicator) => {
                let i = position_of(m.hf_indicators, indicator);
                if !m.ag_has(ag_feature::HF_INDICATORS) || i >= m.hf_indicators.len() {
                    (m, refuse())
                } else {
                    let state = HfIndicatorState {
                        current_status: value,
                        ..m.hf_indicators[i].1
                    };
                    (
                        AgModel {
                            hf_indicators: m.hf_indicators.update(i, (m.hf_indicators[i].0, state)),
                            ..m
                        },
                        accept().told(EventModel::HfIndicatorUpdated(state)),
                    )
                }
            },
            None => (m, refuse()),
        },
        _ => (m, refuse()),
    }
}

/// Indicators, reported or not as a list says by position.
pub open spec fn with_reports(
    states: Seq<AgIndicatorModel>,
    p: Seq<AtParameterModel>,
) -> Seq<AgIndicatorModel> {
    Seq::new(
        states.len(),
        |i: int|
            match call::number_at(p, i) {
                Some(v) => AgIndicatorModel { enabled: v != 0, ..states[i] },
                None => states[i],
            },
    )
}

/// `AT+BIA=<enabled>,...`: which indicators are reported.
#[verifier::opaque]
pub open spec fn on_bia(m: AgModel, p: Seq<AtParameterModel>) -> (AgModel, TurnModel) {
    (AgModel { ag_indicators: with_reports(m.ag_indicators, p), ..m }, accept())
}

/// `AT+BCC`: the Hands-Free asks for audio. The command is answered before
/// anything that follows from it.
#[verifier::opaque]
pub open spec fn on_bcc(m: AgModel) -> (AgModel, TurnModel) {
    let started = start_audio(m);
    (
        started.0,
        accept().told(EventModel::CodecConnectionRequested).followed(started.1),
    )
}

/// A text without the semicolons at its end.
pub open spec fn without_semicolons(s: Seq<char>) -> Seq<char>
    decreases s.len(),
{
    if s.len() > 0 && s.last() == ';' {
        without_semicolons(s.drop_last())
    } else {
        s
    }
}

/// `ATD<number>;`: the Hands-Free dials. The semicolon is no part of the
/// number.
#[verifier::opaque]
pub open spec fn on_dial(m: AgModel, p: Seq<AtParameterModel>) -> (AgModel, TurnModel) {
    let number = match call::text_at(p, 0) {
        Some(number) => without_semicolons(number),
        None => seq![],
    };
    (m, accept().told(EventModel::Dial(number)))
}

/// The responses that list calls.
pub open spec fn call_lines(calls: Seq<CallInfoModel>) -> Seq<Seq<u8>> {
    Seq::new(calls.len(), |i: int| framing::response_line(call::call_text(calls[i])))
}

/// `AT+CLCC`: the call list.
#[verifier::opaque]
pub open spec fn on_clcc(m: AgModel) -> (AgModel, TurnModel) {
    (m, TurnModel { outgoing: call_lines(m.calls), events: seq![] }.said("OK"@))
}

/// `AT+CLIP=<enabled>`: identification of callers.
#[verifier::opaque]
pub open spec fn on_clip(m: AgModel, p: Seq<AtParameterModel>) -> (AgModel, TurnModel) {
    (AgModel { cli_notification_enabled: call::text_at(p, 0) == Some("1"@), ..m }, accept())
}

/// `AT+COPS=<mode>,<format>`: format of the operator name. There is one that
/// can be selected.
#[verifier::opaque]
pub open spec fn on_cops_set(m: AgModel, p: Seq<AtParameterModel>) -> (AgModel, TurnModel) {
    if call::number_at(p, 0) == Some(3u32) && call::number_at(p, 1) == Some(0u32) {
        (AgModel { cops_format_selected: true, ..m }, accept())
    } else {
        (m, complain(m, CmeError::OperationNotSupported))
    }
}

/// `AT+COPS?`: the operator name, once its format is selected.
#[verifier::opaque]
pub open spec fn on_cops_read(m: AgModel) -> (AgModel, TurnModel) {
    if !m.cops_format_selected {
        (m, complain(m, CmeError::OperationNotAllowed))
    } else {
        (
            m,
            event::nothing().said("+COPS: 0,0,"@ + text::quoted(m.network_operator)).said("OK"@),
        )
    }
}

/// `AT+VGS=<level>`: the speaker volume.
#[verifier::opaque]
pub open spec fn on_vgs(m: AgModel, p: Seq<AtParameterModel>) -> (AgModel, TurnModel) {
    match call::number_at(p, 0) {
        Some(v) => (m, accept().told(EventModel::SpeakerVolume(v as u8))),
        None => (m, accept()),
    }
}

/// `AT+VGM=<level>`: the microphone volume.
#[verifier::opaque]
pub open spec fn on_vgm(m: AgModel, p: Seq<AtParameterModel>) -> (AgModel, TurnModel) {
    match call::number_at(p, 0) {
        Some(v) => (m, accept().told(EventModel::MicrophoneVolume(v as u8))),
        None => (m, accept()),
    }
}

/// What a command leads to.
pub open spec fn on_command(m: AgModel, c: AtCommandModel) -> (AgModel, TurnModel) {
    let p = c.parameters;
    if c.code == "BRSF"@ {
        match c.sub_code {
            AtSubCode::Write => on_brsf(m, p),
            _ => (m, refuse()),
        }
    } else if c.code == "BAC"@ {
        match c.sub_code {
            AtSubCode::Write => on_bac(m, p),
            _ => (m, refuse()),
        }
    } else if c.code == "BCS"@ {
        match c.sub_code {
            AtSubCode::Write => on_bcs(m, p),
            _ => (m, refuse()),
        }
    } else if c.code == "BVRA"@ {
        match c.sub_code {
            AtSubCode::Write => on_bvra(m, p),
            _ => (m, refuse()),
        }
    } else if c.code == "CHLD"@ {
        match c.sub_code {
            AtSubCode::Write => on_chld(m, p),
            AtSubCode::Test => on_chld_test(m),
            _ => (m, refuse()),
        }
    } else if c.code == "CIND"@ {
        match c.sub_code {
            AtSubCode::Test => on_cind_test(m),
            AtSubCode::Read => on_cind_read(m),
            _ => (m, refuse()),
        }
    } else if c.code == "CMER"@ {
        match c.sub_code {
            AtSubCode::Write => on_cmer(m, p),
            _ => (m, refuse()),
        }
    } else if c.code == "CMEE"@ {
        match c.sub_code {
            AtSubCode::Write => on_cmee(m, p),
            _ => (m, refuse()),
        }
    } else if c.code == "CCWA"@ {
        match c.sub_code {
            AtSubCode::Write => on_ccwa(m, p),
            _ => (m, refuse()),
        }
    } else if c.code == "BIND"@ {
        match c.sub_code {
            AtSubCode::Write => on_bind(m, p),
            AtSubCode::Test => on_bind_test(m),
            AtSubCode::Read => on_bind_read(m),
            _ => (m, refuse()),
        }
    } else if c.code == "BIEV"@ {
        match c.sub_code {
            AtSubCode::Write => on_biev(m, p),
            _ => (m, refuse()),
        }
    } else if c.code == "BIA"@ {
        match c.sub_code {
            AtSubCode::Write => on_bia(m, p),
            _ => (m, refuse()),
        }
    } else if c.code == "BCC"@ {
        match c.sub_code {
            AtSubCode::Plain => on_bcc(m),
            _ => (m, refuse()),
        }
    } else if c.code == "A"@ {
        match c.sub_code {
            AtSubCode::Plain => (m, accept().told(EventModel::Answer)),
            _ => (m, refuse()),
        }
    } else if c.code == "D"@ {
        match c.sub_code {
            AtSubCode::Plain => on_dial(m, p),
            _ => (m, refuse()),
        }
    } else if c.code == "CHUP"@ {
        match c.sub_code {
            AtSubCode::Plain => (m, accept().told(EventModel::HangUp)),
            _ => (m, refuse()),
        }
    } else if c.code == "CLCC"@ {
        match c.sub_code {
            AtSubCode::Plain => on_clcc(m),
            _ => (m, refuse()),
        }
    } else if c.code == "CLIP"@ {
        match c.sub_code {
            AtSubCode::Write => on_clip(m, p),
            _ => (m, refuse()),
        }
    } else if c.code == "COPS"@ {
        match c.sub_code {
            AtSubCode::Write => on_cops_set(m, p),
            AtSubCode::Read => on_cops_read(m),
            _ => (m, refuse()),
        }
    } else if c.code == "VGS"@ {
        match c.sub_code {
            AtSubCode::Write => on_vgs(m, p),
            _ => (m, refuse()),
        }
    } else if c.code == "VGM"@ {
        match c.sub_code {
            AtSubCode::Write => on_vgm(m, p),
            _ => (m, refuse()),
        }
    } else {
        (m, refuse())
    }
}

/// What a line leads to: nothing where it is empty, and a refusal where it is
/// no command.
pub open spec fn on_line(m: AgModel, line: Seq<u8>) -> (AgModel, TurnModel) {
    if line.len() == 0 {
        (m, event::nothing())
    } else {
        match at::command_of(line) {
            Ok(command) => on_command(m, command),
            Err(_) => (m, refuse()),
        }
    }
}

/// What lines lead to, one after the other.
pub open spec fn on_lines(m: AgModel, lines: Seq<Seq<u8>>) -> (AgModel, TurnModel)
    decreases lines.len(),
{
    if lines.len() == 0 {
        (m, event::nothing())
    } else {
        let before = on_lines(m, lines.drop_last());
        let now = on_line(before.0, lines.last());
        (now.0, before.1.followed(now.1))
    }
}

/// What bytes from the peer lead to.
pub open spec fn on_bytes(m: AgModel, data: Seq<u8>) -> (AgModel, TurnModel) {
    let found = framing::command_lines(m.read_buffer + data);
    on_lines(AgModel { read_buffer: found.rest, ..m }, found.lines)
}

/// Whether a codec is in both lists.
pub open spec fn shared_codec(m: AgModel, codec: AudioCodec) -> bool {
    m.supported_audio_codecs.contains(codec) && m.hf_audio_codecs.contains(codec)
}

/// The codec to negotiate: the widest that both sides have, where both
/// negotiate codecs at all.
pub open spec fn codec_choice(m: AgModel) -> Option<AudioCodec> {
    if !m.ag_has(ag_feature::CODEC_NEGOTIATION) || !m.hf_has(hf_feature::CODEC_NEGOTIATION) {
        None
    } else if shared_codec(m, AudioCodec::Lc3Swb) {
        Some(AudioCodec::Lc3Swb)
    } else if shared_codec(m, AudioCodec::Msbc) {
        Some(AudioCodec::Msbc)
    } else if shared_codec(m, AudioCodec::Cvsd) {
        Some(AudioCodec::Cvsd)
    } else {
        None
    }
}

/// The response that offers a codec.
pub open spec fn codec_offer(codec: AudioCodec) -> Seq<char> {
    "+BCS: "@ + text::decimal(codec.number() as nat)
}

/// The start of an audio connection: a codec is offered, or, where there is
/// nothing to negotiate, the synchronous link has to be opened at once. Where
/// one has been started already, nothing happens.
pub open spec fn start_audio(m: AgModel) -> (AgModel, TurnModel) {
    if m.audio_state != AudioConnectionState::Disconnected {
        (m, event::nothing())
    } else {
        match codec_choice(m) {
            Some(codec) => (
                AgModel {
                    active_codec: codec,
                    audio_state: AudioConnectionState::Negotiating,
                    ..m
                },
                event::nothing().said(codec_offer(codec)).told(
                    EventModel::AudioConnectionState(AudioConnectionState::Negotiating),
                ),
            ),
            None => (
                AgModel {
                    active_codec: AudioCodec::Cvsd,
                    audio_state: AudioConnectionState::Connecting,
                    ..m
                },
                event::nothing().told(
                    EventModel::AudioConnectionState(AudioConnectionState::Connecting),
                ).told(EventModel::AudioConnectionRequested(AudioCodec::Cvsd)),
            ),
        }
    }
}

/// The response that reports the value of an indicator, by its position.
pub open spec fn update_text(position: int, value: u32) -> Seq<char> {
    "+CIEV: "@ + text::decimal((position + 1) as nat) + ","@ + text::decimal(value as nat)
}

/// The position of the first of an indicator, or the length of the list.
pub open spec fn indicator_position(states: Seq<AgIndicatorModel>, indicator: AgIndicator) -> int
    decreases states.len(),
{
    if states.len() == 0 || states[0].indicator == indicator {
        0
    } else {
        1 + indicator_position(states.skip(1), indicator)
    }
}

// ---------------------------------------------------------------------------
// Reading commands
// ---------------------------------------------------------------------------

/// An answer that accepts a command.
fn acceptance() -> (r: Turn)
    ensures
        r@ == accept(),
{
    let mut turn = Turn::new();
    turn.say("OK");
    turn
}

/// An answer that refuses a command.
fn refusal() -> (r: Turn)
    ensures
        r@ == refuse(),
{
    let mut turn = Turn::new();
    turn.say("ERROR");
    turn
}

/// Reads a number, or zero where there is none.
fn number_or_zero(p: &[AtParameter], i: usize) -> (r: u32)
    ensures
        r == hands_free::or_zero(call::number_at(models::seq_views(p@), i as int)),
{
    match call::param_number(p, i) {
        Some(v) => v,
        None => 0,
    }
}

/// Reads the codecs in a list of numbers.
fn parse_codecs(p: &[AtParameter]) -> (r: Vec<AudioCodec>)
    ensures
        r@ == codecs_in(models::seq_views(p@)),
{
    let ghost all = models::seq_views(p@);
    let mut r: Vec<AudioCodec> = Vec::new();
    let mut i: usize = 0;
    assert(all.take(0) =~= seq![]);
    assert(r@ =~= codecs_in(all.take(0)));
    while i < p.len()
        invariant
            i <= p@.len(),
            all == models::seq_views(p@),
            r@ == codecs_in(all.take(i as int)),
        decreases p@.len() - i,
    {
        assert(all.take(i + 1).drop_last() =~= all.take(i as int));
        assert(all.take(i + 1).last() == p@[i as int]@);
        if let Some(v) = p[i].as_u32() {
            if let Some(codec) = AudioCodec::from_value(v as u8) {
                r.push(codec);
            }
        }
        i = i + 1;
    }
    assert(all.take(i as int) =~= all);
    r
}

/// A copy of a list of codecs.
fn copy_codecs(codecs: &Vec<AudioCodec>) -> (r: Vec<AudioCodec>)
    ensures
        r@ == codecs@,
{
    let mut r: Vec<AudioCodec> = Vec::new();
    let mut i: usize = 0;
    while i < codecs.len()
        invariant
            i <= codecs@.len(),
            r@ == codecs@.take(i as int),
        decreases codecs@.len() - i,
    {
        assert(codecs@.take(i + 1) =~= codecs@.take(i as int).push(codecs@[i as int]));
        r.push(codecs[i]);
        i = i + 1;
    }
    assert(codecs@.take(i as int) =~= codecs@);
    r
}

/// Whether a list of codecs holds one.
pub fn contains_codec(codecs: &Vec<AudioCodec>, codec: AudioCodec) -> (r: bool)
    ensures
        r == codecs@.contains(codec),
{
    let mut i: usize = 0;
    while i < codecs.len()
        invariant
            i <= codecs@.len(),
            forall|k: int| 0 <= k < i ==> codecs@[k] != codec,
        decreases codecs@.len() - i,
    {
        if codecs[i] == codec {
            return true;
        }
        i = i + 1;
    }
    false
}

/// Whether a list of operations holds one.
fn contains_operation(operations: &Vec<CallHoldOperation>, operation: CallHoldOperation) -> (r:
    bool)
    ensures
        r == operations@.contains(operation),
{
    let mut i: usize = 0;
    while i < operations.len()
        invariant
            i <= operations@.len(),
            forall|k: int| 0 <= k < i ==> operations@[k] != operation,
        decreases operations@.len() - i,
    {
        if operations[i] == operation {
            return true;
        }
        i = i + 1;
    }
    false
}

/// Whether a call list holds an index.
fn contains_call(calls: &Vec<CallInfo>, index: u32) -> (r: bool)
    ensures
        r == has_call(models::seq_views(calls@), index),
{
    let ghost all = models::seq_views(calls@);
    let mut i: usize = 0;
    while i < calls.len()
        invariant
            i <= calls@.len(),
            all == models::seq_views(calls@),
            forall|k: int| 0 <= k < i ==> (#[trigger] all[k]).index != index,
        decreases calls@.len() - i,
    {
        assert(all[i as int] == calls@[i as int]@);
        if calls[i].index == index {
            return true;
        }
        i = i + 1;
    }
    false
}

/// The codes about one call start with a digit and end with an `x`.
pub proof fn lemma_codes_about_one_call(c: char)
    ensures
        CallHoldOperation::coded(seq![c, 'x']) == (if c == '1' {
            Some(CallHoldOperation::ReleaseSpecificCall)
        } else if c == '2' {
            Some(CallHoldOperation::HoldAllCallsExcept)
        } else {
            None
        }),
{
    reveal_strlit("0");
    reveal_strlit("1");
    reveal_strlit("1x");
    reveal_strlit("2");
    reveal_strlit("2x");
    reveal_strlit("3");
    reveal_strlit("4");
    let code = seq![c, 'x'];
    assert(code.len() == 2 && code[0] == c && code[1] == 'x');
    assert("0"@.len() == 1 && "1"@.len() == 1 && "2"@.len() == 1 && "3"@.len() == 1);
    assert("4"@.len() == 1 && "1x"@.len() == 2 && "2x"@.len() == 2);
    assert("1x"@[0] == '1' && "2x"@[0] == '2');
    assert("1x"@[1] == 'x' && "2x"@[1] == 'x');
    if c == '1' {
        assert(code =~= "1x"@);
    }
    if c == '2' {
        assert(code =~= "2x"@);
    }
}

/// Reads a call-hold request.
fn parse_hold_request(raw: &[u8], code: &str) -> (r: Option<(CallHoldOperation, Option<u32>)>)
    requires
        code@ == vstd::utf8::decode_utf8(raw@),
    ensures
        r == hold_request(raw@),
{
    if raw.len() > 1 {
        let rest = bytes::range(raw, 1, raw.len());
        assert(rest@ =~= raw@.skip(1));
        match text::parse_u32(rest) {
            Some(index) => {
                proof {
                    lemma_codes_about_one_call(raw@[0] as char);
                }
                match raw[0] {
                    49 => Some((CallHoldOperation::ReleaseSpecificCall, Some(index))),
                    50 => Some((CallHoldOperation::HoldAllCallsExcept, Some(index))),
                    _ => None,
                }
            },
            None => None,
        }
    } else {
        match CallHoldOperation::from_code(code) {
            Some(operation) => Some((operation, None)),
            None => None,
        }
    }
}

/// Whether a list holds the number of an indicator.
fn holds_indicator(p: &[AtParameter], indicator: HfIndicator) -> (r: bool)
    ensures
        r == lists_indicator(models::seq_views(p@), indicator),
{
    let ghost all = models::seq_views(p@);
    let mut i: usize = 0;
    while i < p.len()
        invariant
            i <= p@.len(),
            all == models::seq_views(p@),
            forall|k: int|
                0 <= k < i ==> !((#[trigger] all[k]).number() is Some && HfIndicator::numbered(
                    all[k].number()->0 as u8,
                ) == Some(indicator)),
        decreases p@.len() - i,
    {
        assert(all[i as int] == p@[i as int]@);
        if let Some(v) = p[i].as_u32() {
            if let Some(listed) = HfIndicator::from_value(v as u8) {
                if listed == indicator {
                    return true;
                }
            }
        }
        i = i + 1;
    }
    false
}

/// A text without the semicolons at its end.
fn trim_semicolons(s: &str) -> (r: String)
    ensures
        r@ == without_semicolons(s@),
{
    let mut n: usize = s.unicode_len();
    assert(s@.take(n as int) =~= s@);
    while n > 0 && s.get_char(n - 1) == ';'
        invariant
            n <= s@.len(),
            without_semicolons(s@.take(n as int)) == without_semicolons(s@),
        decreases n,
    {
        assert(s@.take(n as int).drop_last() =~= s@.take(n - 1));
        n = n - 1;
    }
    let rest = s.substring_char(0, n);
    assert(rest@ =~= s@.take(n as int));
    text::owned(rest)
}

// ---------------------------------------------------------------------------
// The protocol
// ---------------------------------------------------------------------------

impl AgProtocol {
    /// An Audio Gateway with a configuration.
    pub fn new(configuration: AgConfiguration) -> (r: Self)
        ensures
            r@ == initial(configuration),
    {
        let supported = indicator::keep_unused(&configuration.supported_hf_indicators);
        proof {
            reveal_strlit("");
        }
        let r = AgProtocol {
            supported_ag_features: configuration.supported_ag_features,
            supported_ag_call_hold_operations: configuration.supported_ag_call_hold_operations,
            ag_indicators: configuration.supported_ag_indicators,
            supported_hf_indicators: supported.keys(),
            hf_indicators: Vec::new(),
            supported_hf_features: 0,
            supported_audio_codecs: configuration.supported_audio_codecs,
            hf_audio_codecs: Vec::new(),
            active_codec: AudioCodec::Cvsd,
            audio_state: AudioConnectionState::Disconnected,
            calls: Vec::new(),
            indicator_report_enabled: false,
            cme_error_enabled: false,
            cli_notification_enabled: false,
            call_waiting_enabled: false,
            inband_ringtone_enabled: true,
            network_operator: text::owned(""),
            cops_format_selected: false,
            remaining_slc_setup_features: HashSet::new(),
            read_buffer: Vec::new(),
        };
        assert(r@ =~= initial(configuration));
        r
    }

    /// Whether the Hands-Free said that it has a feature.
    pub fn supports_hf_feature(&self, feature: u32) -> (r: bool)
        ensures
            r == self@.hf_has(feature),
    {
        self.supported_hf_features & feature != 0
    }

    /// Whether the Audio Gateway has a feature.
    pub fn supports_ag_feature(&self, feature: u32) -> (r: bool)
        ensures
            r == self@.ag_has(feature),
    {
        self.supported_ag_features & feature != 0
    }

    /// Takes bytes from the peer: the lines to send back, and events.
    pub fn receive(&mut self, data: &[u8]) -> (r: (Vec<Vec<u8>>, Vec<HfpEvent>))
        ensures
            ({
                let given = TurnModel {
                    outgoing: models::seq_views(r.0@),
                    events: models::seq_views(r.1@),
                };
                (final(self)@, given) == on_bytes(old(self)@, data@)
            }),
    {
        let ghost before = self@;
        bytes::push_bytes(&mut self.read_buffer, data);
        let lines = framing::extract_command_lines(&mut self.read_buffer);
        let ghost all = models::seq_views(lines@);
        let ghost start = self@;
        assert(start =~= AgModel {
            read_buffer: framing::command_lines(before.read_buffer + data@).rest,
            ..before
        });
        let mut turn = Turn::new();
        let mut i: usize = 0;
        assert(all.take(0) =~= seq![]);
        while i < lines.len()
            invariant
                i <= lines@.len(),
                all == models::seq_views(lines@),
                (self@, turn@) == on_lines(start, all.take(i as int)),
            decreases lines@.len() - i,
        {
            assert(all.take(i + 1).drop_last() =~= all.take(i as int));
            assert(all.take(i + 1).last() == lines@[i as int]@);
            let next = self.handle_line(&lines[i]);
            turn.follow(next);
            i = i + 1;
        }
        assert(all.take(i as int) =~= all);
        (turn.outgoing, turn.events)
    }

    fn handle_line(&mut self, line: &[u8]) -> (r: Turn)
        ensures
            (final(self)@, r@) == on_line(old(self)@, line@),
    {
        if line.len() == 0 {
            return Turn::new();
        }
        match AtCommand::parse_from(line) {
            Ok(command) => self.dispatch(command),
            Err(_) => refusal(),
        }
    }

    fn dispatch(&mut self, command: AtCommand) -> (r: Turn)
        ensures
            (final(self)@, r@) == on_command(old(self)@, command@),
    {
        let code = command.code.as_str();
        let p = command.parameters.as_slice();
        if text::same_text(code, "BRSF") {
            match command.sub_code {
                AtSubCode::Write => self.on_brsf(p),
                _ => refusal(),
            }
        } else if text::same_text(code, "BAC") {
            match command.sub_code {
                AtSubCode::Write => self.on_bac(p),
                _ => refusal(),
            }
        } else if text::same_text(code, "BCS") {
            match command.sub_code {
                AtSubCode::Write => self.on_bcs(p),
                _ => refusal(),
            }
        } else if text::same_text(code, "BVRA") {
            match command.sub_code {
                AtSubCode::Write => self.on_bvra(p),
                _ => refusal(),
            }
        } else if text::same_text(code, "CHLD") {
            match command.sub_code {
                AtSubCode::Write => self.on_chld(p),
                AtSubCode::Test => self.on_chld_test(),
                _ => refusal(),
            }
        } else if text::same_text(code, "CIND") {
            match command.sub_code {
                AtSubCode::Test => self.on_cind_test(),
                AtSubCode::Read => self.on_cind_read(),
                _ => refusal(),
            }
        } else if text::same_text(code, "CMER") {
            match command.sub_code {
                AtSubCode::Write => self.on_cmer(p),
                _ => refusal(),
            }
        } else if text::same_text(code, "CMEE") {
            match command.sub_code {
                AtSubCode::Write => self.on_cmee(p),
                _ => refusal(),
            }
        } else if text::same_text(code, "CCWA") {
            match command.sub_code {
                AtSubCode::Write => self.on_ccwa(p),
                _ => refusal(),
            }
        } else if text::same_text(code, "BIND") {
            match command.sub_code {
                AtSubCode::Write => self.on_bind(p),
                AtSubCode::Test => self.on_bind_test(),
                AtSubCode::Read => self.on_bind_read(),
                _ => refusal(),
            }
        } else if text::same_text(code, "BIEV") {
            match command.sub_code {
                AtSubCode::Write => self.on_biev(p),
                _ => refusal(),
            }
        } else if text::same_text(code, "BIA") {
            match command.sub_code {
                AtSubCode::Write => self.on_bia(p),
                _ => refusal(),
            }
        } else if text::same_text(code, "BCC") {
            match command.sub_code {
                AtSubCode::Plain => self.on_bcc(),
                _ => refusal(),
            }
        } else if text::same_text(code, "A") {
            match command.sub_code {
                AtSubCode::Plain => self.on_answer(),
                _ => refusal(),
            }
        } else if text::same_text(code, "D") {
            match command.sub_code {
                AtSubCode::Plain => self.on_dial(p),
                _ => refusal(),
            }
        } else if text::same_text(code, "CHUP") {
            match command.sub_code {
                AtSubCode::Plain => self.on_chup(),
                _ => refusal(),
            }
        } else if text::same_text(code, "CLCC") {
            match command.sub_code {
                AtSubCode::Plain => self.on_clcc(),
                _ => refusal(),
            }
        } else if text::same_text(code, "CLIP") {
            match command.sub_code {
                AtSubCode::Write => self.on_clip(p),
                _ => refusal(),
            }
        } else if text::same_text(code, "COPS") {
            match command.sub_code {
                AtSubCode::Write => self.on_cops_set(p),
                AtSubCode::Read => self.on_cops_read(),
                _ => refusal(),
            }
        } else if text::same_text(code, "VGS") {
            match command.sub_code {
                AtSubCode::Write => self.on_vgs(p),
                _ => refusal(),
            }
        } else if text::same_text(code, "VGM") {
            match command.sub_code {
                AtSubCode::Write => self.on_vgm(p),
                _ => refusal(),
            }
        } else {
            refusal()
        }
    }

    /// The answer that tells an error.
    fn complaint(&self, error: CmeError) -> (r: Turn)
        ensures
            r@ == complain(self@, error),
    {
        let mut turn = Turn::new();
        if self.cme_error_enabled {
            let mut response = text::owned("+CME ERROR: ");
            text::append_decimal(&mut response, error.to_value() as u64);
            turn.say(response.as_str());
        } else {
            turn.say("ERROR");
        }
        turn
    }

    /// Tells the end of the Service Level Connection procedure, where it
    /// waits for nothing more.
    fn check_remaining_slc_commands(&self, turn: &mut Turn)
        ensures
            final(turn)@ == completed(self@, old(turn)@),
    {
        if self.remaining_slc_setup_features.is_empty() {
            turn.tell(HfpEvent::SlcComplete);
        }
    }

    fn on_brsf(&mut self, p: &[AtParameter]) -> (r: Turn)
        ensures
            (final(self)@, r@) == on_brsf(old(self)@, models::seq_views(p@)),
    {
        proof {
            reveal(on_brsf);
        }
        self.supported_hf_features = number_or_zero(p, 0);
        let mut turn = Turn::new();
        let mut response = text::owned("+BRSF: ");
        text::append_decimal(&mut response, self.supported_ag_features as u64);
        turn.say(response.as_str());
        turn.say("OK");
        if self.supports_hf_feature(hf_feature::HF_INDICATORS) && self.supports_ag_feature(
            ag_feature::HF_INDICATORS,
        ) {
            self.remaining_slc_setup_features.insert(hf_feature::HF_INDICATORS);
        }
        if self.supports_hf_feature(hf_feature::THREE_WAY_CALLING) && self.supports_ag_feature(
            ag_feature::THREE_WAY_CALLING,
        ) {
            self.remaining_slc_setup_features.insert(hf_feature::THREE_WAY_CALLING);
        }
        turn
    }

    fn on_bac(&mut self, p: &[AtParameter]) -> (r: Turn)
        ensures
            (final(self)@, r@) == on_bac(old(self)@, models::seq_views(p@)),
    {
        proof {
            reveal(on_bac);
        }
        self.hf_audio_codecs = parse_codecs(p);
        let mut turn = acceptance();
        turn.tell(HfpEvent::SupportedAudioCodecs(copy_codecs(&self.hf_audio_codecs)));
        turn
    }

    fn on_bcs(&mut self, p: &[AtParameter]) -> (r: Turn)
        ensures
            (final(self)@, r@) == on_bcs(old(self)@, models::seq_views(p@)),
    {
        proof {
            reveal(on_bcs);
        }
        if let Some(v) = call::param_number(p, 0) {
            if let Some(codec) = AudioCodec::from_value(v as u8) {
                self.active_codec = codec;
                let mut turn = acceptance();
                turn.tell(HfpEvent::CodecNegotiated(codec));
                if self.audio_state == AudioConnectionState::Negotiating {
                    self.audio_state = AudioConnectionState::Connecting;
                    turn.tell(HfpEvent::AudioConnectionState(AudioConnectionState::Connecting));
                    turn.tell(HfpEvent::AudioConnectionRequested(codec));
                }
                return turn;
            }
        }
        refusal()
    }

    fn on_bvra(&mut self, p: &[AtParameter]) -> (r: Turn)
        ensures
            (final(self)@, r@) == on_bvra(old(self)@, models::seq_views(p@)),
    {
        proof {
            reveal(on_bvra);
        }
        let mut turn = acceptance();
        if let Some(v) = call::param_number(p, 0) {
            if let Some(state) = VoiceRecognitionState::from_value(v) {
                turn.tell(HfpEvent::VoiceRecognition(state));
            }
        }
        turn
    }

    fn on_chld(&mut self, p: &[AtParameter]) -> (r: Turn)
        ensures
            (final(self)@, r@) == on_chld(old(self)@, models::seq_views(p@)),
    {
        proof {
            reveal(on_chld);
        }
        let request = match call::param_text(p, 0) {
            Some(code) => match p[0].as_value() {
                Some(raw) => parse_hold_request(raw, code),
                None => None,
            },
            None => None,
        };
        match request {
            Some((operation, call_index)) => {
                if !contains_operation(&self.supported_ag_call_hold_operations, operation) {
                    return self.complaint(CmeError::OperationNotSupported);
                }
                if let Some(index) = call_index {
                    if !contains_call(&self.calls, index) {
                        return self.complaint(CmeError::InvalidIndex);
                    }
                }
                let mut turn = acceptance();
                turn.tell(HfpEvent::CallHold { operation, call_index });
                turn
            },
            None => self.complaint(CmeError::OperationNotSupported),
        }
    }

    fn on_chld_test(&mut self) -> (r: Turn)
        ensures
            (final(self)@, r@) == on_chld_test(old(self)@),
    {
        proof {
            reveal(on_chld_test);
        }
        if !self.supports_ag_feature(ag_feature::THREE_WAY_CALLING) {
            return refusal();
        }
        let mut codes: Vec<String> = Vec::new();
        let mut i: usize = 0;
        while i < self.supported_ag_call_hold_operations.len()
            invariant
                i <= self.supported_ag_call_hold_operations@.len(),
                codes@.len() == i,
                forall|k: int|
                    0 <= k < i ==> (#[trigger] codes@[k])@
                        == self.supported_ag_call_hold_operations@[k].code_text(),
            decreases self.supported_ag_call_hold_operations@.len() - i,
        {
            codes.push(text::owned(self.supported_ag_call_hold_operations[i].code()));
            i = i + 1;
        }
        assert(models::seq_views(codes@) =~= operation_codes(
            self@.supported_ag_call_hold_operations,
        ));
        let mut response = text::owned("+CHLD: (");
        response.append(text::join(&codes).as_str());
        response.append(")");
        let mut turn = Turn::new();
        turn.say(response.as_str());
        turn.say("OK");
        self.remaining_slc_setup_features.remove(&hf_feature::THREE_WAY_CALLING);
        self.check_remaining_slc_commands(&mut turn);
        turn
    }

    fn on_cind_test(&mut self) -> (r: Turn)
        ensures
            (final(self)@, r@) == on_cind_test(old(self)@),
    {
        proof {
            reveal(on_cind_test);
        }
        if self.ag_indicators.len() == 0 {
            return self.complaint(CmeError::NotFound);
        }
        let mut parts: Vec<String> = Vec::new();
        let mut i: usize = 0;
        while i < self.ag_indicators.len()
            invariant
                i <= self.ag_indicators@.len(),
                parts@.len() == i,
                forall|k: int|
                    0 <= k < i ==> (#[trigger] parts@[k])@ == indicator::test_text(
                        self.ag_indicators@[k]@,
                    ),
            decreases self.ag_indicators@.len() - i,
        {
            parts.push(self.ag_indicators[i].on_test_text());
            i = i + 1;
        }
        assert(models::seq_views(parts@) =~= test_texts(self@.ag_indicators));
        let mut response = text::owned("+CIND: ");
        response.append(text::join(&parts).as_str());
        let mut turn = Turn::new();
        turn.say(response.as_str());
        turn.say("OK");
        turn
    }

    fn on_cind_read(&mut self) -> (r: Turn)
        ensures
            (final(self)@, r@) == on_cind_read(old(self)@),
    {
        proof {
            reveal(on_cind_read);
        }
        if self.ag_indicators.len() == 0 {
            return self.complaint(CmeError::NotFound);
        }
        let mut parts: Vec<String> = Vec::new();
        let mut i: usize = 0;
        while i < self.ag_indicators.len()
            invariant
                i <= self.ag_indicators@.len(),
                parts@.len() == i,
                forall|k: int|
                    0 <= k < i ==> (#[trigger] parts@[k])@ == text::decimal(
                        self.ag_indicators@[k].current_status as nat,
                    ),
            decreases self.ag_indicators@.len() - i,
        {
            parts.push(text::decimal_text(self.ag_indicators[i].current_status as u64));
            i = i + 1;
        }
        assert(models::seq_views(parts@) =~= status_texts(self@.ag_indicators));
        let mut response = text::owned("+CIND: ");
        response.append(text::join(&parts).as_str());
        let mut turn = Turn::new();
        turn.say(response.as_str());
        turn.say("OK");
        self.check_remaining_slc_commands(&mut turn);
        turn
    }

    fn on_cmer(&mut self, p: &[AtParameter]) -> (r: Turn)
        ensures
            (final(self)@, r@) == on_cmer(old(self)@, models::seq_views(p@)),
    {
        proof {
            reveal(on_cmer);
        }
        let known_mode = match call::param_number(p, 0) {
            Some(mode) => mode == 3,
            None => false,
        };
        let indicator: u32 = number_or_zero(p, 3);
        let mut turn = if known_mode && number_or_zero(p, 1) == 0 && number_or_zero(p, 2) == 0
            && indicator <= 1 {
            Turn::new()
        } else {
            self.complaint(CmeError::InvalidIndex)
        };
        self.indicator_report_enabled = indicator != 0;
        turn.say("OK");
        turn
    }

    fn on_cmee(&mut self, p: &[AtParameter]) -> (r: Turn)
        ensures
            (final(self)@, r@) == on_cmee(old(self)@, models::seq_views(p@)),
    {
        proof {
            reveal(on_cmee);
        }
        self.cme_error_enabled = number_or_zero(p, 0) != 0;
        acceptance()
    }

    fn on_ccwa(&mut self, p: &[AtParameter]) -> (r: Turn)
        ensures
            (final(self)@, r@) == on_ccwa(old(self)@, models::seq_views(p@)),
    {
        proof {
            reveal(on_ccwa);
        }
        self.call_waiting_enabled = number_or_zero(p, 0) != 0;
        acceptance()
    }

    fn on_bind(&mut self, p: &[AtParameter]) -> (r: Turn)
        ensures
            (final(self)@, r@) == on_bind(old(self)@, models::seq_views(p@)),
    {
        proof {
            reveal(on_bind);
        }
        if !self.supports_ag_feature(ag_feature::HF_INDICATORS) {
            return refusal();
        }
        let ghost all = self.supported_hf_indicators@;
        let ghost listed = models::seq_views(p@);
        let mut states: Vec<(HfIndicator, HfIndicatorState)> = Vec::new();
        let mut i: usize = 0;
        assert(all.take(0) =~= seq![]);
        assert(states@ =~= shared_indicators(all.take(0), listed));
        while i < self.supported_hf_indicators.len()
            invariant
                i <= all.len(),
                all == self.supported_hf_indicators@,
                listed == models::seq_views(p@),
                states@ == shared_indicators(all.take(i as int), listed),
            decreases all.len() - i,
        {
            assert(all.take(i + 1).drop_last() =~= all.take(i as int));
            let indicator = self.supported_hf_indicators[i];
            if holds_indicator(p, indicator) {
                states.push((indicator, HfIndicatorState::new(indicator)));
            }
            i = i + 1;
        }
        assert(all.take(i as int) =~= all);
        self.hf_indicators = states;
        acceptance()
    }

    fn on_bind_test(&mut self) -> (r: Turn)
        ensures
            (final(self)@, r@) == on_bind_test(old(self)@),
    {
        proof {
            reveal(on_bind_test);
        }
        if !self.supports_ag_feature(ag_feature::HF_INDICATORS) {
            return refusal();
        }
        let mut response = text::owned("+BIND: (");
        response.append(indicator::join_indicators(&self.supported_hf_indicators).as_str());
        response.append(")");
        let mut turn = Turn::new();
        turn.say(response.as_str());
        turn.say("OK");
        turn
    }

    fn on_bind_read(&mut self) -> (r: Turn)
        ensures
            (final(self)@, r@) == on_bind_read(old(self)@),
    {
        proof {
            reveal(on_bind_read);
        }
        if !self.supports_ag_feature(ag_feature::HF_INDICATORS) {
            return refusal();
        }
        let mut turn = Turn::new();
        let ghost lines = enabled_lines(self.hf_indicators@);
        let mut i: usize = 0;
        while i < self.hf_indicators.len()
            invariant
                i <= self.hf_indicators@.len(),
                lines == enabled_lines(self.hf_indicators@),
                turn@ == (TurnModel { outgoing: lines.take(i as int), events: seq![] }),
            decreases self.hf_indicators@.len() - i,
        {
            let mut response = text::owned("+BIND: ");
            text::append_decimal(&mut response, self.hf_indicators[i].0.to_value() as u64);
            response.append(",1");
            turn.say(response.as_str());
            assert(lines.take(i + 1) =~= lines.take(i as int).push(lines[i as int]));
            i = i + 1;
        }
        assert(lines.take(i as int) =~= lines);
        turn.say("OK");
        self.remaining_slc_setup_features.remove(&hf_feature::HF_INDICATORS);
        self.check_remaining_slc_commands(&mut turn);
        turn
    }

    /// The position of an indicator of the Hands-Free.
    fn find_hf_indicator(&self, indicator: HfIndicator) -> (r: usize)
        ensures
            r == position_of(self@.hf_indicators, indicator),
            r <= self.hf_indicators@.len(),
    {
        let ghost all = self.hf_indicators@;
        let mut i: usize = 0;
        assert(all.skip(0) =~= all);
        while i < self.hf_indicators.len() && self.hf_indicators[i].0 != indicator
            invariant
                i <= all.len(),
                all == self.hf_indicators@,
                i + position_of(all.skip(i as int), indicator) == position_of(all, indicator),
            decreases all.len() - i,
        {
            assert(all.skip(i as int)[0] == all[i as int]);
            assert(all.skip(i as int).skip(1) =~= all.skip(i + 1));
            i = i + 1;
        }
        proof {
            if i < all.len() {
                assert(all.skip(i as int)[0] == all[i as int]);
            }
        }
        i
    }

    fn on_biev(&mut self, p: &[AtParameter]) -> (r: Turn)
        ensures
            (final(self)@, r@) == on_biev(old(self)@, models::seq_views(p@)),
    {
        proof {
            reveal(on_biev);
        }
        if !self.supports_ag_feature(ag_feature::HF_INDICATORS) {
            return refusal();
        }
        let indicator = match call::param_number(p, 0) {
            Some(number) => HfIndicator::from_value(number as u8),
            None => None,
        };
        if let (Some(indicator), Some(value)) = (indicator, call::param_number(p, 1)) {
            let i: usize = self.find_hf_indicator(indicator);
            if i < self.hf_indicators.len() {
                let (key, mut state) = self.hf_indicators[i];
                state.current_status = value;
                self.hf_indicators.set(i, (key, state));
                let mut turn = acceptance();
                turn.tell(HfpEvent::HfIndicatorUpdated(state));
                return turn;
            }
        }
        refusal()
    }

    fn on_bia(&mut self, p: &[AtParameter]) -> (r: Turn)
        ensures
            (final(self)@, r@) == on_bia(old(self)@, models::seq_views(p@)),
    {
        proof {
            reveal(on_bia);
        }
        let ghost before = self@;
        let ghost listed = models::seq_views(p@);
        let mut i: usize = 0;
        while i < self.ag_indicators.len() && i < p.len()
            invariant
                self@ == (AgModel { ag_indicators: self@.ag_indicators, ..before }),
                self@.ag_indicators.len() == before.ag_indicators.len(),
                i <= before.ag_indicators.len(),
                i <= listed.len(),
                listed == models::seq_views(p@),
                forall|k: int|
                    0 <= k < before.ag_indicators.len() ==> #[trigger] self@.ag_indicators[k]
                        == (if k < i {
                        with_reports(before.ag_indicators, listed)[k]
                    } else {
                        before.ag_indicators[k]
                    }),
            decreases p@.len() - i,
        {
            let ghost prior = self@.ag_indicators;
            assert(prior[i as int] == before.ag_indicators[i as int]);
            if let Some(v) = p[i].as_u32() {
                self.ag_indicators[i].enabled = v != 0;
            }
            assert forall|k: int|
                0 <= k < before.ag_indicators.len() implies #[trigger] self@.ag_indicators[k] == (
            if k < i + 1 {
                with_reports(before.ag_indicators, listed)[k]
            } else {
                before.ag_indicators[k]
            }) by {
                assert(k != i ==> self@.ag_indicators[k] == prior[k]);
            }
            i = i + 1;
        }
        assert(self@.ag_indicators =~= with_reports(before.ag_indicators, listed));
        acceptance()
    }

    fn on_bcc(&mut self) -> (r: Turn)
        ensures
            (final(self)@, r@) == on_bcc(old(self)@),
    {
        proof {
            reveal(on_bcc);
        }
        let mut turn = acceptance();
        turn.tell(HfpEvent::CodecConnectionRequested);
        let started = self.start_audio_turn();
        turn.follow(started);
        turn
    }

    fn on_answer(&mut self) -> (r: Turn)
        ensures
            final(self)@ == old(self)@,
            r@ == accept().told(EventModel::Answer),
    {
        let mut turn = acceptance();
        turn.tell(HfpEvent::Answer);
        turn
    }

    fn on_dial(&mut self, p: &[AtParameter]) -> (r: Turn)
        ensures
            (final(self)@, r@) == on_dial(old(self)@, models::seq_views(p@)),
    {
        proof {
            reveal(on_dial);
        }
        let number = match call::param_text(p, 0) {
            Some(number) => trim_semicolons(number),
            None => {
                proof {
                    reveal_strlit("");
                    assert(""@ =~= seq![]);
                }
                text::owned("")
            },
        };
        let mut turn = acceptance();
        turn.tell(HfpEvent::Dial(number));
        turn
    }

    fn on_chup(&mut self) -> (r: Turn)
        ensures
            final(self)@ == old(self)@,
            r@ == accept().told(EventModel::HangUp),
    {
        let mut turn = acceptance();
        turn.tell(HfpEvent::HangUp);
        turn
    }

    fn on_clcc(&mut self) -> (r: Turn)
        ensures
            (final(self)@, r@) == on_clcc(old(self)@),
    {
        proof {
            reveal(on_clcc);
        }
        let mut turn = Turn::new();
        let ghost lines = call_lines(self@.calls);
        let mut i: usize = 0;
        while i < self.calls.len()
            invariant
                i <= self.calls@.len(),
                lines == call_lines(self@.calls),
                turn@ == (TurnModel { outgoing: lines.take(i as int), events: seq![] }),
            decreases self.calls@.len() - i,
        {
            turn.say(self.calls[i].to_call_text().as_str());
            assert(lines.take(i + 1) =~= lines.take(i as int).push(lines[i as int]));
            i = i + 1;
        }
        assert(lines.take(i as int) =~= lines);
        turn.say("OK");
        turn
    }

    fn on_clip(&mut self, p: &[AtParameter]) -> (r: Turn)
        ensures
            (final(self)@, r@) == on_clip(old(self)@, models::seq_views(p@)),
    {
        proof {
            reveal(on_clip);
        }
        self.cli_notification_enabled = match call::param_text(p, 0) {
            Some(enabled) => text::same_text(enabled, "1"),
            None => false,
        };
        acceptance()
    }

    fn on_cops_set(&mut self, p: &[AtParameter]) -> (r: Turn)
        ensures
            (final(self)@, r@) == on_cops_set(old(self)@, models::seq_views(p@)),
    {
        proof {
            reveal(on_cops_set);
        }
        if let (Some(mode), Some(format)) = (call::param_number(p, 0), call::param_number(p, 1)) {
            if mode == 3 && format == 0 {
                self.cops_format_selected = true;
                return acceptance();
            }
        }
        self.complaint(CmeError::OperationNotSupported)
    }

    fn on_cops_read(&mut self) -> (r: Turn)
        ensures
            (final(self)@, r@) == on_cops_read(old(self)@),
    {
        proof {
            reveal(on_cops_read);
        }
        if !self.cops_format_selected {
            return self.complaint(CmeError::OperationNotAllowed);
        }
        let mut response = text::owned("+COPS: 0,0,");
        text::append_quoted(&mut response, self.network_operator.as_str());
        let mut turn = Turn::new();
        turn.say(response.as_str());
        turn.say("OK");
        turn
    }

    fn on_vgs(&mut self, p: &[AtParameter]) -> (r: Turn)
        ensures
            (final(self)@, r@) == on_vgs(old(self)@, models::seq_views(p@)),
    {
        proof {
            reveal(on_vgs);
        }
        let mut turn = acceptance();
        if let Some(v) = call::param_number(p, 0) {
            turn.tell(HfpEvent::SpeakerVolume(v as u8));
        }
        turn
    }

    fn on_vgm(&mut self, p: &[AtParameter]) -> (r: Turn)
        ensures
            (final(self)@, r@) == on_vgm(old(self)@, models::seq_views(p@)),
    {
        proof {
            reveal(on_vgm);
        }
        let mut turn = acceptance();
        if let Some(v) = call::param_number(p, 0) {
            turn.tell(HfpEvent::MicrophoneVolume(v as u8));
        }
        turn
    }

    /// Offers a codec. Its acceptance comes as a later
    /// [`HfpEvent::CodecNegotiated`].
    pub fn negotiate_codec(&mut self, codec: AudioCodec) -> (r: Vec<u8>)
        ensures
            final(self)@ == old(self)@,
            r@ == framing::response_line(codec_offer(codec)),
    {
        let mut response = text::owned("+BCS: ");
        text::append_decimal(&mut response, codec.to_value() as u64);
        framing::response_bytes(response.as_str())
    }

    /// Where the audio connection has got to.
    pub fn audio_state(&self) -> (r: AudioConnectionState)
        ensures
            r == self@.audio_state,
    {
        self.audio_state
    }

    /// The codec that was chosen.
    pub fn negotiated_codec(&self) -> (r: AudioCodec)
        ensures
            r == self@.active_codec,
    {
        self.active_codec
    }

    /// Starts an audio connection, which is always up to the Audio Gateway:
    /// the lines to send, and events. Where both sides negotiate codecs, the
    /// widest that both have is offered, and the link is opened once the
    /// Hands-Free accepts it. Otherwise the link is opened at once, with
    /// CVSD.
    pub fn start_audio_connection(&mut self) -> (r: (Vec<Vec<u8>>, Vec<HfpEvent>))
        ensures
            ({
                let given = TurnModel {
                    outgoing: models::seq_views(r.0@),
                    events: models::seq_views(r.1@),
                };
                (final(self)@, given) == start_audio(old(self)@)
            }),
    {
        let turn = self.start_audio_turn();
        (turn.outgoing, turn.events)
    }

    fn start_audio_turn(&mut self) -> (r: Turn)
        ensures
            (final(self)@, r@) == start_audio(old(self)@),
    {
        let mut turn = Turn::new();
        if self.audio_state != AudioConnectionState::Disconnected {
            return turn;
        }
        match self.codec_to_negotiate() {
            Some(codec) => {
                self.active_codec = codec;
                self.audio_state = AudioConnectionState::Negotiating;
                turn.tell(HfpEvent::AudioConnectionState(AudioConnectionState::Negotiating));
                turn.send(self.negotiate_codec(codec));
            },
            None => {
                self.active_codec = AudioCodec::Cvsd;
                self.audio_state = AudioConnectionState::Connecting;
                turn.tell(HfpEvent::AudioConnectionState(AudioConnectionState::Connecting));
                turn.tell(HfpEvent::AudioConnectionRequested(AudioCodec::Cvsd));
            },
        }
        turn
    }

    /// The synchronous link is up.
    pub fn on_audio_connected(&mut self) -> (r: Vec<HfpEvent>)
        ensures
            final(self)@ == (AgModel {
                audio_state: AudioConnectionState::Connected,
                ..old(self)@
            }),
            models::seq_views(r@) == hands_free::audio_change(
                old(self)@.audio_state,
                AudioConnectionState::Connected,
            ).events,
    {
        self.set_audio_state(AudioConnectionState::Connected).events
    }

    /// The synchronous link is gone.
    pub fn on_audio_disconnected(&mut self) -> (r: Vec<HfpEvent>)
        ensures
            final(self)@ == (AgModel {
                audio_state: AudioConnectionState::Disconnected,
                ..old(self)@
            }),
            models::seq_views(r@) == hands_free::audio_change(
                old(self)@.audio_state,
                AudioConnectionState::Disconnected,
            ).events,
    {
        self.set_audio_state(AudioConnectionState::Disconnected).events
    }

    fn set_audio_state(&mut self, state: AudioConnectionState) -> (r: Turn)
        ensures
            final(self)@ == (AgModel { audio_state: state, ..old(self)@ }),
            r@ == hands_free::audio_change(old(self)@.audio_state, state),
    {
        let mut turn = Turn::new();
        if self.audio_state != state {
            self.audio_state = state;
            turn.tell(HfpEvent::AudioConnectionState(state));
        }
        turn
    }

    fn codec_to_negotiate(&self) -> (r: Option<AudioCodec>)
        ensures
            r == codec_choice(self@),
    {
        if !self.supports_ag_feature(ag_feature::CODEC_NEGOTIATION) || !self.supports_hf_feature(
            hf_feature::CODEC_NEGOTIATION,
        ) {
            None
        } else if self.shares_codec(AudioCodec::Lc3Swb) {
            Some(AudioCodec::Lc3Swb)
        } else if self.shares_codec(AudioCodec::Msbc) {
            Some(AudioCodec::Msbc)
        } else if self.shares_codec(AudioCodec::Cvsd) {
            Some(AudioCodec::Cvsd)
        } else {
            None
        }
    }

    fn shares_codec(&self, codec: AudioCodec) -> (r: bool)
        ensures
            r == shared_codec(self@, codec),
    {
        contains_codec(&self.supported_audio_codecs, codec) && contains_codec(
            &self.hf_audio_codecs,
            codec,
        )
    }

    /// Reports that a call comes in.
    pub fn send_ring(&self) -> (r: Vec<u8>)
        ensures
            r@ == framing::response_line("RING"@),
    {
        framing::response_bytes("RING")
    }

    /// Reports a speaker volume.
    pub fn set_speaker_volume(&mut self, level: u8) -> (r: Vec<u8>)
        ensures
            final(self)@ == old(self)@,
            r@ == framing::response_line("+VGS: "@ + text::decimal(level as nat)),
    {
        let mut response = text::owned("+VGS: ");
        text::append_decimal(&mut response, level as u64);
        framing::response_bytes(response.as_str())
    }

    /// Reports a microphone volume.
    pub fn set_microphone_volume(&mut self, level: u8) -> (r: Vec<u8>)
        ensures
            final(self)@ == old(self)@,
            r@ == framing::response_line("+VGM: "@ + text::decimal(level as nat)),
    {
        let mut response = text::owned("+VGM: ");
        text::append_decimal(&mut response, level as u64);
        framing::response_bytes(response.as_str())
    }

    /// Enables or disables in-band ring tones, and reports it.
    pub fn set_inband_ringtone_enabled(&mut self, enabled: bool) -> (r: Vec<u8>)
        ensures
            final(self)@ == (AgModel { inband_ringtone_enabled: enabled, ..old(self)@ }),
            enabled ==> r@ == framing::response_line("+BSIR: 1"@),
            !enabled ==> r@ == framing::response_line("+BSIR: 0"@),
    {
        self.inband_ringtone_enabled = enabled;
        if enabled {
            framing::response_bytes("+BSIR: 1")
        } else {
            framing::response_bytes("+BSIR: 0")
        }
    }

    /// The position of the first of an indicator.
    fn find_ag_indicator(&self, indicator: AgIndicator) -> (r: usize)
        ensures
            r == indicator_position(self@.ag_indicators, indicator),
            r <= self.ag_indicators@.len(),
    {
        let ghost all = self@.ag_indicators;
        let mut i: usize = 0;
        assert(all.skip(0) =~= all);
        while i < self.ag_indicators.len() && self.ag_indicators[i].indicator != indicator
            invariant
                i <= all.len(),
                all == self@.ag_indicators,
                i + indicator_position(all.skip(i as int), indicator) == indicator_position(
                    all,
                    indicator,
                ),
            decreases all.len() - i,
        {
            assert(all.skip(i as int)[0] == all[i as int]);
            assert(all.skip(i as int).skip(1) =~= all.skip(i + 1));
            i = i + 1;
        }
        proof {
            if i < all.len() {
                assert(all.skip(i as int)[0] == all[i as int]);
            }
        }
        i
    }

    /// Updates the value of an indicator: the report to send. An indicator
    /// that the Audio Gateway does not have is an error.
    pub fn update_ag_indicator(&mut self, indicator: AgIndicator, value: u32) -> (r: Result<
        Vec<u8>,
        SimbleError,
    >)
        ensures
            ({
                let states = old(self)@.ag_indicators;
                let i = indicator_position(states, indicator);
                match r {
                    Ok(line) => {
                        &&& i < states.len()
                        &&& line@ == framing::response_line(update_text(i, value))
                        &&& final(self)@ == (AgModel {
                            ag_indicators: states.update(
                                i,
                                AgIndicatorModel { current_status: value, ..states[i] },
                            ),
                            ..old(self)@
                        })
                    },
                    Err(why) => {
                        &&& i == states.len()
                        &&& why@ == SimbleErrorModel::DeviceError(
                            "HFP: AG indicator "@ + indicator.label_text() + " not supported"@,
                        )
                        &&& final(self)@ == old(self)@
                    },
                }
            }),
    {
        let i: usize = self.find_ag_indicator(indicator);
        if i == self.ag_indicators.len() {
            let mut message = text::owned("HFP: AG indicator ");
            message.append(indicator.label());
            message.append(" not supported");
            return Err(SimbleError::DeviceError(message));
        }
        self.ag_indicators[i].current_status = value;
        assert(self@.ag_indicators =~= old(self)@.ag_indicators.update(
            i as int,
            AgIndicatorModel { current_status: value, ..old(self)@.ag_indicators[i as int] },
        ));
        let mut response = text::owned("+CIEV: ");
        text::append_decimal(&mut response, i as u64 + 1);
        response.append(",");
        text::append_decimal(&mut response, value as u64);
        Ok(framing::response_bytes(response.as_str()))
    }

    /// Identifies a caller.
    pub fn send_cli_notification(&mut self, caller: &CallLineIdentification) -> (r: Vec<u8>)
        ensures
            final(self)@ == old(self)@,
            r@ == framing::response_line(
                "+CLIP: "@ + text::joined(call::caller_fields(caller@)),
            ),
    {
        let mut response = text::owned("+CLIP: ");
        response.append(caller.to_clip_string().as_str());
        framing::response_bytes(response.as_str())
    }

    /// Frames a response of the caller's own.
    pub fn send_response(&self, response: &str) -> (r: Vec<u8>)
        ensures
            r@ == framing::response_line(response@),
    {
        framing::response_bytes(response)
    }
}

} // verus!
