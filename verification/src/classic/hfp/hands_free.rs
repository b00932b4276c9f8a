//! The Hands-Free: it sets up the Service Level Connection, and sends commands.

use vstd::prelude::*;
use vstd::utf8;
use crate::bytes;
use crate::classic::at;
use crate::classic::at::{AtParameter, AtParameterModel, AtResponse, AtResponseModel};
use crate::classic::hfp::ag_feature;
use crate::classic::hfp::call;
use crate::classic::hfp::call::CallLineIdentification;
use crate::classic::hfp::event;
use crate::classic::hfp::event::{EventModel, HfConfiguration, HfpEvent, Turn, TurnModel};
use crate::classic::hfp::framing;
use crate::classic::hfp::hf_feature;
use crate::classic::hfp::indicator;
use crate::classic::hfp::indicator::{AgIndicatorModel, AgIndicatorState, HfIndicators};
use crate::classic::hfp::values::{
    AudioCodec,
    AudioConnectionState,
    CallHoldOperation,
    HfIndicator,
    VoiceRecognitionState,
};
use crate::models;
use crate::text;

verus! {

/// A step of the Service Level Connection procedure, named after its command.
#[derive(Debug, Clone, Copy, PartialEq, Eq, Structural)]
pub enum SlcStep {
    /// `AT+BRSF=...`: exchange of features.
    Brsf,
    /// `AT+BAC=...`: the codecs of the Hands-Free.
    Bac,
    /// `AT+CIND=?`: the indicators of the Audio Gateway.
    CindTest,
    /// `AT+CIND?`: their values.
    CindRead,
    /// `AT+CMER=3,,,1`: reports of changes.
    Cmer,
    /// `AT+CHLD=?`: the call-hold operations.
    ChldTest,
    /// `AT+BIND=...`: the indicators of the Hands-Free.
    Bind,
    /// `AT+BIND=?`: those that the Audio Gateway takes.
    BindTest,
    /// `AT+BIND?`: those that are enabled.
    BindRead,
}

/// The Hands-Free side of a connection. It owns no transport: what it returns
/// goes to the peer, and what the peer sends goes to [`HfProtocol::receive`].
#[derive(Debug)]
pub struct HfProtocol {
    /// Features of the Hands-Free.
    pub supported_hf_features: u32,
    /// Codecs that it can decode.
    pub supported_audio_codecs: Vec<AudioCodec>,
    /// Its indicators.
    pub hf_indicators: HfIndicators,
    /// Features of the Audio Gateway, once known.
    pub supported_ag_features: u32,
    /// Call-hold operations of the Audio Gateway, once known.
    pub supported_ag_call_hold_operations: Vec<CallHoldOperation>,
    /// Indicators of the Audio Gateway, once known.
    pub ag_indicators: Vec<AgIndicatorState>,
    /// Codec that was agreed on.
    pub active_codec: AudioCodec,
    /// Where the audio connection has got to.
    pub audio_state: AudioConnectionState,
    /// Whether the Service Level Connection is up.
    pub slc_initialized: bool,
    /// Step that is under way.
    pub slc_step: Option<SlcStep>,
    /// Command that waits for its final status.
    pub pending_command: Option<String>,
    /// Responses to it.
    pub pending_responses: Vec<AtResponse>,
    /// Bytes of a partial line.
    pub read_buffer: Vec<u8>,
}

/// The model of an [`HfProtocol`].
#[verifier::ext_equal]
pub struct HfModel {
    pub supported_hf_features: u32,
    pub supported_audio_codecs: Seq<AudioCodec>,
    pub hf_indicators: HfIndicators,
    pub supported_ag_features: u32,
    pub supported_ag_call_hold_operations: Seq<CallHoldOperation>,
    pub ag_indicators: Seq<AgIndicatorModel>,
    pub active_codec: AudioCodec,
    pub audio_state: AudioConnectionState,
    pub slc_initialized: bool,
    pub slc_step: Option<SlcStep>,
    pub pending_command: Option<Seq<char>>,
    pub pending_responses: Seq<AtResponseModel>,
    pub read_buffer: Seq<u8>,
}

impl View for HfProtocol {
    type V = HfModel;

    open spec fn view(&self) -> HfModel {
        HfModel {
            supported_hf_features: self.supported_hf_features,
            supported_audio_codecs: self.supported_audio_codecs@,
            hf_indicators: self.hf_indicators,
            supported_ag_features: self.supported_ag_features,
            supported_ag_call_hold_operations: self.supported_ag_call_hold_operations@,
            ag_indicators: models::seq_views(self.ag_indicators@),
            active_codec: self.active_codec,
            audio_state: self.audio_state,
            slc_initialized: self.slc_initialized,
            slc_step: self.slc_step,
            pending_command: models::opt_view(self.pending_command),
            pending_responses: models::seq_views(self.pending_responses@),
            read_buffer: self.read_buffer@,
        }
    }
}

// ---------------------------------------------------------------------------
// What happens
// ---------------------------------------------------------------------------

/// A Hands-Free before anything has happened.
pub open spec fn initial(configuration: HfConfiguration) -> HfModel {
    HfModel {
        supported_hf_features: configuration.supported_hf_features,
        supported_audio_codecs: configuration.supported_audio_codecs@,
        hf_indicators: indicator::unused_all(configuration.supported_hf_indicators@),
        supported_ag_features: 0,
        supported_ag_call_hold_operations: seq![],
        ag_indicators: seq![],
        active_codec: AudioCodec::Cvsd,
        audio_state: AudioConnectionState::Disconnected,
        slc_initialized: false,
        slc_step: None,
        pending_command: None,
        pending_responses: seq![],
        read_buffer: seq![],
    }
}

impl HfModel {
    /// Whether both sides have a feature.
    pub open spec fn share(self, hf_bit: u32, ag_bit: u32) -> bool {
        self.supported_hf_features & hf_bit != 0 && self.supported_ag_features & ag_bit != 0
    }

    /// With a command sent as a step of the procedure.
    pub open spec fn at_step(self, command: Seq<char>, step: SlcStep) -> HfModel {
        HfModel {
            pending_command: Some(command),
            pending_responses: seq![],
            slc_step: Some(step),
            ..self
        }
    }

    /// With a command sent outside the procedure.
    pub open spec fn commanding(self, command: Seq<char>) -> HfModel {
        HfModel {
            pending_command: Some(command),
            pending_responses: seq![],
            slc_step: None,
            ..self
        }
    }

    /// With no command waiting.
    pub open spec fn idle(self) -> HfModel {
        HfModel { pending_command: None, pending_responses: seq![], slc_step: None, ..self }
    }

    /// With the Service Level Connection up.
    pub open spec fn ready(self) -> HfModel {
        HfModel { slc_initialized: true, ..self }
    }
}

/// What a change of the audio state is: nothing where there is no change.
pub open spec fn audio_change(
    before: AudioConnectionState,
    after: AudioConnectionState,
) -> TurnModel {
    if before == after {
        event::nothing()
    } else {
        event::nothing().told(EventModel::AudioConnectionState(after))
    }
}

/// Whether a code is a final status.
pub open spec fn is_status(code: Seq<char>) -> bool {
    ||| code == "+CME ERROR"@
    ||| code == "BLACKLISTED"@
    ||| code == "BUSY"@
    ||| code == "DELAYED"@
    ||| code == "ERROR"@
    ||| code == "NO ANSWER"@
    ||| code == "NO CARRIER"@
    ||| code == "OK"@
}

/// Whether a command mentions a code.
pub open spec fn mentions(command: Seq<char>, code: Seq<char>) -> bool {
    bytes::contains_run(utf8::encode_utf8(command), utf8::encode_utf8(code))
}

/// Whether a response belongs to the command that waits: it is a final
/// status, or the command mentions its code.
pub open spec fn is_awaited(m: HfModel, code: Seq<char>) -> bool {
    match m.pending_command {
        Some(command) => is_status(code) || mentions(command, code),
        None => false,
    }
}

/// The parameters of the first response.
pub open spec fn first_parameters(responses: Seq<AtResponseModel>) -> Seq<AtParameterModel> {
    if responses.len() > 0 {
        responses[0].parameters
    } else {
        seq![]
    }
}

/// A number, or zero where there is none.
pub open spec fn or_zero(n: Option<u32>) -> u32 {
    match n {
        Some(n) => n,
        None => 0,
    }
}

/// The numbers of codecs in decimal notation.
pub open spec fn codec_numbers(codecs: Seq<AudioCodec>) -> Seq<Seq<char>> {
    Seq::new(codecs.len(), |i: int| text::decimal(codecs[i].number() as nat))
}

/// The indicators in a list of them.
pub open spec fn indicators_in(entries: Seq<AtParameterModel>) -> Seq<AgIndicatorModel>
    decreases entries.len(),
{
    if entries.len() == 0 {
        seq![]
    } else {
        let before = indicators_in(entries.drop_last());
        match indicator::indicator_of(entries.last()) {
            Some(state) => before.push(state),
            None => before,
        }
    }
}

/// Indicators with the values that a list gives them, by position.
pub open spec fn with_values(
    states: Seq<AgIndicatorModel>,
    values: Seq<AtParameterModel>,
) -> Seq<AgIndicatorModel> {
    Seq::new(
        states.len(),
        |i: int|
            match call::number_at(values, i) {
                Some(v) => AgIndicatorModel { current_status: v, ..states[i] },
                None => states[i],
            },
    )
}

/// The call-hold operations in a list of codes.
pub open spec fn operations_in(codes: Seq<AtParameterModel>) -> Seq<CallHoldOperation>
    decreases codes.len(),
{
    if codes.len() == 0 {
        seq![]
    } else {
        let before = operations_in(codes.drop_last());
        match codes.last().text() {
            Some(code) => match CallHoldOperation::coded(code) {
                Some(operation) => before.push(operation),
                None => before,
            },
            None => before,
        }
    }
}

/// Whether a list holds a number.
pub open spec fn lists_number(items: Seq<AtParameterModel>, number: u32) -> bool {
    exists|i: int| 0 <= i < items.len() && (#[trigger] items[i]).number() == Some(number)
}

/// An indicator that the peer supports, if a list holds its number.
pub open spec fn with_support(
    state: Option<indicator::HfIndicatorState>,
    indicator: HfIndicator,
    items: Seq<AtParameterModel>,
) -> Option<indicator::HfIndicatorState> {
    match state {
        Some(state) => if lists_number(items, indicator.number() as u32) {
            Some(indicator::HfIndicatorState { supported: true, ..state })
        } else {
            Some(state)
        },
        None => None,
    }
}

/// Indicators, those in a list supported by the peer.
pub open spec fn with_supported(m: HfIndicators, items: Seq<AtParameterModel>) -> HfIndicators {
    HfIndicators {
        enhanced_safety: with_support(m.enhanced_safety, HfIndicator::EnhancedSafety, items),
        battery_level: with_support(m.battery_level, HfIndicator::BatteryLevel, items),
    }
}

/// Indicators, one of them enabled or disabled as a response says.
pub open spec fn with_enabled(m: HfIndicators, parameters: Seq<AtParameterModel>) -> HfIndicators {
    match call::number_at(parameters, 0) {
        Some(number) => match HfIndicator::numbered(number as u8) {
            Some(indicator) => match m.at(indicator) {
                Some(state) => m.with(
                    indicator,
                    indicator::HfIndicatorState {
                        enabled: or_zero(call::number_at(parameters, 1)) != 0,
                        ..state
                    },
                ),
                None => m,
            },
            None => m,
        },
        None => m,
    }
}

/// Indicators, enabled or disabled as responses say.
pub open spec fn with_all_enabled(m: HfIndicators, responses: Seq<AtResponseModel>) -> HfIndicators
    decreases responses.len(),
{
    if responses.len() == 0 {
        m
    } else {
        with_enabled(with_all_enabled(m, responses.drop_last()), responses.last().parameters)
    }
}

/// A command sent as a step of the procedure.
pub open spec fn step_to(m: HfModel, command: Seq<char>, step: SlcStep) -> (HfModel, TurnModel) {
    (m.at_step(command, step), event::nothing().asked(command))
}

/// The Service Level Connection is up.
pub open spec fn finish(m: HfModel) -> (HfModel, TurnModel) {
    (m.ready(), event::nothing().told(EventModel::SlcComplete))
}

/// The exchange of the indicators of the Hands-Free, where both sides do it,
/// or the end of the procedure.
pub open spec fn bind_or_finish(m: HfModel) -> (HfModel, TurnModel) {
    if m.share(hf_feature::HF_INDICATORS, ag_feature::HF_INDICATORS) {
        step_to(
            m,
            "AT+BIND="@ + text::joined(indicator::indicator_numbers(m.hf_indicators.listed())),
            SlcStep::Bind,
        )
    } else {
        finish(m)
    }
}

/// What follows a step of the procedure, given the responses to its command.
#[verifier::opaque]
pub open spec fn advance(m: HfModel, step: SlcStep, responses: Seq<AtResponseModel>) -> (
    HfModel,
    TurnModel,
) {
    let p = first_parameters(responses);
    match step {
        SlcStep::Brsf => {
            let known = HfModel { supported_ag_features: or_zero(call::number_at(p, 0)), ..m };
            if known.share(hf_feature::CODEC_NEGOTIATION, ag_feature::CODEC_NEGOTIATION) {
                step_to(
                    known,
                    "AT+BAC="@ + text::joined(codec_numbers(known.supported_audio_codecs)),
                    SlcStep::Bac,
                )
            } else {
                step_to(known, "AT+CIND=?"@, SlcStep::CindTest)
            }
        },
        SlcStep::Bac => step_to(m, "AT+CIND=?"@, SlcStep::CindTest),
        SlcStep::CindTest => step_to(
            HfModel { ag_indicators: indicators_in(p), ..m },
            "AT+CIND?"@,
            SlcStep::CindRead,
        ),
        SlcStep::CindRead => step_to(
            HfModel { ag_indicators: with_values(m.ag_indicators, p), ..m },
            "AT+CMER=3,,,1"@,
            SlcStep::Cmer,
        ),
        SlcStep::Cmer => if m.share(hf_feature::THREE_WAY_CALLING, ag_feature::THREE_WAY_CALLING) {
            step_to(m, "AT+CHLD=?"@, SlcStep::ChldTest)
        } else {
            bind_or_finish(m)
        },
        SlcStep::ChldTest => bind_or_finish(
            if p.len() > 0 && p[0] is List {
                HfModel { supported_ag_call_hold_operations: operations_in(p[0]->List_0), ..m }
            } else {
                m
            },
        ),
        SlcStep::Bind => step_to(m, "AT+BIND=?"@, SlcStep::BindTest),
        SlcStep::BindTest => step_to(
            if p.len() > 0 && p[0] is List {
                HfModel { hf_indicators: with_supported(m.hf_indicators, p[0]->List_0), ..m }
            } else {
                m
            },
            "AT+BIND?"@,
            SlcStep::BindRead,
        ),
        SlcStep::BindRead => finish(
            HfModel { hf_indicators: with_all_enabled(m.hf_indicators, responses), ..m },
        ),
    }
}

/// What a response leads to that no command waits for.
#[verifier::opaque]
pub open spec fn on_unsolicited(m: HfModel, response: AtResponseModel) -> (HfModel, TurnModel) {
    let p = response.parameters;
    let first = call::number_at(p, 0);
    let none = event::nothing();
    if response.code == "+BCS"@ {
        match first {
            Some(v) => match AudioCodec::numbered(v as u8) {
                Some(codec) => (
                    HfModel {
                        active_codec: codec,
                        audio_state: AudioConnectionState::Connecting,
                        ..m
                    },
                    none.asked("AT+BCS="@ + text::decimal(codec.number() as nat)).told(
                        EventModel::CodecNegotiated(codec),
                    ).followed(audio_change(m.audio_state, AudioConnectionState::Connecting)),
                ),
                None => (m, none),
            },
            None => (m, none),
        }
    } else if response.code == "+CIEV"@ {
        match (first, call::number_at(p, 1)) {
            (Some(index), Some(value)) => if 1 <= index <= m.ag_indicators.len() {
                let state = AgIndicatorModel {
                    current_status: value,
                    ..m.ag_indicators[index - 1]
                };
                (
                    HfModel { ag_indicators: m.ag_indicators.update(index - 1, state), ..m },
                    none.told(EventModel::AgIndicatorUpdated(state)),
                )
            } else {
                (m, none)
            },
            _ => (m, none),
        }
    } else if response.code == "+VGS"@ {
        match first {
            Some(v) => (m, none.told(EventModel::SpeakerVolume(v as u8))),
            None => (m, none),
        }
    } else if response.code == "+VGM"@ {
        match first {
            Some(v) => (m, none.told(EventModel::MicrophoneVolume(v as u8))),
            None => (m, none),
        }
    } else if response.code == "RING"@ {
        (m, none.told(EventModel::Ring))
    } else if response.code == "+CLIP"@ {
        match call::caller_of(p) {
            Ok(caller) => (m, none.told(EventModel::CliNotification(caller))),
            Err(_) => (m, none),
        }
    } else if response.code == "+BVRA"@ {
        match first {
            Some(v) => match VoiceRecognitionState::numbered(v) {
                Some(state) => (m, none.told(EventModel::VoiceRecognition(state))),
                None => (m, none),
            },
            None => (m, none),
        }
    } else {
        (m, none)
    }
}

/// What a response leads to.
pub open spec fn on_response(m: HfModel, response: AtResponseModel) -> (HfModel, TurnModel) {
    if !is_awaited(m, response.code) {
        on_unsolicited(m, response)
    } else if !is_status(response.code) {
        (
            HfModel { pending_responses: m.pending_responses.push(response), ..m },
            event::nothing(),
        )
    } else if response.code == "OK"@ && m.slc_step is Some {
        advance(m.idle(), m.slc_step->0, m.pending_responses)
    } else {
        (
            m.idle(),
            event::nothing().told(
                EventModel::CommandCompleted {
                    command: m.pending_command->0,
                    ok: response.code == "OK"@,
                    responses: m.pending_responses,
                },
            ),
        )
    }
}

/// What a line leads to: nothing where it is empty or no response.
pub open spec fn on_line(m: HfModel, line: Seq<u8>) -> (HfModel, TurnModel) {
    if line.len() == 0 {
        (m, event::nothing())
    } else {
        match at::response_of(line) {
            Ok(response) => on_response(m, response),
            Err(_) => (m, event::nothing()),
        }
    }
}

/// What lines lead to, one after the other.
pub open spec fn on_lines(m: HfModel, lines: Seq<Seq<u8>>) -> (HfModel, TurnModel)
    decreases lines.len(),
{
    if lines.len() == 0 {
        (m, event::nothing())
    } else {
        let before = on_lines(m, lines.drop_last());
        let now = on_line(before.0, lines.last());
        (now.0, before.1.followed(now.1))
    }
}

/// What bytes from the peer lead to.
pub open spec fn on_bytes(m: HfModel, data: Seq<u8>) -> (HfModel, TurnModel) {
    let found = framing::response_lines(m.read_buffer + data);
    on_lines(HfModel { read_buffer: found.rest, ..m }, found.lines)
}

/// The `AT+CHLD` code of an operation, about one call where an index is given.
pub open spec fn hold_code(operation: CallHoldOperation, call_index: Option<u32>) -> Seq<char> {
    match call_index {
        Some(index) => operation.code_text().take(1) + text::decimal(index as nat),
        None => operation.code_text(),
    }
}

// ---------------------------------------------------------------------------
// Reading responses
// ---------------------------------------------------------------------------

/// Whether a code is a final status.
fn is_status_code(code: &str) -> (r: bool)
    ensures
        r == is_status(code@),
{
    text::same_text(code, "+CME ERROR") || text::same_text(code, "BLACKLISTED")
        || text::same_text(code, "BUSY") || text::same_text(code, "DELAYED") || text::same_text(
        code,
        "ERROR",
    ) || text::same_text(code, "NO ANSWER") || text::same_text(code, "NO CARRIER")
        || text::same_text(code, "OK")
}

/// The parameters of the first response.
fn first_of(responses: &Vec<AtResponse>) -> (r: Option<&[AtParameter]>)
    ensures
        match r {
            Some(p) => responses@.len() > 0 && models::seq_views(p@) == first_parameters(
                models::seq_views(responses@),
            ),
            None => responses@.len() == 0,
        },
{
    if responses.len() > 0 {
        Some(responses[0].parameters.as_slice())
    } else {
        None
    }
}

/// Writes the numbers of codecs, separated by commas.
fn join_codecs(codecs: &Vec<AudioCodec>) -> (r: String)
    ensures
        r@ == text::joined(codec_numbers(codecs@)),
{
    let mut parts: Vec<String> = Vec::new();
    let mut i: usize = 0;
    while i < codecs.len()
        invariant
            i <= codecs@.len(),
            parts@.len() == i,
            forall|k: int|
                0 <= k < i ==> (#[trigger] parts@[k])@ == text::decimal(
                    codecs@[k].number() as nat,
                ),
        decreases codecs@.len() - i,
    {
        parts.push(text::decimal_text(codecs[i].to_value() as u64));
        i = i + 1;
    }
    assert(models::seq_views(parts@) =~= codec_numbers(codecs@));
    text::join(&parts)
}

/// Reads the indicators in a list of them.
fn parse_indicators(entries: &[AtParameter]) -> (r: Vec<AgIndicatorState>)
    ensures
        models::seq_views(r@) == indicators_in(models::seq_views(entries@)),
{
    broadcast use models::lemma_seq_views_push;

    let ghost all = models::seq_views(entries@);
    let mut r: Vec<AgIndicatorState> = Vec::new();
    let mut i: usize = 0;
    assert(all.take(0) =~= seq![]);
    assert(models::seq_views(r@) =~= indicators_in(all.take(0)));
    while i < entries.len()
        invariant
            i <= entries@.len(),
            all == models::seq_views(entries@),
            models::seq_views(r@) == indicators_in(all.take(i as int)),
        decreases entries@.len() - i,
    {
        assert(all.take(i + 1).drop_last() =~= all.take(i as int));
        assert(all.take(i + 1).last() == entries@[i as int]@);
        if let Some(state) = indicator::parse_one_cind_indicator(&entries[i]) {
            r.push(state);
        }
        i = i + 1;
    }
    assert(all.take(i as int) =~= all);
    r
}

/// Reads the call-hold operations in a list of codes.
fn parse_operations(codes: &[AtParameter]) -> (r: Vec<CallHoldOperation>)
    ensures
        r@ == operations_in(models::seq_views(codes@)),
{
    let ghost all = models::seq_views(codes@);
    let mut r: Vec<CallHoldOperation> = Vec::new();
    let mut i: usize = 0;
    assert(all.take(0) =~= seq![]);
    assert(r@ =~= operations_in(all.take(0)));
    while i < codes.len()
        invariant
            i <= codes@.len(),
            all == models::seq_views(codes@),
            r@ == operations_in(all.take(i as int)),
        decreases codes@.len() - i,
    {
        assert(all.take(i + 1).drop_last() =~= all.take(i as int));
        assert(all.take(i + 1).last() == codes@[i as int]@);
        if let Some(code) = codes[i].as_str() {
            if let Some(operation) = CallHoldOperation::from_code(code) {
                r.push(operation);
            }
        }
        i = i + 1;
    }
    assert(all.take(i as int) =~= all);
    r
}

/// Whether a list holds a number.
fn holds_number(items: &[AtParameter], number: u32) -> (r: bool)
    ensures
        r == lists_number(models::seq_views(items@), number),
{
    let ghost all = models::seq_views(items@);
    let mut i: usize = 0;
    while i < items.len()
        invariant
            i <= items@.len(),
            all == models::seq_views(items@),
            forall|k: int| 0 <= k < i ==> (#[trigger] all[k]).number() != Some(number),
        decreases items@.len() - i,
    {
        assert(all[i as int] == items@[i as int]@);
        if let Some(n) = items[i].as_u32() {
            if n == number {
                return true;
            }
        }
        i = i + 1;
    }
    false
}

/// Marks an indicator as supported, if a list holds its number.
fn mark_supported(
    state: Option<indicator::HfIndicatorState>,
    indicator: HfIndicator,
    items: &[AtParameter],
) -> (r: Option<indicator::HfIndicatorState>)
    ensures
        r == with_support(state, indicator, models::seq_views(items@)),
{
    match state {
        Some(mut state) => {
            if holds_number(items, indicator.to_value() as u32) {
                state.supported = true;
            }
            Some(state)
        },
        None => None,
    }
}

// ---------------------------------------------------------------------------
// The protocol
// ---------------------------------------------------------------------------

impl HfProtocol {
    /// A Hands-Free with a configuration.
    pub fn new(configuration: HfConfiguration) -> (r: Self)
        ensures
            r@ == initial(configuration),
    {
        let r = HfProtocol {
            supported_hf_features: configuration.supported_hf_features,
            hf_indicators: indicator::keep_unused(&configuration.supported_hf_indicators),
            supported_audio_codecs: configuration.supported_audio_codecs,
            supported_ag_features: 0,
            supported_ag_call_hold_operations: Vec::new(),
            ag_indicators: Vec::new(),
            active_codec: AudioCodec::Cvsd,
            audio_state: AudioConnectionState::Disconnected,
            slc_initialized: false,
            slc_step: None,
            pending_command: None,
            pending_responses: Vec::new(),
            read_buffer: Vec::new(),
        };
        assert(r@ =~= initial(configuration));
        r
    }

    /// Whether the Hands-Free has a feature.
    pub fn supports_hf_feature(&self, feature: u32) -> (r: bool)
        ensures
            r == (self.supported_hf_features & feature != 0),
    {
        self.supported_hf_features & feature != 0
    }

    /// Whether the Audio Gateway said that it has a feature.
    pub fn supports_ag_feature(&self, feature: u32) -> (r: bool)
        ensures
            r == (self.supported_ag_features & feature != 0),
    {
        self.supported_ag_features & feature != 0
    }

    /// Starts the Service Level Connection procedure: the first command to
    /// send. [`HfpEvent::SlcComplete`] marks its end.
    pub fn start_slc(&mut self) -> (r: Vec<u8>)
        ensures
            ({
                let command = "AT+BRSF="@ + text::decimal(old(self)@.supported_hf_features as nat);
                &&& final(self)@ == old(self)@.at_step(command, SlcStep::Brsf)
                &&& r@ == framing::command_line(command)
            }),
    {
        let mut command = text::owned("AT+BRSF=");
        text::append_decimal(&mut command, self.supported_hf_features as u64);
        self.begin_step(command, SlcStep::Brsf)
    }

    fn begin_step(&mut self, command: String, step: SlcStep) -> (r: Vec<u8>)
        ensures
            final(self)@ == old(self)@.at_step(command@, step),
            r@ == framing::command_line(command@),
    {
        let line = framing::command_bytes(command.as_str());
        self.pending_command = Some(command);
        self.pending_responses = Vec::new();
        self.slc_step = Some(step);
        assert(models::seq_views(self.pending_responses@) =~= seq![]);
        line
    }

    /// Whether a command still waits for its final status. Nothing in a
    /// response tells which command it answers, so there is one command at a
    /// time.
    pub fn has_pending_command(&self) -> (r: bool)
        ensures
            r == self@.pending_command is Some,
    {
        self.pending_command.is_some()
    }

    /// Sends a command outside the procedure. Its outcome comes with a later
    /// [`HfpEvent::CommandCompleted`].
    pub fn send_command(&mut self, command: &str) -> (r: Vec<u8>)
        ensures
            final(self)@ == old(self)@.commanding(command@),
            r@ == framing::command_line(command@),
    {
        self.pending_command = Some(text::owned(command));
        self.pending_responses = Vec::new();
        self.slc_step = None;
        assert(models::seq_views(self.pending_responses@) =~= seq![]);
        framing::command_bytes(command)
    }

    /// Answers an incoming call.
    pub fn answer_incoming_call(&mut self) -> (r: Vec<u8>)
        ensures
            final(self)@ == old(self)@.commanding("ATA"@),
            r@ == framing::command_line("ATA"@),
    {
        self.send_command("ATA")
    }

    /// Rejects an incoming call.
    pub fn reject_incoming_call(&mut self) -> (r: Vec<u8>)
        ensures
            final(self)@ == old(self)@.commanding("AT+CHUP"@),
            r@ == framing::command_line("AT+CHUP"@),
    {
        self.send_command("AT+CHUP")
    }

    /// Terminates the active call.
    pub fn terminate_call(&mut self) -> (r: Vec<u8>)
        ensures
            final(self)@ == old(self)@.commanding("AT+CHUP"@),
            r@ == framing::command_line("AT+CHUP"@),
    {
        self.send_command("AT+CHUP")
    }

    /// Selects the format of the operator name, as has to be done before it is
    /// read.
    pub fn select_operator_format(&mut self) -> (r: Vec<u8>)
        ensures
            final(self)@ == old(self)@.commanding("AT+COPS=3,0"@),
            r@ == framing::command_line("AT+COPS=3,0"@),
    {
        self.send_command("AT+COPS=3,0")
    }

    /// Reads the operator name; see
    /// [`parse_network_operator`](call::parse_network_operator).
    pub fn query_network_operator(&mut self) -> (r: Vec<u8>)
        ensures
            final(self)@ == old(self)@.commanding("AT+COPS?"@),
            r@ == framing::command_line("AT+COPS?"@),
    {
        self.send_command("AT+COPS?")
    }

    /// Reads the call list; see [`parse_call_infos`](call::parse_call_infos).
    pub fn query_current_calls(&mut self) -> (r: Vec<u8>)
        ensures
            final(self)@ == old(self)@.commanding("AT+CLCC"@),
            r@ == framing::command_line("AT+CLCC"@),
    {
        self.send_command("AT+CLCC")
    }

    /// Asks the Audio Gateway for audio: the Hands-Free opens no audio connection
    /// itself.
    pub fn setup_audio_connection(&mut self) -> (r: Vec<u8>)
        ensures
            final(self)@ == old(self)@.commanding("AT+BCC"@),
            r@ == framing::command_line("AT+BCC"@),
    {
        self.send_command("AT+BCC")
    }

    /// Dials a number. The semicolon makes the call a voice call.
    pub fn dial(&mut self, number: &str) -> (r: Vec<u8>)
        ensures
            final(self)@ == old(self)@.commanding("ATD"@ + number@ + ";"@),
            r@ == framing::command_line("ATD"@ + number@ + ";"@),
    {
        let mut command = text::owned("ATD");
        command.append(number);
        command.append(";");
        self.send_command(command.as_str())
    }

    /// Sends the value of an indicator.
    pub fn set_hf_indicator(&mut self, indicator: HfIndicator, value: u32) -> (r: Vec<u8>)
        ensures
            ({
                let command = "AT+BIEV="@ + text::decimal(indicator.number() as nat) + ","@
                    + text::decimal(value as nat);
                &&& final(self)@ == old(self)@.commanding(command)
                &&& r@ == framing::command_line(command)
            }),
    {
        let mut command = text::owned("AT+BIEV=");
        text::append_decimal(&mut command, indicator.to_value() as u64);
        command.append(",");
        text::append_decimal(&mut command, value as u64);
        self.send_command(command.as_str())
    }

    /// Sends a voice-recognition state.
    pub fn set_voice_recognition(&mut self, state: VoiceRecognitionState) -> (r: Vec<u8>)
        ensures
            ({
                let command = "AT+BVRA="@ + text::decimal(state.number() as nat);
                &&& final(self)@ == old(self)@.commanding(command)
                &&& r@ == framing::command_line(command)
            }),
    {
        let mut command = text::owned("AT+BVRA=");
        text::append_decimal(&mut command, state.to_value() as u64);
        self.send_command(command.as_str())
    }

    /// Asks for a call-hold operation, about one call where an index is
    /// given.
    pub fn hold_call(&mut self, operation: CallHoldOperation, call_index: Option<u32>) -> (r: Vec<
        u8,
    >)
        ensures
            ({
                let command = "AT+CHLD="@ + hold_code(operation, call_index);
                &&& final(self)@ == old(self)@.commanding(command)
                &&& r@ == framing::command_line(command)
            }),
    {
        let mut command = text::owned("AT+CHLD=");
        match call_index {
            Some(index) => {
                proof {
                    reveal_strlit("0");
                    reveal_strlit("1");
                    reveal_strlit("1x");
                    reveal_strlit("2");
                    reveal_strlit("2x");
                    reveal_strlit("3");
                    reveal_strlit("4");
                }
                let digit = operation.code().substring_char(0, 1);
                assert(digit@ =~= operation.code_text().take(1));
                let ghost before = command@;
                command.append(digit);
                text::append_decimal(&mut command, index as u64);
                assert(command@ =~= before + hold_code(operation, call_index));
            },
            None => {
                command.append(operation.code());
            },
        }
        self.send_command(command.as_str())
    }

    /// Where the audio connection has got to.
    pub fn audio_state(&self) -> (r: AudioConnectionState)
        ensures
            r == self@.audio_state,
    {
        self.audio_state
    }

    /// The synchronous link is up.
    pub fn on_audio_connected(&mut self) -> (r: Vec<HfpEvent>)
        ensures
            final(self)@ == (HfModel {
                audio_state: AudioConnectionState::Connected,
                ..old(self)@
            }),
            models::seq_views(r@) == audio_change(
                old(self)@.audio_state,
                AudioConnectionState::Connected,
            ).events,
    {
        self.set_audio_state(AudioConnectionState::Connected).events
    }

    /// The synchronous link is gone.
    pub fn on_audio_disconnected(&mut self) -> (r: Vec<HfpEvent>)
        ensures
            final(self)@ == (HfModel {
                audio_state: AudioConnectionState::Disconnected,
                ..old(self)@
            }),
            models::seq_views(r@) == audio_change(
                old(self)@.audio_state,
                AudioConnectionState::Disconnected,
            ).events,
    {
        self.set_audio_state(AudioConnectionState::Disconnected).events
    }

    fn set_audio_state(&mut self, state: AudioConnectionState) -> (r: Turn)
        ensures
            final(self)@ == (HfModel { audio_state: state, ..old(self)@ }),
            r@ == audio_change(old(self)@.audio_state, state),
    {
        let mut turn = Turn::new();
        if self.audio_state != state {
            self.audio_state = state;
            turn.tell(HfpEvent::AudioConnectionState(state));
        }
        turn
    }

    /// Takes bytes from the peer: the lines to send back, and events.
    pub fn receive(&mut self, data: &[u8]) -> (r: (Vec<Vec<u8>>, Vec<HfpEvent>))
        ensures
            ({
                let given = TurnModel {
                    outgoing: models::seq_views(r.0@),
                    events: models::seq_views(r.1@),
                };
                (final(self)@, given) == on_bytes(old(self)@, data@)
            }),
    {
        let ghost before = self@;
        bytes::push_bytes(&mut self.read_buffer, data);
        let lines = framing::extract_response_lines(&mut self.read_buffer);
        let ghost all = models::seq_views(lines@);
        let ghost start = self@;
        assert(start =~= HfModel {
            read_buffer: framing::response_lines(before.read_buffer + data@).rest,
            ..before
        });
        let mut turn = Turn::new();
        let mut i: usize = 0;
        assert(all.take(0) =~= seq![]);
        while i < lines.len()
            invariant
                i <= lines@.len(),
                all == models::seq_views(lines@),
                (self@, turn@) == on_lines(start, all.take(i as int)),
            decreases lines@.len() - i,
        {
            assert(all.take(i + 1).drop_last() =~= all.take(i as int));
            assert(all.take(i + 1).last() == lines@[i as int]@);
            let next = self.handle_line(&lines[i]);
            turn.follow(next);
            i = i + 1;
        }
        assert(all.take(i as int) =~= all);
        (turn.outgoing, turn.events)
    }

    fn handle_line(&mut self, line: &[u8]) -> (r: Turn)
        ensures
            (final(self)@, r@) == on_line(old(self)@, line@),
    {
        if line.len() == 0 {
            return Turn::new();
        }
        match AtResponse::parse_from(line) {
            Ok(response) => self.handle_response(response),
            Err(_) => Turn::new(),
        }
    }

    fn handle_response(&mut self, response: AtResponse) -> (r: Turn)
        ensures
            (final(self)@, r@) == on_response(old(self)@, response@),
    {
        let status = is_status_code(response.code.as_str());
        let awaited = match &self.pending_command {
            Some(command) => status || bytes::find_run(
                command.as_str().as_bytes(),
                response.code.as_str().as_bytes(),
            ),
            None => false,
        };
        if !awaited {
            return self.handle_unsolicited(response);
        }
        if !status {
            proof {
                models::lemma_seq_views_push(self.pending_responses@, response);
            }
            self.pending_responses.push(response);
            return Turn::new();
        }
        let ok = text::same_text(response.code.as_str(), "OK");
        let mut responses: Vec<AtResponse> = Vec::new();
        std::mem::swap(&mut responses, &mut self.pending_responses);
        assert(models::seq_views(self.pending_responses@) =~= seq![]);
        let step = self.slc_step;
        self.slc_step = None;
        let command = self.pending_command.take();
        match step {
            Some(step) => {
                if ok {
                    return self.advance_slc(step, responses);
                }
            },
            None => {},
        }
        let mut turn = Turn::new();
        if let Some(command) = command {
            turn.tell(HfpEvent::CommandCompleted { command, ok, responses });
        }
        turn
    }

    /// Sends the command of a step.
    fn step_turn(&mut self, command: String, step: SlcStep) -> (r: Turn)
        ensures
            (final(self)@, r@) == step_to(old(self)@, command@, step),
    {
        let mut turn = Turn::new();
        turn.send(self.begin_step(command, step));
        turn
    }

    fn finish_slc(&mut self) -> (r: Turn)
        ensures
            (final(self)@, r@) == finish(old(self)@),
    {
        let mut turn = Turn::new();
        self.slc_initialized = true;
        turn.tell(HfpEvent::SlcComplete);
        turn
    }

    fn start_hf_indicators_or_finish(&mut self) -> (r: Turn)
        ensures
            (final(self)@, r@) == bind_or_finish(old(self)@),
    {
        if self.supports_hf_feature(hf_feature::HF_INDICATORS) && self.supports_ag_feature(
            ag_feature::HF_INDICATORS,
        ) {
            let mut command = text::owned("AT+BIND=");
            let keys = self.hf_indicators.keys();
            command.append(indicator::join_indicators(&keys).as_str());
            self.step_turn(command, SlcStep::Bind)
        } else {
            self.finish_slc()
        }
    }

    fn advance_slc(&mut self, step: SlcStep, responses: Vec<AtResponse>) -> (r: Turn)
        ensures
            (final(self)@, r@) == advance(old(self)@, step, models::seq_views(responses@)),
    {
        proof {
            reveal(advance);
        }
        let ghost all = models::seq_views(responses@);
        let first = first_of(&responses);
        match step {
            SlcStep::Brsf => {
                let features = match first {
                    Some(p) => call::param_number(p, 0),
                    None => None,
                };
                self.supported_ag_features = match features {
                    Some(features) => features,
                    None => 0,
                };
                if self.supports_hf_feature(hf_feature::CODEC_NEGOTIATION)
                    && self.supports_ag_feature(ag_feature::CODEC_NEGOTIATION) {
                    let mut command = text::owned("AT+BAC=");
                    command.append(join_codecs(&self.supported_audio_codecs).as_str());
                    self.step_turn(command, SlcStep::Bac)
                } else {
                    self.step_turn(text::owned("AT+CIND=?"), SlcStep::CindTest)
                }
            },
            SlcStep::Bac => self.step_turn(text::owned("AT+CIND=?"), SlcStep::CindTest),
            SlcStep::CindTest => {
                self.ag_indicators = match first {
                    Some(p) => parse_indicators(p),
                    None => Vec::new(),
                };
                assert(models::seq_views(self.ag_indicators@) =~= indicators_in(
                    first_parameters(all),
                ));
                self.step_turn(text::owned("AT+CIND?"), SlcStep::CindRead)
            },
            SlcStep::CindRead => {
                if let Some(p) = first {
                    self.store_values(p);
                }
                assert(self@.ag_indicators =~= with_values(
                    old(self)@.ag_indicators,
                    first_parameters(all),
                ));
                self.step_turn(text::owned("AT+CMER=3,,,1"), SlcStep::Cmer)
            },
            SlcStep::Cmer => {
                if self.supports_hf_feature(hf_feature::THREE_WAY_CALLING)
                    && self.supports_ag_feature(ag_feature::THREE_WAY_CALLING) {
                    self.step_turn(text::owned("AT+CHLD=?"), SlcStep::ChldTest)
                } else {
                    self.start_hf_indicators_or_finish()
                }
            },
            SlcStep::ChldTest => {
                if let Some(p) = first {
                    if p.len() > 0 {
                        if let Some(codes) = p[0].as_list() {
                            self.supported_ag_call_hold_operations = parse_operations(codes);
                        }
                    }
                }
                self.start_hf_indicators_or_finish()
            },
            SlcStep::Bind => self.step_turn(text::owned("AT+BIND=?"), SlcStep::BindTest),
            SlcStep::BindTest => {
                if let Some(p) = first {
                    if p.len() > 0 {
                        if let Some(items) = p[0].as_list() {
                            self.hf_indicators = HfIndicators {
                                enhanced_safety: mark_supported(
                                    self.hf_indicators.enhanced_safety,
                                    HfIndicator::EnhancedSafety,
                                    items,
                                ),
                                battery_level: mark_supported(
                                    self.hf_indicators.battery_level,
                                    HfIndicator::BatteryLevel,
                                    items,
                                ),
                            };
                        }
                    }
                }
                self.step_turn(text::owned("AT+BIND?"), SlcStep::BindRead)
            },
            SlcStep::BindRead => {
                self.store_enabled(&responses);
                self.finish_slc()
            },
        }
    }

    /// Stores the values of the indicators of the Audio Gateway.
    fn store_values(&mut self, values: &[AtParameter])
        ensures
            final(self)@ == (HfModel {
                ag_indicators: with_values(
                    old(self)@.ag_indicators,
                    models::seq_views(values@),
                ),
                ..old(self)@
            }),
    {
        let ghost before = self@;
        let ghost p = models::seq_views(values@);
        let mut i: usize = 0;
        while i < self.ag_indicators.len() && i < values.len()
            invariant
                self@ == (HfModel { ag_indicators: self@.ag_indicators, ..before }),
                self@.ag_indicators.len() == before.ag_indicators.len(),
                i <= before.ag_indicators.len(),
                i <= p.len(),
                p == models::seq_views(values@),
                forall|k: int|
                    0 <= k < before.ag_indicators.len() ==> #[trigger] self@.ag_indicators[k]
                        == (if k < i {
                        with_values(before.ag_indicators, p)[k]
                    } else {
                        before.ag_indicators[k]
                    }),
            decreases values@.len() - i,
        {
            let ghost prior = self@.ag_indicators;
            assert(prior[i as int] == before.ag_indicators[i as int]);
            if let Some(v) = values[i].as_u32() {
                self.ag_indicators[i].current_status = v;
            }
            assert forall|k: int|
                0 <= k < before.ag_indicators.len() implies #[trigger] self@.ag_indicators[k] == (
            if k < i + 1 {
                with_values(before.ag_indicators, p)[k]
            } else {
                before.ag_indicators[k]
            }) by {
                assert(k != i ==> self@.ag_indicators[k] == prior[k]);
            }
            i = i + 1;
        }
        assert(self@.ag_indicators =~= with_values(before.ag_indicators, p));
    }

    /// Stores which indicators of the Hands-Free are enabled.
    fn store_enabled(&mut self, responses: &Vec<AtResponse>)
        ensures
            final(self)@ == (HfModel {
                hf_indicators: with_all_enabled(
                    old(self)@.hf_indicators,
                    models::seq_views(responses@),
                ),
                ..old(self)@
            }),
    {
        let ghost before = self@;
        let ghost all = models::seq_views(responses@);
        let mut i: usize = 0;
        assert(all.take(0) =~= seq![]);
        while i < responses.len()
            invariant
                i <= responses@.len(),
                all == models::seq_views(responses@),
                self@ == (HfModel {
                    hf_indicators: with_all_enabled(before.hf_indicators, all.take(i as int)),
                    ..before
                }),
            decreases responses@.len() - i,
        {
            assert(all.take(i + 1).drop_last() =~= all.take(i as int));
            assert(all.take(i + 1).last() == responses@[i as int]@);
            let p = responses[i].parameters.as_slice();
            if let Some(number) = call::param_number(p, 0) {
                if let Some(indicator) = HfIndicator::from_value(number as u8) {
                    let enabled = match call::param_number(p, 1) {
                        Some(v) => v != 0,
                        None => false,
                    };
                    if let Some(mut state) = self.hf_indicators.get(indicator) {
                        state.enabled = enabled;
                        self.hf_indicators.insert(indicator, state);
                    }
                }
            }
            i = i + 1;
        }
        assert(all.take(i as int) =~= all);
    }

    fn handle_unsolicited(&mut self, response: AtResponse) -> (r: Turn)
        ensures
            (final(self)@, r@) == on_unsolicited(old(self)@, response@),
    {
        proof {
            reveal(on_unsolicited);
        }
        let code = response.code.as_str();
        let p = response.parameters.as_slice();
        let first = call::param_number(p, 0);
        let mut turn = Turn::new();
        if text::same_text(code, "+BCS") {
            if let Some(v) = first {
                if let Some(codec) = AudioCodec::from_value(v as u8) {
                    self.active_codec = codec;
                    let mut command = text::owned("AT+BCS=");
                    text::append_decimal(&mut command, codec.to_value() as u64);
                    turn.send(framing::command_bytes(command.as_str()));
                    turn.tell(HfpEvent::CodecNegotiated(codec));
                    // The Audio Gateway opens the synchronous link.
                    let change = self.set_audio_state(AudioConnectionState::Connecting);
                    turn.follow(change);
                }
            }
        } else if text::same_text(code, "+CIEV") {
            if let (Some(index), Some(value)) = (first, call::param_number(p, 1)) {
                if index >= 1 {
                    let i: usize = (index - 1) as usize;
                    if i < self.ag_indicators.len() {
                        let ghost before = self@.ag_indicators;
                        self.ag_indicators[i].current_status = value;
                        assert(self@.ag_indicators =~= before.update(
                            i as int,
                            self.ag_indicators@[i as int]@,
                        ));
                        turn.tell(HfpEvent::AgIndicatorUpdated(self.ag_indicators[i].clone()));
                    }
                }
            }
        } else if text::same_text(code, "+VGS") {
            if let Some(v) = first {
                turn.tell(HfpEvent::SpeakerVolume(v as u8));
            }
        } else if text::same_text(code, "+VGM") {
            if let Some(v) = first {
                turn.tell(HfpEvent::MicrophoneVolume(v as u8));
            }
        } else if text::same_text(code, "RING") {
            turn.tell(HfpEvent::Ring);
        } else if text::same_text(code, "+CLIP") {
            if let Ok(caller) = CallLineIdentification::parse_from(p) {
                turn.tell(HfpEvent::CliNotification(caller));
            }
        } else if text::same_text(code, "+BVRA") {
            if let Some(v) = first {
                if let Some(state) = VoiceRecognitionState::from_value(v) {
                    turn.tell(HfpEvent::VoiceRecognition(state));
                }
            }
        }
        turn
    }
}

} // verus!
