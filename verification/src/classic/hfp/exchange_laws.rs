//! What one side reports or asks for is what the other side is told.

use vstd::prelude::*;
use vstd::utf8;
use crate::bytes;
use crate::classic::at;
use crate::classic::at::laws::Written;
use crate::classic::at::{AtCommandModel, AtParameterModel, AtResponseModel, AtSubCode};
use crate::classic::hfp::ag_feature;
use crate::classic::hfp::call;
use crate::classic::hfp::call::{CallInfoModel, CallerModel};
use crate::classic::hfp::conversation;
use crate::classic::hfp::event;
use crate::classic::hfp::event::EventModel;
use crate::classic::hfp::exchange;
use crate::classic::hfp::framing;
use crate::classic::hfp::gateway;
use crate::classic::hfp::gateway::AgModel;
use crate::classic::hfp::hands_free;
use crate::classic::hfp::hands_free::HfModel;
use crate::classic::hfp::indicator::{AgIndicatorModel, HfIndicatorState};
use crate::classic::hfp::laws;
use crate::classic::hfp::reading;
use crate::classic::hfp::values;
use crate::classic::hfp::values::{
    AudioCodec,
    AudioConnectionState,
    CallHoldOperation,
    HfIndicator,
    VoiceRecognitionState,
};
use crate::text;

verus! {

// ---------------------------------------------------------------------------
// Reports to the Hands-Free
// ---------------------------------------------------------------------------

/// Whether a text has no colon in it.
pub open spec fn colon_free(s: Seq<char>) -> bool {
    forall|i: int| 0 <= i < s.len() ==> #[trigger] s[i] != ':'
}

/// The codes of reports differ from one another, and can stand on a line.
pub proof fn lemma_report_codes()
    ensures
        "+CIEV"@ != "+BCS"@,
        "+VGS"@ != "+BCS"@ && "+VGS"@ != "+CIEV"@,
        "+VGM"@ != "+BCS"@ && "+VGM"@ != "+CIEV"@ && "+VGM"@ != "+VGS"@,
        "RING"@ != "+BCS"@ && "RING"@ != "+CIEV"@ && "RING"@ != "+VGS"@ && "RING"@ != "+VGM"@,
        "+CLIP"@ != "+BCS"@ && "+CLIP"@ != "+CIEV"@ && "+CLIP"@ != "+VGS"@ && "+CLIP"@ != "+VGM"@
            && "+CLIP"@ != "RING"@,
        colon_free("+BCS"@) && laws::fits_line("+BCS"@),
        colon_free("+CIEV"@) && laws::fits_line("+CIEV"@),
        colon_free("+VGS"@) && laws::fits_line("+VGS"@),
        colon_free("+VGM"@) && laws::fits_line("+VGM"@),
        colon_free("RING"@) && laws::fits_line("RING"@),
        colon_free("+CLIP"@) && laws::fits_line("+CLIP"@),
        "+BCS: "@ == "+BCS"@ + ": "@,
        "+CIEV: "@ == "+CIEV"@ + ": "@,
        "+VGS: "@ == "+VGS"@ + ": "@,
        "+VGM: "@ == "+VGM"@ + ": "@,
        "+CLIP: "@ == "+CLIP"@ + ": "@,
{
    reveal_strlit("+BCS");
    reveal_strlit("+CIEV");
    reveal_strlit("+VGS");
    reveal_strlit("+VGM");
    reveal_strlit("RING");
    reveal_strlit("+CLIP");
    reveal_strlit(": ");
    reveal_strlit("+BCS: ");
    reveal_strlit("+CIEV: ");
    reveal_strlit("+VGS: ");
    reveal_strlit("+VGM: ");
    reveal_strlit("+CLIP: ");
    assert("+BCS"@[1] == 'B' && "+BCS"@.len() == 4);
    assert("+CIEV"@[2] == 'I' && "+CIEV"@.len() == 5);
    assert("+VGS"@[1] == 'V' && "+VGS"@[3] == 'S' && "+VGS"@.len() == 4);
    assert("+VGM"@[1] == 'V' && "+VGM"@[3] == 'M' && "+VGM"@.len() == 4);
    assert("RING"@[1] == 'I' && "RING"@.len() == 4);
    assert("+CLIP"@[2] == 'L' && "+CLIP"@.len() == 5);
    assert("+BCS: "@ =~= "+BCS"@ + ": "@);
    assert("+CIEV: "@ =~= "+CIEV"@ + ": "@);
    assert("+VGS: "@ =~= "+VGS"@ + ": "@);
    assert("+VGM: "@ =~= "+VGM"@ + ": "@);
    assert("+CLIP: "@ =~= "+CLIP"@ + ": "@);
}

/// Whether a Hands-Free takes a code for a report: nothing of its buffer is
/// left, and no command waits for the code.
pub open spec fn listens(m: HfModel, code: Seq<char>) -> bool {
    m.read_buffer.len() == 0 && !hands_free::is_awaited(m, code)
}

/// The speaker volume that the Audio Gateway reports is the one that the
/// Hands-Free tells.
pub proof fn law_speaker_volume_arrives(m: HfModel, level: u8)
    requires
        listens(m, "+VGS"@),
    ensures
        hands_free::on_bytes(
            m,
            framing::response_line("+VGS: "@ + text::decimal(level as nat)),
        ) == (m, event::nothing().told(EventModel::SpeakerVolume(level))),
{
    lemma_report_codes();
    exchange::lemma_number_response("+VGS"@, seq![level as u32]);
    exchange::lemma_one_number(level as u32);
    laws::law_response_arrives(m, "+VGS: "@ + text::decimal(level as nat));
    reveal(hands_free::on_unsolicited);
}

/// The microphone volume that the Audio Gateway reports is the one that the
/// Hands-Free tells.
pub proof fn law_microphone_volume_arrives(m: HfModel, level: u8)
    requires
        listens(m, "+VGM"@),
    ensures
        hands_free::on_bytes(
            m,
            framing::response_line("+VGM: "@ + text::decimal(level as nat)),
        ) == (m, event::nothing().told(EventModel::MicrophoneVolume(level))),
{
    lemma_report_codes();
    exchange::lemma_number_response("+VGM"@, seq![level as u32]);
    exchange::lemma_one_number(level as u32);
    laws::law_response_arrives(m, "+VGM: "@ + text::decimal(level as nat));
    reveal(hands_free::on_unsolicited);
}

/// The alert that the Audio Gateway sends is told by the Hands-Free.
pub proof fn law_ring_arrives(m: HfModel)
    requires
        listens(m, "RING"@),
    ensures
        hands_free::on_bytes(m, framing::response_line("RING"@)) == (
            m,
            event::nothing().told(EventModel::Ring),
        ),
{
    lemma_report_codes();
    reading::lemma_bare_response_read("RING"@);
    reading::lemma_encode_len("RING"@);
    reveal_strlit("RING");
    laws::law_response_arrives(m, "RING"@);
    reveal(hands_free::on_unsolicited);
}

/// The update of an indicator that the Audio Gateway reports is the one that
/// the Hands-Free stores and tells, where both have the same indicators in the
/// same order.
pub proof fn law_indicator_update_arrives(m: HfModel, position: int, value: u32)
    requires
        listens(m, "+CIEV"@),
        0 <= position < m.ag_indicators.len(),
        position < u32::MAX,
    ensures
        ({
            let state = AgIndicatorModel { current_status: value, ..m.ag_indicators[position] };
            hands_free::on_bytes(
                m,
                framing::response_line(gateway::update_text(position, value)),
            ) == (
                HfModel { ag_indicators: m.ag_indicators.update(position, state), ..m },
                event::nothing().told(EventModel::AgIndicatorUpdated(state)),
            )
        }),
{
    let index = (position + 1) as u32;
    lemma_report_codes();
    exchange::lemma_number_response("+CIEV"@, seq![index, value]);
    exchange::lemma_two_numbers(index, value);
    let line = gateway::update_text(position, value);
    assert(line =~= "+CIEV"@ + ": "@ + text::joined(exchange::number_parts(seq![index, value])));
    laws::law_response_arrives(m, line);
    reveal(hands_free::on_unsolicited);
}

// ---------------------------------------------------------------------------
// Audio
// ---------------------------------------------------------------------------

/// The codec that is chosen is one that both sides have, and none that both
/// have is wider.
pub proof fn law_codec_is_shared_and_widest(m: AgModel, other: AudioCodec)
    requires
        gateway::codec_choice(m) is Some,
    ensures
        gateway::shared_codec(m, gateway::codec_choice(m)->0),
        gateway::shared_codec(m, other) ==> other.number() <= gateway::codec_choice(
            m,
        )->0.number(),
{
}

/// A second start of an audio connection does nothing.
pub proof fn law_audio_is_started_once(m: AgModel)
    ensures
        ({
            let once = gateway::start_audio(m).0;
            gateway::start_audio(once) == (once, event::nothing())
        }),
{
}

/// A codec that the Hands-Free accepts out of the blue is settled, but opens
/// no audio.
pub proof fn law_unasked_codec_opens_no_audio(m: AgModel, p: Seq<AtParameterModel>)
    requires
        m.audio_state != AudioConnectionState::Negotiating,
    ensures
        gateway::on_bcs(m, p).0.audio_state == m.audio_state,
        forall|codec: AudioCodec|
            !gateway::on_bcs(m, p).1.events.contains(EventModel::AudioConnectionRequested(codec)),
{
    reveal(gateway::on_bcs);
    let events = gateway::on_bcs(m, p).1.events;
    assert forall|codec: AudioCodec|
        !events.contains(EventModel::AudioConnectionRequested(codec)) by {
        if events.contains(EventModel::AudioConnectionRequested(codec)) {
            let i = choose|i: int|
                0 <= i < events.len() && events[i] == EventModel::AudioConnectionRequested(codec);
            assert(events[i] is CodecNegotiated);
        }
    }
}

/// Where either side does not negotiate codecs, audio is asked for at once,
/// with CVSD, and nothing is sent.
pub proof fn law_audio_without_negotiation(m: AgModel)
    requires
        m.audio_state == AudioConnectionState::Disconnected,
        !m.ag_has(ag_feature::CODEC_NEGOTIATION) || !m.hf_has(
            crate::classic::hfp::hf_feature::CODEC_NEGOTIATION,
        ),
    ensures
        gateway::start_audio(m).0.audio_state == AudioConnectionState::Connecting,
        gateway::start_audio(m).0.active_codec == AudioCodec::Cvsd,
        gateway::start_audio(m).1.outgoing.len() == 0,
        gateway::start_audio(m).1.events.last() == EventModel::AudioConnectionRequested(
            AudioCodec::Cvsd,
        ),
{
}

/// The command that accepts a codec.
pub open spec fn codec_acceptance(codec: AudioCodec) -> Seq<char> {
    "AT+BCS="@ + text::decimal(codec.number() as nat)
}

/// A codec that is offered is accepted, and both sides settle on it. Only
/// then does the Audio Gateway ask for the synchronous link.
pub proof fn law_codec_is_agreed(hf: HfModel, ag: AgModel, codec: AudioCodec)
    requires
        listens(hf, "+BCS"@),
        ag.read_buffer.len() == 0,
        ag.audio_state == AudioConnectionState::Disconnected,
        gateway::codec_choice(ag) == Some(codec),
    ensures
        ({
            let offered = gateway::start_audio(ag);
            let heard = hands_free::on_bytes(
                hf,
                framing::response_line(gateway::codec_offer(codec)),
            );
            let settled = gateway::on_bytes(
                offered.0,
                framing::command_line(codec_acceptance(codec)),
            );
            &&& offered.1.outgoing == seq![framing::response_line(gateway::codec_offer(codec))]
            &&& forall|c: AudioCodec|
                !offered.1.events.contains(EventModel::AudioConnectionRequested(c))
            &&& heard.1.outgoing == seq![framing::command_line(codec_acceptance(codec))]
            &&& heard.0.active_codec == codec
            &&& heard.0.audio_state == AudioConnectionState::Connecting
            &&& settled.1.outgoing == seq![framing::response_line("OK"@)]
            &&& settled.1.events == seq![
                EventModel::CodecNegotiated(codec),
                EventModel::AudioConnectionState(AudioConnectionState::Connecting),
                EventModel::AudioConnectionRequested(codec),
            ]
            &&& settled.0.active_codec == codec
            &&& settled.0.audio_state == AudioConnectionState::Connecting
        }),
{
    let n = codec.number() as u32;
    values::law_numbers_round_trip();
    lemma_report_codes();
    exchange::lemma_number_response("+BCS"@, seq![n]);
    exchange::lemma_one_number(n);
    laws::law_response_arrives(hf, gateway::codec_offer(codec));
    reveal(hands_free::on_unsolicited);
    let heard = hands_free::on_bytes(hf, framing::response_line(gateway::codec_offer(codec)));
    assert(AudioCodec::numbered(n as u8) == Some(codec));
    assert(heard.1.outgoing =~= seq![framing::command_line(codec_acceptance(codec))]);
    let offered = gateway::start_audio(ag);
    assert(offered.1.outgoing =~= seq![framing::response_line(gateway::codec_offer(codec))]);
    assert forall|c: AudioCodec| !offered.1.events.contains(
        EventModel::AudioConnectionRequested(c),
    ) by {
        if offered.1.events.contains(EventModel::AudioConnectionRequested(c)) {
            let i = choose|i: int|
                0 <= i < offered.1.events.len() && offered.1.events[i]
                    == EventModel::AudioConnectionRequested(c);
            assert(offered.1.events[i] is AudioConnectionState);
        }
    }
    exchange::lemma_mnemonics();
    exchange::lemma_number_command("BCS"@, seq![n]);
    lemma_command_text("BCS"@, "AT+BCS="@, text::decimal(n as nat));
    laws::law_command_arrives(offered.0, codec_acceptance(codec));
    let c = AtCommandModel {
        code: "BCS"@,
        sub_code: AtSubCode::Write,
        parameters: at::laws::meaning_all(exchange::number_items(seq![n])),
    };
    exchange::lemma_dispatch(offered.0, c);
    reveal(gateway::on_bcs);
    let settled = gateway::on_bcs(offered.0, c.parameters);
    assert(settled.1.outgoing =~= seq![framing::response_line("OK"@)]);
    assert(settled.1.events =~= seq![
        EventModel::CodecNegotiated(codec),
        EventModel::AudioConnectionState(AudioConnectionState::Connecting),
        EventModel::AudioConnectionRequested(codec),
    ]);
}

/// A command made of a prefix and parameters is made of its code and them.
proof fn lemma_command_text(code: Seq<char>, prefix: Seq<char>, after: Seq<char>)
    requires
        (code == "BCS"@ && prefix == "AT+BCS="@) || (code == "BVRA"@ && prefix == "AT+BVRA="@) || (
        code == "BIEV"@ && prefix == "AT+BIEV="@) || (code == "CHLD"@ && prefix == "AT+CHLD="@),
    ensures
        prefix + after == "AT+"@ + code + "="@ + after,
{
    reveal_strlit("AT+");
    reveal_strlit("=");
    reveal_strlit("BCS");
    reveal_strlit("AT+BCS=");
    reveal_strlit("BVRA");
    reveal_strlit("AT+BVRA=");
    reveal_strlit("BIEV");
    reveal_strlit("AT+BIEV=");
    reveal_strlit("CHLD");
    reveal_strlit("AT+CHLD=");
    assert(prefix =~= "AT+"@ + code + "="@);
}

// ---------------------------------------------------------------------------
// Requests to the Audio Gateway
// ---------------------------------------------------------------------------

/// The voice-recognition state that the Hands-Free sends is the one that the
/// Audio Gateway tells.
pub proof fn law_voice_recognition_arrives(m: AgModel, state: VoiceRecognitionState)
    requires
        m.read_buffer.len() == 0,
    ensures
        gateway::on_bytes(
            m,
            framing::command_line("AT+BVRA="@ + text::decimal(state.number() as nat)),
        ) == (m, gateway::accept().told(EventModel::VoiceRecognition(state))),
{
    let n = state.number() as u32;
    values::law_numbers_round_trip();
    exchange::lemma_mnemonics();
    exchange::lemma_number_command("BVRA"@, seq![n]);
    exchange::lemma_one_number(n);
    let line = "AT+BVRA="@ + text::decimal(n as nat);
    lemma_command_text("BVRA"@, "AT+BVRA="@, text::decimal(n as nat));
    laws::law_command_arrives(m, line);
    let c = AtCommandModel {
        code: "BVRA"@,
        sub_code: AtSubCode::Write,
        parameters: at::laws::meaning_all(exchange::number_items(seq![n])),
    };
    exchange::lemma_dispatch(m, c);
    reveal(gateway::on_bvra);
}

/// The value of an indicator that the Hands-Free sends is the one that the
/// Audio Gateway stores and tells, where it has the indicator.
pub proof fn law_hf_indicator_arrives(m: AgModel, indicator: HfIndicator, value: u32)
    requires
        m.read_buffer.len() == 0,
        m.ag_has(ag_feature::HF_INDICATORS),
        gateway::position_of(m.hf_indicators, indicator) < m.hf_indicators.len(),
    ensures
        ({
            let line = "AT+BIEV="@ + text::decimal(indicator.number() as nat) + ","@
                + text::decimal(value as nat);
            let i = gateway::position_of(m.hf_indicators, indicator);
            let state = HfIndicatorState { current_status: value, ..m.hf_indicators[i].1 };
            gateway::on_bytes(m, framing::command_line(line)) == (
                AgModel {
                    hf_indicators: m.hf_indicators.update(i, (m.hf_indicators[i].0, state)),
                    ..m
                },
                gateway::accept().told(EventModel::HfIndicatorUpdated(state)),
            )
        }),
{
    let n = indicator.number() as u32;
    values::law_numbers_round_trip();
    exchange::lemma_mnemonics();
    exchange::lemma_number_command("BIEV"@, seq![n, value]);
    exchange::lemma_two_numbers(n, value);
    let after = text::decimal(n as nat) + ","@ + text::decimal(value as nat);
    let line = "AT+BIEV="@ + text::decimal(n as nat) + ","@ + text::decimal(value as nat);
    assert(line =~= "AT+BIEV="@ + after);
    lemma_command_text("BIEV"@, "AT+BIEV="@, after);
    laws::law_command_arrives(m, line);
    let c = AtCommandModel {
        code: "BIEV"@,
        sub_code: AtSubCode::Write,
        parameters: at::laws::meaning_all(exchange::number_items(seq![n, value])),
    };
    exchange::lemma_dispatch(m, c);
    reveal(gateway::on_biev);
    assert(HfIndicator::numbered(n as u8) == Some(indicator));
}

/// The number that the Hands-Free dials is the one that the Audio Gateway
/// tells, provided that it does not end with a semicolon itself.
pub proof fn law_dialled_number_arrives(m: AgModel, number: Seq<char>)
    requires
        m.read_buffer.len() == 0,
        laws::fits_line(number),
        number.len() > 0 ==> number.last() != ';',
    ensures
        gateway::on_bytes(m, framing::command_line("ATD"@ + number + ";"@)) == (
            m,
            gateway::accept().told(EventModel::Dial(number)),
        ),
{
    reveal_strlit("ATD");
    reveal_strlit(";");
    let line = "ATD"@ + number + ";"@;
    let dialled = number + ";"@;
    assert(laws::fits_line("ATD"@) && laws::fits_line(";"@));
    exchange::lemma_fits_add("ATD"@, number);
    exchange::lemma_fits_add("ATD"@ + number, ";"@);
    laws::law_command_arrives(m, line);
    assert(line =~= "ATD"@ + dialled);
    text::laws::lemma_encode_add("ATD"@, dialled);
    let head = utf8::encode_utf8("ATD"@);
    assert(utf8::is_ascii_chars("ATD"@));
    utf8::is_ascii_chars_encode_utf8("ATD"@);
    assert("ATD"@[0] as u8 == head[0] && "ATD"@[1] as u8 == head[1] && "ATD"@[2] as u8 == head[2]);
    assert(head =~= seq![65u8, 84u8, 68u8]);
    let bytes = utf8::encode_utf8(line);
    assert(bytes.take(3) =~= head);
    assert(bytes.take(3)[2] == 68);
    assert(seq![65u8, 84u8, 43u8][2] == 43 && seq![65u8, 84u8, 65u8][2] == 65);
    assert(bytes.skip(3) =~= utf8::encode_utf8(dialled));
    text::lemma_text_round_trip(dialled);
    let c = AtCommandModel {
        code: "D"@,
        sub_code: AtSubCode::Plain,
        parameters: seq![AtParameterModel::Value(utf8::encode_utf8(dialled))],
    };
    exchange::lemma_dispatch(m, c);
    reveal(gateway::on_dial);
    assert(dialled.last() == ';');
    assert(dialled.drop_last() =~= number);
    assert(gateway::without_semicolons(dialled) == gateway::without_semicolons(number));
}

/// Whether an operation is about one call.
pub open spec fn about_one_call(operation: CallHoldOperation) -> bool {
    operation == CallHoldOperation::ReleaseSpecificCall || operation
        == CallHoldOperation::HoldAllCallsExcept
}

/// A call-hold request is read as the operation and the call that it was made
/// of.
pub proof fn lemma_hold_code_read(operation: CallHoldOperation, call_index: Option<u32>)
    requires
        call_index is Some <==> about_one_call(operation),
    ensures
        ({
            let code = hands_free::hold_code(operation, call_index);
            let raw = utf8::encode_utf8(code);
            &&& laws::fits_line(code)
            &&& raw.len() > 0
            &&& at::laws::all_ordinary(raw)
            &&& raw[0] != 63
            &&& gateway::hold_request(raw) == Some((operation, call_index))
        }),
{
    reveal_strlit("0");
    reveal_strlit("1");
    reveal_strlit("1x");
    reveal_strlit("2");
    reveal_strlit("2x");
    reveal_strlit("3");
    reveal_strlit("4");
    let code = hands_free::hold_code(operation, call_index);
    let raw = utf8::encode_utf8(code);
    match call_index {
        Some(index) => {
            let digit = operation.code_text().take(1);
            let c = if operation == CallHoldOperation::ReleaseSpecificCall {
                '1'
            } else {
                '2'
            };
            assert(digit =~= seq![c]);
            reading::lemma_char_byte(c);
            let number = text::decimal(index as nat);
            text::laws::lemma_encode_add(digit, number);
            exchange::lemma_fits_decimal(index as nat);
            assert(laws::fits_line(digit));
            exchange::lemma_fits_add(digit, number);
            reading::lemma_number_item(index);
            text::laws::law_decimal_is_read(index);
            let bytes = utf8::encode_utf8(number);
            assert(raw =~= seq![c as u8] + bytes);
            assert(raw.skip(1) =~= bytes);
            assert forall|i: int| 0 <= i < raw.len() implies at::laws::is_ordinary(
                #[trigger] raw[i],
            ) by {
                if i > 0 {
                    assert(raw[i] == bytes[i - 1]);
                }
            }
            gateway::lemma_codes_about_one_call(c);
            assert(raw[0] as char == c);
        },
        None => {
            let c = code[0];
            assert(code =~= seq![c]);
            reading::lemma_char_byte(c);
            assert(raw[0] == c as u8);
            assert(laws::fits_line(code));
            text::lemma_text_round_trip(code);
            values::law_codes_round_trip(operation);
        },
    }
}

/// A call-hold request is taken for what it says.
pub proof fn lemma_hold_command(
    m: AgModel,
    operation: CallHoldOperation,
    call_index: Option<u32>,
)
    requires
        m.read_buffer.len() == 0,
        call_index is Some <==> about_one_call(operation),
    ensures
        gateway::on_bytes(
            m,
            framing::command_line("AT+CHLD="@ + hands_free::hold_code(operation, call_index)),
        ) == if !m.supported_ag_call_hold_operations.contains(operation) {
            (m, gateway::complain(m, values::CmeError::OperationNotSupported))
        } else if call_index is Some && !gateway::has_call(m.calls, call_index->0) {
            (m, gateway::complain(m, values::CmeError::InvalidIndex))
        } else {
            (m, gateway::accept().told(EventModel::CallHold { operation, call_index }))
        },
{
    let code = hands_free::hold_code(operation, call_index);
    let raw = utf8::encode_utf8(code);
    lemma_hold_code_read(operation, call_index);
    let line = "AT+CHLD="@ + code;
    lemma_command_text("CHLD"@, "AT+CHLD="@, code);
    let parts = seq![code];
    let items = seq![Written::Bare(raw)];
    assert(text::joined(parts) == code);
    assert(items.last() == items[0]);
    assert(items[0].wire() == raw);
    assert(at::laws::wire_all(items) == raw);
    exchange::lemma_mnemonics();
    reading::lemma_write_read("CHLD"@, parts, items);
    reading::lemma_meanings(items);
    reveal_strlit("=");
    assert(laws::fits_line("="@));
    exchange::lemma_fits_add("="@, code);
    exchange::lemma_fits_command("CHLD"@, "="@ + code);
    assert(line =~= "AT+"@ + "CHLD"@ + ("="@ + code));
    laws::law_command_arrives(m, line);
    reading::lemma_encode_len(line);
    let c = AtCommandModel {
        code: "CHLD"@,
        sub_code: AtSubCode::Write,
        parameters: at::laws::meaning_all(items),
    };
    exchange::lemma_dispatch(m, c);
    reveal(gateway::on_chld);
    assert(c.parameters[0] == AtParameterModel::Value(raw));
    text::lemma_text_round_trip(code);
}

/// A call-hold operation that the Hands-Free asks for is the one that the
/// Audio Gateway tells, where it can do the operation and has the call.
pub proof fn law_call_hold_arrives(
    m: AgModel,
    operation: CallHoldOperation,
    call_index: Option<u32>,
)
    requires
        m.read_buffer.len() == 0,
        call_index is Some <==> about_one_call(operation),
        m.supported_ag_call_hold_operations.contains(operation),
        call_index is Some ==> gateway::has_call(m.calls, call_index->0),
    ensures
        gateway::on_bytes(
            m,
            framing::command_line("AT+CHLD="@ + hands_free::hold_code(operation, call_index)),
        ) == (m, gateway::accept().told(EventModel::CallHold { operation, call_index })),
{
    lemma_hold_command(m, operation, call_index);
}

// ---------------------------------------------------------------------------
// What is said of calls
// ---------------------------------------------------------------------------

/// The response that a line holds.
pub open spec fn response_in(line: Seq<char>) -> AtResponseModel {
    at::response_of(utf8::encode_utf8(line))->Ok_0
}

/// An entry of a call list is read as the call that it was made of, provided
/// that its number can stand in double quotes, and that it has a number where
/// it has an address type.
pub proof fn law_call_is_read(call: CallInfoModel)
    requires
        call.number is Some ==> reading::quotable(call.number->0),
        call.kind is Some ==> call.number is Some,
    ensures
        at::response_of(utf8::encode_utf8(call::call_text(call))) is Ok,
        response_in(call::call_text(call)).code == "+CLCC"@,
        call::call_of(response_in(call::call_text(call))) == Some(call),
{
    let numbers = seq![
        call.index,
        call.direction.number() as u32,
        call.status.number() as u32,
        call.mode.number() as u32,
        call.multi_party.number() as u32,
    ];
    values::law_numbers_round_trip();
    exchange::lemma_numbers(numbers);
    let parts5 = exchange::number_parts(numbers);
    let items5 = exchange::number_items(numbers);
    let parts6 = match call.number {
        Some(number) => parts5.push(text::quoted(number)),
        None => parts5,
    };
    let items6 = match call.number {
        Some(number) => items5.push(reading::text_item(number)),
        None => items5,
    };
    if call.number is Some {
        reading::lemma_text_item(call.number->0);
        lemma_written_push(parts5, items5, text::quoted(call.number->0), items6.last());
    }
    let parts = match call.kind {
        Some(kind) => parts6.push(text::decimal(kind as nat)),
        None => parts6,
    };
    let items = match call.kind {
        Some(kind) => items6.push(reading::number_item(kind as u32)),
        None => items6,
    };
    if call.kind is Some {
        reading::lemma_number_item(call.kind->0 as u32);
        lemma_written_push(parts6, items6, text::decimal(call.kind->0 as nat), items.last());
    }
    assert(parts5 =~= seq![
        text::decimal(call.index as nat),
        text::decimal(call.direction.number() as nat),
        text::decimal(call.status.number() as nat),
        text::decimal(call.mode.number() as nat),
        text::decimal(call.multi_party.number() as nat),
    ]);
    reveal_strlit("+CLCC");
    reveal_strlit("+CLCC: ");
    reveal_strlit(": ");
    assert("+CLCC: "@ =~= "+CLCC"@ + ": "@);
    assert(call::call_text(call) == "+CLCC"@ + ": "@ + text::joined(parts));
    reading::lemma_response_read("+CLCC"@, parts, items);
    reading::lemma_meanings(items);
    let p = at::laws::meaning_all(items);
    assert forall|i: int| 0 <= i < 5 implies (#[trigger] p[i]).number() == Some(numbers[i]) by {
        reading::lemma_number_item(numbers[i]);
        assert(items[i] == items5[i]);
    }
    assert(p[0].number() == Some(call.index));
    assert(p[1].number() == Some(call.direction.number() as u32));
    assert(p[2].number() == Some(call.status.number() as u32));
    assert(p[3].number() == Some(call.mode.number() as u32));
    assert(p[4].number() == Some(call.multi_party.number() as u32));
    if call.number is Some {
        assert(items[5] == reading::text_item(call.number->0));
    }
    if call.kind is Some {
        assert(items[6] == reading::number_item(call.kind->0 as u32));
    }
    assert(call::call_of(response_in(call::call_text(call)))->0 =~= call);
}

/// One more parameter is written.
proof fn lemma_written_push(
    parts: Seq<Seq<char>>,
    items: Seq<Written>,
    part: Seq<char>,
    item: Written,
)
    requires
        reading::are_written(parts, items),
        utf8::encode_utf8(part) == item.wire(),
        item.writable(),
    ensures
        reading::are_written(parts.push(part), items.push(item)),
{
    let more = parts.push(part);
    assert forall|i: int| 0 <= i < more.len() implies utf8::encode_utf8(#[trigger] more[i])
        == items.push(item)[i].wire() && items.push(item)[i].writable() by {
        if i < parts.len() {
            assert(utf8::encode_utf8(parts[i]) == items[i].wire());
        }
    }
}

/// A field that may be missing, as it is written.
spec fn optional_text_item(t: Option<Seq<char>>) -> Written {
    match t {
        Some(t) => reading::text_item(t),
        None => Written::Bare(seq![]),
    }
}

/// A number that may be missing, as it is written.
spec fn optional_number_item(n: Option<u32>) -> Written {
    match n {
        Some(n) => reading::number_item(n),
        None => Written::Bare(seq![]),
    }
}

proof fn lemma_optional_text(t: Option<Seq<char>>)
    requires
        t is Some ==> reading::quotable(t->0),
    ensures
        utf8::encode_utf8(call::optional_text(t)) == optional_text_item(t).wire(),
        optional_text_item(t).writable(),
        t is Some ==> optional_text_item(t).meaning().text() == t,
{
    if t is Some {
        reading::lemma_text_item(t->0);
    }
}

proof fn lemma_optional_number(n: Option<u32>)
    ensures
        utf8::encode_utf8(call::optional_number(n)) == optional_number_item(n).wire(),
        optional_number_item(n).writable(),
        ({
            let p = optional_number_item(n).meaning();
            &&& p is Value
            &&& p->Value_0.len() > 0 <==> n is Some
            &&& n is Some ==> p.number() == n && p.text() is Some
        }),
{
    if n is Some {
        reading::lemma_number_item(n->0);
        text::lemma_text_round_trip(text::decimal(n->0 as nat));
    }
}

/// The caller that the Audio Gateway identifies is the one that the
/// Hands-Free reads, provided that its texts can stand in double quotes, that
/// it has a number, and that neither text is missing before a field that is
/// known: a missing text is read as an empty one there.
pub proof fn law_caller_is_read(caller: CallerModel)
    requires
        caller.number.len() > 0,
        reading::quotable(caller.number),
        caller.subaddr is Some ==> reading::quotable(caller.subaddr->0),
        caller.alpha is Some ==> reading::quotable(caller.alpha->0),
        caller.subaddr is None ==> call::optional_count(caller) == 0,
        caller.alpha is None ==> call::optional_count(caller) <= 2,
    ensures
        ({
            let line = "+CLIP: "@ + text::joined(call::caller_fields(caller));
            let r = at::response_of(utf8::encode_utf8(line));
            &&& r is Ok
            &&& r->Ok_0.code == "+CLIP"@
            &&& call::caller_of(r->Ok_0.parameters) == Ok::<CallerModel, Seq<char>>(caller)
        }),
{
    lemma_report_codes();
    let n = 2 + call::optional_count(caller);
    let all_parts = seq![
        text::quoted(caller.number),
        text::decimal(caller.kind as nat),
        call::optional_text(caller.subaddr),
        call::optional_number(caller.satype),
        call::optional_text(caller.alpha),
        call::optional_number(caller.cli_validity),
    ];
    let all_items = seq![
        reading::text_item(caller.number),
        reading::number_item(caller.kind),
        optional_text_item(caller.subaddr),
        optional_number_item(caller.satype),
        optional_text_item(caller.alpha),
        optional_number_item(caller.cli_validity),
    ];
    reading::lemma_text_item(caller.number);
    reading::lemma_number_item(caller.kind);
    text::lemma_text_round_trip(text::decimal(caller.kind as nat));
    lemma_optional_text(caller.subaddr);
    lemma_optional_number(caller.satype);
    lemma_optional_text(caller.alpha);
    lemma_optional_number(caller.cli_validity);
    let parts = all_parts.take(n);
    let items = all_items.take(n);
    assert forall|i: int| 0 <= i < parts.len() implies utf8::encode_utf8(#[trigger] parts[i])
        == items[i].wire() && items[i].writable() by {
        assert(parts[i] == all_parts[i] && items[i] == all_items[i]);
        assert(i == 0 || i == 1 || i == 2 || i == 3 || i == 4 || i == 5);
    }
    reading::lemma_response_read("+CLIP"@, parts, items);
    reading::lemma_meanings(items);
    let p = at::laws::meaning_all(items);
    assert(p[0] == all_items[0].meaning());
    assert(p[1] == all_items[1].meaning());
    reading::lemma_encode_len(caller.number);
    assert(n > 2 ==> p[2] == all_items[2].meaning());
    assert(n > 3 ==> p[3] == all_items[3].meaning());
    assert(n > 4 ==> p[4] == all_items[4].meaning());
    assert(n > 5 ==> p[5] == all_items[5].meaning());
    assert(call::caller_of(p)->Ok_0 =~= caller);
}

/// A caller that is identified is told by the Hands-Free.
pub proof fn law_caller_arrives(m: HfModel, caller: CallerModel)
    requires
        listens(m, "+CLIP"@),
        caller.number.len() > 0,
        reading::quotable(caller.number),
        caller.subaddr is Some ==> reading::quotable(caller.subaddr->0),
        caller.alpha is Some ==> reading::quotable(caller.alpha->0),
        caller.subaddr is None ==> call::optional_count(caller) == 0,
        caller.alpha is None ==> call::optional_count(caller) <= 2,
        laws::fits_line(caller.number),
        caller.subaddr is Some ==> laws::fits_line(caller.subaddr->0),
        caller.alpha is Some ==> laws::fits_line(caller.alpha->0),
    ensures
        hands_free::on_bytes(
            m,
            framing::response_line("+CLIP: "@ + text::joined(call::caller_fields(caller))),
        ) == (m, event::nothing().told(EventModel::CliNotification(caller))),
{
    lemma_report_codes();
    law_caller_is_read(caller);
    let fields = call::caller_fields(caller);
    exchange::lemma_fits_quoted(caller.number);
    exchange::lemma_fits_decimal(caller.kind as nat);
    if caller.subaddr is Some {
        exchange::lemma_fits_quoted(caller.subaddr->0);
    }
    if caller.satype is Some {
        exchange::lemma_fits_decimal(caller.satype->0 as nat);
    }
    if caller.alpha is Some {
        exchange::lemma_fits_quoted(caller.alpha->0);
    }
    if caller.cli_validity is Some {
        exchange::lemma_fits_decimal(caller.cli_validity->0 as nat);
    }
    assert forall|i: int| 0 <= i < fields.len() implies laws::fits_line(#[trigger] fields[i]) by {
        assert(i == 0 || i == 1 || i == 2 || i == 3 || i == 4 || i == 5);
    }
    exchange::lemma_fits_joined(fields);
    let line = "+CLIP: "@ + text::joined(fields);
    reveal_strlit(": ");
    assert(laws::fits_line(": "@));
    exchange::lemma_fits_add("+CLIP"@, ": "@);
    exchange::lemma_fits_add("+CLIP: "@, text::joined(fields));
    reveal_strlit("+CLIP: ");
    reading::lemma_encode_len(line);
    laws::law_response_arrives(m, line);
    reveal(hands_free::on_unsolicited);
}

/// The operator that the Audio Gateway names is the one that is read, provided
/// that the name can stand in double quotes.
pub proof fn law_operator_is_read(name: Seq<char>)
    requires
        reading::quotable(name),
    ensures
        ({
            let r = at::response_of(utf8::encode_utf8("+COPS: 0,0,"@ + text::quoted(name)));
            &&& r is Ok
            &&& r->Ok_0.code == "+COPS"@
            &&& call::operator_of(seq![r->Ok_0]) == Some(name)
        }),
{
    let numbers = seq![0u32, 0u32];
    exchange::lemma_numbers(numbers);
    reading::lemma_text_item(name);
    let two = exchange::number_parts(numbers);
    let parts = two.push(text::quoted(name));
    let items = exchange::number_items(numbers).push(reading::text_item(name));
    lemma_written_push(
        two,
        exchange::number_items(numbers),
        text::quoted(name),
        reading::text_item(name),
    );
    reveal_strlit("+COPS");
    reveal_strlit("+COPS: 0,0,");
    reveal_strlit(": ");
    reveal_strlit(",");
    exchange::lemma_two_numbers(0, 0);
    assert(parts.drop_last() =~= two);
    assert(text::decimal(0) =~= seq!['0']);
    assert("+COPS: 0,0,"@ + text::quoted(name) =~= "+COPS"@ + ": "@ + text::joined(parts));
    reading::lemma_response_read("+COPS"@, parts, items);
    reading::lemma_meanings(items);
}

/// The operator name can be read only once its format has been selected.
pub proof fn law_operator_needs_format(m: AgModel)
    ensures
        !m.cops_format_selected ==> gateway::on_cops_read(m).1 == gateway::complain(
            m,
            crate::classic::hfp::values::CmeError::OperationNotAllowed,
        ),
        m.cops_format_selected ==> gateway::on_cops_read(m).1.outgoing == seq![
            framing::response_line("+COPS: 0,0,"@ + text::quoted(m.network_operator)),
            framing::response_line("OK"@),
        ],
        gateway::on_cops_read(m).0 == m,
        forall|p: Seq<AtParameterModel>|
            (#[trigger] gateway::on_cops_set(m, p)).0.cops_format_selected
                == (m.cops_format_selected || (call::number_at(p, 0) == Some(3u32)
                && call::number_at(p, 1) == Some(0u32))),
{
    reveal(gateway::on_cops_read);
    reveal(gateway::on_cops_set);
    if m.cops_format_selected {
        assert(gateway::on_cops_read(m).1.outgoing =~= seq![
            framing::response_line("+COPS: 0,0,"@ + text::quoted(m.network_operator)),
            framing::response_line("OK"@),
        ]);
    }
}

/// Whether a call can be listed: its number can stand in double quotes and on
/// a line, and it has a number where it has an address type.
pub open spec fn can_be_listed(call: CallInfoModel) -> bool {
    &&& call.number is Some ==> reading::quotable(call.number->0) && laws::fits_line(
        call.number->0,
    )
    &&& call.kind is Some ==> call.number is Some
}

/// The texts that list calls.
spec fn call_texts(calls: Seq<CallInfoModel>) -> Seq<Seq<char>> {
    Seq::new(calls.len(), |i: int| call::call_text(calls[i]))
}

/// The responses that list calls.
spec fn call_responses(calls: Seq<CallInfoModel>) -> Seq<AtResponseModel> {
    Seq::new(calls.len(), |i: int| response_in(call::call_text(calls[i])))
}

/// A call list is read as the calls that it was made of.
proof fn lemma_calls_read(calls: Seq<CallInfoModel>)
    requires
        forall|i: int| 0 <= i < calls.len() ==> can_be_listed(#[trigger] calls[i]),
    ensures
        call::calls_of(call_responses(calls)) == calls,
    decreases calls.len(),
{
    let responses = call_responses(calls);
    if calls.len() == 0 {
        assert(call::calls_of(responses) =~= calls);
    } else {
        let n = calls.len() - 1;
        let before = calls.drop_last();
        assert forall|i: int| 0 <= i < before.len() implies can_be_listed(
            #[trigger] before[i],
        ) by {
            assert(can_be_listed(calls[i]));
        }
        lemma_calls_read(before);
        assert(responses.drop_last() =~= call_responses(before));
        assert(can_be_listed(calls[n]));
        law_call_is_read(calls[n]);
        assert(responses.last() == response_in(call::call_text(calls[n])));
        assert(call::calls_of(responses) =~= calls);
    }
}

/// A call fits on a line.
proof fn lemma_call_fits(call: CallInfoModel)
    requires
        can_be_listed(call),
    ensures
        laws::fits_line(call::call_text(call)),
        utf8::encode_utf8(call::call_text(call)).len() > 0,
{
    exchange::lemma_fits_decimal(call.index as nat);
    exchange::lemma_fits_decimal(call.direction.number() as nat);
    exchange::lemma_fits_decimal(call.status.number() as nat);
    exchange::lemma_fits_decimal(call.mode.number() as nat);
    exchange::lemma_fits_decimal(call.multi_party.number() as nat);
    let five = seq![
        text::decimal(call.index as nat),
        text::decimal(call.direction.number() as nat),
        text::decimal(call.status.number() as nat),
        text::decimal(call.mode.number() as nat),
        text::decimal(call.multi_party.number() as nat),
    ];
    let six = match call.number {
        Some(number) => five.push(text::quoted(number)),
        None => five,
    };
    let fields = match call.kind {
        Some(kind) => six.push(text::decimal(kind as nat)),
        None => six,
    };
    if call.number is Some {
        exchange::lemma_fits_quoted(call.number->0);
    }
    if call.kind is Some {
        exchange::lemma_fits_decimal(call.kind->0 as nat);
    }
    assert forall|i: int| 0 <= i < fields.len() implies laws::fits_line(#[trigger] fields[i]) by {
        assert(i == 0 || i == 1 || i == 2 || i == 3 || i == 4 || i == 5 || i == 6);
    }
    exchange::lemma_fits_joined(fields);
    reveal_strlit("+CLCC: ");
    assert(laws::fits_line("+CLCC: "@));
    exchange::lemma_fits_add("+CLCC: "@, text::joined(fields));
    reading::lemma_encode_len(call::call_text(call));
}

/// The calls that the Audio Gateway has are those that the Hands-Free reads
/// from the responses when it asks for them.
pub proof fn law_calls_are_listed(hf: HfModel, ag: AgModel)
    requires
        hf.read_buffer.len() == 0,
        ag.read_buffer.len() == 0,
        forall|i: int| 0 <= i < ag.calls.len() ==> can_be_listed(#[trigger] ag.calls[i]),
    ensures
        ({
            let asking = hf.commanding("AT+CLCC"@);
            let answered = gateway::on_bytes(ag, framing::command_line("AT+CLCC"@));
            let heard = hands_free::on_bytes(asking, conversation::stream(answered.1.outgoing));
            &&& answered.0 == ag
            &&& heard.0 == asking.idle()
            &&& heard.1.events.len() == 1
            &&& heard.1.events[0] is CommandCompleted
            &&& heard.1.events[0]->ok
            &&& call::calls_of(heard.1.events[0]->responses) == ag.calls
        }),
{
    let command = "AT+CLCC"@;
    reveal_strlit("CLCC");
    reveal_strlit("+CLCC");
    reveal_strlit("AT+CLCC");
    reveal_strlit("AT+");
    reveal_strlit("AT");
    assert(command =~= "AT+"@ + "CLCC"@);
    exchange::lemma_mnemonics();
    reading::lemma_plain_read("CLCC"@);
    reading::lemma_encode_len(command);
    assert(laws::fits_line(command));
    let c = AtCommandModel { code: "CLCC"@, sub_code: AtSubCode::Plain, parameters: seq![] };
    exchange::lemma_dispatch(ag, c);
    laws::law_command_arrives(ag, command);
    reveal(gateway::on_clcc);
    let texts = call_texts(ag.calls);
    let responses = call_responses(ag.calls);
    let answered = gateway::on_bytes(ag, framing::command_line(command));
    assert(answered.1.outgoing =~= conversation::response_frames(texts.push("OK"@)));
    let none: Seq<char> = seq![];
    assert(command =~= "AT"@ + "+CLCC"@ + none);
    conversation::lemma_mentions("AT"@, "+CLCC"@, none);
    lemma_not_status();
    assert(conversation::answers(command, texts, responses)) by {
        assert forall|i: int| 0 <= i < texts.len() implies {
            &&& laws::fits_line(#[trigger] texts[i])
            &&& utf8::encode_utf8(texts[i]).len() > 0
            &&& at::response_of(utf8::encode_utf8(texts[i])) == Ok::<AtResponseModel, Seq<char>>(
                responses[i],
            )
            &&& hands_free::mentions(command, responses[i].code)
            &&& !hands_free::is_status(responses[i].code)
        } by {
            assert(can_be_listed(ag.calls[i]));
            lemma_call_fits(ag.calls[i]);
            law_call_is_read(ag.calls[i]);
        }
    }
    let asking = hf.commanding(command);
    conversation::lemma_answered(asking, command, texts, responses);
    lemma_calls_read(ag.calls);
}

/// The codes of these responses are no status.
proof fn lemma_not_status()
    ensures
        !hands_free::is_status("+CLCC"@),
        !hands_free::is_status("+COPS"@),
{
    reveal_strlit("+CLCC");
    reveal_strlit("+COPS");
    reveal_strlit("+CME ERROR");
    reveal_strlit("BLACKLISTED");
    reveal_strlit("BUSY");
    reveal_strlit("DELAYED");
    reveal_strlit("ERROR");
    reveal_strlit("NO ANSWER");
    reveal_strlit("NO CARRIER");
    reveal_strlit("OK");
    assert("+CLCC"@.len() == 5 && "+COPS"@.len() == 5);
    assert("+CLCC"@[0] == '+' && "+COPS"@[0] == '+' && "ERROR"@[0] == 'E');
    assert("+CME ERROR"@.len() == 10 && "BLACKLISTED"@.len() == 11 && "BUSY"@.len() == 4);
    assert("DELAYED"@.len() == 7 && "NO ANSWER"@.len() == 9 && "NO CARRIER"@.len() == 10);
    assert("OK"@.len() == 2);
}

/// The operator that the Audio Gateway names is the one that the Hands-Free
/// reads from the responses when it asks for it, once the format has been
/// selected.
pub proof fn law_operator_is_named(hf: HfModel, ag: AgModel)
    requires
        hf.read_buffer.len() == 0,
        ag.read_buffer.len() == 0,
        ag.cops_format_selected,
        reading::quotable(ag.network_operator),
        laws::fits_line(ag.network_operator),
    ensures
        ({
            let asking = hf.commanding("AT+COPS?"@);
            let answered = gateway::on_bytes(ag, framing::command_line("AT+COPS?"@));
            let heard = hands_free::on_bytes(asking, conversation::stream(answered.1.outgoing));
            &&& answered.0 == ag
            &&& heard.0 == asking.idle()
            &&& heard.1.events.len() == 1
            &&& heard.1.events[0] is CommandCompleted
            &&& heard.1.events[0]->ok
            &&& call::operator_of(heard.1.events[0]->responses) == Some(ag.network_operator)
        }),
{
    let command = "AT+COPS?"@;
    reveal_strlit("COPS");
    reveal_strlit("+COPS");
    reveal_strlit("AT+COPS?");
    reveal_strlit("AT+");
    reveal_strlit("AT");
    reveal_strlit("?");
    reveal_strlit("+COPS: 0,0,");
    assert(command =~= "AT+"@ + "COPS"@ + "?"@);
    exchange::lemma_mnemonics();
    reading::lemma_read_read("COPS"@);
    reading::lemma_encode_len(command);
    assert(laws::fits_line(command));
    let c = AtCommandModel { code: "COPS"@, sub_code: AtSubCode::Read, parameters: seq![] };
    exchange::lemma_dispatch(ag, c);
    laws::law_command_arrives(ag, command);
    reveal(gateway::on_cops_read);
    let line = "+COPS: 0,0,"@ + text::quoted(ag.network_operator);
    exchange::lemma_fits_quoted(ag.network_operator);
    assert(laws::fits_line("+COPS: 0,0,"@));
    exchange::lemma_fits_add("+COPS: 0,0,"@, text::quoted(ag.network_operator));
    reading::lemma_encode_len(line);
    law_operator_is_read(ag.network_operator);
    let texts = seq![line];
    let responses = seq![response_in(line)];
    conversation::lemma_said(line);
    assert(command =~= "AT"@ + "+COPS"@ + "?"@);
    conversation::lemma_mentions("AT"@, "+COPS"@, "?"@);
    lemma_not_status();
    let asking = hf.commanding(command);
    conversation::lemma_answered(asking, command, texts, responses);
}

} // verus!
