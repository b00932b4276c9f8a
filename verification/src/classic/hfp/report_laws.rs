//! What each report of the Audio Gateway does at the Hands-Free, and the texts
//! and numbers that both sides share.

use vstd::prelude::*;
use vstd::utf8;
use crate::classic::at;
use crate::classic::at::AtResponseModel;
use crate::classic::hfp::call;
use crate::classic::hfp::call::CallerModel;
use crate::classic::hfp::event::EventModel;
use crate::classic::hfp::exchange;
use crate::classic::hfp::exchange_laws;
use crate::classic::hfp::gateway;
use crate::classic::hfp::gateway::AgModel;
use crate::classic::hfp::hands_free;
use crate::classic::hfp::hands_free::HfModel;
use crate::classic::hfp::indicator;
use crate::classic::hfp::indicator::{AgIndicatorModel, HfIndicatorState};
use crate::classic::hfp::laws;
use crate::classic::hfp::values::{
    AgIndicator,
    AudioCodec,
    AudioConnectionState,
    CallHoldOperation,
    CallInfoDirection,
    CallInfoMode,
    CallInfoMultiParty,
    CallInfoStatus,
    CmeError,
    HfIndicator,
    VoiceRecognitionState,
};
use crate::text;

verus! {

// ---------------------------------------------------------------------------
// Reports
// ---------------------------------------------------------------------------

/// Whether a response line makes a Hands-Free come to a state, send commands,
/// each with a line end, and tell events.
pub open spec fn leads_to(
    m: HfModel,
    response: Seq<char>,
    after: HfModel,
    commands: Seq<Seq<char>>,
    events: Seq<EventModel>,
) -> bool {
    let r = hands_free::on_bytes(
        m,
        seq![13u8, 10u8] + utf8::encode_utf8(response) + seq![13u8, 10u8],
    );
    &&& r.0 == after
    &&& r.1.outgoing == Seq::new(
        commands.len(),
        |i: int| utf8::encode_utf8(commands[i]) + seq![13u8],
    )
    &&& r.1.events == events
}

/// Whether a Hands-Free takes reports: nothing of its buffer is left, and no
/// command waits.
pub open spec fn listens(m: HfModel) -> bool {
    m.read_buffer.len() == 0 && m.pending_command is None
}

/// A response with numbers is taken for what it says.
proof fn lemma_report(m: HfModel, code: Seq<char>, prefix: Seq<char>, numbers: Seq<u32>)
    requires
        listens(m),
        exchange_laws::colon_free(code),
        laws::fits_line(code),
        prefix =~= code + ": "@,
        numbers.len() > 0,
    ensures
        ({
            let line = prefix + text::joined(exchange::number_parts(numbers));
            let p = at::laws::meaning_all(exchange::number_items(numbers));
            &&& hands_free::on_bytes(
                m,
                seq![13u8, 10u8] + utf8::encode_utf8(line) + seq![13u8, 10u8],
            ) == hands_free::on_unsolicited(m, AtResponseModel { code, parameters: p })
            &&& exchange::are_numbers(p, numbers)
        }),
{
    let line = prefix + text::joined(exchange::number_parts(numbers));
    exchange::lemma_number_response(code, numbers);
    laws::law_response_arrives(m, line);
}

proof fn lemma_no_commands()
    ensures
        Seq::new(
            Seq::<Seq<char>>::empty().len(),
            |i: int| utf8::encode_utf8(Seq::<Seq<char>>::empty()[i]) + seq![13u8],
        ) =~= Seq::<Seq<u8>>::empty(),
{
}

proof fn lemma_one_command(command: Seq<char>)
    ensures
        Seq::new(
            seq![command].len(),
            |i: int| utf8::encode_utf8(seq![command][i]) + seq![13u8],
        ) =~= Seq::<Seq<u8>>::empty().push(utf8::encode_utf8(command).push(13u8)),
{
    assert(utf8::encode_utf8(command) + seq![13u8] =~= utf8::encode_utf8(command).push(13u8));
}

/// A speaker or a microphone volume that the Audio Gateway reports is told as
/// such, with its level, and nothing else happens.
#[verifier::rlimit(50)]
pub proof fn law_volumes_are_told(m: HfModel, level: u8)
    requires
        listens(m),
    ensures
        leads_to(
            m,
            "+VGS: "@ + text::decimal(level as nat),
            m,
            seq![],
            seq![EventModel::SpeakerVolume(level)],
        ),
        leads_to(
            m,
            "+VGM: "@ + text::decimal(level as nat),
            m,
            seq![],
            seq![EventModel::MicrophoneVolume(level)],
        ),
{
    let numbers = seq![level as u32];
    let p = at::laws::meaning_all(exchange::number_items(numbers));
    exchange_laws::lemma_report_codes();
    exchange::lemma_one_number(level as u32);
    lemma_report(m, "+VGS"@, "+VGS: "@, numbers);
    lemma_report(m, "+VGM"@, "+VGM: "@, numbers);
    reveal(hands_free::on_unsolicited);
    lemma_no_commands();
    assert(p[0].number() == Some(level as u32));
    let s = hands_free::on_unsolicited(m, AtResponseModel { code: "+VGS"@, parameters: p });
    let t = hands_free::on_unsolicited(m, AtResponseModel { code: "+VGM"@, parameters: p });
    assert(s.1.events =~= seq![EventModel::SpeakerVolume(level)]);
    assert(t.1.events =~= seq![EventModel::MicrophoneVolume(level)]);
}

/// A new value of an indicator, which is named by its place from one on, is
/// kept for that indicator and told with it. A place that does not exist is
/// ignored.
#[verifier::rlimit(50)]
pub proof fn law_indicator_value_is_kept(m: HfModel, place: u32, value: u32)
    requires
        listens(m),
    ensures
        ({
            let known = 1 <= place <= m.ag_indicators.len();
            let state = AgIndicatorModel {
                current_status: value,
                ..m.ag_indicators[place - 1]
            };
            leads_to(
                m,
                "+CIEV: "@ + (text::decimal(place as nat) + ","@ + text::decimal(value as nat)),
                if known {
                    HfModel { ag_indicators: m.ag_indicators.update(place - 1, state), ..m }
                } else {
                    m
                },
                seq![],
                if known {
                    seq![EventModel::AgIndicatorUpdated(state)]
                } else {
                    seq![]
                },
            )
        }),
{
    let numbers = seq![place, value];
    let p = at::laws::meaning_all(exchange::number_items(numbers));
    exchange_laws::lemma_report_codes();
    exchange::lemma_two_numbers(place, value);
    lemma_report(m, "+CIEV"@, "+CIEV: "@, numbers);
    reveal(hands_free::on_unsolicited);
    lemma_no_commands();
    assert(p[0].number() == Some(place) && p[1].number() == Some(value));
    let r = hands_free::on_unsolicited(m, AtResponseModel { code: "+CIEV"@, parameters: p });
    assert(r.1.events =~= seq![] || r.1.events =~= seq![r.1.events[0]]);
}

/// A codec that the Audio Gateway offers is accepted at once, kept, and told,
/// and audio is on its way. A number that is no codec is ignored.
#[verifier::rlimit(50)]
pub proof fn law_offered_codec_is_accepted(m: HfModel, n: u8)
    requires
        listens(m),
    ensures
        ({
            let codec = if n == 1 {
                AudioCodec::Cvsd
            } else if n == 2 {
                AudioCodec::Msbc
            } else {
                AudioCodec::Lc3Swb
            };
            let known = 1 <= n <= 3;
            leads_to(
                m,
                "+BCS: "@ + text::decimal(n as nat),
                if known {
                    HfModel {
                        active_codec: codec,
                        audio_state: AudioConnectionState::Connecting,
                        ..m
                    }
                } else {
                    m
                },
                if known {
                    seq!["AT+BCS="@ + text::decimal(n as nat)]
                } else {
                    seq![]
                },
                if !known {
                    seq![]
                } else if m.audio_state == AudioConnectionState::Connecting {
                    seq![EventModel::CodecNegotiated(codec)]
                } else {
                    seq![
                        EventModel::CodecNegotiated(codec),
                        EventModel::AudioConnectionState(AudioConnectionState::Connecting),
                    ]
                },
            )
        }),
{
    let numbers = seq![n as u32];
    let p = at::laws::meaning_all(exchange::number_items(numbers));
    exchange_laws::lemma_report_codes();
    exchange::lemma_one_number(n as u32);
    lemma_report(m, "+BCS"@, "+BCS: "@, numbers);
    reveal(hands_free::on_unsolicited);
    lemma_no_commands();
    lemma_one_command("AT+BCS="@ + text::decimal(n as nat));
    assert(p[0].number() == Some(n as u32));
    let r = hands_free::on_unsolicited(m, AtResponseModel { code: "+BCS"@, parameters: p });
    if 1 <= n <= 3 {
        assert(r.1.outgoing =~= Seq::<Seq<u8>>::empty().push(
            utf8::encode_utf8("AT+BCS="@ + text::decimal(n as nat)).push(13u8),
        ));
        if m.audio_state == AudioConnectionState::Connecting {
            assert(r.1.events =~= seq![r.1.events[0]]);
        } else {
            assert(r.1.events =~= seq![r.1.events[0], r.1.events[1]]);
        }
    } else {
        assert(r.1.events =~= seq![]);
    }
}

/// A change of the audio state is told once, and sends nothing; no change is not
/// told.
#[verifier::rlimit(50)]
pub proof fn law_audio_changes_are_told(before: AudioConnectionState, after: AudioConnectionState)
    ensures
        hands_free::audio_change(before, after).outgoing == Seq::<Seq<u8>>::empty(),
        hands_free::audio_change(before, after).events == if before == after {
            Seq::<EventModel>::empty()
        } else {
            seq![EventModel::AudioConnectionState(after)]
        },
{
    assert(before != after ==> hands_free::audio_change(before, after).events =~= seq![
        EventModel::AudioConnectionState(after),
    ]);
}

/// A command that waits ends with the status of the Audio Gateway: it is told
/// with its responses, as done only where the status is `OK`, and nothing waits
/// any more.
#[verifier::rlimit(50)]
pub proof fn law_command_ends(m: HfModel, ok: bool)
    requires
        m.read_buffer.len() == 0,
        m.pending_command is Some,
        m.slc_step is None,
    ensures
        leads_to(
            m,
            if ok {
                "OK"@
            } else {
                "ERROR"@
            },
            HfModel { pending_command: None, pending_responses: seq![], ..m },
            seq![],
            seq![
                EventModel::CommandCompleted {
                    command: m.pending_command->0,
                    ok,
                    responses: m.pending_responses,
                },
            ],
        ),
{
    let line = if ok {
        "OK"@
    } else {
        "ERROR"@
    };
    reveal_strlit("OK");
    reveal_strlit("ERROR");
    assert("OK"@.len() == 2 && "ERROR"@.len() == 5);
    assert(laws::fits_line(line));
    assert(exchange_laws::colon_free(line));
    crate::classic::hfp::reading::lemma_bare_response_read(line);
    crate::classic::hfp::reading::lemma_encode_len(line);
    laws::law_response_arrives(m, line);
    lemma_no_commands();
    let r = hands_free::on_bytes(
        m,
        seq![13u8, 10u8] + utf8::encode_utf8(line) + seq![13u8, 10u8],
    );
    assert(r.1.events =~= seq![r.1.events[0]]);
}

// ---------------------------------------------------------------------------
// Call-hold operations
// ---------------------------------------------------------------------------

/// The codes of the call-hold operations, with the index of a call behind the
/// digit of those that are about one call.
#[verifier::rlimit(50)]
pub proof fn law_hold_codes(index: u32)
    ensures
        hands_free::hold_code(CallHoldOperation::ReleaseAllHeldCalls, None) == "0"@,
        hands_free::hold_code(CallHoldOperation::ReleaseAllActiveCalls, None) == "1"@,
        hands_free::hold_code(CallHoldOperation::HoldAllActiveCalls, None) == "2"@,
        hands_free::hold_code(CallHoldOperation::AddHeldCall, None) == "3"@,
        hands_free::hold_code(CallHoldOperation::ConnectTwoCalls, None) == "4"@,
        hands_free::hold_code(CallHoldOperation::ReleaseSpecificCall, Some(index)) == seq!['1']
            + text::decimal(index as nat),
        hands_free::hold_code(CallHoldOperation::HoldAllCallsExcept, Some(index)) == seq!['2']
            + text::decimal(index as nat),
{
    reveal_strlit("1x");
    reveal_strlit("2x");
    assert("1x"@.take(1) =~= seq!['1']);
    assert("2x"@.take(1) =~= seq!['2']);
}

/// An operation that the Audio Gateway cannot do is refused with error 4, and
/// one about a call that does not exist with error 21. Nothing is told then.
#[verifier::rlimit(50)]
pub proof fn law_hold_request_is_refused(
    m: AgModel,
    operation: CallHoldOperation,
    call_index: Option<u32>,
)
    requires
        m.read_buffer.len() == 0,
        call_index is Some <==> (operation == CallHoldOperation::ReleaseSpecificCall || operation
            == CallHoldOperation::HoldAllCallsExcept),
        !m.supported_ag_call_hold_operations.contains(operation) || (call_index is Some && forall|
            i: int,
        |
            0 <= i < m.calls.len() ==> (#[trigger] m.calls[i]).index != call_index->0),
    ensures
        crate::classic::hfp::command_laws::leads_to(
            m,
            "AT+CHLD="@ + hands_free::hold_code(operation, call_index),
            m,
            seq![
                crate::classic::hfp::command_laws::failure(
                    m,
                    if m.supported_ag_call_hold_operations.contains(operation) {
                        21
                    } else {
                        4
                    },
                ),
            ],
            seq![],
        ),
{
    exchange_laws::lemma_hold_command(m, operation, call_index);
    let code = hands_free::hold_code(operation, call_index);
    let line = "AT+CHLD="@ + code;
    let number: nat = if m.supported_ag_call_hold_operations.contains(operation) {
        21
    } else {
        4
    };
    assert(utf8::encode_utf8(line) + seq![13u8] =~= utf8::encode_utf8(line).push(13));
    crate::classic::hfp::command_laws::lemma_one_answer(
        crate::classic::hfp::command_laws::failure(m, number),
    );
}

// ---------------------------------------------------------------------------
// Numbers
// ---------------------------------------------------------------------------

/// The numbers that stand for the values of calls, errors, codecs, indicators
/// and voice recognition on the wire.
#[verifier::rlimit(50)]
pub proof fn law_wire_numbers()
    ensures
        CallInfoDirection::MobileOriginated.number() == 0,
        CallInfoDirection::MobileTerminated.number() == 1,
        CallInfoStatus::Active.number() == 0,
        CallInfoStatus::Held.number() == 1,
        CallInfoStatus::Dialing.number() == 2,
        CallInfoStatus::Alerting.number() == 3,
        CallInfoStatus::Incoming.number() == 4,
        CallInfoStatus::Waiting.number() == 5,
        CallInfoMode::Voice.number() == 0,
        CallInfoMode::Data.number() == 1,
        CallInfoMode::Fax.number() == 2,
        CallInfoMode::Unknown.number() == 9,
        CallInfoMultiParty::NotInConference.number() == 0,
        CallInfoMultiParty::InConference.number() == 1,
        CmeError::PhoneFailure.number() == 0,
        CmeError::OperationNotAllowed.number() == 3,
        CmeError::OperationNotSupported.number() == 4,
        CmeError::MemoryFull.number() == 20,
        CmeError::InvalidIndex.number() == 21,
        CmeError::NotFound.number() == 22,
        AudioCodec::Cvsd.number() == 1,
        AudioCodec::Msbc.number() == 2,
        AudioCodec::Lc3Swb.number() == 3,
        HfIndicator::EnhancedSafety.number() == 1,
        HfIndicator::BatteryLevel.number() == 2,
        VoiceRecognitionState::Disable.number() == 0,
        VoiceRecognitionState::Enable.number() == 1,
        VoiceRecognitionState::EnhancedReady.number() == 2,
{
}

/// The names that stand for the indicators of the Audio Gateway on the wire.
#[verifier::rlimit(50)]
pub proof fn law_indicator_names()
    ensures
        AgIndicator::Service.wire_text() == "service"@,
        AgIndicator::Call.wire_text() == "call"@,
        AgIndicator::CallSetup.wire_text() == "callsetup"@,
        AgIndicator::CallHeld.wire_text() == "callheld"@,
        AgIndicator::Signal.wire_text() == "signal"@,
        AgIndicator::Roam.wire_text() == "roam"@,
        AgIndicator::BatteryCharge.wire_text() == "battchg"@,
{
}

/// The indicator that an update is for is the first with its name, and there is
/// none only where no indicator has it.
#[verifier::rlimit(50)]
pub proof fn law_updated_indicator(states: Seq<AgIndicatorModel>, indicator: AgIndicator, i: int)
    requires
        0 <= i < states.len(),
    ensures
        ({
            let at = gateway::indicator_position(states, indicator);
            &&& 0 <= at <= states.len()
            &&& at < states.len() ==> states[at].indicator == indicator
            &&& i < at ==> states[i].indicator != indicator
        }),
    decreases states.len(),
{
    if states[0].indicator != indicator {
        let rest = states.skip(1);
        if rest.len() > 0 {
            law_updated_indicator(rest, indicator, if i > 0 { i - 1 } else { 0 });
        }
    }
}

/// A new gateway and a new Hands-Free: no audio, CVSD, no calls, nothing
/// enabled but ring tones in band.
#[verifier::rlimit(50)]
pub proof fn law_new_sides(
    ag: crate::classic::hfp::event::AgConfiguration,
    hf: crate::classic::hfp::event::HfConfiguration,
)
    ensures
        ({
            let g = gateway::initial(ag);
            let h = hands_free::initial(hf);
            &&& g.audio_state == AudioConnectionState::Disconnected
            &&& h.audio_state == AudioConnectionState::Disconnected
            &&& g.active_codec == AudioCodec::Cvsd
            &&& h.active_codec == AudioCodec::Cvsd
            &&& g.calls.len() == 0
            &&& !g.indicator_report_enabled
            &&& !g.cme_error_enabled
            &&& !g.cli_notification_enabled
            &&& !g.call_waiting_enabled
            &&& !g.cops_format_selected
            &&& g.inband_ringtone_enabled
            &&& g.supported_hf_features == 0
            &&& h.supported_ag_features == 0
            &&& g.supported_ag_features == ag.supported_ag_features
            &&& h.supported_hf_features == hf.supported_hf_features
            &&& !h.slc_initialized
            &&& listens(h)
            &&& g.read_buffer.len() == 0
            &&& forall|i: HfIndicator|
                h.hf_indicators.at(i) == if hf.supported_hf_indicators@.contains(i) {
                    Some(
                        HfIndicatorState {
                            indicator: i,
                            supported: false,
                            enabled: false,
                            current_status: 0,
                        },
                    )
                } else {
                    None
                }
        }),
{
}

/// A dialled number is told without the semicolons behind it, however many there
/// are.
pub proof fn law_semicolons_are_no_part_of_a_number(number: Seq<char>, count: nat)
    requires
        number.len() > 0 ==> number.last() != ';',
    ensures
        gateway::without_semicolons(number + Seq::new(count, |i: int| ';')) == number,
    decreases count,
{
    let tail = Seq::new(count, |i: int| ';');
    let all = number + tail;
    if count == 0 {
        assert(all =~= number);
    } else {
        let less = Seq::new((count - 1) as nat, |i: int| ';');
        assert(all.last() == ';');
        assert(all.drop_last() =~= number + less);
        law_semicolons_are_no_part_of_a_number(number, (count - 1) as nat);
    }
}

/// The responses that end a command.
pub proof fn law_final_responses()
    ensures
        hands_free::is_status("OK"@),
        hands_free::is_status("ERROR"@),
        hands_free::is_status("+CME ERROR"@),
        hands_free::is_status("BUSY"@),
        hands_free::is_status("NO ANSWER"@),
        hands_free::is_status("NO CARRIER"@),
        hands_free::is_status("DELAYED"@),
        hands_free::is_status("BLACKLISTED"@),
        !hands_free::is_status("RING"@),
        !hands_free::is_status("+CLIP"@),
        !hands_free::is_status("+CIEV"@),
{
    reveal_strlit("OK");
    reveal_strlit("ERROR");
    reveal_strlit("+CME ERROR");
    reveal_strlit("BUSY");
    reveal_strlit("NO ANSWER");
    reveal_strlit("NO CARRIER");
    reveal_strlit("DELAYED");
    reveal_strlit("BLACKLISTED");
    reveal_strlit("RING");
    reveal_strlit("+CLIP");
    reveal_strlit("+CIEV");
    assert("RING"@.len() == 4 && "RING"@[0] == 'R' && "BUSY"@[0] == 'B');
    assert("+CLIP"@.len() == 5 && "+CLIP"@[0] == '+' && "ERROR"@[0] == 'E');
    assert("+CIEV"@.len() == 5 && "+CIEV"@[0] == '+');
    assert("OK"@.len() == 2 && "+CME ERROR"@.len() == 10 && "NO ANSWER"@.len() == 9);
    assert("NO CARRIER"@.len() == 10 && "DELAYED"@.len() == 7 && "BLACKLISTED"@.len() == 11);
    assert("BUSY"@.len() == 4 && "ERROR"@.len() == 5);
}

/// A caller is identified by the number in double quotes and its kind, and then
/// by subaddress, its kind, name and validity, as far as they are known.
pub proof fn law_caller_fields(c: CallerModel)
    ensures
        ({
            let fields = call::caller_fields(c);
            &&& fields.len() >= 2
            &&& fields[0] == text::quoted(c.number)
            &&& fields[1] == text::decimal(c.kind as nat)
            &&& c.subaddr is Some ==> fields.len() > 2 && fields[2] == text::quoted(c.subaddr->0)
            &&& c.satype is Some ==> fields.len() > 3 && fields[3] == text::decimal(
                c.satype->0 as nat,
            )
            &&& c.alpha is Some ==> fields.len() > 4 && fields[4] == text::quoted(c.alpha->0)
            &&& c.cli_validity is Some ==> fields.len() > 5 && fields[5] == text::decimal(
                c.cli_validity->0 as nat,
            )
            &&& fields.len() == 2 ==> c.subaddr is None && c.satype is None && c.alpha is None
                && c.cli_validity is None
        }),
{
}

/// Only CVSD is coded by the controller and can go without an enhanced link; the
/// codecs and the audio states have names to be shown.
pub proof fn law_shown_names(codec: AudioCodec)
    ensures
        codec.needs_esco() <==> codec == AudioCodec::Msbc || codec == AudioCodec::Lc3Swb,
        AudioCodec::Cvsd.printable() == "CVSD"@,
        AudioCodec::Msbc.printable() == "mSBC"@,
        AudioCodec::Lc3Swb.printable() == "LC3-SWB"@,
        AudioConnectionState::Disconnected.printable() == "disconnected"@,
        AudioConnectionState::Negotiating.printable() == "negotiating"@,
        AudioConnectionState::Connecting.printable() == "connecting"@,
        AudioConnectionState::Connected.printable() == "connected"@,
{
}

/// An indicator that nothing was reported of is zero, and its reports are on.
pub proof fn law_fresh_indicator(which: AgIndicator, values: Set<u32>)
    ensures
        indicator::fresh(which, values) == (AgIndicatorModel {
            indicator: which,
            supported_values: values,
            current_status: 0,
            enabled: true,
        }),
{
}

/// The voice recognition that the Audio Gateway reports is told: off, on or
/// ready for more audio. Another number is ignored.
#[verifier::rlimit(50)]
pub proof fn law_voice_recognition_is_told(m: HfModel, n: u32)
    requires
        listens(m),
    ensures
        leads_to(
            m,
            "+BVRA: "@ + text::decimal(n as nat),
            m,
            seq![],
            if n == 0 {
                seq![EventModel::VoiceRecognition(VoiceRecognitionState::Disable)]
            } else if n == 1 {
                seq![EventModel::VoiceRecognition(VoiceRecognitionState::Enable)]
            } else if n == 2 {
                seq![EventModel::VoiceRecognition(VoiceRecognitionState::EnhancedReady)]
            } else {
                seq![]
            },
        ),
{
    let numbers = seq![n];
    let p = at::laws::meaning_all(exchange::number_items(numbers));
    reveal_strlit("+BVRA");
    reveal_strlit("+BVRA: ");
    reveal_strlit(": ");
    reveal_strlit("+BCS");
    reveal_strlit("+CIEV");
    reveal_strlit("+VGS");
    reveal_strlit("+VGM");
    reveal_strlit("RING");
    reveal_strlit("+CLIP");
    assert("+BVRA"@.len() == 5 && "+BVRA"@[1] == 'B');
    assert("+CIEV"@[1] == 'C' && "+CLIP"@[1] == 'C');
    assert("+BCS"@.len() == 4 && "+VGS"@.len() == 4 && "+VGM"@.len() == 4 && "RING"@.len() == 4);
    exchange::lemma_one_number(n);
    lemma_report(m, "+BVRA"@, "+BVRA: "@, numbers);
    reveal(hands_free::on_unsolicited);
    lemma_no_commands();
    assert(p[0].number() == Some(n));
    let r = hands_free::on_unsolicited(m, AtResponseModel { code: "+BVRA"@, parameters: p });
    assert(n > 2 ==> r.1.events =~= seq![]);
    assert(n <= 2 ==> r.1.events =~= seq![r.1.events[0]]);
}

} // verus!
