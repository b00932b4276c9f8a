//! What each command of the Hands-Free does at the Audio Gateway: what is
//! answered, what is told, and what is kept.

use vstd::prelude::*;
use vstd::utf8;
use crate::classic::at;
use crate::classic::at::{AtCommandModel, AtParameterModel, AtSubCode};
use crate::classic::hfp::call;
use crate::classic::hfp::call::CallInfoModel;
use crate::classic::hfp::event::EventModel;
use crate::classic::hfp::exchange;
use crate::classic::hfp::gateway;
use crate::classic::hfp::gateway::AgModel;
use crate::classic::hfp::indicator::{AgIndicatorModel, HfIndicatorState};
use crate::classic::hfp::laws;
use crate::classic::hfp::reading;
use crate::classic::hfp::values::{
    AudioCodec,
    AudioConnectionState,
    CallHoldOperation,
    HfIndicator,
    VoiceRecognitionState,
};
use crate::text;

verus! {

// ---------------------------------------------------------------------------
// Answers
// ---------------------------------------------------------------------------

/// Whether a command line makes an Audio Gateway come to a state, answer with
/// responses, each between two line ends, and tell events.
pub open spec fn leads_to(
    m: AgModel,
    command: Seq<char>,
    after: AgModel,
    responses: Seq<Seq<char>>,
    events: Seq<EventModel>,
) -> bool {
    let r = gateway::on_bytes(m, utf8::encode_utf8(command) + seq![13u8]);
    &&& r.0 == after
    &&& r.1.outgoing == Seq::new(
        responses.len(),
        |i: int| seq![13u8, 10u8] + utf8::encode_utf8(responses[i]) + seq![13u8, 10u8],
    )
    &&& r.1.events == events
}

/// The response that reports an error with a number, where numbers are
/// enabled.
pub open spec fn failure(m: AgModel, number: nat) -> Seq<char> {
    if m.cme_error_enabled {
        "+CME ERROR: "@ + text::decimal(number)
    } else {
        "ERROR"@
    }
}

/// The parameters that numbers are read as.
spec fn read_as(numbers: Seq<u32>) -> Seq<AtParameterModel> {
    at::laws::meaning_all(exchange::number_items(numbers))
}

/// A command with numbers is taken for what it says.
proof fn lemma_write(m: AgModel, code: Seq<char>, prefix: Seq<char>, numbers: Seq<u32>)
    requires
        m.read_buffer.len() == 0,
        reading::is_mnemonic(code),
        laws::fits_line(code),
        prefix =~= "AT+"@ + code + "="@,
        numbers.len() > 0,
    ensures
        ({
            let c = AtCommandModel {
                code,
                sub_code: AtSubCode::Write,
                parameters: read_as(numbers),
            };
            let line = prefix + text::joined(exchange::number_parts(numbers));
            &&& gateway::on_bytes(m, utf8::encode_utf8(line) + seq![13u8]) == gateway::on_command(
                m,
                c,
            )
            &&& exchange::are_numbers(c.parameters, numbers)
        }),
{
    let line = prefix + text::joined(exchange::number_parts(numbers));
    exchange::lemma_number_command(code, numbers);
    laws::law_command_arrives(m, line);
    assert(utf8::encode_utf8(line) + seq![13u8] =~= utf8::encode_utf8(line).push(13));
}

/// A command without parameters is taken for what it says.
proof fn lemma_bare(m: AgModel, code: Seq<char>, line: Seq<char>, sub_code: AtSubCode)
    requires
        m.read_buffer.len() == 0,
        reading::is_mnemonic(code),
        laws::fits_line(code),
        sub_code == AtSubCode::Plain && line =~= "AT+"@ + code || sub_code == AtSubCode::Read
            && line =~= "AT+"@ + code + "?"@ || sub_code == AtSubCode::Test && line =~= "AT+"@
            + code + "=?"@,
    ensures
        gateway::on_bytes(m, utf8::encode_utf8(line) + seq![13u8]) == gateway::on_command(
            m,
            AtCommandModel { code, sub_code, parameters: seq![] },
        ),
{
    reveal_strlit("?");
    reveal_strlit("=?");
    reveal_strlit("AT+");
    let none: Seq<char> = seq![];
    assert(laws::fits_line("?"@) && laws::fits_line("=?"@) && laws::fits_line(none));
    exchange::lemma_fits_command(code, none);
    exchange::lemma_fits_command(code, "?"@);
    exchange::lemma_fits_command(code, "=?"@);
    assert("AT+"@ + code + none =~= "AT+"@ + code);
    reading::lemma_plain_read(code);
    reading::lemma_read_read(code);
    reading::lemma_test_read(code);
    reading::lemma_encode_len(line);
    laws::law_command_arrives(m, line);
    assert(utf8::encode_utf8(line) + seq![13u8] =~= utf8::encode_utf8(line).push(13));
}

/// An answer of one response.
pub proof fn lemma_one_answer(response: Seq<char>)
    ensures
        Seq::new(
            seq![response].len(),
            |i: int|
                seq![13u8, 10u8] + utf8::encode_utf8(seq![response][i]) + seq![13u8, 10u8],
        ) =~= Seq::<Seq<u8>>::empty().push(
            seq![13u8, 10u8] + utf8::encode_utf8(response) + seq![13u8, 10u8],
        ),
{
}

/// An answer of two responses.
proof fn lemma_two_answers(first: Seq<char>, second: Seq<char>)
    ensures
        Seq::new(
            seq![first, second].len(),
            |i: int|
                seq![13u8, 10u8] + utf8::encode_utf8(seq![first, second][i]) + seq![13u8, 10u8],
        ) =~= Seq::<Seq<u8>>::empty().push(
            seq![13u8, 10u8] + utf8::encode_utf8(first) + seq![13u8, 10u8],
        ).push(seq![13u8, 10u8] + utf8::encode_utf8(second) + seq![13u8, 10u8]),
{
}

// ---------------------------------------------------------------------------
// Volumes
// ---------------------------------------------------------------------------

/// A speaker volume that the Hands-Free reports is accepted and told as a
/// speaker volume of that level, and nothing else happens.
#[verifier::rlimit(50)]
pub proof fn law_speaker_volume_is_told(m: AgModel, level: u8)
    requires
        m.read_buffer.len() == 0,
    ensures
        leads_to(
            m,
            "AT+VGS="@ + text::decimal(level as nat),
            m,
            seq!["OK"@],
            seq![EventModel::SpeakerVolume(level)],
        ),
{
    let numbers = seq![level as u32];
    reveal_strlit("AT+");
    reveal_strlit("=");
    reveal_strlit("VGS");
    reveal_strlit("AT+VGS=");
    exchange::lemma_mnemonics();
    exchange::lemma_one_number(level as u32);
    lemma_write(m, "VGS"@, "AT+VGS="@, numbers);
    exchange::lemma_dispatch(
        m,
        AtCommandModel { code: "VGS"@, sub_code: AtSubCode::Write, parameters: read_as(numbers) },
    );
    reveal(gateway::on_vgs);
    lemma_one_answer("OK"@);
    assert(gateway::on_vgs(m, read_as(numbers)).1.events =~= seq![
        EventModel::SpeakerVolume(level),
    ]);
}

/// A microphone volume that the Hands-Free reports is accepted and told as a
/// microphone volume of that level, and nothing else happens.
#[verifier::rlimit(50)]
pub proof fn law_microphone_volume_is_told(m: AgModel, level: u8)
    requires
        m.read_buffer.len() == 0,
    ensures
        leads_to(
            m,
            "AT+VGM="@ + text::decimal(level as nat),
            m,
            seq!["OK"@],
            seq![EventModel::MicrophoneVolume(level)],
        ),
{
    let numbers = seq![level as u32];
    reveal_strlit("AT+");
    reveal_strlit("=");
    reveal_strlit("VGM");
    reveal_strlit("AT+VGM=");
    exchange::lemma_mnemonics();
    exchange::lemma_one_number(level as u32);
    lemma_write(m, "VGM"@, "AT+VGM="@, numbers);
    exchange::lemma_dispatch(
        m,
        AtCommandModel { code: "VGM"@, sub_code: AtSubCode::Write, parameters: read_as(numbers) },
    );
    reveal(gateway::on_vgm);
    lemma_one_answer("OK"@);
    assert(gateway::on_vgm(m, read_as(numbers)).1.events =~= seq![
        EventModel::MicrophoneVolume(level),
    ]);
}

// ---------------------------------------------------------------------------
// Switches
// ---------------------------------------------------------------------------

/// Errors are reported with numbers from a non-zero setting on, and without
/// from a zero.
#[verifier::rlimit(50)]
pub proof fn law_error_numbers_are_switched(m: AgModel, n: u32)
    requires
        m.read_buffer.len() == 0,
    ensures
        leads_to(
            m,
            "AT+CMEE="@ + text::decimal(n as nat),
            AgModel { cme_error_enabled: n != 0, ..m },
            seq!["OK"@],
            seq![],
        ),
{
    let numbers: Seq<u32> = seq![n];
    reveal_strlit("AT+");
    reveal_strlit("=");
    reveal_strlit("CMEE");
    reveal_strlit("AT+CMEE=");
    exchange::lemma_mnemonics();
    exchange::lemma_one_number(n);
    lemma_write(m, "CMEE"@, "AT+CMEE="@, numbers);
    let c = AtCommandModel {
        code: "CMEE"@,
        sub_code: AtSubCode::Write,
        parameters: read_as(numbers),
    };
    exchange::lemma_dispatch(m, c);
    reveal(gateway::on_cmee);
    lemma_one_answer("OK"@);
}

/// Waiting calls are reported from a non-zero setting on, and not from a zero.
#[verifier::rlimit(50)]
pub proof fn law_waiting_reports_are_switched(m: AgModel, n: u32)
    requires
        m.read_buffer.len() == 0,
    ensures
        leads_to(
            m,
            "AT+CCWA="@ + text::decimal(n as nat),
            AgModel { call_waiting_enabled: n != 0, ..m },
            seq!["OK"@],
            seq![],
        ),
{
    let numbers: Seq<u32> = seq![n];
    reveal_strlit("AT+");
    reveal_strlit("=");
    reveal_strlit("CCWA");
    reveal_strlit("AT+CCWA=");
    exchange::lemma_mnemonics();
    exchange::lemma_one_number(n);
    lemma_write(m, "CCWA"@, "AT+CCWA="@, numbers);
    let c = AtCommandModel {
        code: "CCWA"@,
        sub_code: AtSubCode::Write,
        parameters: read_as(numbers),
    };
    exchange::lemma_dispatch(m, c);
    reveal(gateway::on_ccwa);
    lemma_one_answer("OK"@);
}

/// A number is written `1` only if it is one.
proof fn lemma_one_is_one(n: u32)
    ensures
        text::decimal(n as nat) == "1"@ <==> n == 1,
{
    reveal_strlit("1");
    assert(text::decimal(1) =~= seq![text::digit_char(1)]);
    assert(text::digit_char(1) == '1');
    assert(text::decimal(1) =~= "1"@);
    exchange::lemma_numbers(seq![n]);
    exchange::lemma_numbers(seq![1u32]);
    assert(read_as(seq![n])[0] == AtParameterModel::Value(
        utf8::encode_utf8(text::decimal(n as nat)),
    ));
    assert(read_as(seq![1u32])[0] == AtParameterModel::Value(
        utf8::encode_utf8(text::decimal(1)),
    ));
    if text::decimal(n as nat) == "1"@ {
        assert(read_as(seq![n])[0] == read_as(seq![1u32])[0]);
        assert(read_as(seq![n])[0].number() == Some(n));
    }
}

/// Callers are identified after a setting of one, and after no other.
#[verifier::rlimit(50)]
pub proof fn law_caller_identification_is_switched(m: AgModel, n: u32)
    requires
        m.read_buffer.len() == 0,
    ensures
        leads_to(
            m,
            "AT+CLIP="@ + text::decimal(n as nat),
            AgModel { cli_notification_enabled: n == 1, ..m },
            seq!["OK"@],
            seq![],
        ),
{
    let numbers: Seq<u32> = seq![n];
    reveal_strlit("AT+");
    reveal_strlit("=");
    reveal_strlit("CLIP");
    reveal_strlit("AT+CLIP=");
    exchange::lemma_mnemonics();
    exchange::lemma_one_number(n);
    lemma_write(m, "CLIP"@, "AT+CLIP="@, numbers);
    let c = AtCommandModel {
        code: "CLIP"@,
        sub_code: AtSubCode::Write,
        parameters: read_as(numbers),
    };
    exchange::lemma_dispatch(m, c);
    reveal(gateway::on_clip);
    lemma_one_answer("OK"@);
    lemma_one_is_one(n);
    text::lemma_text_round_trip(text::decimal(n as nat));
    assert(c.parameters[0] == AtParameterModel::Value(
        utf8::encode_utf8(text::decimal(n as nat)),
    ));
}

/// Four numbers joined have commas between them.
proof fn lemma_four_numbers(a: u32, b: u32, c: u32, d: u32)
    ensures
        text::joined(exchange::number_parts(seq![a, b, c, d])) == text::decimal(a as nat) + ","@
            + text::decimal(b as nat) + ","@ + text::decimal(c as nat) + ","@ + text::decimal(
            d as nat,
        ),
{
    exchange::lemma_two_numbers(a, b);
    let three = exchange::number_parts(seq![a, b, c]);
    let four = exchange::number_parts(seq![a, b, c, d]);
    assert(three.drop_last() =~= exchange::number_parts(seq![a, b]));
    assert(four.drop_last() =~= three);
    assert(three.last() == text::decimal(c as nat));
    assert(four.last() == text::decimal(d as nat));
    assert(three.len() == 3 && four.len() == 4);
    assert(text::joined(three) == text::joined(three.drop_last()) + ","@ + three.last());
    assert(text::joined(four) == text::joined(four.drop_last()) + ","@ + four.last());
}

/// Reports of indicators are switched by the last of four numbers. Where the
/// first is not three, or one of the next two is not zero, or the last is more
/// than one, an error comes before the `OK`.
#[verifier::rlimit(50)]
pub proof fn law_indicator_reports_are_switched(m: AgModel, a: u32, b: u32, c: u32, d: u32)
    requires
        m.read_buffer.len() == 0,
    ensures
        leads_to(
            m,
            "AT+CMER="@ + (text::decimal(a as nat) + ","@ + text::decimal(b as nat) + ","@
                + text::decimal(c as nat) + ","@ + text::decimal(d as nat)),
            AgModel { indicator_report_enabled: d != 0, ..m },
            if a == 3 && b == 0 && c == 0 && d <= 1 {
                seq!["OK"@]
            } else {
                seq![failure(m, 21), "OK"@]
            },
            seq![],
        ),
{
    let numbers: Seq<u32> = seq![a, b, c, d];
    reveal_strlit("AT+");
    reveal_strlit("=");
    reveal_strlit("CMER");
    reveal_strlit("AT+CMER=");
    exchange::lemma_mnemonics();
    lemma_four_numbers(a, b, c, d);
    lemma_write(m, "CMER"@, "AT+CMER="@, numbers);
    let p = read_as(numbers);
    assert(p[0].number() == Some(a) && p[1].number() == Some(b) && p[2].number() == Some(c)
        && p[3].number() == Some(d));
    exchange::lemma_dispatch(
        m,
        AtCommandModel { code: "CMER"@, sub_code: AtSubCode::Write, parameters: p },
    );
    reveal(gateway::on_cmer);
    lemma_one_answer("OK"@);
    lemma_two_answers(failure(m, 21), "OK"@);
}

/// Each number of a list switches the reports of the indicator at its
/// position: on where it is not zero, off where it is. Indicators beyond the
/// list, and all values, stay as they are.
#[verifier::rlimit(50)]
pub proof fn law_reported_indicators_are_chosen(m: AgModel, numbers: Seq<u32>)
    requires
        m.read_buffer.len() == 0,
        numbers.len() > 0,
    ensures
        leads_to(
            m,
            "AT+BIA="@ + text::joined(exchange::number_parts(numbers)),
            AgModel {
                ag_indicators: Seq::new(
                    m.ag_indicators.len(),
                    |i: int|
                        AgIndicatorModel {
                            enabled: if i < numbers.len() {
                                numbers[i] != 0
                            } else {
                                m.ag_indicators[i].enabled
                            },
                            ..m.ag_indicators[i]
                        },
                ),
                ..m
            },
            seq!["OK"@],
            seq![],
        ),
{
    reveal_strlit("AT+");
    reveal_strlit("=");
    reveal_strlit("BIA");
    reveal_strlit("AT+BIA=");
    exchange::lemma_mnemonics();
    lemma_write(m, "BIA"@, "AT+BIA="@, numbers);
    let p = read_as(numbers);
    exchange::lemma_dispatch(
        m,
        AtCommandModel { code: "BIA"@, sub_code: AtSubCode::Write, parameters: p },
    );
    reveal(gateway::on_bia);
    lemma_one_answer("OK"@);
    let all = gateway::with_reports(m.ag_indicators, p);
    assert forall|i: int| 0 <= i < all.len() implies #[trigger] all[i] == (AgIndicatorModel {
        enabled: if i < numbers.len() {
            numbers[i] != 0
        } else {
            m.ag_indicators[i].enabled
        },
        ..m.ag_indicators[i]
    }) by {
        if i < numbers.len() {
            assert(p[i].number() == Some(numbers[i]));
        }
    }
    assert(all =~= Seq::new(
        m.ag_indicators.len(),
        |i: int|
            AgIndicatorModel {
                enabled: if i < numbers.len() {
                    numbers[i] != 0
                } else {
                    m.ag_indicators[i].enabled
                },
                ..m.ag_indicators[i]
            },
    ));
}

// ---------------------------------------------------------------------------
// Features
// ---------------------------------------------------------------------------

/// The features that the Hands-Free sends are kept, and those of the Audio
/// Gateway are answered. The set-up then waits for the indicators of the
/// Hands-Free and for the call-hold operations, each only where both sides
/// have the feature for it.
#[verifier::rlimit(50)]
pub proof fn law_features_are_exchanged(m: AgModel, n: u32)
    requires
        m.read_buffer.len() == 0,
    ensures
        ({
            let indicators = if n & 0x100 != 0 && m.supported_ag_features & 0x400 != 0 {
                set![0x100u32]
            } else {
                set![]
            };
            let holding = if n & 0x002 != 0 && m.supported_ag_features & 0x001 != 0 {
                set![0x002u32]
            } else {
                set![]
            };
            leads_to(
                m,
                "AT+BRSF="@ + text::decimal(n as nat),
                AgModel {
                    supported_hf_features: n,
                    remaining_slc_setup_features: m.remaining_slc_setup_features + indicators
                        + holding,
                    ..m
                },
                seq!["+BRSF: "@ + text::decimal(m.supported_ag_features as nat), "OK"@],
                seq![],
            )
        }),
{
    let numbers: Seq<u32> = seq![n];
    reveal_strlit("AT+");
    reveal_strlit("=");
    reveal_strlit("BRSF");
    reveal_strlit("AT+BRSF=");
    exchange::lemma_mnemonics();
    exchange::lemma_one_number(n);
    lemma_write(m, "BRSF"@, "AT+BRSF="@, numbers);
    let p = read_as(numbers);
    assert(p[0].number() == Some(n));
    exchange::lemma_dispatch(
        m,
        AtCommandModel { code: "BRSF"@, sub_code: AtSubCode::Write, parameters: p },
    );
    reveal(gateway::on_brsf);
    lemma_two_answers("+BRSF: "@ + text::decimal(m.supported_ag_features as nat), "OK"@);
    let indicators = if n & 0x100 != 0 && m.supported_ag_features & 0x400 != 0 {
        set![0x100u32]
    } else {
        set![]
    };
    let holding = if n & 0x002 != 0 && m.supported_ag_features & 0x001 != 0 {
        set![0x002u32]
    } else {
        set![]
    };
    assert(gateway::on_brsf(m, p).0.remaining_slc_setup_features
        =~= m.remaining_slc_setup_features + indicators + holding);
}

// ---------------------------------------------------------------------------
// Codecs
// ---------------------------------------------------------------------------

/// The codec with a number on the wire: CVSD, mSBC and LC3-SWB are one, two
/// and three.
pub open spec fn codec_with(number: u32) -> AudioCodec {
    if number == 1 {
        AudioCodec::Cvsd
    } else if number == 2 {
        AudioCodec::Msbc
    } else {
        AudioCodec::Lc3Swb
    }
}

/// Codecs are read in the order of their numbers.
proof fn lemma_codecs_in(p: Seq<AtParameterModel>, numbers: Seq<u32>)
    requires
        exchange::are_numbers(p, numbers),
        forall|i: int| 0 <= i < numbers.len() ==> 1 <= #[trigger] numbers[i] <= 3,
    ensures
        gateway::codecs_in(p) =~= numbers.map_values(|n: u32| codec_with(n)),
    decreases p.len(),
{
    if p.len() > 0 {
        let n = numbers.last();
        assert(p.last().number() == Some(n));
        assert(1 <= n <= 3);
        assert(AudioCodec::numbered(n as u8) == Some(codec_with(n)));
        lemma_codecs_in(p.drop_last(), numbers.drop_last());
    }
}

/// The codecs that the Hands-Free lists are kept and told, in its order.
#[verifier::rlimit(50)]
pub proof fn law_codecs_are_listed(m: AgModel, numbers: Seq<u32>)
    requires
        m.read_buffer.len() == 0,
        numbers.len() > 0,
        forall|i: int| 0 <= i < numbers.len() ==> 1 <= #[trigger] numbers[i] <= 3,
    ensures
        leads_to(
            m,
            "AT+BAC="@ + text::joined(exchange::number_parts(numbers)),
            AgModel { hf_audio_codecs: numbers.map_values(|n: u32| codec_with(n)), ..m },
            seq!["OK"@],
            seq![EventModel::SupportedAudioCodecs(numbers.map_values(|n: u32| codec_with(n)))],
        ),
{
    reveal_strlit("AT+");
    reveal_strlit("=");
    reveal_strlit("BAC");
    reveal_strlit("AT+BAC=");
    exchange::lemma_mnemonics();
    lemma_write(m, "BAC"@, "AT+BAC="@, numbers);
    let p = read_as(numbers);
    lemma_codecs_in(p, numbers);
    exchange::lemma_dispatch(
        m,
        AtCommandModel { code: "BAC"@, sub_code: AtSubCode::Write, parameters: p },
    );
    reveal(gateway::on_bac);
    lemma_one_answer("OK"@);
    assert(gateway::on_bac(m, p).1.events =~= seq![
        EventModel::SupportedAudioCodecs(numbers.map_values(|n: u32| codec_with(n))),
    ]);
}

/// A codec number that is none of the three is refused when the Hands-Free
/// accepts it. One of the three is settled on; where the codec was being
/// negotiated, the synchronous link is asked for with it.
#[verifier::rlimit(50)]
pub proof fn law_codec_acceptance(m: AgModel, n: u8)
    requires
        m.read_buffer.len() == 0,
    ensures
        ({
            let codec = codec_with(n as u32);
            let negotiating = m.audio_state == AudioConnectionState::Negotiating;
            leads_to(
                m,
                "AT+BCS="@ + text::decimal(n as nat),
                if n == 0 || n > 3 {
                    m
                } else if negotiating {
                    AgModel {
                        active_codec: codec,
                        audio_state: AudioConnectionState::Connecting,
                        ..m
                    }
                } else {
                    AgModel { active_codec: codec, ..m }
                },
                if n == 0 || n > 3 {
                    seq!["ERROR"@]
                } else {
                    seq!["OK"@]
                },
                if n == 0 || n > 3 {
                    seq![]
                } else if negotiating {
                    seq![
                        EventModel::CodecNegotiated(codec),
                        EventModel::AudioConnectionState(AudioConnectionState::Connecting),
                        EventModel::AudioConnectionRequested(codec),
                    ]
                } else {
                    seq![EventModel::CodecNegotiated(codec)]
                },
            )
        }),
{
    let numbers: Seq<u32> = seq![n as u32];
    let codec = codec_with(n as u32);
    reveal_strlit("AT+");
    reveal_strlit("=");
    reveal_strlit("BCS");
    reveal_strlit("AT+BCS=");
    exchange::lemma_mnemonics();
    exchange::lemma_one_number(n as u32);
    lemma_write(m, "BCS"@, "AT+BCS="@, numbers);
    let p = read_as(numbers);
    assert(p[0].number() == Some(n as u32));
    exchange::lemma_dispatch(
        m,
        AtCommandModel { code: "BCS"@, sub_code: AtSubCode::Write, parameters: p },
    );
    reveal(gateway::on_bcs);
    lemma_one_answer("OK"@);
    lemma_one_answer("ERROR"@);
    let events = gateway::on_bcs(m, p).1.events;
    if n == 0 || n > 3 {
        assert(events =~= seq![]);
    } else if m.audio_state == AudioConnectionState::Negotiating {
        assert(events =~= seq![
            EventModel::CodecNegotiated(codec),
            EventModel::AudioConnectionState(AudioConnectionState::Connecting),
            EventModel::AudioConnectionRequested(codec),
        ]);
    } else {
        assert(events =~= seq![EventModel::CodecNegotiated(codec)]);
    }
}

/// Whether both sides have a codec.
pub open spec fn both_have(m: AgModel, codec: AudioCodec) -> bool {
    m.supported_audio_codecs.contains(codec) && m.hf_audio_codecs.contains(codec)
}

/// An audio connection starts with the offer of LC3-SWB where both sides have
/// it, else of mSBC, else of CVSD, and waits for the answer. Where either side
/// does not negotiate codecs, or they have none in common, nothing is offered
/// and the link is asked for with CVSD.
#[verifier::rlimit(50)]
pub proof fn law_audio_starts_with_the_widest(m: AgModel)
    requires
        m.audio_state == AudioConnectionState::Disconnected,
    ensures
        ({
            let r = gateway::start_audio(m);
            let negotiated = m.supported_ag_features & 0x200 != 0 && m.supported_hf_features
                & 0x080 != 0;
            let offers = |codec: AudioCodec, digit: char|
                {
                    &&& r.0 == AgModel {
                        active_codec: codec,
                        audio_state: AudioConnectionState::Negotiating,
                        ..m
                    }
                    &&& r.1.outgoing == seq![
                        seq![13u8, 10u8] + utf8::encode_utf8("+BCS: "@.push(digit)) + seq![
                            13u8,
                            10u8,
                        ],
                    ]
                    &&& r.1.events == seq![
                        EventModel::AudioConnectionState(AudioConnectionState::Negotiating),
                    ]
                };
            if negotiated && both_have(m, AudioCodec::Lc3Swb) {
                offers(AudioCodec::Lc3Swb, '3')
            } else if negotiated && both_have(m, AudioCodec::Msbc) {
                offers(AudioCodec::Msbc, '2')
            } else if negotiated && both_have(m, AudioCodec::Cvsd) {
                offers(AudioCodec::Cvsd, '1')
            } else {
                &&& r.0 == AgModel {
                    active_codec: AudioCodec::Cvsd,
                    audio_state: AudioConnectionState::Connecting,
                    ..m
                }
                &&& r.1.outgoing == Seq::<Seq<u8>>::empty()
                &&& r.1.events == seq![
                    EventModel::AudioConnectionState(AudioConnectionState::Connecting),
                    EventModel::AudioConnectionRequested(AudioCodec::Cvsd),
                ]
            }
        }),
{
    let r = gateway::start_audio(m);
    assert forall|n: nat| n < 10 implies "+BCS: "@ + #[trigger] text::decimal(n)
        =~= "+BCS: "@.push(text::digit_char(n)) by {
        assert(text::decimal(n) =~= seq![text::digit_char(n)]);
    }
    assert("+BCS: "@ + text::decimal(1) =~= "+BCS: "@.push('1'));
    assert("+BCS: "@ + text::decimal(2) =~= "+BCS: "@.push('2'));
    assert("+BCS: "@ + text::decimal(3) =~= "+BCS: "@.push('3'));
    assert(r.1.outgoing =~= seq![] || r.1.outgoing =~= seq![r.1.outgoing[0]]);
    assert(r.1.events =~= seq![r.1.events[0]] || r.1.events =~= seq![
        r.1.events[0],
        r.1.events[1],
    ]);
}

/// Audio that the Hands-Free asks for is started, after the request has been
/// accepted and told.
#[verifier::rlimit(50)]
pub proof fn law_audio_is_started_on_request(m: AgModel)
    requires
        m.read_buffer.len() == 0,
    ensures
        ({
            let started = gateway::start_audio(m);
            let r = gateway::on_bytes(m, utf8::encode_utf8("AT+BCC"@) + seq![13u8]);
            &&& r.0 == started.0
            &&& r.1.outgoing == seq![
                seq![13u8, 10u8] + utf8::encode_utf8("OK"@) + seq![13u8, 10u8],
            ] + started.1.outgoing
            &&& r.1.events == seq![EventModel::CodecConnectionRequested] + started.1.events
        }),
{
    reveal_strlit("AT+");
    reveal_strlit("BCC");
    reveal_strlit("AT+BCC");
    exchange::lemma_mnemonics();
    lemma_bare(m, "BCC"@, "AT+BCC"@, AtSubCode::Plain);
    exchange::lemma_dispatch(
        m,
        AtCommandModel { code: "BCC"@, sub_code: AtSubCode::Plain, parameters: seq![] },
    );
    reveal(gateway::on_bcc);
    let r = gateway::on_bcc(m);
    let started = gateway::start_audio(m);
    assert(r.1.outgoing =~= seq![
        seq![13u8, 10u8] + utf8::encode_utf8("OK"@) + seq![13u8, 10u8],
    ] + started.1.outgoing);
    assert(r.1.events =~= seq![EventModel::CodecConnectionRequested] + started.1.events);
}

// ---------------------------------------------------------------------------
// Requests
// ---------------------------------------------------------------------------

/// Voice recognition is told as off, on or ready for more audio, for the numbers
/// zero, one and two. Another number is accepted and not told.
#[verifier::rlimit(50)]
pub proof fn law_voice_recognition_is_told(m: AgModel, n: u32)
    requires
        m.read_buffer.len() == 0,
    ensures
        leads_to(
            m,
            "AT+BVRA="@ + text::decimal(n as nat),
            m,
            seq!["OK"@],
            if n == 0 {
                seq![EventModel::VoiceRecognition(VoiceRecognitionState::Disable)]
            } else if n == 1 {
                seq![EventModel::VoiceRecognition(VoiceRecognitionState::Enable)]
            } else if n == 2 {
                seq![EventModel::VoiceRecognition(VoiceRecognitionState::EnhancedReady)]
            } else {
                seq![]
            },
        ),
{
    let numbers: Seq<u32> = seq![n];
    reveal_strlit("AT+");
    reveal_strlit("=");
    reveal_strlit("BVRA");
    reveal_strlit("AT+BVRA=");
    exchange::lemma_mnemonics();
    exchange::lemma_one_number(n);
    lemma_write(m, "BVRA"@, "AT+BVRA="@, numbers);
    let c = AtCommandModel {
        code: "BVRA"@,
        sub_code: AtSubCode::Write,
        parameters: read_as(numbers),
    };
    exchange::lemma_dispatch(m, c);
    reveal(gateway::on_bvra);
    lemma_one_answer("OK"@);
    let events = gateway::on_bvra(m, c.parameters).1.events;
    assert(c.parameters[0].number() == Some(n));
    assert(n > 2 ==> events =~= seq![]);
    assert(n <= 2 ==> events =~= seq![events[0]]);
}

/// `AT+CHUP` is accepted and told as a request to hang up.
#[verifier::rlimit(50)]
pub proof fn law_hang_up_is_told(m: AgModel)
    requires
        m.read_buffer.len() == 0,
    ensures
        leads_to(m, "AT+CHUP"@, m, seq!["OK"@], seq![EventModel::HangUp]),
{
    reveal_strlit("AT+");
    reveal_strlit("CHUP");
    reveal_strlit("AT+CHUP");
    exchange::lemma_mnemonics();
    lemma_bare(m, "CHUP"@, "AT+CHUP"@, AtSubCode::Plain);
    exchange::lemma_dispatch(
        m,
        AtCommandModel { code: "CHUP"@, sub_code: AtSubCode::Plain, parameters: seq![] },
    );
    lemma_one_answer("OK"@);
    assert(gateway::accept().told(EventModel::HangUp).events =~= seq![EventModel::HangUp]);
}

/// `ATA` is accepted and told as a request to answer the call.
#[verifier::rlimit(50)]
pub proof fn law_answer_is_told(m: AgModel)
    requires
        m.read_buffer.len() == 0,
    ensures
        leads_to(m, "ATA"@, m, seq!["OK"@], seq![EventModel::Answer]),
{
    reveal_strlit("ATA");
    reveal_strlit("A");
    assert(laws::fits_line("ATA"@));
    laws::law_command_arrives(m, "ATA"@);
    let line = utf8::encode_utf8("ATA"@);
    assert(line + seq![13u8] =~= line.push(13));
    assert(utf8::is_ascii_chars("ATA"@));
    utf8::is_ascii_chars_encode_utf8("ATA"@);
    assert("ATA"@[0] as u8 == line[0] && "ATA"@[1] as u8 == line[1] && "ATA"@[2] as u8 == line[2]);
    assert(line =~= seq![65u8, 84u8, 65u8]);
    assert(line.take(3) =~= line);
    assert(seq![65u8, 84u8, 43u8][2] == 43 && line[2] == 65);
    assert(line.skip(3) =~= seq![]);
    let c = at::command_of(line);
    assert(c is Ok && c->Ok_0.code == "A"@ && c->Ok_0.sub_code == AtSubCode::Plain);
    exchange::lemma_dispatch(m, c->Ok_0);
    lemma_one_answer("OK"@);
    assert(gateway::accept().told(EventModel::Answer).events =~= seq![EventModel::Answer]);
}

/// The operator can be asked for by its long name, and by nothing else.
#[verifier::rlimit(50)]
pub proof fn law_operator_format(m: AgModel, mode: u32, format: u32)
    requires
        m.read_buffer.len() == 0,
    ensures
        leads_to(
            m,
            "AT+COPS="@ + (text::decimal(mode as nat) + ","@ + text::decimal(format as nat)),
            if mode == 3 && format == 0 {
                AgModel { cops_format_selected: true, ..m }
            } else {
                m
            },
            if mode == 3 && format == 0 {
                seq!["OK"@]
            } else {
                seq![failure(m, 4)]
            },
            seq![],
        ),
{
    let numbers: Seq<u32> = seq![mode, format];
    reveal_strlit("AT+");
    reveal_strlit("=");
    reveal_strlit("COPS");
    reveal_strlit("AT+COPS=");
    exchange::lemma_mnemonics();
    exchange::lemma_two_numbers(mode, format);
    lemma_write(m, "COPS"@, "AT+COPS="@, numbers);
    let p = read_as(numbers);
    assert(p[0].number() == Some(mode) && p[1].number() == Some(format));
    exchange::lemma_dispatch(
        m,
        AtCommandModel { code: "COPS"@, sub_code: AtSubCode::Write, parameters: p },
    );
    reveal(gateway::on_cops_set);
    lemma_one_answer("OK"@);
    lemma_one_answer(failure(m, 4));
}

/// The operator is named in double quotes once its format is selected; before
/// that the request is not allowed.
#[verifier::rlimit(50)]
pub proof fn law_operator_answer(m: AgModel)
    requires
        m.read_buffer.len() == 0,
    ensures
        leads_to(
            m,
            "AT+COPS?"@,
            m,
            if m.cops_format_selected {
                seq!["+COPS: 0,0,"@ + text::quoted(m.network_operator), "OK"@]
            } else {
                seq![failure(m, 3)]
            },
            seq![],
        ),
{
    reveal_strlit("AT+");
    reveal_strlit("?");
    reveal_strlit("COPS");
    reveal_strlit("AT+COPS?");
    exchange::lemma_mnemonics();
    lemma_bare(m, "COPS"@, "AT+COPS?"@, AtSubCode::Read);
    exchange::lemma_dispatch(
        m,
        AtCommandModel { code: "COPS"@, sub_code: AtSubCode::Read, parameters: seq![] },
    );
    reveal(gateway::on_cops_read);
    lemma_one_answer(failure(m, 3));
    lemma_two_answers("+COPS: 0,0,"@ + text::quoted(m.network_operator), "OK"@);
}

/// A list of indicators that is empty is an error, whichever way it is asked
/// for.
#[verifier::rlimit(50)]
pub proof fn law_no_indicators(m: AgModel)
    requires
        m.read_buffer.len() == 0,
        m.ag_indicators.len() == 0,
    ensures
        leads_to(m, "AT+CIND=?"@, m, seq![failure(m, 22)], seq![]),
        leads_to(m, "AT+CIND?"@, m, seq![failure(m, 22)], seq![]),
{
    reveal_strlit("AT+");
    reveal_strlit("?");
    reveal_strlit("=?");
    reveal_strlit("CIND");
    reveal_strlit("AT+CIND?");
    reveal_strlit("AT+CIND=?");
    exchange::lemma_mnemonics();
    lemma_bare(m, "CIND"@, "AT+CIND?"@, AtSubCode::Read);
    lemma_bare(m, "CIND"@, "AT+CIND=?"@, AtSubCode::Test);
    exchange::lemma_dispatch(
        m,
        AtCommandModel { code: "CIND"@, sub_code: AtSubCode::Read, parameters: seq![] },
    );
    exchange::lemma_dispatch(
        m,
        AtCommandModel { code: "CIND"@, sub_code: AtSubCode::Test, parameters: seq![] },
    );
    reveal(gateway::on_cind_read);
    reveal(gateway::on_cind_test);
    lemma_one_answer(failure(m, 22));
}

/// The values of the indicators are answered in their order. Where the set-up
/// waits for nothing more, it is complete.
#[verifier::rlimit(50)]
pub proof fn law_indicator_values_are_answered(m: AgModel)
    requires
        m.read_buffer.len() == 0,
        m.ag_indicators.len() > 0,
    ensures
        leads_to(
            m,
            "AT+CIND?"@,
            m,
            seq![
                "+CIND: "@ + text::joined(
                    exchange::number_parts(
                        m.ag_indicators.map_values(|s: AgIndicatorModel| s.current_status),
                    ),
                ),
                "OK"@,
            ],
            if m.remaining_slc_setup_features.is_empty() {
                seq![EventModel::SlcComplete]
            } else {
                seq![]
            },
        ),
{
    reveal_strlit("AT+");
    reveal_strlit("?");
    reveal_strlit("CIND");
    reveal_strlit("AT+CIND?");
    exchange::lemma_mnemonics();
    lemma_bare(m, "CIND"@, "AT+CIND?"@, AtSubCode::Read);
    exchange::lemma_dispatch(
        m,
        AtCommandModel { code: "CIND"@, sub_code: AtSubCode::Read, parameters: seq![] },
    );
    reveal(gateway::on_cind_read);
    let values = m.ag_indicators.map_values(|s: AgIndicatorModel| s.current_status);
    assert(gateway::status_texts(m.ag_indicators) =~= exchange::number_parts(values));
    let first = "+CIND: "@ + text::joined(exchange::number_parts(values));
    lemma_two_answers(first, "OK"@);
    assert(gateway::on_cind_read(m).1.events =~= if m.remaining_slc_setup_features.is_empty() {
        seq![EventModel::SlcComplete]
    } else {
        seq![]
    });
}

// ---------------------------------------------------------------------------
// Indicators of the Hands-Free
// ---------------------------------------------------------------------------

/// The number of an indicator of the Hands-Free: enhanced safety is one, the
/// battery level two.
pub open spec fn hf_number(indicator: HfIndicator) -> u32 {
    if indicator == HfIndicator::EnhancedSafety {
        1
    } else {
        2
    }
}

/// A value that the Hands-Free gives one of its indicators is kept for that
/// indicator alone and told, where the Audio Gateway has the feature and the
/// indicator is among those that were agreed on.
#[verifier::rlimit(50)]
pub proof fn law_hf_indicator_value_is_kept(m: AgModel, i: int, value: u32)
    requires
        m.read_buffer.len() == 0,
        0 <= i < m.hf_indicators.len(),
        forall|j: int| 0 <= j < i ==> (#[trigger] m.hf_indicators[j]).0 != m.hf_indicators[i].0,
    ensures
        ({
            let (indicator, state) = m.hf_indicators[i];
            let changed = HfIndicatorState { current_status: value, ..state };
            let taken = m.supported_ag_features & 0x400 != 0;
            leads_to(
                m,
                "AT+BIEV="@ + (text::decimal(hf_number(indicator) as nat) + ","@ + text::decimal(
                    value as nat,
                )),
                if taken {
                    AgModel {
                        hf_indicators: m.hf_indicators.update(i, (indicator, changed)),
                        ..m
                    }
                } else {
                    m
                },
                if taken {
                    seq!["OK"@]
                } else {
                    seq!["ERROR"@]
                },
                if taken {
                    seq![EventModel::HfIndicatorUpdated(changed)]
                } else {
                    seq![]
                },
            )
        }),
{
    let (indicator, state) = m.hf_indicators[i];
    let n = hf_number(indicator);
    let numbers: Seq<u32> = seq![n, value];
    reveal_strlit("AT+");
    reveal_strlit("=");
    reveal_strlit("BIEV");
    reveal_strlit("AT+BIEV=");
    exchange::lemma_mnemonics();
    exchange::lemma_two_numbers(n, value);
    lemma_write(m, "BIEV"@, "AT+BIEV="@, numbers);
    let p = read_as(numbers);
    assert(p[0].number() == Some(n) && p[1].number() == Some(value));
    exchange::lemma_dispatch(
        m,
        AtCommandModel { code: "BIEV"@, sub_code: AtSubCode::Write, parameters: p },
    );
    reveal(gateway::on_biev);
    assert(HfIndicator::numbered(n as u8) == Some(indicator));
    lemma_position(m.hf_indicators, i);
    lemma_one_answer("OK"@);
    lemma_one_answer("ERROR"@);
    let events = gateway::on_biev(m, p).1.events;
    assert(events =~= seq![] || events =~= seq![events[0]]);
}

/// The first place of an indicator is its position.
proof fn lemma_position(states: Seq<(HfIndicator, HfIndicatorState)>, i: int)
    requires
        0 <= i < states.len(),
        forall|j: int| 0 <= j < i ==> (#[trigger] states[j]).0 != states[i].0,
    ensures
        gateway::position_of(states, states[i].0) == i,
    decreases i,
{
    if i > 0 {
        assert(states[0].0 != states[i].0);
        let rest = states.skip(1);
        assert forall|j: int| 0 <= j < i - 1 implies (#[trigger] rest[j]).0 != rest[i - 1].0 by {
            assert(rest[j] == states[j + 1]);
        }
        lemma_position(rest, i - 1);
    }
}

/// A value for an indicator that was not agreed on is refused.
#[verifier::rlimit(50)]
pub proof fn law_other_hf_indicators_are_refused(m: AgModel, n: u8, value: u32)
    requires
        m.read_buffer.len() == 0,
        forall|i: int|
            0 <= i < m.hf_indicators.len() ==> hf_number((#[trigger] m.hf_indicators[i]).0) != n,
    ensures
        leads_to(
            m,
            "AT+BIEV="@ + (text::decimal(n as nat) + ","@ + text::decimal(value as nat)),
            m,
            seq!["ERROR"@],
            seq![],
        ),
{
    let numbers: Seq<u32> = seq![n as u32, value];
    reveal_strlit("AT+");
    reveal_strlit("=");
    reveal_strlit("BIEV");
    reveal_strlit("AT+BIEV=");
    exchange::lemma_mnemonics();
    exchange::lemma_two_numbers(n as u32, value);
    lemma_write(m, "BIEV"@, "AT+BIEV="@, numbers);
    let p = read_as(numbers);
    assert(p[0].number() == Some(n as u32) && p[1].number() == Some(value));
    exchange::lemma_dispatch(
        m,
        AtCommandModel { code: "BIEV"@, sub_code: AtSubCode::Write, parameters: p },
    );
    reveal(gateway::on_biev);
    match HfIndicator::numbered(n) {
        Some(indicator) => {
            lemma_no_position(m.hf_indicators, indicator);
        },
        None => {},
    }
    lemma_one_answer("ERROR"@);
}

/// An indicator that is not there has no position.
proof fn lemma_no_position(states: Seq<(HfIndicator, HfIndicatorState)>, indicator: HfIndicator)
    requires
        forall|i: int| 0 <= i < states.len() ==> (#[trigger] states[i]).0 != indicator,
    ensures
        gateway::position_of(states, indicator) == states.len(),
    decreases states.len(),
{
    if states.len() > 0 {
        assert(states[0].0 != indicator);
        let rest = states.skip(1);
        assert forall|i: int| 0 <= i < rest.len() implies (#[trigger] rest[i]).0 != indicator by {
            assert(rest[i] == states[i + 1]);
        }
        lemma_no_position(rest, indicator);
    }
}

/// The indicators that are agreed on are those of the Audio Gateway whose
/// numbers the Hands-Free lists, with nothing known of them yet. Without the
/// feature the list is refused.
#[verifier::rlimit(50)]
pub proof fn law_hf_indicators_are_agreed(m: AgModel, numbers: Seq<u32>)
    requires
        m.read_buffer.len() == 0,
        numbers.len() > 0,
        forall|i: int| 0 <= i < numbers.len() ==> #[trigger] numbers[i] < 256,
    ensures
        ({
            let line = "AT+BIND="@ + text::joined(exchange::number_parts(numbers));
            let r = gateway::on_bytes(m, utf8::encode_utf8(line) + seq![13u8]);
            let agreed = r.0.hf_indicators;
            let taken = m.supported_ag_features & 0x400 != 0;
            &&& leads_to(
                m,
                line,
                AgModel { hf_indicators: agreed, ..m },
                if taken {
                    seq!["OK"@]
                } else {
                    seq!["ERROR"@]
                },
                seq![],
            )
            &&& !taken ==> agreed == m.hf_indicators
            &&& taken ==> forall|indicator: HfIndicator, state: HfIndicatorState|
                #[trigger] agreed.contains((indicator, state)) <==> (
                m.supported_hf_indicators.contains(indicator) && numbers.contains(
                    hf_number(indicator),
                ) && state == (HfIndicatorState {
                    indicator,
                    supported: false,
                    enabled: false,
                    current_status: 0,
                }))
        }),
{
    let line = "AT+BIND="@ + text::joined(exchange::number_parts(numbers));
    reveal_strlit("AT+");
    reveal_strlit("=");
    reveal_strlit("BIND");
    reveal_strlit("AT+BIND=");
    exchange::lemma_mnemonics();
    lemma_write(m, "BIND"@, "AT+BIND="@, numbers);
    let p = read_as(numbers);
    exchange::lemma_dispatch(
        m,
        AtCommandModel { code: "BIND"@, sub_code: AtSubCode::Write, parameters: p },
    );
    reveal(gateway::on_bind);
    lemma_one_answer("OK"@);
    lemma_one_answer("ERROR"@);
    lemma_agreed(m.supported_hf_indicators, p, numbers);
    assert(gateway::on_bind(m, p).1.events =~= seq![]);
}

/// The agreed indicators, one by one.
proof fn lemma_agreed(supported: Seq<HfIndicator>, p: Seq<AtParameterModel>, numbers: Seq<u32>)
    requires
        exchange::are_numbers(p, numbers),
        forall|i: int| 0 <= i < numbers.len() ==> #[trigger] numbers[i] < 256,
    ensures
        forall|indicator: HfIndicator, state: HfIndicatorState|
            #[trigger] gateway::shared_indicators(supported, p).contains((indicator, state)) <==> (
            supported.contains(indicator) && numbers.contains(hf_number(indicator)) && state == (
            HfIndicatorState {
                indicator,
                supported: false,
                enabled: false,
                current_status: 0,
            })),
    decreases supported.len(),
{
    let all = gateway::shared_indicators(supported, p);
    if supported.len() > 0 {
        let last = supported.last();
        let before = gateway::shared_indicators(supported.drop_last(), p);
        lemma_agreed(supported.drop_last(), p, numbers);
        lemma_listed(p, numbers, last);
        let fresh = (
            last,
            HfIndicatorState {
                indicator: last,
                supported: false,
                enabled: false,
                current_status: 0,
            },
        );
        assert forall|indicator: HfIndicator, state: HfIndicatorState|
            #[trigger] all.contains((indicator, state)) <==> (supported.contains(indicator)
                && numbers.contains(hf_number(indicator)) && state == (HfIndicatorState {
                indicator,
                supported: false,
                enabled: false,
                current_status: 0,
            })) by {
            assert(supported =~= supported.drop_last().push(last));
            assert(supported.contains(indicator) <==> supported.drop_last().contains(indicator)
                || indicator == last) by {
                if supported.drop_last().contains(indicator) {
                    let k = supported.drop_last().index_of(indicator);
                    assert(supported[k] == indicator);
                }
            }
            if numbers.contains(hf_number(last)) {
                assert(all =~= before.push(fresh));
                assert(all.contains((indicator, state)) <==> before.contains((indicator, state))
                    || (indicator, state) == fresh) by {
                    if before.contains((indicator, state)) {
                        let k = before.index_of((indicator, state));
                        assert(all[k] == (indicator, state));
                    }
                    assert(all[before.len() as int] == fresh);
                }
            } else {
                assert(all == before);
            }
            assert(before.contains((indicator, state)) <==> (supported.drop_last().contains(
                indicator,
            ) && numbers.contains(hf_number(indicator)) && state == (HfIndicatorState {
                indicator,
                supported: false,
                enabled: false,
                current_status: 0,
            })));
        }
    }
}

/// A list holds an indicator if it holds its number.
proof fn lemma_listed(p: Seq<AtParameterModel>, numbers: Seq<u32>, indicator: HfIndicator)
    requires
        exchange::are_numbers(p, numbers),
        forall|i: int| 0 <= i < numbers.len() ==> #[trigger] numbers[i] < 256,
    ensures
        gateway::lists_indicator(p, indicator) <==> numbers.contains(hf_number(indicator)),
{
    if gateway::lists_indicator(p, indicator) {
        let i = choose|i: int|
            0 <= i < p.len() && (#[trigger] p[i]).number() is Some && HfIndicator::numbered(
                p[i].number()->0 as u8,
            ) == Some(indicator);
        assert(p[i].number() == Some(numbers[i]));
        assert(numbers[i] < 256);
        assert(numbers[i] == hf_number(indicator));
    }
    if numbers.contains(hf_number(indicator)) {
        let i = numbers.index_of(hf_number(indicator));
        assert(p[i].number() == Some(numbers[i]));
    }
}

/// The operations that the Audio Gateway can do are answered by their codes, and
/// are then no longer waited for. Without the feature the question is refused.
#[verifier::rlimit(50)]
pub proof fn law_hold_operations_are_answered(m: AgModel)
    requires
        m.read_buffer.len() == 0,
    ensures
        ({
            let able = m.supported_ag_features & 0x001 != 0;
            let remaining = m.remaining_slc_setup_features.remove(0x002u32);
            leads_to(
                m,
                "AT+CHLD=?"@,
                if able {
                    AgModel { remaining_slc_setup_features: remaining, ..m }
                } else {
                    m
                },
                if able {
                    seq![
                        "+CHLD: ("@ + text::joined(
                            m.supported_ag_call_hold_operations.map_values(
                                |o: CallHoldOperation| o.code_text(),
                            ),
                        ) + ")"@,
                        "OK"@,
                    ]
                } else {
                    seq!["ERROR"@]
                },
                if able && remaining.is_empty() {
                    seq![EventModel::SlcComplete]
                } else {
                    seq![]
                },
            )
        }),
{
    reveal_strlit("AT+");
    reveal_strlit("=?");
    reveal_strlit("CHLD");
    reveal_strlit("AT+CHLD=?");
    exchange::lemma_mnemonics();
    lemma_bare(m, "CHLD"@, "AT+CHLD=?"@, AtSubCode::Test);
    exchange::lemma_dispatch(
        m,
        AtCommandModel { code: "CHLD"@, sub_code: AtSubCode::Test, parameters: seq![] },
    );
    reveal(gateway::on_chld_test);
    let codes = m.supported_ag_call_hold_operations.map_values(
        |o: CallHoldOperation| o.code_text(),
    );
    assert(gateway::operation_codes(m.supported_ag_call_hold_operations) =~= codes);
    lemma_one_answer("ERROR"@);
    lemma_two_answers("+CHLD: ("@ + text::joined(codes) + ")"@, "OK"@);
    let events = gateway::on_chld_test(m).1.events;
    assert(events =~= seq![] || events =~= seq![EventModel::SlcComplete]);
}

/// The indicators of a Hands-Free that the Audio Gateway takes are answered by
/// their numbers. Without the feature the question is refused.
#[verifier::rlimit(50)]
pub proof fn law_taken_indicators_are_answered(m: AgModel)
    requires
        m.read_buffer.len() == 0,
    ensures
        leads_to(
            m,
            "AT+BIND=?"@,
            m,
            if m.supported_ag_features & 0x400 != 0 {
                seq![
                    "+BIND: ("@ + text::joined(
                        exchange::number_parts(
                            m.supported_hf_indicators.map_values(|i: HfIndicator| hf_number(i)),
                        ),
                    ) + ")"@,
                    "OK"@,
                ]
            } else {
                seq!["ERROR"@]
            },
            seq![],
        ),
{
    reveal_strlit("AT+");
    reveal_strlit("=?");
    reveal_strlit("BIND");
    reveal_strlit("AT+BIND=?");
    exchange::lemma_mnemonics();
    lemma_bare(m, "BIND"@, "AT+BIND=?"@, AtSubCode::Test);
    exchange::lemma_dispatch(
        m,
        AtCommandModel { code: "BIND"@, sub_code: AtSubCode::Test, parameters: seq![] },
    );
    reveal(gateway::on_bind_test);
    let numbers = m.supported_hf_indicators.map_values(|i: HfIndicator| hf_number(i));
    assert(crate::classic::hfp::indicator::indicator_numbers(m.supported_hf_indicators)
        =~= exchange::number_parts(numbers));
    lemma_one_answer("ERROR"@);
    lemma_two_answers(
        "+BIND: ("@ + text::joined(exchange::number_parts(numbers)) + ")"@,
        "OK"@,
    );
}

/// The indicators that were agreed on are answered one by one, each as enabled,
/// and are then no longer waited for. Without the feature the question is
/// refused.
#[verifier::rlimit(50)]
pub proof fn law_agreed_indicators_are_answered(m: AgModel)
    requires
        m.read_buffer.len() == 0,
    ensures
        ({
            let able = m.supported_ag_features & 0x400 != 0;
            let remaining = m.remaining_slc_setup_features.remove(0x100u32);
            leads_to(
                m,
                "AT+BIND?"@,
                if able {
                    AgModel { remaining_slc_setup_features: remaining, ..m }
                } else {
                    m
                },
                if able {
                    m.hf_indicators.map_values(
                        |s: (HfIndicator, HfIndicatorState)|
                            "+BIND: "@ + text::decimal(hf_number(s.0) as nat) + ",1"@,
                    ).push("OK"@)
                } else {
                    seq!["ERROR"@]
                },
                if able && remaining.is_empty() {
                    seq![EventModel::SlcComplete]
                } else {
                    seq![]
                },
            )
        }),
{
    reveal_strlit("AT+");
    reveal_strlit("?");
    reveal_strlit("BIND");
    reveal_strlit("AT+BIND?");
    exchange::lemma_mnemonics();
    lemma_bare(m, "BIND"@, "AT+BIND?"@, AtSubCode::Read);
    exchange::lemma_dispatch(
        m,
        AtCommandModel { code: "BIND"@, sub_code: AtSubCode::Read, parameters: seq![] },
    );
    reveal(gateway::on_bind_read);
    lemma_one_answer("ERROR"@);
    let texts = m.hf_indicators.map_values(
        |s: (HfIndicator, HfIndicatorState)|
            "+BIND: "@ + text::decimal(hf_number(s.0) as nat) + ",1"@,
    ).push("OK"@);
    let lines = Seq::new(
        texts.len(),
        |i: int| seq![13u8, 10u8] + utf8::encode_utf8(texts[i]) + seq![13u8, 10u8],
    );
    let r = gateway::on_bind_read(m);
    if m.supported_ag_features & 0x400 != 0 {
        assert(r.1.outgoing =~= lines);
    }
    assert(r.1.events =~= seq![] || r.1.events =~= seq![EventModel::SlcComplete]);
}

/// Calls are listed one by one, each by its fields, and then the list ends.
#[verifier::rlimit(50)]
pub proof fn law_call_list_is_answered(m: AgModel)
    requires
        m.read_buffer.len() == 0,
    ensures
        leads_to(
            m,
            "AT+CLCC"@,
            m,
            m.calls.map_values(|c: CallInfoModel| call::call_text(c)).push("OK"@),
            seq![],
        ),
{
    reveal_strlit("AT+");
    reveal_strlit("CLCC");
    reveal_strlit("AT+CLCC");
    exchange::lemma_mnemonics();
    lemma_bare(m, "CLCC"@, "AT+CLCC"@, AtSubCode::Plain);
    exchange::lemma_dispatch(
        m,
        AtCommandModel { code: "CLCC"@, sub_code: AtSubCode::Plain, parameters: seq![] },
    );
    reveal(gateway::on_clcc);
    let texts = m.calls.map_values(|c: CallInfoModel| call::call_text(c)).push("OK"@);
    let lines = Seq::new(
        texts.len(),
        |i: int| seq![13u8, 10u8] + utf8::encode_utf8(texts[i]) + seq![13u8, 10u8],
    );
    assert(gateway::on_clcc(m).1.outgoing =~= lines);
}

/// A call is listed by its index, direction, status, mode and whether it is in
/// a conference, and then, where they are known, its number in double quotes and
/// the kind of the number.
#[verifier::rlimit(50)]
pub proof fn law_call_fields(c: CallInfoModel)
    ensures
        ({
            let head = exchange::number_parts(
                seq![
                    c.index,
                    c.direction.number() as u32,
                    c.status.number() as u32,
                    c.mode.number() as u32,
                    c.multi_party.number() as u32,
                ],
            );
            let with_number = match c.number {
                Some(n) => head.push(text::quoted(n)),
                None => head,
            };
            let all = match c.kind {
                Some(k) => with_number.push(text::decimal(k as nat)),
                None => with_number,
            };
            call::call_text(c) == "+CLCC: "@ + text::joined(all)
        }),
{
    let fields = seq![
        text::decimal(c.index as nat),
        text::decimal(c.direction.number() as nat),
        text::decimal(c.status.number() as nat),
        text::decimal(c.mode.number() as nat),
        text::decimal(c.multi_party.number() as nat),
    ];
    let head = exchange::number_parts(
        seq![
            c.index,
            c.direction.number() as u32,
            c.status.number() as u32,
            c.mode.number() as u32,
            c.multi_party.number() as u32,
        ],
    );
    assert(fields =~= head);
}

/// Whether a code is one that the Audio Gateway has a command for.
pub open spec fn is_known(code: Seq<char>) -> bool {
    ||| code == "BRSF"@ || code == "BAC"@ || code == "BCS"@ || code == "BVRA"@
    ||| code == "CHLD"@ || code == "CIND"@ || code == "CMER"@ || code == "CMEE"@
    ||| code == "CCWA"@ || code == "BIND"@ || code == "BIEV"@ || code == "BIA"@
    ||| code == "BCC"@ || code == "A"@ || code == "D"@ || code == "CHUP"@
    ||| code == "CLCC"@ || code == "CLIP"@ || code == "COPS"@ || code == "VGS"@
    ||| code == "VGM"@
}

/// A command that the Audio Gateway does not have is refused, and changes
/// nothing.
#[verifier::rlimit(50)]
pub proof fn law_unknown_command_is_refused(m: AgModel, c: AtCommandModel)
    requires
        !is_known(c.code),
    ensures
        ({
            let r = gateway::on_command(m, c);
            &&& r.0 == m
            &&& r.1.events == Seq::<EventModel>::empty()
            &&& r.1.outgoing == seq![
                seq![13u8, 10u8] + utf8::encode_utf8("ERROR"@) + seq![13u8, 10u8],
            ]
        }),
{
    let r = gateway::on_command(m, c);
    assert(r.1.outgoing =~= seq![
        seq![13u8, 10u8] + utf8::encode_utf8("ERROR"@) + seq![13u8, 10u8],
    ]);
}

} // verus!
