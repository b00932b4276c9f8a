//! The Service Level Connection procedure comes to its end on both sides, and
//! each knows what the other said of itself.

use vstd::prelude::*;
use vstd::utf8;
use crate::classic::at;
use crate::classic::at::laws::Written;
use crate::classic::at::{AtCommandModel, AtParameterModel, AtResponseModel, AtSubCode};
use crate::classic::hfp::ag_feature;
use crate::classic::hfp::call;
use crate::classic::hfp::conversation;
use crate::classic::hfp::conversation::Talk;
use crate::classic::hfp::event::{EventModel, TurnModel};
use crate::classic::hfp::exchange;
use crate::classic::hfp::framing;
use crate::classic::hfp::gateway;
use crate::classic::hfp::gateway::AgModel;
use crate::classic::hfp::hands_free;
use crate::classic::hfp::hands_free::{HfModel, SlcStep};
use crate::classic::hfp::hf_feature;
use crate::classic::hfp::indicator;
use crate::classic::hfp::indicator_laws;
use crate::classic::hfp::indicator::{AgIndicatorModel, HfIndicatorState, HfIndicators};
use crate::classic::hfp::laws;
use crate::classic::hfp::reading;
use crate::classic::hfp::values;
use crate::classic::hfp::values::{AudioCodec, CallHoldOperation, HfIndicator};
use crate::text;

verus! {

/// A code of five characters with a plus sign is no status, and can stand on
/// a line.
proof fn lemma_plain_code(code: Seq<char>)
    requires
        code.len() == 5,
        code[0] == '+',
        forall|i: int| 0 <= i < code.len() ==> #[trigger] code[i] != ':' && code[i] != '\r',
    ensures
        !hands_free::is_status(code),
        laws::fits_line(code),
{
    reveal_strlit("+CME ERROR");
    reveal_strlit("BLACKLISTED");
    reveal_strlit("BUSY");
    reveal_strlit("DELAYED");
    reveal_strlit("ERROR");
    reveal_strlit("NO ANSWER");
    reveal_strlit("NO CARRIER");
    reveal_strlit("OK");
    assert("+CME ERROR"@.len() == 10 && "BLACKLISTED"@.len() == 11 && "BUSY"@.len() == 4);
    assert("DELAYED"@.len() == 7 && "NO ANSWER"@.len() == 9 && "NO CARRIER"@.len() == 10);
    assert("OK"@.len() == 2 && "ERROR"@[0] == 'E');
    assert forall|i: int| 0 <= i < code.len() implies #[trigger] code[i] != '\r' by {}
}

/// A conversation with one command on its way, as a step of the procedure.
pub open spec fn talk(
    hf: HfModel,
    ag: AgModel,
    command: Seq<char>,
    step: SlcStep,
    hf_events: Seq<EventModel>,
    ag_events: Seq<EventModel>,
) -> Talk {
    Talk {
        hf: hf.at_step(command, step),
        ag,
        commands: seq![framing::command_line(command)],
        hf_events,
        ag_events,
    }
}

/// A conversation in which the procedure is over.
pub open spec fn done(
    hf: HfModel,
    ag: AgModel,
    hf_events: Seq<EventModel>,
    ag_events: Seq<EventModel>,
) -> Talk {
    Talk {
        hf: hf.ready(),
        ag,
        commands: seq![],
        hf_events: hf_events.push(EventModel::SlcComplete),
        ag_events,
    }
}

/// Whether both sides are between two steps.
pub open spec fn settled(hf: HfModel, ag: AgModel) -> bool {
    hf == hf.idle() && hf.read_buffer.len() == 0 && ag.read_buffer.len() == 0
}

/// A step that leads to another, or to the end.
proof fn lemma_next(
    hf: HfModel,
    ag: AgModel,
    he: Seq<EventModel>,
    ae: Seq<EventModel>,
    command: Seq<char>,
    step: SlcStep,
    texts: Seq<Seq<char>>,
    responses: Seq<AtResponseModel>,
    after: AgModel,
    told: Seq<EventModel>,
)
    requires
        settled(hf, ag),
        laws::fits_line(command),
        conversation::answers(command, texts, responses),
        gateway::on_line(ag, utf8::encode_utf8(command)) == (
            after,
            TurnModel {
                outgoing: conversation::response_frames(texts.push("OK"@)),
                events: told,
            },
        ),
    ensures
        ({
            let t = conversation::round(talk(hf, ag, command, step, he, ae));
            let next = hands_free::advance(hf, step, responses);
            &&& forall|m: HfModel, c: Seq<char>, st: SlcStep|
                next == #[trigger] hands_free::step_to(m, c, st) ==> t == talk(
                    m,
                    after,
                    c,
                    st,
                    he,
                    ae + told,
                )
            &&& forall|m: HfModel|
                next == #[trigger] hands_free::finish(m) ==> t == done(m, after, he, ae + told)
        }),
{
    conversation::lemma_step(hf, ag, he, ae, command, step, texts, responses, after, told);
    let t = conversation::round(talk(hf, ag, command, step, he, ae));
    let next = hands_free::advance(hf, step, responses);
    assert forall|m: HfModel, c: Seq<char>, st: SlcStep|
        next == #[trigger] hands_free::step_to(m, c, st) implies t == talk(
        m,
        after,
        c,
        st,
        he,
        ae + told,
    ) by {
        assert(t =~= talk(m, after, c, st, he, ae + told));
    }
    assert forall|m: HfModel| next == #[trigger] hands_free::finish(m) implies t == done(
        m,
        after,
        he,
        ae + told,
    ) by {
        assert(t =~= done(m, after, he, ae + told));
    }
}

// ---------------------------------------------------------------------------
// Features
// ---------------------------------------------------------------------------

/// The first command.
pub open spec fn brsf_command(features: u32) -> Seq<char> {
    "AT+BRSF="@ + text::decimal(features as nat)
}

/// An Audio Gateway that knows the features of the Hands-Free.
pub open spec fn knowing(ag: AgModel, features: u32) -> AgModel {
    let known = AgModel { supported_hf_features: features, ..ag };
    AgModel {
        remaining_slc_setup_features: gateway::awaiting(
            known,
            gateway::awaiting(
                known,
                ag.remaining_slc_setup_features,
                hf_feature::HF_INDICATORS,
                ag_feature::HF_INDICATORS,
            ),
            hf_feature::THREE_WAY_CALLING,
            ag_feature::THREE_WAY_CALLING,
        ),
        ..known
    }
}

/// The command that lists codecs.
pub open spec fn bac_command(codecs: Seq<AudioCodec>) -> Seq<char> {
    "AT+BAC="@ + text::joined(hands_free::codec_numbers(codecs))
}

/// The exchange of features.
proof fn lemma_brsf(hf: HfModel, ag: AgModel, he: Seq<EventModel>, ae: Seq<EventModel>)
    requires
        settled(hf, ag),
    ensures
        ({
            let t = conversation::round(
                talk(hf, ag, brsf_command(hf.supported_hf_features), SlcStep::Brsf, he, ae),
            );
            let told = HfModel { supported_ag_features: ag.supported_ag_features, ..hf };
            let after = knowing(ag, hf.supported_hf_features);
            if told.share(hf_feature::CODEC_NEGOTIATION, ag_feature::CODEC_NEGOTIATION) {
                t == talk(told, after, bac_command(hf.supported_audio_codecs), SlcStep::Bac, he, ae)
            } else {
                t == talk(told, after, "AT+CIND=?"@, SlcStep::CindTest, he, ae)
            }
        }),
{
    let features = hf.supported_hf_features;
    let command = brsf_command(features);
    let texts = seq!["+BRSF: "@ + text::decimal(ag.supported_ag_features as nat)];
    reveal_strlit("BRSF");
    reveal_strlit("+BRSF");
    reveal_strlit("+BRSF: ");
    reveal_strlit(": ");
    reveal_strlit("AT+BRSF=");
    reveal_strlit("AT+");
    reveal_strlit("AT");
    reveal_strlit("=");
    assert("+BRSF: "@ =~= "+BRSF"@ + ": "@);
    exchange::lemma_mnemonics();
    exchange::lemma_number_command("BRSF"@, seq![features]);
    exchange::lemma_one_number(features);
    assert(command =~= "AT+"@ + "BRSF"@ + "="@ + text::decimal(features as nat));
    let p = at::laws::meaning_all(exchange::number_items(seq![features]));
    let c = AtCommandModel { code: "BRSF"@, sub_code: AtSubCode::Write, parameters: p };
    exchange::lemma_dispatch(ag, c);
    lemma_plain_code("+BRSF"@);
    exchange::lemma_number_response("+BRSF"@, seq![ag.supported_ag_features]);
    exchange::lemma_one_number(ag.supported_ag_features);
    let r = AtResponseModel {
        code: "+BRSF"@,
        parameters: at::laws::meaning_all(
            exchange::number_items(seq![ag.supported_ag_features]),
        ),
    };
    let responses = seq![r];
    assert(command =~= "AT"@ + "+BRSF"@ + ("="@ + text::decimal(features as nat)));
    conversation::lemma_mentions("AT"@, "+BRSF"@, "="@ + text::decimal(features as nat));
    conversation::lemma_said(texts[0]);
    reveal(gateway::on_brsf);
    let given = gateway::on_line(ag, utf8::encode_utf8(command));
    assert(given.1 =~= TurnModel {
        outgoing: conversation::response_frames(texts.push("OK"@)),
        events: seq![],
    });
    lemma_next(hf, ag, he, ae, command, SlcStep::Brsf, texts, responses, given.0, seq![]);
    assert(ae + Seq::<EventModel>::empty() =~= ae);
    reveal(hands_free::advance);
    let told = HfModel { supported_ag_features: ag.supported_ag_features, ..hf };
    let next = hands_free::advance(hf, SlcStep::Brsf, responses);
    assert(given.0 =~= knowing(ag, features));
    assert(call::number_at(r.parameters, 0) == Some(ag.supported_ag_features));
    if told.share(hf_feature::CODEC_NEGOTIATION, ag_feature::CODEC_NEGOTIATION) {
        assert(next == hands_free::step_to(
            told,
            bac_command(hf.supported_audio_codecs),
            SlcStep::Bac,
        ));
    } else {
        assert(next == hands_free::step_to(told, "AT+CIND=?"@, SlcStep::CindTest));
    }
}

// ---------------------------------------------------------------------------
// Codecs
// ---------------------------------------------------------------------------

/// The numbers of codecs.
spec fn codec_values(codecs: Seq<AudioCodec>) -> Seq<u32> {
    Seq::new(codecs.len(), |i: int| codecs[i].number() as u32)
}

/// Codecs are read as what was written.
proof fn lemma_codecs_read(codecs: Seq<AudioCodec>, p: Seq<AtParameterModel>)
    requires
        exchange::are_numbers(p, codec_values(codecs)),
    ensures
        gateway::codecs_in(p) == codecs,
    decreases codecs.len(),
{
    if codecs.len() == 0 {
        assert(gateway::codecs_in(p) =~= codecs);
    } else {
        let before = codecs.drop_last();
        let n = codecs.len() - 1;
        let q = p.drop_last();
        assert forall|i: int| 0 <= i < q.len() implies (#[trigger] q[i]).number() == Some(
            codec_values(before)[i],
        ) by {
            assert(p[i].number() == Some(codec_values(codecs)[i]));
        }
        assert forall|i: int| 0 <= i < q.len() implies (#[trigger] q[i])
            == AtParameterModel::Value(
            utf8::encode_utf8(text::decimal(codec_values(before)[i] as nat)),
        ) by {
            assert(p[i].number() == Some(codec_values(codecs)[i]));
        }
        lemma_codecs_read(before, q);
        values::law_numbers_round_trip();
        assert(p[n].number() == Some(codec_values(codecs)[n]));
        assert(AudioCodec::numbered(codecs[n].number()) == Some(codecs[n]));
        assert(gateway::codecs_in(p) =~= codecs);
    }
}

/// The codecs of the Hands-Free.
proof fn lemma_bac(hf: HfModel, ag: AgModel, he: Seq<EventModel>, ae: Seq<EventModel>)
    requires
        settled(hf, ag),
    ensures
        conversation::round(
            talk(hf, ag, bac_command(hf.supported_audio_codecs), SlcStep::Bac, he, ae),
        ) == talk(
            hf,
            AgModel { hf_audio_codecs: hf.supported_audio_codecs, ..ag },
            "AT+CIND=?"@,
            SlcStep::CindTest,
            he,
            ae.push(EventModel::SupportedAudioCodecs(hf.supported_audio_codecs)),
        ),
{
    let codecs = hf.supported_audio_codecs;
    let command = bac_command(codecs);
    let numbers = codec_values(codecs);
    reveal_strlit("BAC");
    reveal_strlit("AT+BAC=");
    reveal_strlit("AT+");
    reveal_strlit("=");
    exchange::lemma_mnemonics();
    assert(hands_free::codec_numbers(codecs) =~= exchange::number_parts(numbers));
    assert(command =~= "AT+"@ + "BAC"@ + "="@ + text::joined(exchange::number_parts(numbers)));
    let p = at::laws::meaning_all(exchange::number_items(numbers));
    exchange::lemma_numbers(numbers);
    if codecs.len() == 0 {
        assert(text::joined(exchange::number_parts(numbers)) =~= seq![]);
        assert(command =~= "AT+"@ + "BAC"@ + "="@);
        reading::lemma_empty_write_read("BAC"@);
        assert(p =~= seq![]);
        exchange::lemma_fits_command("BAC"@, "="@);
        assert(laws::fits_line("="@));
        reading::lemma_encode_len(command);
    } else {
        exchange::lemma_number_command("BAC"@, numbers);
    }
    let c = AtCommandModel { code: "BAC"@, sub_code: AtSubCode::Write, parameters: p };
    exchange::lemma_dispatch(ag, c);
    lemma_codecs_read(codecs, p);
    let texts = Seq::<Seq<char>>::empty();
    conversation::lemma_said(seq![]);
    reveal(gateway::on_bac);
    let given = gateway::on_line(ag, utf8::encode_utf8(command));
    let told = seq![EventModel::SupportedAudioCodecs(codecs)];
    assert(given.1 =~= TurnModel {
        outgoing: conversation::response_frames(texts.push("OK"@)),
        events: told,
    });
    lemma_next(hf, ag, he, ae, command, SlcStep::Bac, texts, seq![], given.0, told);
    assert(ae + told =~= ae.push(EventModel::SupportedAudioCodecs(codecs)));
    reveal(hands_free::advance);
    assert(hands_free::advance(hf, SlcStep::Bac, seq![]) == hands_free::step_to(
        hf,
        "AT+CIND=?"@,
        SlcStep::CindTest,
    ));
}

// ---------------------------------------------------------------------------
// Indicators of the Audio Gateway
// ---------------------------------------------------------------------------

/// Whether indicators can be listed: there is at least one, and each can take
/// at least one value.
pub open spec fn listable(states: Seq<AgIndicatorModel>) -> bool {
    &&& states.len() > 0
    &&& forall|i: int|
        0 <= i < states.len() ==> (#[trigger] states[i]).supported_values.finite()
            && states[i].supported_values.len() > 0
}

/// Indicators that nothing has been reported of.
pub open spec fn fresh_all(states: Seq<AgIndicatorModel>) -> Seq<AgIndicatorModel> {
    Seq::new(
        states.len(),
        |i: int| indicator::fresh(states[i].indicator, states[i].supported_values),
    )
}

/// What is known of indicators once their values are read: everything but
/// whether the Audio Gateway reports them.
pub open spec fn learned(states: Seq<AgIndicatorModel>) -> Seq<AgIndicatorModel> {
    Seq::new(states.len(), |i: int| AgIndicatorModel { enabled: true, ..states[i] })
}

/// Indicators, as they are written.
spec fn indicator_items(states: Seq<AgIndicatorModel>) -> Seq<Written> {
    Seq::new(states.len(), |i: int| indicator_laws::indicator_item(states[i]))
}

/// A list of indicators is read as the indicators.
proof fn lemma_indicators_read(states: Seq<AgIndicatorModel>, entries: Seq<AtParameterModel>)
    requires
        entries.len() == states.len(),
        forall|i: int|
            0 <= i < states.len() ==> indicator::indicator_of(#[trigger] entries[i]) == Some(
                indicator::fresh(states[i].indicator, states[i].supported_values),
            ),
    ensures
        hands_free::indicators_in(entries) == fresh_all(states),
    decreases states.len(),
{
    if states.len() == 0 {
        assert(hands_free::indicators_in(entries) =~= fresh_all(states));
    } else {
        let n = states.len() - 1;
        let q = entries.drop_last();
        let before = states.drop_last();
        assert forall|i: int| 0 <= i < before.len() implies indicator::indicator_of(
            #[trigger] q[i],
        ) == Some(indicator::fresh(before[i].indicator, before[i].supported_values)) by {
            assert(indicator::indicator_of(entries[i]) is Some);
        }
        lemma_indicators_read(before, q);
        assert(indicator::indicator_of(entries[n]) is Some);
        assert(fresh_all(before).push(
            indicator::fresh(states[n].indicator, states[n].supported_values),
        ) =~= fresh_all(states));
    }
}

/// The list of indicators.
proof fn lemma_cind_test(hf: HfModel, ag: AgModel, he: Seq<EventModel>, ae: Seq<EventModel>)
    requires
        settled(hf, ag),
        listable(ag.ag_indicators),
    ensures
        conversation::round(talk(hf, ag, "AT+CIND=?"@, SlcStep::CindTest, he, ae)) == talk(
            HfModel { ag_indicators: fresh_all(ag.ag_indicators), ..hf },
            ag,
            "AT+CIND?"@,
            SlcStep::CindRead,
            he,
            ae,
        ),
{
    let states = ag.ag_indicators;
    let command = "AT+CIND=?"@;
    reveal_strlit("CIND");
    reveal_strlit("+CIND");
    reveal_strlit("+CIND: ");
    reveal_strlit(": ");
    reveal_strlit("AT+CIND=?");
    reveal_strlit("AT+");
    reveal_strlit("AT");
    reveal_strlit("=?");
    assert("+CIND: "@ =~= "+CIND"@ + ": "@);
    assert(command =~= "AT+"@ + "CIND"@ + "=?"@);
    exchange::lemma_mnemonics();
    reading::lemma_test_read("CIND"@);
    reading::lemma_encode_len(command);
    assert(laws::fits_line(command));
    let c = AtCommandModel { code: "CIND"@, sub_code: AtSubCode::Test, parameters: seq![] };
    exchange::lemma_dispatch(ag, c);
    let parts = gateway::test_texts(states);
    let items = indicator_items(states);
    assert forall|i: int| 0 <= i < parts.len() implies utf8::encode_utf8(#[trigger] parts[i])
        == items[i].wire() && items[i].writable() by {
        assert(states[i].supported_values.finite());
        indicator_laws::law_indicator_is_read(states[i]);
    }
    assert forall|i: int| 0 <= i < parts.len() implies laws::fits_line(#[trigger] parts[i]) by {
        assert(states[i].supported_values.finite());
        indicator_laws::law_indicator_is_read(states[i]);
    }
    exchange::lemma_fits_joined(parts);
    let line = "+CIND: "@ + text::joined(parts);
    let texts = seq![line];
    lemma_plain_code("+CIND"@);
    assert(laws::fits_line(": "@));
    exchange::lemma_fits_add("+CIND"@, ": "@);
    exchange::lemma_fits_add("+CIND: "@, text::joined(parts));
    reading::lemma_encode_len(line);
    reading::lemma_response_read("+CIND"@, parts, items);
    let entries = at::laws::meaning_all(items);
    reading::lemma_meanings(items);
    assert forall|i: int| 0 <= i < states.len() implies indicator::indicator_of(
        #[trigger] entries[i],
    ) == Some(indicator::fresh(states[i].indicator, states[i].supported_values)) by {
        assert(states[i].supported_values.finite());
        indicator_laws::law_indicator_is_read(states[i]);
        assert(entries[i] == items[i].meaning());
    }
    lemma_indicators_read(states, entries);
    let r = AtResponseModel { code: "+CIND"@, parameters: entries };
    assert(command =~= "AT"@ + "+CIND"@ + "=?"@);
    conversation::lemma_mentions("AT"@, "+CIND"@, "=?"@);
    conversation::lemma_said(line);
    reveal(gateway::on_cind_test);
    let given = gateway::on_line(ag, utf8::encode_utf8(command));
    assert(given.1 =~= TurnModel {
        outgoing: conversation::response_frames(texts.push("OK"@)),
        events: seq![],
    });
    lemma_next(hf, ag, he, ae, command, SlcStep::CindTest, texts, seq![r], ag, seq![]);
    assert(ae + Seq::<EventModel>::empty() =~= ae);
    reveal(hands_free::advance);
    assert(hands_free::advance(hf, SlcStep::CindTest, seq![r]) == hands_free::step_to(
        HfModel { ag_indicators: fresh_all(states), ..hf },
        "AT+CIND?"@,
        SlcStep::CindRead,
    ));
}

/// The values of indicators.
spec fn statuses(states: Seq<AgIndicatorModel>) -> Seq<u32> {
    Seq::new(states.len(), |i: int| states[i].current_status)
}

/// What the Audio Gateway tells where it waits for nothing more.
pub open spec fn completion(ag: AgModel) -> Seq<EventModel> {
    if ag.remaining_slc_setup_features.is_empty() {
        seq![EventModel::SlcComplete]
    } else {
        seq![]
    }
}

/// The values of the indicators.
proof fn lemma_cind_read(hf: HfModel, ag: AgModel, he: Seq<EventModel>, ae: Seq<EventModel>)
    requires
        settled(hf, ag),
        ag.ag_indicators.len() > 0,
        hf.ag_indicators == fresh_all(ag.ag_indicators),
    ensures
        conversation::round(talk(hf, ag, "AT+CIND?"@, SlcStep::CindRead, he, ae)) == talk(
            HfModel { ag_indicators: learned(ag.ag_indicators), ..hf },
            ag,
            "AT+CMER=3,,,1"@,
            SlcStep::Cmer,
            he,
            ae + completion(ag),
        ),
{
    let states = ag.ag_indicators;
    let command = "AT+CIND?"@;
    reveal_strlit("CIND");
    reveal_strlit("+CIND");
    reveal_strlit("+CIND: ");
    reveal_strlit(": ");
    reveal_strlit("AT+CIND?");
    reveal_strlit("AT+");
    reveal_strlit("AT");
    reveal_strlit("?");
    assert("+CIND: "@ =~= "+CIND"@ + ": "@);
    assert(command =~= "AT+"@ + "CIND"@ + "?"@);
    exchange::lemma_mnemonics();
    reading::lemma_read_read("CIND"@);
    reading::lemma_encode_len(command);
    assert(laws::fits_line(command));
    let c = AtCommandModel { code: "CIND"@, sub_code: AtSubCode::Read, parameters: seq![] };
    exchange::lemma_dispatch(ag, c);
    let numbers = statuses(states);
    assert(gateway::status_texts(states) =~= exchange::number_parts(numbers));
    let line = "+CIND: "@ + text::joined(gateway::status_texts(states));
    let texts = seq![line];
    lemma_plain_code("+CIND"@);
    exchange::lemma_number_response("+CIND"@, numbers);
    let p = at::laws::meaning_all(exchange::number_items(numbers));
    let r = AtResponseModel { code: "+CIND"@, parameters: p };
    assert(command =~= "AT"@ + "+CIND"@ + "?"@);
    conversation::lemma_mentions("AT"@, "+CIND"@, "?"@);
    conversation::lemma_said(line);
    reveal(gateway::on_cind_read);
    let given = gateway::on_line(ag, utf8::encode_utf8(command));
    assert(given.1 =~= TurnModel {
        outgoing: conversation::response_frames(texts.push("OK"@)),
        events: completion(ag),
    });
    lemma_next(hf, ag, he, ae, command, SlcStep::CindRead, texts, seq![r], ag, completion(ag));
    assert(hands_free::with_values(hf.ag_indicators, p) =~= learned(states)) by {
        assert forall|i: int| 0 <= i < states.len() implies #[trigger] hands_free::with_values(
            hf.ag_indicators,
            p,
        )[i] == learned(states)[i] by {
            assert(p[i].number() == Some(numbers[i]));
        }
    }
    reveal(hands_free::advance);
    assert(hands_free::advance(hf, SlcStep::CindRead, seq![r]) == hands_free::step_to(
        HfModel { ag_indicators: learned(states), ..hf },
        "AT+CMER=3,,,1"@,
        SlcStep::Cmer,
    ));
}

// ---------------------------------------------------------------------------
// Reports
// ---------------------------------------------------------------------------

/// The command that starts the exchange of the indicators of the Hands-Free.
pub open spec fn bind_command(hf: HfModel) -> Seq<char> {
    "AT+BIND="@ + text::joined(indicator::indicator_numbers(hf.hf_indicators.listed()))
}

/// A conversation that goes on with the indicators of the Hands-Free, or is
/// over.
pub open spec fn bind_or_done(
    hf: HfModel,
    ag: AgModel,
    he: Seq<EventModel>,
    ae: Seq<EventModel>,
) -> Talk {
    if hf.share(hf_feature::HF_INDICATORS, ag_feature::HF_INDICATORS) {
        talk(hf, ag, bind_command(hf), SlcStep::Bind, he, ae)
    } else {
        done(hf, ag, he, ae)
    }
}

/// The parameters that ask for reports: two of them are empty.
proof fn lemma_cmer_command()
    ensures
        at::command_of(utf8::encode_utf8("AT+CMER=3,,,1"@)) is Ok,
        ({
            let c = at::command_of(utf8::encode_utf8("AT+CMER=3,,,1"@))->Ok_0;
            &&& c.code == "CMER"@
            &&& c.sub_code == AtSubCode::Write
            &&& call::number_at(c.parameters, 0) == Some(3u32)
            &&& call::number_at(c.parameters, 1) is None
            &&& call::number_at(c.parameters, 2) is None
            &&& call::number_at(c.parameters, 3) == Some(1u32)
        }),
        utf8::encode_utf8("AT+CMER=3,,,1"@).len() > 0,
        laws::fits_line("AT+CMER=3,,,1"@),
{
    reveal_strlit("CMER");
    reveal_strlit("AT+CMER=3,,,1");
    reveal_strlit("AT+");
    reveal_strlit("=");
    reveal_strlit(",");
    let none: Seq<char> = seq![];
    let three = text::decimal(3);
    let one = text::decimal(1);
    assert(three =~= seq!['3']);
    assert(one =~= seq!['1']);
    let parts = seq![three, none, none, one];
    let empty = Written::Bare(seq![]);
    let items = seq![reading::number_item(3), empty, empty, reading::number_item(1)];
    reading::lemma_number_item(3);
    reading::lemma_number_item(1);
    assert forall|i: int| 0 <= i < parts.len() implies utf8::encode_utf8(#[trigger] parts[i])
        == items[i].wire() && items[i].writable() by {
        assert(i == 0 || i == 1 || i == 2 || i == 3);
        assert(utf8::encode_utf8(none) =~= seq![]);
    }
    let p3 = parts.drop_last();
    let p2 = p3.drop_last();
    let p1 = p2.drop_last();
    assert(p1 =~= seq![three]);
    assert(text::joined(p1) == three);
    assert(text::joined(p2) =~= three + ","@ + none);
    assert(text::joined(p3) =~= three + ","@ + none + ","@ + none);
    assert(text::joined(parts) =~= three + ","@ + none + ","@ + none + ","@ + one);
    assert("AT+CMER=3,,,1"@ =~= "AT+"@ + "CMER"@ + "="@ + text::joined(parts));
    exchange::lemma_mnemonics();
    exchange::lemma_wire_starts(items);
    reading::lemma_write_read("CMER"@, parts, items);
    reading::lemma_meanings(items);
    let p = at::laws::meaning_all(items);
    assert(p[0] == items[0].meaning());
    assert(p[1] == items[1].meaning());
    assert(p[2] == items[2].meaning());
    assert(p[3] == items[3].meaning());
    let nothing: Seq<u8> = seq![];
    assert(text::u32_of(nothing) is None);
    reading::lemma_encode_len("AT+CMER=3,,,1"@);
}

/// Reports of changes.
proof fn lemma_cmer(hf: HfModel, ag: AgModel, he: Seq<EventModel>, ae: Seq<EventModel>)
    requires
        settled(hf, ag),
    ensures
        ({
            let t = conversation::round(
                talk(hf, ag, "AT+CMER=3,,,1"@, SlcStep::Cmer, he, ae),
            );
            let after = AgModel { indicator_report_enabled: true, ..ag };
            if hf.share(hf_feature::THREE_WAY_CALLING, ag_feature::THREE_WAY_CALLING) {
                t == talk(hf, after, "AT+CHLD=?"@, SlcStep::ChldTest, he, ae)
            } else {
                t == bind_or_done(hf, after, he, ae)
            }
        }),
{
    let command = "AT+CMER=3,,,1"@;
    lemma_cmer_command();
    let c = at::command_of(utf8::encode_utf8(command))->Ok_0;
    exchange::lemma_dispatch(ag, c);
    reveal(gateway::on_cmer);
    let texts = Seq::<Seq<char>>::empty();
    conversation::lemma_said(seq![]);
    let given = gateway::on_line(ag, utf8::encode_utf8(command));
    assert(given.1 =~= TurnModel {
        outgoing: conversation::response_frames(texts.push("OK"@)),
        events: seq![],
    });
    lemma_next(hf, ag, he, ae, command, SlcStep::Cmer, texts, seq![], given.0, seq![]);
    assert(ae + Seq::<EventModel>::empty() =~= ae);
    reveal(hands_free::advance);
    let next = hands_free::advance(hf, SlcStep::Cmer, seq![]);
    if hf.share(hf_feature::THREE_WAY_CALLING, ag_feature::THREE_WAY_CALLING) {
        assert(next == hands_free::step_to(hf, "AT+CHLD=?"@, SlcStep::ChldTest));
    } else {
        lemma_bind_or_finish(hf, next);
    }
}

/// What the end of the calls part leads to.
proof fn lemma_bind_or_finish(hf: HfModel, next: (HfModel, TurnModel))
    requires
        next == hands_free::bind_or_finish(hf),
    ensures
        if hf.share(hf_feature::HF_INDICATORS, ag_feature::HF_INDICATORS) {
            next == hands_free::step_to(hf, bind_command(hf), SlcStep::Bind)
        } else {
            next == hands_free::finish(hf)
        },
{
}

// ---------------------------------------------------------------------------
// Call-hold operations
// ---------------------------------------------------------------------------

/// Operations, as they are written.
spec fn operation_items(operations: Seq<CallHoldOperation>) -> Seq<Written> {
    Seq::new(
        operations.len(),
        |i: int| Written::Bare(utf8::encode_utf8(operations[i].code_text())),
    )
}

/// The code of an operation is made of ordinary characters.
proof fn lemma_code_is_ordinary(operation: CallHoldOperation)
    ensures
        at::laws::all_ordinary(utf8::encode_utf8(operation.code_text())),
        laws::fits_line(operation.code_text()),
{
    reveal_strlit("0");
    reveal_strlit("1");
    reveal_strlit("1x");
    reveal_strlit("2");
    reveal_strlit("2x");
    reveal_strlit("3");
    reveal_strlit("4");
    let code = operation.code_text();
    let raw = utf8::encode_utf8(code);
    assert(utf8::is_ascii_chars(code));
    utf8::is_ascii_chars_encode_utf8(code);
    assert forall|i: int| 0 <= i < raw.len() implies at::laws::is_ordinary(#[trigger] raw[i]) by {
        assert(code[i] as u8 == raw[i]);
    }
}

/// The codes of operations are read as the operations.
proof fn lemma_operations_read(
    operations: Seq<CallHoldOperation>,
    codes: Seq<AtParameterModel>,
)
    requires
        codes.len() == operations.len(),
        forall|i: int|
            0 <= i < operations.len() ==> (#[trigger] codes[i]) == AtParameterModel::Value(
                utf8::encode_utf8(operations[i].code_text()),
            ),
    ensures
        hands_free::operations_in(codes) == operations,
    decreases operations.len(),
{
    if operations.len() == 0 {
        assert(hands_free::operations_in(codes) =~= operations);
    } else {
        let n = operations.len() - 1;
        let q = codes.drop_last();
        let before = operations.drop_last();
        assert forall|i: int| 0 <= i < before.len() implies (#[trigger] q[i])
            == AtParameterModel::Value(utf8::encode_utf8(before[i].code_text())) by {
            assert(codes[i] is Value);
        }
        lemma_operations_read(before, q);
        assert(codes[n] is Value);
        text::lemma_text_round_trip(operations[n].code_text());
        values::law_codes_round_trip(operations[n]);
        assert(hands_free::operations_in(codes) =~= operations);
    }
}

/// The call-hold operations.
proof fn lemma_chld(hf: HfModel, ag: AgModel, he: Seq<EventModel>, ae: Seq<EventModel>)
    requires
        settled(hf, ag),
        ag.ag_has(ag_feature::THREE_WAY_CALLING),
    ensures
        ({
            let after = AgModel {
                remaining_slc_setup_features: ag.remaining_slc_setup_features.remove(
                    hf_feature::THREE_WAY_CALLING,
                ),
                ..ag
            };
            let told = HfModel {
                supported_ag_call_hold_operations: ag.supported_ag_call_hold_operations,
                ..hf
            };
            conversation::round(talk(hf, ag, "AT+CHLD=?"@, SlcStep::ChldTest, he, ae))
                == bind_or_done(told, after, he, ae + completion(after))
        }),
{
    let operations = ag.supported_ag_call_hold_operations;
    let command = "AT+CHLD=?"@;
    reveal_strlit("CHLD");
    reveal_strlit("+CHLD");
    reveal_strlit("+CHLD: (");
    reveal_strlit(": ");
    reveal_strlit("AT+CHLD=?");
    reveal_strlit("AT+");
    reveal_strlit("AT");
    reveal_strlit("=?");
    reveal_strlit("(");
    assert(command =~= "AT+"@ + "CHLD"@ + "=?"@);
    exchange::lemma_mnemonics();
    reading::lemma_test_read("CHLD"@);
    reading::lemma_encode_len(command);
    assert(laws::fits_line(command));
    let c = AtCommandModel { code: "CHLD"@, sub_code: AtSubCode::Test, parameters: seq![] };
    exchange::lemma_dispatch(ag, c);
    let parts = gateway::operation_codes(operations);
    let items = operation_items(operations);
    assert forall|i: int| 0 <= i < parts.len() implies utf8::encode_utf8(#[trigger] parts[i])
        == items[i].wire() && items[i].writable() by {
        lemma_code_is_ordinary(operations[i]);
    }
    assert forall|i: int| 0 <= i < parts.len() implies laws::fits_line(#[trigger] parts[i]) by {
        lemma_code_is_ordinary(operations[i]);
    }
    exchange::lemma_fits_joined(parts);
    indicator_laws::lemma_group(parts, items);
    indicator_laws::lemma_parenthesized(text::joined(parts));
    let group = Written::Group(items);
    let list = "("@ + text::joined(parts) + ")"@;
    let line = "+CHLD: ("@ + text::joined(parts) + ")"@;
    assert(line =~= "+CHLD"@ + ": "@ + text::joined(seq![list]));
    lemma_plain_code("+CHLD"@);
    assert(laws::fits_line(": "@));
    exchange::lemma_fits_add("+CHLD"@, ": "@);
    exchange::lemma_fits_add("+CHLD"@ + ": "@, list);
    reading::lemma_encode_len(line);
    reading::lemma_response_read("+CHLD"@, seq![list], seq![group]);
    reading::lemma_meanings(seq![group]);
    reading::lemma_meanings(items);
    let p = at::laws::meaning_all(seq![group]);
    assert(p[0] == group.meaning());
    if operations.len() == 0 {
        let empty = seq![AtParameterModel::Value(seq![])];
        assert(p[0] == AtParameterModel::List(empty));
        assert(empty.drop_last() =~= seq![]);
        assert(hands_free::operations_in(empty.drop_last()) =~= seq![]);
        let none: Seq<char> = seq![];
        text::lemma_text_round_trip(none);
        assert(utf8::encode_utf8(none) =~= seq![]);
        assert(empty.last().text() == Some(none));
        lemma_no_empty_code(none);
        assert(hands_free::operations_in(empty) =~= operations);
    } else {
        let codes = at::laws::meaning_all(items);
        assert forall|i: int| 0 <= i < operations.len() implies (#[trigger] codes[i])
            == AtParameterModel::Value(utf8::encode_utf8(operations[i].code_text())) by {
            assert(codes[i] == items[i].meaning());
        }
        lemma_operations_read(operations, codes);
    }
    let r = AtResponseModel { code: "+CHLD"@, parameters: p };
    let texts = seq![line];
    assert(command =~= "AT"@ + "+CHLD"@ + "=?"@);
    conversation::lemma_mentions("AT"@, "+CHLD"@, "=?"@);
    conversation::lemma_said(line);
    reveal(gateway::on_chld_test);
    let given = gateway::on_line(ag, utf8::encode_utf8(command));
    assert(given.1 =~= TurnModel {
        outgoing: conversation::response_frames(texts.push("OK"@)),
        events: completion(given.0),
    });
    lemma_next(
        hf,
        ag,
        he,
        ae,
        command,
        SlcStep::ChldTest,
        texts,
        seq![r],
        given.0,
        completion(given.0),
    );
    reveal(hands_free::advance);
    let told = HfModel { supported_ag_call_hold_operations: operations, ..hf };
    lemma_bind_or_finish(told, hands_free::advance(hf, SlcStep::ChldTest, seq![r]));
}

/// No operation has an empty code.
proof fn lemma_no_empty_code(code: Seq<char>)
    requires
        code.len() == 0,
    ensures
        CallHoldOperation::coded(code) is None,
{
    reveal_strlit("0");
    reveal_strlit("1");
    reveal_strlit("1x");
    reveal_strlit("2");
    reveal_strlit("2x");
    reveal_strlit("3");
    reveal_strlit("4");
    assert("0"@.len() == 1 && "1"@.len() == 1 && "2"@.len() == 1 && "3"@.len() == 1);
    assert("4"@.len() == 1 && "1x"@.len() == 2 && "2x"@.len() == 2);
}

// ---------------------------------------------------------------------------
// Indicators of the Hands-Free
// ---------------------------------------------------------------------------

/// The numbers of indicators.
spec fn indicator_values(indicators: Seq<HfIndicator>) -> Seq<u32> {
    Seq::new(indicators.len(), |i: int| indicators[i].number() as u32)
}

/// The parameters that list indicators.
spec fn indicator_parameters(indicators: Seq<HfIndicator>) -> Seq<AtParameterModel> {
    at::laws::meaning_all(exchange::number_items(indicator_values(indicators)))
}

/// A list of indicators holds those that it was made of.
proof fn lemma_listed(indicators: Seq<HfIndicator>, indicator: HfIndicator)
    ensures
        gateway::lists_indicator(indicator_parameters(indicators), indicator)
            == indicators.contains(indicator),
        hands_free::lists_number(indicator_parameters(indicators), indicator.number() as u32)
            == indicators.contains(indicator),
{
    let numbers = indicator_values(indicators);
    let p = indicator_parameters(indicators);
    exchange::lemma_numbers(numbers);
    values::law_numbers_round_trip();
    if indicators.contains(indicator) {
        let i = choose|i: int| 0 <= i < indicators.len() && indicators[i] == indicator;
        assert(p[i].number() == Some(numbers[i]));
        assert(HfIndicator::numbered(indicator.number()) == Some(indicator));
    }
    if gateway::lists_indicator(p, indicator) {
        let i = choose|i: int|
            0 <= i < p.len() && (#[trigger] p[i]).number() is Some && HfIndicator::numbered(
                p[i].number()->0 as u8,
            ) == Some(indicator);
        assert(p[i].number() == Some(numbers[i]));
        assert(HfIndicator::numbered(indicators[i].number()) == Some(indicators[i]));
    }
    if hands_free::lists_number(p, indicator.number() as u32) {
        let i = choose|i: int|
            0 <= i < p.len() && (#[trigger] p[i]).number() == Some(indicator.number() as u32);
        assert(p[i].number() == Some(numbers[i]));
        assert(HfIndicator::numbered(indicators[i].number()) == Some(indicators[i]));
        assert(HfIndicator::numbered(indicator.number()) == Some(indicator));
    }
}

/// The indicators that are listed are those that something is kept for.
proof fn lemma_kept(m: HfIndicators, indicator: HfIndicator)
    ensures
        m.listed().contains(indicator) == m.at(indicator) is Some,
{
    let all = m.listed();
    if m.enhanced_safety is Some {
        assert(all[0] == HfIndicator::EnhancedSafety);
    }
    if m.battery_level is Some {
        assert(all[all.len() - 1] == HfIndicator::BatteryLevel);
    }
    if all.contains(indicator) {
        let i = choose|i: int| 0 <= i < all.len() && all[i] == indicator;
    }
}

/// The indicators of the Hands-Free.
proof fn lemma_bind(hf: HfModel, ag: AgModel, he: Seq<EventModel>, ae: Seq<EventModel>)
    requires
        settled(hf, ag),
        ag.ag_has(ag_feature::HF_INDICATORS),
    ensures
        conversation::round(talk(hf, ag, bind_command(hf), SlcStep::Bind, he, ae)) == talk(
            hf,
            AgModel {
                hf_indicators: gateway::shared_indicators(
                    ag.supported_hf_indicators,
                    indicator_parameters(hf.hf_indicators.listed()),
                ),
                ..ag
            },
            "AT+BIND=?"@,
            SlcStep::BindTest,
            he,
            ae,
        ),
{
    let listed = hf.hf_indicators.listed();
    let numbers = indicator_values(listed);
    let command = bind_command(hf);
    reveal_strlit("BIND");
    reveal_strlit("AT+BIND=");
    reveal_strlit("AT+");
    reveal_strlit("=");
    exchange::lemma_mnemonics();
    assert(indicator::indicator_numbers(listed) =~= exchange::number_parts(numbers));
    assert(command =~= "AT+"@ + "BIND"@ + "="@ + text::joined(exchange::number_parts(numbers)));
    let p = indicator_parameters(listed);
    exchange::lemma_numbers(numbers);
    if listed.len() == 0 {
        assert(text::joined(exchange::number_parts(numbers)) =~= seq![]);
        assert(command =~= "AT+"@ + "BIND"@ + "="@);
        reading::lemma_empty_write_read("BIND"@);
        assert(p =~= seq![]);
        assert(laws::fits_line("="@));
        exchange::lemma_fits_command("BIND"@, "="@);
        reading::lemma_encode_len(command);
    } else {
        exchange::lemma_number_command("BIND"@, numbers);
    }
    let c = AtCommandModel { code: "BIND"@, sub_code: AtSubCode::Write, parameters: p };
    exchange::lemma_dispatch(ag, c);
    let texts = Seq::<Seq<char>>::empty();
    conversation::lemma_said(seq![]);
    reveal(gateway::on_bind);
    let given = gateway::on_line(ag, utf8::encode_utf8(command));
    assert(given.1 =~= TurnModel {
        outgoing: conversation::response_frames(texts.push("OK"@)),
        events: seq![],
    });
    lemma_next(hf, ag, he, ae, command, SlcStep::Bind, texts, seq![], given.0, seq![]);
    assert(ae + Seq::<EventModel>::empty() =~= ae);
    reveal(hands_free::advance);
    assert(hands_free::advance(hf, SlcStep::Bind, seq![]) == hands_free::step_to(
        hf,
        "AT+BIND=?"@,
        SlcStep::BindTest,
    ));
}

/// An indicator of the Hands-Free, supported if a list holds it.
spec fn supported_if(state: Option<HfIndicatorState>, listed: bool) -> Option<HfIndicatorState> {
    match state {
        Some(state) => Some(
            HfIndicatorState { supported: state.supported || listed, ..state },
        ),
        None => None,
    }
}

/// Indicators of the Hands-Free, supported if a list holds them.
spec fn supported_in(m: HfIndicators, supported: Seq<HfIndicator>) -> HfIndicators {
    HfIndicators {
        enhanced_safety: supported_if(
            m.enhanced_safety,
            supported.contains(HfIndicator::EnhancedSafety),
        ),
        battery_level: supported_if(
            m.battery_level,
            supported.contains(HfIndicator::BatteryLevel),
        ),
    }
}

/// The indicators that the Audio Gateway takes.
proof fn lemma_bind_test(hf: HfModel, ag: AgModel, he: Seq<EventModel>, ae: Seq<EventModel>)
    requires
        settled(hf, ag),
        ag.ag_has(ag_feature::HF_INDICATORS),
    ensures
        conversation::round(talk(hf, ag, "AT+BIND=?"@, SlcStep::BindTest, he, ae)) == talk(
            HfModel {
                hf_indicators: supported_in(hf.hf_indicators, ag.supported_hf_indicators),
                ..hf
            },
            ag,
            "AT+BIND?"@,
            SlcStep::BindRead,
            he,
            ae,
        ),
{
    let supported = ag.supported_hf_indicators;
    let numbers = indicator_values(supported);
    let command = "AT+BIND=?"@;
    reveal_strlit("BIND");
    reveal_strlit("+BIND");
    reveal_strlit("+BIND: (");
    reveal_strlit(": ");
    reveal_strlit("AT+BIND=?");
    reveal_strlit("AT+");
    reveal_strlit("AT");
    reveal_strlit("=?");
    reveal_strlit("(");
    assert(command =~= "AT+"@ + "BIND"@ + "=?"@);
    exchange::lemma_mnemonics();
    reading::lemma_test_read("BIND"@);
    reading::lemma_encode_len(command);
    assert(laws::fits_line(command));
    let c = AtCommandModel { code: "BIND"@, sub_code: AtSubCode::Test, parameters: seq![] };
    exchange::lemma_dispatch(ag, c);
    let parts = exchange::number_parts(numbers);
    let items = exchange::number_items(numbers);
    assert(indicator::indicator_numbers(supported) =~= parts);
    exchange::lemma_numbers(numbers);
    indicator_laws::lemma_group(parts, items);
    indicator_laws::lemma_parenthesized(text::joined(parts));
    let group = Written::Group(items);
    let list = "("@ + text::joined(parts) + ")"@;
    let line = "+BIND: ("@ + text::joined(parts) + ")"@;
    assert(line =~= "+BIND"@ + ": "@ + text::joined(seq![list]));
    lemma_plain_code("+BIND"@);
    assert(laws::fits_line(": "@));
    exchange::lemma_fits_add("+BIND"@, ": "@);
    exchange::lemma_fits_add("+BIND"@ + ": "@, list);
    reading::lemma_encode_len(line);
    reading::lemma_response_read("+BIND"@, seq![list], seq![group]);
    reading::lemma_meanings(seq![group]);
    let p = at::laws::meaning_all(seq![group]);
    assert(p[0] == group.meaning());
    let inner = p[0]->List_0;
    assert forall|indicator: HfIndicator|
        hands_free::lists_number(inner, indicator.number() as u32) == #[trigger] supported.contains(
            indicator,
        ) by {
        if supported.len() == 0 {
            assert(inner =~= seq![AtParameterModel::Value(seq![])]);
            let nothing: Seq<u8> = seq![];
            assert(text::u32_of(nothing) is None);
            if hands_free::lists_number(inner, indicator.number() as u32) {
                let i = choose|i: int|
                    0 <= i < inner.len() && (#[trigger] inner[i]).number() == Some(
                        indicator.number() as u32,
                    );
                assert(i == 0);
            }
        } else {
            lemma_listed(supported, indicator);
        }
    }
    let r = AtResponseModel { code: "+BIND"@, parameters: p };
    let texts = seq![line];
    assert(command =~= "AT"@ + "+BIND"@ + "=?"@);
    conversation::lemma_mentions("AT"@, "+BIND"@, "=?"@);
    conversation::lemma_said(line);
    reveal(gateway::on_bind_test);
    let given = gateway::on_line(ag, utf8::encode_utf8(command));
    assert(given.1 =~= TurnModel {
        outgoing: conversation::response_frames(texts.push("OK"@)),
        events: seq![],
    });
    lemma_next(hf, ag, he, ae, command, SlcStep::BindTest, texts, seq![r], given.0, seq![]);
    assert(ae + Seq::<EventModel>::empty() =~= ae);
    reveal(hands_free::advance);
    assert(supported.contains(HfIndicator::EnhancedSafety) == hands_free::lists_number(
        inner,
        HfIndicator::EnhancedSafety.number() as u32,
    ));
    assert(supported.contains(HfIndicator::BatteryLevel) == hands_free::lists_number(
        inner,
        HfIndicator::BatteryLevel.number() as u32,
    ));
    assert(hands_free::with_supported(hf.hf_indicators, inner) == supported_in(
        hf.hf_indicators,
        supported,
    ));
    assert(hands_free::advance(hf, SlcStep::BindTest, seq![r]) == hands_free::step_to(
        HfModel { hf_indicators: supported_in(hf.hf_indicators, supported), ..hf },
        "AT+BIND?"@,
        SlcStep::BindRead,
    ));
}

/// The responses that tell which indicators are enabled.
spec fn enabled_texts(states: Seq<(HfIndicator, HfIndicatorState)>) -> Seq<Seq<char>> {
    Seq::new(
        states.len(),
        |i: int| "+BIND: "@ + text::decimal(states[i].0.number() as nat) + ",1"@,
    )
}

/// The parameters of such a response.
spec fn enabled_parameters(indicator: HfIndicator) -> Seq<AtParameterModel> {
    at::laws::meaning_all(exchange::number_items(seq![indicator.number() as u32, 1u32]))
}

/// Such responses.
spec fn enabled_responses(states: Seq<(HfIndicator, HfIndicatorState)>) -> Seq<AtResponseModel> {
    Seq::new(
        states.len(),
        |i: int|
            AtResponseModel { code: "+BIND"@, parameters: enabled_parameters(states[i].0) },
    )
}

/// Whether a list of states holds an indicator.
spec fn holds(states: Seq<(HfIndicator, HfIndicatorState)>, indicator: HfIndicator) -> bool {
    exists|i: int| 0 <= i < states.len() && (#[trigger] states[i]).0 == indicator
}

/// An indicator of the Hands-Free, enabled if it is told to be.
spec fn enabled_if(state: Option<HfIndicatorState>, told: bool) -> Option<HfIndicatorState> {
    match state {
        Some(state) => Some(HfIndicatorState { enabled: state.enabled || told, ..state }),
        None => None,
    }
}

/// Indicators are enabled as responses tell.
proof fn lemma_enabled(m: HfIndicators, states: Seq<(HfIndicator, HfIndicatorState)>)
    ensures
        ({
            let after = hands_free::with_all_enabled(m, enabled_responses(states));
            &&& after.enhanced_safety == enabled_if(
                m.enhanced_safety,
                holds(states, HfIndicator::EnhancedSafety),
            )
            &&& after.battery_level == enabled_if(
                m.battery_level,
                holds(states, HfIndicator::BatteryLevel),
            )
        }),
    decreases states.len(),
{
    let responses = enabled_responses(states);
    if states.len() > 0 {
        let n = states.len() - 1;
        let before = states.drop_last();
        let last = states[n].0;
        assert(responses.drop_last() =~= enabled_responses(before));
        lemma_enabled(m, before);
        let mid = hands_free::with_all_enabled(m, enabled_responses(before));
        let numbers = seq![last.number() as u32, 1u32];
        exchange::lemma_numbers(numbers);
        let p = enabled_parameters(last);
        assert(p[0].number() == Some(numbers[0]));
        assert(p[1].number() == Some(numbers[1]));
        values::law_numbers_round_trip();
        assert(HfIndicator::numbered(last.number()) == Some(last));
        assert forall|x: HfIndicator| #[trigger] holds(states, x) == (holds(before, x) || x
            == last) by {
            if holds(states, x) {
                let i = choose|i: int| 0 <= i < states.len() && (#[trigger] states[i]).0 == x;
                if i < n {
                    assert(before[i].0 == x);
                }
            }
            if holds(before, x) {
                let i = choose|i: int| 0 <= i < before.len() && (#[trigger] before[i]).0 == x;
                assert(states[i].0 == x);
            }
            assert(states[n].0 == last);
        }
        assert(holds(states, HfIndicator::EnhancedSafety) == (holds(
            before,
            HfIndicator::EnhancedSafety,
        ) || HfIndicator::EnhancedSafety == last));
        assert(holds(states, HfIndicator::BatteryLevel) == (holds(
            before,
            HfIndicator::BatteryLevel,
        ) || HfIndicator::BatteryLevel == last));
    }
}

/// The indicators that are shared are those of the list that are supported.
proof fn lemma_shared(supported: Seq<HfIndicator>, p: Seq<AtParameterModel>, x: HfIndicator)
    ensures
        holds(gateway::shared_indicators(supported, p), x) == (supported.contains(x)
            && gateway::lists_indicator(p, x)),
    decreases supported.len(),
{
    let all = gateway::shared_indicators(supported, p);
    if supported.len() > 0 {
        let before = supported.drop_last();
        let last = supported.last();
        let first = gateway::shared_indicators(before, p);
        lemma_shared(before, p, x);
        if supported.contains(x) {
            let i = choose|i: int| 0 <= i < supported.len() && supported[i] == x;
            if i < before.len() {
                assert(before[i] == x);
            }
        }
        if before.contains(x) {
            let i = choose|i: int| 0 <= i < before.len() && before[i] == x;
            assert(supported[i] == x);
        }
        assert(supported[supported.len() - 1] == last);
        if holds(first, x) {
            let i = choose|i: int| 0 <= i < first.len() && (#[trigger] first[i]).0 == x;
            assert(all[i].0 == x);
        }
        if gateway::lists_indicator(p, last) {
            assert(all[first.len() as int].0 == last);
        }
        if holds(all, x) {
            let i = choose|i: int| 0 <= i < all.len() && (#[trigger] all[i]).0 == x;
            if i < first.len() {
                assert(first[i].0 == x);
            }
        }
    }
}

/// What is known of an indicator of the Hands-Free at the end: it is supported
/// and enabled if the Audio Gateway takes it.
pub open spec fn taken_if(state: Option<HfIndicatorState>, taken: bool) -> Option<
    HfIndicatorState,
> {
    match state {
        Some(state) => Some(
            HfIndicatorState {
                supported: state.supported || taken,
                enabled: state.enabled || taken,
                ..state
            },
        ),
        None => None,
    }
}

/// What is known of the indicators of the Hands-Free at the end.
pub open spec fn taken_in(m: HfIndicators, supported: Seq<HfIndicator>) -> HfIndicators {
    HfIndicators {
        enhanced_safety: taken_if(
            m.enhanced_safety,
            supported.contains(HfIndicator::EnhancedSafety),
        ),
        battery_level: taken_if(m.battery_level, supported.contains(HfIndicator::BatteryLevel)),
    }
}

/// The indicators that are enabled.
proof fn lemma_bind_read(
    hf: HfModel,
    start: HfIndicators,
    ag: AgModel,
    he: Seq<EventModel>,
    ae: Seq<EventModel>,
)
    requires
        settled(hf, ag),
        ag.ag_has(ag_feature::HF_INDICATORS),
        hf.hf_indicators == supported_in(start, ag.supported_hf_indicators),
        ag.hf_indicators == gateway::shared_indicators(
            ag.supported_hf_indicators,
            indicator_parameters(start.listed()),
        ),
    ensures
        ({
            let after = AgModel {
                remaining_slc_setup_features: ag.remaining_slc_setup_features.remove(
                    hf_feature::HF_INDICATORS,
                ),
                ..ag
            };
            conversation::round(talk(hf, ag, "AT+BIND?"@, SlcStep::BindRead, he, ae)) == done(
                HfModel { hf_indicators: taken_in(start, ag.supported_hf_indicators), ..hf },
                after,
                he,
                ae + completion(after),
            )
        }),
{
    let states = ag.hf_indicators;
    let command = "AT+BIND?"@;
    reveal_strlit("BIND");
    reveal_strlit("+BIND");
    reveal_strlit("+BIND: ");
    reveal_strlit(": ");
    reveal_strlit("AT+BIND?");
    reveal_strlit("AT+");
    reveal_strlit("AT");
    reveal_strlit("?");
    reveal_strlit(",1");
    reveal_strlit(",");
    assert("+BIND: "@ =~= "+BIND"@ + ": "@);
    assert(command =~= "AT+"@ + "BIND"@ + "?"@);
    exchange::lemma_mnemonics();
    reading::lemma_read_read("BIND"@);
    reading::lemma_encode_len(command);
    assert(laws::fits_line(command));
    let c = AtCommandModel { code: "BIND"@, sub_code: AtSubCode::Read, parameters: seq![] };
    exchange::lemma_dispatch(ag, c);
    let texts = enabled_texts(states);
    let responses = enabled_responses(states);
    assert(command =~= "AT"@ + "+BIND"@ + "?"@);
    conversation::lemma_mentions("AT"@, "+BIND"@, "?"@);
    lemma_plain_code("+BIND"@);
    assert(conversation::answers(command, texts, responses)) by {
        assert forall|i: int| 0 <= i < texts.len() implies {
            &&& laws::fits_line(#[trigger] texts[i])
            &&& utf8::encode_utf8(texts[i]).len() > 0
            &&& at::response_of(utf8::encode_utf8(texts[i])) == Ok::<AtResponseModel, Seq<char>>(
                responses[i],
            )
            &&& hands_free::mentions(command, responses[i].code)
            &&& !hands_free::is_status(responses[i].code)
        } by {
            let n = states[i].0.number() as u32;
            exchange::lemma_number_response("+BIND"@, seq![n, 1u32]);
            exchange::lemma_two_numbers(n, 1);
            assert(text::decimal(1) =~= seq!['1']);
            assert(texts[i] =~= "+BIND"@ + ": "@ + text::joined(
                exchange::number_parts(seq![n, 1u32]),
            ));
        }
    }
    reveal(gateway::on_bind_read);
    let given = gateway::on_line(ag, utf8::encode_utf8(command));
    assert(given.1 =~= TurnModel {
        outgoing: conversation::response_frames(texts.push("OK"@)),
        events: completion(given.0),
    });
    lemma_next(
        hf,
        ag,
        he,
        ae,
        command,
        SlcStep::BindRead,
        texts,
        responses,
        given.0,
        completion(given.0),
    );
    reveal(hands_free::advance);
    lemma_enabled(hf.hf_indicators, states);
    let supported = ag.supported_hf_indicators;
    let listed = start.listed();
    lemma_shared(supported, indicator_parameters(listed), HfIndicator::EnhancedSafety);
    lemma_shared(supported, indicator_parameters(listed), HfIndicator::BatteryLevel);
    lemma_listed(listed, HfIndicator::EnhancedSafety);
    lemma_listed(listed, HfIndicator::BatteryLevel);
    lemma_kept(start, HfIndicator::EnhancedSafety);
    lemma_kept(start, HfIndicator::BatteryLevel);
    let known = HfModel { hf_indicators: taken_in(start, supported), ..hf };
    assert(hands_free::with_all_enabled(hf.hf_indicators, responses) == known.hf_indicators);
    assert(hands_free::advance(hf, SlcStep::BindRead, responses) == hands_free::finish(known));
}

// ---------------------------------------------------------------------------
// The procedure
// ---------------------------------------------------------------------------

/// Whether both sides have a feature.
pub open spec fn both_have(hf: HfModel, ag: AgModel, hf_bit: u32, ag_bit: u32) -> bool {
    hf.supported_hf_features & hf_bit != 0 && ag.supported_ag_features & ag_bit != 0
}

/// Whether both sides negotiate codecs.
pub open spec fn both_negotiate(hf: HfModel, ag: AgModel) -> bool {
    both_have(hf, ag, hf_feature::CODEC_NEGOTIATION, ag_feature::CODEC_NEGOTIATION)
}

/// Whether both sides do three-way calling.
pub open spec fn both_hold(hf: HfModel, ag: AgModel) -> bool {
    both_have(hf, ag, hf_feature::THREE_WAY_CALLING, ag_feature::THREE_WAY_CALLING)
}

/// Whether both sides exchange the indicators of the Hands-Free.
pub open spec fn both_indicate(hf: HfModel, ag: AgModel) -> bool {
    both_have(hf, ag, hf_feature::HF_INDICATORS, ag_feature::HF_INDICATORS)
}

/// How many commands the procedure takes.
pub open spec fn slc_length(hf: HfModel, ag: AgModel) -> nat {
    4 + (if both_negotiate(hf, ag) {
        1nat
    } else {
        0nat
    }) + (if both_hold(hf, ag) {
        1nat
    } else {
        0nat
    }) + (if both_indicate(hf, ag) {
        3nat
    } else {
        0nat
    })
}

/// A conversation that the procedure has just been started in.
pub open spec fn started(hf: HfModel, ag: AgModel) -> Talk {
    talk(hf, ag, brsf_command(hf.supported_hf_features), SlcStep::Brsf, seq![], seq![])
}

/// One more round.
proof fn lemma_one_more(t: Talk, n: nat, reached: Talk, next: Talk)
    requires
        conversation::rounds(t, n) == reached,
        conversation::round(reached) == next,
    ensures
        conversation::rounds(t, n + 1) == next,
{
}

/// The part of the procedure up to the reports of changes.
proof fn lemma_first_part(hf: HfModel, ag: AgModel) -> (r: (HfModel, AgModel, Seq<EventModel>))
    requires
        settled(hf, ag),
        ag.remaining_slc_setup_features.is_empty(),
        listable(ag.ag_indicators),
    ensures
        conversation::rounds(
            started(hf, ag),
            if both_negotiate(hf, ag) {
                4nat
            } else {
                3nat
            },
        ) == talk(r.0, r.1, "AT+CMER=3,,,1"@, SlcStep::Cmer, seq![], r.2),
        r.0 == (HfModel {
            supported_ag_features: ag.supported_ag_features,
            ag_indicators: learned(ag.ag_indicators),
            ..hf
        }),
        r.1 == (AgModel {
            hf_audio_codecs: if both_negotiate(hf, ag) {
                hf.supported_audio_codecs
            } else {
                ag.hf_audio_codecs
            },
            ..knowing(ag, hf.supported_hf_features)
        }),
        r.1.remaining_slc_setup_features.is_empty() ==> r.2.contains(EventModel::SlcComplete),
{
    let t0 = started(hf, ag);
    let none = Seq::<EventModel>::empty();
    lemma_brsf(hf, ag, none, none);
    let h1 = HfModel { supported_ag_features: ag.supported_ag_features, ..hf };
    let a1 = knowing(ag, hf.supported_hf_features);
    assert(h1.idle() =~= h1);
    assert(conversation::rounds(t0, 0) == t0);
    let codecs = EventModel::SupportedAudioCodecs(hf.supported_audio_codecs);
    let a2 = AgModel {
        hf_audio_codecs: if both_negotiate(hf, ag) {
            hf.supported_audio_codecs
        } else {
            ag.hf_audio_codecs
        },
        ..a1
    };
    let e2 = if both_negotiate(hf, ag) {
        none.push(codecs)
    } else {
        none
    };
    let n: nat = if both_negotiate(hf, ag) {
        2
    } else {
        1
    };
    let at_test = talk(h1, a2, "AT+CIND=?"@, SlcStep::CindTest, none, e2);
    if both_negotiate(hf, ag) {
        let at_bac = talk(
            h1,
            a1,
            bac_command(hf.supported_audio_codecs),
            SlcStep::Bac,
            none,
            none,
        );
        lemma_one_more(t0, 0, t0, at_bac);
        lemma_bac(h1, a1, none, none);
        lemma_one_more(t0, 1, at_bac, at_test);
    } else {
        assert(a2 =~= a1);
        lemma_one_more(t0, 0, t0, at_test);
    }
    lemma_cind_test(h1, a2, none, e2);
    let h3 = HfModel { ag_indicators: fresh_all(ag.ag_indicators), ..h1 };
    assert(h3.idle() =~= h3);
    let at_read = talk(h3, a2, "AT+CIND?"@, SlcStep::CindRead, none, e2);
    lemma_one_more(t0, n, at_test, at_read);
    lemma_cind_read(h3, a2, none, e2);
    let h4 = HfModel { ag_indicators: learned(ag.ag_indicators), ..h3 };
    let e4 = e2 + completion(a2);
    let at_cmer = talk(h4, a2, "AT+CMER=3,,,1"@, SlcStep::Cmer, none, e4);
    lemma_one_more(t0, n + 1, at_read, at_cmer);
    if a2.remaining_slc_setup_features.is_empty() {
        assert(e4[e2.len() as int] == EventModel::SlcComplete);
    }
    (h4, a2, e4)
}

/// The part of the procedure that exchanges the indicators of the Hands-Free,
/// where both sides do.
proof fn lemma_last_part(
    t: Talk,
    n: nat,
    hf: HfModel,
    ag: AgModel,
    ae: Seq<EventModel>,
) -> (r: (HfModel, AgModel, Seq<EventModel>))
    requires
        settled(hf, ag),
        conversation::rounds(t, n) == bind_or_done(hf, ag, seq![], ae),
        hf.share(hf_feature::HF_INDICATORS, ag_feature::HF_INDICATORS) ==> {
            &&& ag.ag_has(ag_feature::HF_INDICATORS)
            &&& forall|x: u32|
                ag.remaining_slc_setup_features.contains(x) ==> x == hf_feature::HF_INDICATORS
        },
        !hf.share(hf_feature::HF_INDICATORS, ag_feature::HF_INDICATORS) ==> ae.contains(
            EventModel::SlcComplete,
        ),
    ensures
        conversation::rounds(
            t,
            if hf.share(hf_feature::HF_INDICATORS, ag_feature::HF_INDICATORS) {
                n + 3
            } else {
                n
            },
        ) == done(r.0, r.1, seq![], r.2),
        r.0 == (HfModel {
            hf_indicators: if hf.share(hf_feature::HF_INDICATORS, ag_feature::HF_INDICATORS) {
                taken_in(hf.hf_indicators, ag.supported_hf_indicators)
            } else {
                hf.hf_indicators
            },
            ..hf
        }),
        r.1.supported_hf_features == ag.supported_hf_features,
        r.1.hf_audio_codecs == ag.hf_audio_codecs,
        r.1.indicator_report_enabled == ag.indicator_report_enabled,
        r.2.contains(EventModel::SlcComplete),
{
    let none = Seq::<EventModel>::empty();
    if hf.share(hf_feature::HF_INDICATORS, ag_feature::HF_INDICATORS) {
        let t0 = talk(hf, ag, bind_command(hf), SlcStep::Bind, none, ae);
        lemma_bind(hf, ag, none, ae);
        let a1 = AgModel {
            hf_indicators: gateway::shared_indicators(
                ag.supported_hf_indicators,
                indicator_parameters(hf.hf_indicators.listed()),
            ),
            ..ag
        };
        let t1 = talk(hf, a1, "AT+BIND=?"@, SlcStep::BindTest, none, ae);
        lemma_one_more(t, n, t0, t1);
        lemma_bind_test(hf, a1, none, ae);
        let h2 = HfModel {
            hf_indicators: supported_in(hf.hf_indicators, ag.supported_hf_indicators),
            ..hf
        };
        assert(h2.idle() =~= h2);
        let t2 = talk(h2, a1, "AT+BIND?"@, SlcStep::BindRead, none, ae);
        lemma_one_more(t, n + 1, t1, t2);
        lemma_bind_read(h2, hf.hf_indicators, a1, none, ae);
        let h3 = HfModel {
            hf_indicators: taken_in(hf.hf_indicators, ag.supported_hf_indicators),
            ..h2
        };
        let a3 = AgModel {
            remaining_slc_setup_features: ag.remaining_slc_setup_features.remove(
                hf_feature::HF_INDICATORS,
            ),
            ..a1
        };
        assert(a3.remaining_slc_setup_features =~= Set::empty());
        let e3 = ae + completion(a3);
        assert(e3[ae.len() as int] == EventModel::SlcComplete);
        lemma_one_more(t, n + 2, t2, done(h3, a3, none, e3));
        (h3, a3, e3)
    } else {
        assert(HfModel { hf_indicators: hf.hf_indicators, ..hf } =~= hf);
        (hf, ag, ae)
    }
}

/// The Service Level Connection procedure comes to its end, whatever features
/// either side has, provided that the Audio Gateway has an indicator, and that
/// each of its indicators can take a value. Each side then knows the features
/// of the other, and the Hands-Free the indicators of the Audio Gateway with
/// their values. Where both sides have the feature for it, the Audio Gateway
/// knows the codecs of the Hands-Free, and the Hands-Free the call-hold
/// operations, and which of its own indicators are taken. Both sides tell that
/// the connection is up, and nothing is left to be sent.
pub proof fn law_slc_completes(hf: HfModel, ag: AgModel)
    requires
        settled(hf, ag),
        ag.remaining_slc_setup_features.is_empty(),
        listable(ag.ag_indicators),
    ensures
        ({
            let t = conversation::rounds(started(hf, ag), slc_length(hf, ag));
            &&& t.commands.len() == 0
            &&& t.hf.slc_initialized
            &&& t.hf.pending_command is None
            &&& t.hf.supported_ag_features == ag.supported_ag_features
            &&& t.hf.ag_indicators == learned(ag.ag_indicators)
            &&& t.ag.supported_hf_features == hf.supported_hf_features
            &&& t.ag.indicator_report_enabled
            &&& both_negotiate(hf, ag) ==> t.ag.hf_audio_codecs == hf.supported_audio_codecs
            &&& both_hold(hf, ag) ==> t.hf.supported_ag_call_hold_operations
                == ag.supported_ag_call_hold_operations
            &&& both_indicate(hf, ag) ==> t.hf.hf_indicators == taken_in(
                hf.hf_indicators,
                ag.supported_hf_indicators,
            )
            &&& t.hf_events == seq![EventModel::SlcComplete]
            &&& t.ag_events.contains(EventModel::SlcComplete)
        }),
{
    let t0 = started(hf, ag);
    let none = Seq::<EventModel>::empty();
    let (h4, a2, e4) = lemma_first_part(hf, ag);
    let n: nat = if both_negotiate(hf, ag) {
        4
    } else {
        3
    };
    assert(h4.idle() =~= h4);
    let at_cmer = talk(h4, a2, "AT+CMER=3,,,1"@, SlcStep::Cmer, none, e4);
    lemma_cmer(h4, a2, none, e4);
    let a5 = AgModel { indicator_report_enabled: true, ..a2 };
    let remaining = a5.remaining_slc_setup_features;
    assert forall|x: u32| remaining.contains(x) implies (x == hf_feature::HF_INDICATORS
        && both_indicate(hf, ag)) || (x == hf_feature::THREE_WAY_CALLING && both_hold(
        hf,
        ag,
    )) by {}
    if both_hold(hf, ag) {
        let at_chld = talk(h4, a5, "AT+CHLD=?"@, SlcStep::ChldTest, none, e4);
        lemma_one_more(t0, n, at_cmer, at_chld);
        lemma_chld(h4, a5, none, e4);
        let h6 = HfModel {
            supported_ag_call_hold_operations: ag.supported_ag_call_hold_operations,
            ..h4
        };
        let a6 = AgModel {
            remaining_slc_setup_features: remaining.remove(hf_feature::THREE_WAY_CALLING),
            ..a5
        };
        let e6 = e4 + completion(a6);
        assert(h6.idle() =~= h6);
        lemma_one_more(t0, n + 1, at_chld, bind_or_done(h6, a6, none, e6));
        if !both_indicate(hf, ag) {
            assert(a6.remaining_slc_setup_features =~= Set::empty());
            assert(e6[e4.len() as int] == EventModel::SlcComplete);
        }
        let end = lemma_last_part(t0, n + 2, h6, a6, e6);
        assert(none.push(EventModel::SlcComplete) =~= seq![EventModel::SlcComplete]);
    } else {
        lemma_one_more(t0, n, at_cmer, bind_or_done(h4, a5, none, e4));
        if !both_indicate(hf, ag) {
            assert(a2.remaining_slc_setup_features =~= Set::empty());
        }
        let end = lemma_last_part(t0, n + 1, h4, a5, e4);
        assert(none.push(EventModel::SlcComplete) =~= seq![EventModel::SlcComplete]);
    }
}

} // verus!
