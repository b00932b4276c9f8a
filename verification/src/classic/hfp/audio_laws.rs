//! What signaling can do to the audio connection, and what it cannot.

use vstd::prelude::*;
use crate::classic::at;
use crate::classic::at::{AtParameterModel, AtResponseModel};
use crate::classic::hfp::event::{EventModel, TurnModel};
use crate::classic::hfp::framing;
use crate::classic::hfp::gateway;
use crate::classic::hfp::gateway::AgModel;
use crate::classic::hfp::hands_free;
use crate::classic::hfp::hands_free::{HfModel, SlcStep};
use crate::classic::hfp::values::AudioConnectionState;

verus! {

/// Whether a turn reports no audio connection as up.
pub open spec fn reports_no_audio(turn: TurnModel) -> bool {
    forall|i: int|
        0 <= i < turn.events.len() ==> #[trigger] turn.events[i]
            != EventModel::AudioConnectionState(AudioConnectionState::Connected)
}

/// Whether audio that is up now was up before, and none is reported.
pub open spec fn connects_no_audio(
    before: AudioConnectionState,
    after: AudioConnectionState,
    turn: TurnModel,
) -> bool {
    &&& after == AudioConnectionState::Connected ==> before == AudioConnectionState::Connected
    &&& reports_no_audio(turn)
}

spec fn ag_connects_none(m: AgModel, given: (AgModel, TurnModel)) -> bool {
    connects_no_audio(m.audio_state, given.0.audio_state, given.1)
}

spec fn hf_connects_none(m: HfModel, given: (HfModel, TurnModel)) -> bool {
    connects_no_audio(m.audio_state, given.0.audio_state, given.1)
}

// ---------------------------------------------------------------------------
// Audio Gateway
// ---------------------------------------------------------------------------

proof fn lemma_handlers_connect_none_1(m: AgModel, p: Seq<AtParameterModel>)
    ensures
        ag_connects_none(m, gateway::on_brsf(m, p)),
        ag_connects_none(m, gateway::on_bac(m, p)),
        ag_connects_none(m, gateway::on_bcs(m, p)),
        ag_connects_none(m, gateway::on_bvra(m, p)),
        ag_connects_none(m, gateway::on_chld(m, p)),
        ag_connects_none(m, gateway::on_chld_test(m)),
{
    reveal(gateway::on_brsf);
    reveal(gateway::on_bac);
    reveal(gateway::on_bcs);
    reveal(gateway::on_bvra);
    reveal(gateway::on_chld);
    reveal(gateway::on_chld_test);
}

proof fn lemma_handlers_connect_none_2(m: AgModel, p: Seq<AtParameterModel>)
    ensures
        ag_connects_none(m, gateway::on_cind_test(m)),
        ag_connects_none(m, gateway::on_cind_read(m)),
        ag_connects_none(m, gateway::on_cmer(m, p)),
        ag_connects_none(m, gateway::on_cmee(m, p)),
        ag_connects_none(m, gateway::on_ccwa(m, p)),
        ag_connects_none(m, gateway::on_bind(m, p)),
{
    reveal(gateway::on_cind_test);
    reveal(gateway::on_cind_read);
    reveal(gateway::on_cmer);
    reveal(gateway::on_cmee);
    reveal(gateway::on_ccwa);
    reveal(gateway::on_bind);
}

proof fn lemma_handlers_connect_none_3(m: AgModel, p: Seq<AtParameterModel>)
    ensures
        ag_connects_none(m, gateway::on_bind_test(m)),
        ag_connects_none(m, gateway::on_bind_read(m)),
        ag_connects_none(m, gateway::on_biev(m, p)),
        ag_connects_none(m, gateway::on_bia(m, p)),
        ag_connects_none(m, gateway::on_bcc(m)),
        ag_connects_none(m, gateway::on_dial(m, p)),
{
    reveal(gateway::on_bind_test);
    reveal(gateway::on_bind_read);
    reveal(gateway::on_biev);
    reveal(gateway::on_bia);
    reveal(gateway::on_bcc);
    reveal(gateway::on_dial);
}

proof fn lemma_handlers_connect_none_4(m: AgModel, p: Seq<AtParameterModel>)
    ensures
        ag_connects_none(m, gateway::on_clcc(m)),
        ag_connects_none(m, gateway::on_clip(m, p)),
        ag_connects_none(m, gateway::on_cops_set(m, p)),
        ag_connects_none(m, gateway::on_cops_read(m)),
        ag_connects_none(m, gateway::on_vgs(m, p)),
        ag_connects_none(m, gateway::on_vgm(m, p)),
{
    reveal(gateway::on_clcc);
    reveal(gateway::on_clip);
    reveal(gateway::on_cops_set);
    reveal(gateway::on_cops_read);
    reveal(gateway::on_vgs);
    reveal(gateway::on_vgm);
}

proof fn lemma_ag_line(m: AgModel, line: Seq<u8>)
    ensures
        ag_connects_none(m, gateway::on_line(m, line)),
{
    match at::command_of(line) {
        Ok(command) => {
            let p = command.parameters;
            lemma_handlers_connect_none_1(m, p);
            lemma_handlers_connect_none_2(m, p);
            lemma_handlers_connect_none_3(m, p);
            lemma_handlers_connect_none_4(m, p);
        },
        Err(_) => {},
    }
}

proof fn lemma_ag_lines(m: AgModel, lines: Seq<Seq<u8>>)
    ensures
        ag_connects_none(m, gateway::on_lines(m, lines)),
    decreases lines.len(),
{
    if lines.len() > 0 {
        lemma_ag_lines(m, lines.drop_last());
        lemma_ag_line(gateway::on_lines(m, lines.drop_last()).0, lines.last());
    }
}

/// Nothing that the Hands-Free sends brings the audio connection of an Audio
/// Gateway up, or has it reported as up: only the transport says so.
pub proof fn law_commands_connect_no_audio(m: AgModel, data: Seq<u8>)
    ensures
        connects_no_audio(
            m.audio_state,
            gateway::on_bytes(m, data).0.audio_state,
            gateway::on_bytes(m, data).1,
        ),
{
    let found = framing::command_lines(m.read_buffer + data);
    lemma_ag_lines(AgModel { read_buffer: found.rest, ..m }, found.lines);
}

// ---------------------------------------------------------------------------
// Hands-Free
// ---------------------------------------------------------------------------

proof fn lemma_advance_connects_none(m: HfModel, step: SlcStep, responses: Seq<AtResponseModel>)
    ensures
        hf_connects_none(m, hands_free::advance(m, step, responses)),
{
    reveal(hands_free::advance);
}

proof fn lemma_hf_line(m: HfModel, line: Seq<u8>)
    ensures
        hf_connects_none(m, hands_free::on_line(m, line)),
{
    reveal(hands_free::on_unsolicited);
    if m.slc_step is Some {
        lemma_advance_connects_none(m.idle(), m.slc_step->0, m.pending_responses);
    }
}

proof fn lemma_hf_lines(m: HfModel, lines: Seq<Seq<u8>>)
    ensures
        hf_connects_none(m, hands_free::on_lines(m, lines)),
    decreases lines.len(),
{
    if lines.len() > 0 {
        lemma_hf_lines(m, lines.drop_last());
        lemma_hf_line(hands_free::on_lines(m, lines.drop_last()).0, lines.last());
    }
}

/// Nothing that the Audio Gateway sends brings the audio connection of a
/// Hands-Free up, or has it reported as up: only the transport says so.
pub proof fn law_responses_connect_no_audio(m: HfModel, data: Seq<u8>)
    ensures
        connects_no_audio(
            m.audio_state,
            hands_free::on_bytes(m, data).0.audio_state,
            hands_free::on_bytes(m, data).1,
        ),
{
    let found = framing::response_lines(m.read_buffer + data);
    lemma_hf_lines(HfModel { read_buffer: found.rest, ..m }, found.lines);
}

} // verus!
