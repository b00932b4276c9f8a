//! What holds of each side, whatever the other sends.

use vstd::prelude::*;
use vstd::utf8;
use crate::classic::at;
use crate::classic::at::{AtParameterModel, AtResponseModel};
use crate::classic::hfp::event;
use crate::classic::hfp::event::{EventModel, TurnModel};
use crate::classic::hfp::framing;
use crate::classic::hfp::gateway;
use crate::classic::hfp::gateway::AgModel;
use crate::classic::hfp::hands_free;
use crate::classic::hfp::hands_free::{HfModel, SlcStep};

verus! {

// ---------------------------------------------------------------------------
// Data in pieces
// ---------------------------------------------------------------------------

/// A Hands-Free with something else in its buffer.
pub open spec fn hf_buffering(m: HfModel, buffer: Seq<u8>) -> HfModel {
    HfModel { read_buffer: buffer, ..m }
}

/// The steps of the procedure have nothing to do with the buffer of a
/// Hands-Free.
proof fn lemma_advance_and_buffer(
    m: HfModel,
    buffer: Seq<u8>,
    step: SlcStep,
    responses: Seq<AtResponseModel>,
)
    ensures
        ({
            let plain = hands_free::advance(m, step, responses);
            let other = hands_free::advance(hf_buffering(m, buffer), step, responses);
            &&& other.0 == hf_buffering(plain.0, buffer)
            &&& other.1 == plain.1
            &&& plain.0.read_buffer == m.read_buffer
        }),
{
    reveal(hands_free::advance);
}

/// Nor have responses that no command waits for.
proof fn lemma_unsolicited_and_buffer(m: HfModel, buffer: Seq<u8>, response: AtResponseModel)
    ensures
        ({
            let plain = hands_free::on_unsolicited(m, response);
            let other = hands_free::on_unsolicited(hf_buffering(m, buffer), response);
            &&& other.0 == hf_buffering(plain.0, buffer)
            &&& other.1 == plain.1
            &&& plain.0.read_buffer == m.read_buffer
        }),
{
    reveal(hands_free::on_unsolicited);
}

/// Lines have nothing to do with the buffer of a Hands-Free.
proof fn lemma_hf_line_and_buffer(m: HfModel, buffer: Seq<u8>, line: Seq<u8>)
    ensures
        hands_free::on_line(hf_buffering(m, buffer), line) == (
            hf_buffering(hands_free::on_line(m, line).0, buffer),
            hands_free::on_line(m, line).1,
        ),
        hands_free::on_line(m, line).0.read_buffer == m.read_buffer,
{
    match at::response_of(line) {
        Ok(response) => {
            lemma_unsolicited_and_buffer(m, buffer, response);
            if m.slc_step is Some {
                assert(hf_buffering(m, buffer).idle() == hf_buffering(m.idle(), buffer));
                lemma_advance_and_buffer(m.idle(), buffer, m.slc_step->0, m.pending_responses);
            }
        },
        Err(_) => {},
    }
}

/// Lines have nothing to do with the buffer of a Hands-Free.
pub proof fn lemma_hf_lines_and_buffer(m: HfModel, buffer: Seq<u8>, lines: Seq<Seq<u8>>)
    ensures
        hands_free::on_lines(hf_buffering(m, buffer), lines) == (
            hf_buffering(hands_free::on_lines(m, lines).0, buffer),
            hands_free::on_lines(m, lines).1,
        ),
        hands_free::on_lines(m, lines).0.read_buffer == m.read_buffer,
    decreases lines.len(),
{
    if lines.len() > 0 {
        lemma_hf_lines_and_buffer(m, buffer, lines.drop_last());
        lemma_hf_line_and_buffer(
            hands_free::on_lines(m, lines.drop_last()).0,
            buffer,
            lines.last(),
        );
    }
}

/// Turns follow one another in one way.
proof fn lemma_followed(a: TurnModel, b: TurnModel, c: TurnModel)
    ensures
        a.followed(b).followed(c) == a.followed(b.followed(c)),
        a.followed(event::nothing()) == a,
        event::nothing().followed(a) == a,
{
    assert(a.followed(b).followed(c) =~= a.followed(b.followed(c)));
    assert(a.followed(event::nothing()) =~= a);
    assert(event::nothing().followed(a) =~= a);
}

proof fn lemma_hf_more_lines(m: HfModel, a: Seq<Seq<u8>>, b: Seq<Seq<u8>>)
    ensures
        ({
            let first = hands_free::on_lines(m, a);
            let second = hands_free::on_lines(first.0, b);
            hands_free::on_lines(m, a + b) == (second.0, first.1.followed(second.1))
        }),
    decreases b.len(),
{
    let first = hands_free::on_lines(m, a);
    if b.len() == 0 {
        assert(a + b =~= a);
        lemma_followed(first.1, first.1, first.1);
    } else {
        assert((a + b).drop_last() =~= a + b.drop_last());
        assert((a + b).last() == b.last());
        lemma_hf_more_lines(m, a, b.drop_last());
        let before = hands_free::on_lines(first.0, b.drop_last());
        let now = hands_free::on_line(before.0, b.last());
        lemma_followed(first.1, before.1, now.1);
    }
}

/// A Hands-Free may be fed in pieces, cut anywhere: it ends up the same, and
/// gives the same.
pub proof fn law_hands_free_takes_pieces(m: HfModel, a: Seq<u8>, b: Seq<u8>)
    ensures
        ({
            let first = hands_free::on_bytes(m, a);
            let second = hands_free::on_bytes(first.0, b);
            hands_free::on_bytes(m, a + b) == (second.0, first.1.followed(second.1))
        }),
{
    let buffer = m.read_buffer;
    assert(buffer + (a + b) =~= (buffer + a) + b);
    framing::law_responses_in_pieces(buffer + a, b);
    let one = framing::response_lines(buffer + a);
    let two = framing::response_lines(one.rest + b);
    lemma_hf_lines_and_buffer(m, one.rest, one.lines);
    let mid = hands_free::on_lines(m, one.lines).0;
    let first = hands_free::on_bytes(m, a);
    assert(first.0 == hf_buffering(mid, one.rest));
    lemma_hf_lines_and_buffer(m, two.rest, one.lines + two.lines);
    lemma_hf_more_lines(m, one.lines, two.lines);
    lemma_hf_lines_and_buffer(mid, two.rest, two.lines);
    assert(hf_buffering(first.0, two.rest) == hf_buffering(mid, two.rest));
}

/// An Audio Gateway with something else in its buffer.
spec fn ag_buffering(m: AgModel, buffer: Seq<u8>) -> AgModel {
    AgModel { read_buffer: buffer, ..m }
}

/// Whether a handler leaves the buffer of an Audio Gateway alone.
spec fn apart(
    m: AgModel,
    buffer: Seq<u8>,
    plain: (AgModel, TurnModel),
    other: (AgModel, TurnModel),
) -> bool {
    &&& other.0 == ag_buffering(plain.0, buffer)
    &&& other.1 == plain.1
    &&& plain.0.read_buffer == m.read_buffer
}

proof fn lemma_handlers_apart_1(m: AgModel, buffer: Seq<u8>, p: Seq<AtParameterModel>)
    ensures
        ({
            let n = ag_buffering(m, buffer);
            &&& apart(m, buffer, gateway::on_brsf(m, p), gateway::on_brsf(n, p))
            &&& apart(m, buffer, gateway::on_bac(m, p), gateway::on_bac(n, p))
            &&& apart(m, buffer, gateway::on_bcs(m, p), gateway::on_bcs(n, p))
            &&& apart(m, buffer, gateway::on_bvra(m, p), gateway::on_bvra(n, p))
            &&& apart(m, buffer, gateway::on_chld(m, p), gateway::on_chld(n, p))
            &&& apart(m, buffer, gateway::on_chld_test(m), gateway::on_chld_test(n))
        }),
{
    reveal(gateway::on_brsf);
    reveal(gateway::on_bac);
    reveal(gateway::on_bcs);
    reveal(gateway::on_bvra);
    reveal(gateway::on_chld);
    reveal(gateway::on_chld_test);
}

proof fn lemma_handlers_apart_2(m: AgModel, buffer: Seq<u8>, p: Seq<AtParameterModel>)
    ensures
        ({
            let n = ag_buffering(m, buffer);
            &&& apart(m, buffer, gateway::on_cind_test(m), gateway::on_cind_test(n))
            &&& apart(m, buffer, gateway::on_cind_read(m), gateway::on_cind_read(n))
            &&& apart(m, buffer, gateway::on_cmer(m, p), gateway::on_cmer(n, p))
            &&& apart(m, buffer, gateway::on_cmee(m, p), gateway::on_cmee(n, p))
            &&& apart(m, buffer, gateway::on_ccwa(m, p), gateway::on_ccwa(n, p))
            &&& apart(m, buffer, gateway::on_bind(m, p), gateway::on_bind(n, p))
        }),
{
    reveal(gateway::on_cind_test);
    reveal(gateway::on_cind_read);
    reveal(gateway::on_cmer);
    reveal(gateway::on_cmee);
    reveal(gateway::on_ccwa);
    reveal(gateway::on_bind);
}

proof fn lemma_handlers_apart_3(m: AgModel, buffer: Seq<u8>, p: Seq<AtParameterModel>)
    ensures
        ({
            let n = ag_buffering(m, buffer);
            &&& apart(m, buffer, gateway::on_bind_test(m), gateway::on_bind_test(n))
            &&& apart(m, buffer, gateway::on_bind_read(m), gateway::on_bind_read(n))
            &&& apart(m, buffer, gateway::on_biev(m, p), gateway::on_biev(n, p))
            &&& apart(m, buffer, gateway::on_bia(m, p), gateway::on_bia(n, p))
            &&& apart(m, buffer, gateway::on_bcc(m), gateway::on_bcc(n))
            &&& apart(m, buffer, gateway::on_dial(m, p), gateway::on_dial(n, p))
        }),
{
    reveal(gateway::on_bind_test);
    reveal(gateway::on_bind_read);
    reveal(gateway::on_biev);
    reveal(gateway::on_bia);
    reveal(gateway::on_bcc);
    reveal(gateway::on_dial);
}

proof fn lemma_handlers_apart_4(m: AgModel, buffer: Seq<u8>, p: Seq<AtParameterModel>)
    ensures
        ({
            let n = ag_buffering(m, buffer);
            &&& apart(m, buffer, gateway::on_clcc(m), gateway::on_clcc(n))
            &&& apart(m, buffer, gateway::on_clip(m, p), gateway::on_clip(n, p))
            &&& apart(m, buffer, gateway::on_cops_set(m, p), gateway::on_cops_set(n, p))
            &&& apart(m, buffer, gateway::on_cops_read(m), gateway::on_cops_read(n))
            &&& apart(m, buffer, gateway::on_vgs(m, p), gateway::on_vgs(n, p))
            &&& apart(m, buffer, gateway::on_vgm(m, p), gateway::on_vgm(n, p))
        }),
{
    reveal(gateway::on_clcc);
    reveal(gateway::on_clip);
    reveal(gateway::on_cops_set);
    reveal(gateway::on_cops_read);
    reveal(gateway::on_vgs);
    reveal(gateway::on_vgm);
}

/// Commands have nothing to do with the buffer of an Audio Gateway.
proof fn lemma_ag_line_and_buffer(m: AgModel, buffer: Seq<u8>, line: Seq<u8>)
    ensures
        gateway::on_line(ag_buffering(m, buffer), line) == (
            ag_buffering(gateway::on_line(m, line).0, buffer),
            gateway::on_line(m, line).1,
        ),
        gateway::on_line(m, line).0.read_buffer == m.read_buffer,
{
    match at::command_of(line) {
        Ok(command) => {
            let p = command.parameters;
            lemma_handlers_apart_1(m, buffer, p);
            lemma_handlers_apart_2(m, buffer, p);
            lemma_handlers_apart_3(m, buffer, p);
            lemma_handlers_apart_4(m, buffer, p);
        },
        Err(_) => {},
    }
}

proof fn lemma_ag_lines_and_buffer(m: AgModel, buffer: Seq<u8>, lines: Seq<Seq<u8>>)
    ensures
        gateway::on_lines(ag_buffering(m, buffer), lines) == (
            ag_buffering(gateway::on_lines(m, lines).0, buffer),
            gateway::on_lines(m, lines).1,
        ),
        gateway::on_lines(m, lines).0.read_buffer == m.read_buffer,
    decreases lines.len(),
{
    if lines.len() > 0 {
        lemma_ag_lines_and_buffer(m, buffer, lines.drop_last());
        lemma_ag_line_and_buffer(gateway::on_lines(m, lines.drop_last()).0, buffer, lines.last());
    }
}

proof fn lemma_ag_more_lines(m: AgModel, a: Seq<Seq<u8>>, b: Seq<Seq<u8>>)
    ensures
        ({
            let first = gateway::on_lines(m, a);
            let second = gateway::on_lines(first.0, b);
            gateway::on_lines(m, a + b) == (second.0, first.1.followed(second.1))
        }),
    decreases b.len(),
{
    let first = gateway::on_lines(m, a);
    if b.len() == 0 {
        assert(a + b =~= a);
        lemma_followed(first.1, first.1, first.1);
    } else {
        assert((a + b).drop_last() =~= a + b.drop_last());
        assert((a + b).last() == b.last());
        lemma_ag_more_lines(m, a, b.drop_last());
        let before = gateway::on_lines(first.0, b.drop_last());
        let now = gateway::on_line(before.0, b.last());
        lemma_followed(first.1, before.1, now.1);
    }
}

/// An Audio Gateway may be fed in pieces, cut anywhere: it ends up the same,
/// and gives the same.
pub proof fn law_gateway_takes_pieces(m: AgModel, a: Seq<u8>, b: Seq<u8>)
    ensures
        ({
            let first = gateway::on_bytes(m, a);
            let second = gateway::on_bytes(first.0, b);
            gateway::on_bytes(m, a + b) == (second.0, first.1.followed(second.1))
        }),
{
    let buffer = m.read_buffer;
    assert(buffer + (a + b) =~= (buffer + a) + b);
    framing::law_commands_in_pieces(buffer + a, b);
    let one = framing::command_lines(buffer + a);
    let two = framing::command_lines(one.rest + b);
    lemma_ag_lines_and_buffer(m, one.rest, one.lines);
    let mid = gateway::on_lines(m, one.lines).0;
    let first = gateway::on_bytes(m, a);
    assert(first.0 == ag_buffering(mid, one.rest));
    lemma_ag_lines_and_buffer(m, two.rest, one.lines + two.lines);
    lemma_ag_more_lines(m, one.lines, two.lines);
    lemma_ag_lines_and_buffer(mid, two.rest, two.lines);
    assert(ag_buffering(first.0, two.rest) == ag_buffering(mid, two.rest));
}

/// Whether a text fits on a line.
pub open spec fn fits_line(s: Seq<char>) -> bool {
    forall|i: int| 0 <= i < s.len() ==> #[trigger] s[i] != '\r'
}

/// A framed response that arrives with nothing before it is a line.
pub proof fn law_response_arrives(m: HfModel, response: Seq<char>)
    requires
        m.read_buffer.len() == 0,
        fits_line(response),
    ensures
        hands_free::on_bytes(m, framing::response_line(response)) == hands_free::on_line(
            m,
            utf8::encode_utf8(response),
        ),
{
    let line = framing::response_line(response);
    let none: Seq<u8> = seq![];
    assert(m.read_buffer + line =~= line + none);
    framing::law_response_is_framed(response, none);
    let found = framing::response_lines(line + none);
    assert(framing::response_lines(none).rest =~= none);
    assert(found.lines =~= seq![utf8::encode_utf8(response)]);
    assert(found.rest =~= m.read_buffer);
    assert(HfModel { read_buffer: found.rest, ..m } =~= m);
    lemma_hf_one_line(m, utf8::encode_utf8(response));
}

/// One line is a line.
pub proof fn lemma_hf_one_line(m: HfModel, line: Seq<u8>)
    ensures
        hands_free::on_lines(m, seq![line]) == hands_free::on_line(m, line),
{
    let lines = seq![line];
    assert(lines.drop_last() =~= seq![]);
    assert(hands_free::on_lines(m, lines.drop_last()) == (m, event::nothing()));
    let now = hands_free::on_line(m, line);
    lemma_followed(now.1, now.1, now.1);
}

/// A framed command that arrives with nothing before it is a line.
pub proof fn law_command_arrives(m: AgModel, command: Seq<char>)
    requires
        m.read_buffer.len() == 0,
        fits_line(command),
    ensures
        gateway::on_bytes(m, framing::command_line(command)) == gateway::on_line(
            m,
            utf8::encode_utf8(command),
        ),
{
    let line = framing::command_line(command);
    let none: Seq<u8> = seq![];
    assert(m.read_buffer + line =~= line + none);
    framing::law_command_is_framed(command, none);
    let found = framing::command_lines(line + none);
    assert(framing::command_lines(none).rest =~= none);
    assert(found.lines =~= seq![utf8::encode_utf8(command)]);
    assert(found.rest =~= m.read_buffer);
    assert(AgModel { read_buffer: found.rest, ..m } =~= m);
    let lines = seq![utf8::encode_utf8(command)];
    assert(lines.drop_last() =~= seq![]);
    assert(gateway::on_lines(m, lines.drop_last()) == (m, event::nothing()));
    let now = gateway::on_line(m, lines[0]);
    lemma_followed(now.1, now.1, now.1);
}

// ---------------------------------------------------------------------------
// What commands cannot do
// ---------------------------------------------------------------------------

/// Whether an Audio Gateway still has what it was configured with, and its
/// calls and operator name.
pub open spec fn keeps_configuration(before: AgModel, after: AgModel) -> bool {
    &&& after.supported_ag_features == before.supported_ag_features
    &&& after.supported_ag_call_hold_operations == before.supported_ag_call_hold_operations
    &&& after.supported_hf_indicators == before.supported_hf_indicators
    &&& after.supported_audio_codecs == before.supported_audio_codecs
    &&& after.inband_ringtone_enabled == before.inband_ringtone_enabled
    &&& after.network_operator == before.network_operator
    &&& after.calls == before.calls
    &&& after.ag_indicators.len() == before.ag_indicators.len()
    &&& forall|i: int|
        0 <= i < before.ag_indicators.len() ==> {
            &&& (#[trigger] after.ag_indicators[i]).indicator == before.ag_indicators[i].indicator
            &&& after.ag_indicators[i].supported_values == before.ag_indicators[i].supported_values
            &&& after.ag_indicators[i].current_status == before.ag_indicators[i].current_status
        }
}

/// Whether a command keeps the configuration, and is answered.
spec fn is_proper(m: AgModel, given: (AgModel, TurnModel)) -> bool {
    keeps_configuration(m, given.0) && given.1.outgoing.len() > 0
}

proof fn lemma_handlers_are_proper_1(m: AgModel, p: Seq<AtParameterModel>)
    ensures
        is_proper(m, gateway::on_brsf(m, p)),
        is_proper(m, gateway::on_bac(m, p)),
        is_proper(m, gateway::on_bcs(m, p)),
        is_proper(m, gateway::on_bvra(m, p)),
        is_proper(m, gateway::on_chld(m, p)),
        is_proper(m, gateway::on_chld_test(m)),
{
    reveal(gateway::on_brsf);
    reveal(gateway::on_bac);
    reveal(gateway::on_bcs);
    reveal(gateway::on_bvra);
    reveal(gateway::on_chld);
    reveal(gateway::on_chld_test);
}

proof fn lemma_handlers_are_proper_2(m: AgModel, p: Seq<AtParameterModel>)
    ensures
        is_proper(m, gateway::on_cind_test(m)),
        is_proper(m, gateway::on_cind_read(m)),
        is_proper(m, gateway::on_cmer(m, p)),
        is_proper(m, gateway::on_cmee(m, p)),
        is_proper(m, gateway::on_ccwa(m, p)),
        is_proper(m, gateway::on_bind(m, p)),
{
    reveal(gateway::on_cind_test);
    reveal(gateway::on_cind_read);
    reveal(gateway::on_cmer);
    reveal(gateway::on_cmee);
    reveal(gateway::on_ccwa);
    reveal(gateway::on_bind);
}

proof fn lemma_handlers_are_proper_3(m: AgModel, p: Seq<AtParameterModel>)
    ensures
        is_proper(m, gateway::on_bind_test(m)),
        is_proper(m, gateway::on_bind_read(m)),
        is_proper(m, gateway::on_biev(m, p)),
        is_proper(m, gateway::on_bia(m, p)),
        is_proper(m, gateway::on_bcc(m)),
        is_proper(m, gateway::on_dial(m, p)),
{
    reveal(gateway::on_bind_test);
    reveal(gateway::on_bind_read);
    reveal(gateway::on_biev);
    reveal(gateway::on_bia);
    reveal(gateway::on_bcc);
    reveal(gateway::on_dial);
}

proof fn lemma_handlers_are_proper_4(m: AgModel, p: Seq<AtParameterModel>)
    ensures
        is_proper(m, gateway::on_clcc(m)),
        is_proper(m, gateway::on_clip(m, p)),
        is_proper(m, gateway::on_cops_set(m, p)),
        is_proper(m, gateway::on_cops_read(m)),
        is_proper(m, gateway::on_vgs(m, p)),
        is_proper(m, gateway::on_vgm(m, p)),
{
    reveal(gateway::on_clcc);
    reveal(gateway::on_clip);
    reveal(gateway::on_cops_set);
    reveal(gateway::on_cops_read);
    reveal(gateway::on_vgs);
    reveal(gateway::on_vgm);
}

/// A command keeps the configuration, and is answered.
proof fn lemma_line_is_proper(m: AgModel, line: Seq<u8>)
    ensures
        keeps_configuration(m, gateway::on_line(m, line).0),
        line.len() > 0 ==> gateway::on_line(m, line).1.outgoing.len() > 0,
{
    match at::command_of(line) {
        Ok(command) => {
            let p = command.parameters;
            lemma_handlers_are_proper_1(m, p);
            lemma_handlers_are_proper_2(m, p);
            lemma_handlers_are_proper_3(m, p);
            lemma_handlers_are_proper_4(m, p);
        },
        Err(_) => {},
    }
}

proof fn lemma_lines_keep_configuration(m: AgModel, lines: Seq<Seq<u8>>)
    ensures
        keeps_configuration(m, gateway::on_lines(m, lines).0),
    decreases lines.len(),
{
    if lines.len() > 0 {
        lemma_lines_keep_configuration(m, lines.drop_last());
        let before = gateway::on_lines(m, lines.drop_last()).0;
        lemma_line_is_proper(before, lines.last());
        let after = gateway::on_lines(m, lines).0;
        assert forall|i: int| 0 <= i < m.ag_indicators.len() implies {
            &&& (#[trigger] after.ag_indicators[i]).indicator == m.ag_indicators[i].indicator
            &&& after.ag_indicators[i].supported_values == m.ag_indicators[i].supported_values
            &&& after.ag_indicators[i].current_status == m.ag_indicators[i].current_status
        } by {
            assert(before.ag_indicators[i].indicator == m.ag_indicators[i].indicator);
        }
    }
}

/// Nothing that the Hands-Free sends changes what the Audio Gateway was
/// configured with, the values of its indicators, its calls or its operator
/// name. In particular, the codecs that the Hands-Free lists do not take the
/// place of those of the Audio Gateway.
pub proof fn law_commands_keep_configuration(m: AgModel, data: Seq<u8>)
    ensures
        keeps_configuration(m, gateway::on_bytes(m, data).0),
{
    let found = framing::command_lines(m.read_buffer + data);
    lemma_lines_keep_configuration(AgModel { read_buffer: found.rest, ..m }, found.lines);
}

/// Every line that is not empty is answered.
pub proof fn law_commands_are_answered(m: AgModel, line: Seq<u8>)
    requires
        line.len() > 0,
    ensures
        gateway::on_line(m, line).1.outgoing.len() > 0,
{
    lemma_line_is_proper(m, line);
}

/// A line that is no command is refused, and changes nothing.
pub proof fn law_other_lines_are_refused(m: AgModel, line: Seq<u8>)
    requires
        line.len() > 0,
        at::command_of(line) is Err,
    ensures
        gateway::on_line(m, line) == (m, gateway::refuse()),
{
}

/// A final status ends the command that waits outside the procedure, whether
/// it succeeded or not, and hands over the responses before it.
pub proof fn law_status_ends_command(m: HfModel, response: AtResponseModel)
    requires
        m.pending_command is Some,
        m.slc_step is None,
        hands_free::is_status(response.code),
    ensures
        hands_free::on_response(m, response) == (
            m.idle(),
            event::nothing().told(
                EventModel::CommandCompleted {
                    command: m.pending_command->0,
                    ok: response.code == "OK"@,
                    responses: m.pending_responses,
                },
            ),
        ),
{
}

/// An error ends the Service Level Connection procedure: the connection does
/// not come up.
pub proof fn law_error_ends_procedure(m: HfModel, response: AtResponseModel)
    requires
        m.pending_command is Some,
        hands_free::is_status(response.code),
        response.code != "OK"@,
    ensures
        ({
            let after = hands_free::on_response(m, response).0;
            &&& after.slc_step is None
            &&& after.pending_command is None
            &&& after.slc_initialized == m.slc_initialized
        }),
{
}

} // verus!
