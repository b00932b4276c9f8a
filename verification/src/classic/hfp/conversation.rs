//! Conversations: the two sides, and what is on the way between them.

use vstd::prelude::*;
use vstd::utf8;
use crate::classic::at;
use crate::classic::at::AtResponseModel;
use crate::classic::hfp::event;
use crate::classic::hfp::event::{EventModel, TurnModel};
use crate::classic::hfp::framing;
use crate::classic::hfp::gateway;
use crate::classic::hfp::gateway::AgModel;
use crate::classic::hfp::hands_free;
use crate::classic::hfp::hands_free::{HfModel, SlcStep};
use crate::classic::hfp::laws;
use crate::classic::hfp::reading;
use crate::text;

verus! {

/// The bytes of lines, one after the other.
pub open spec fn stream(lines: Seq<Seq<u8>>) -> Seq<u8>
    decreases lines.len(),
{
    if lines.len() == 0 {
        seq![]
    } else {
        stream(lines.drop_last()) + lines.last()
    }
}

/// Responses on lines of their own.
pub open spec fn response_frames(responses: Seq<Seq<char>>) -> Seq<Seq<u8>> {
    Seq::new(responses.len(), |i: int| framing::response_line(responses[i]))
}

/// The bytes of texts.
pub open spec fn encoded(texts: Seq<Seq<char>>) -> Seq<Seq<u8>> {
    Seq::new(texts.len(), |i: int| utf8::encode_utf8(texts[i]))
}

/// Framed responses that arrive with nothing before them are lines.
pub proof fn law_responses_arrive(m: HfModel, responses: Seq<Seq<char>>)
    requires
        m.read_buffer.len() == 0,
        forall|i: int| 0 <= i < responses.len() ==> laws::fits_line(#[trigger] responses[i]),
    ensures
        hands_free::on_bytes(m, stream(response_frames(responses))) == hands_free::on_lines(
            m,
            encoded(responses),
        ),
    decreases responses.len(),
{
    let frames = response_frames(responses);
    if responses.len() == 0 {
        let none: Seq<u8> = seq![];
        assert(m.read_buffer + stream(frames) =~= m.read_buffer);
        assert(framing::response_lines(m.read_buffer).lines =~= seq![]);
        assert(encoded(responses) =~= seq![]);
        assert(HfModel { read_buffer: m.read_buffer, ..m } =~= m);
    } else {
        let before = responses.drop_last();
        assert(frames.drop_last() =~= response_frames(before));
        assert(encoded(responses).drop_last() =~= encoded(before));
        assert forall|i: int| 0 <= i < before.len() implies laws::fits_line(
            #[trigger] before[i],
        ) by {
            assert(laws::fits_line(responses[i]));
        }
        law_responses_arrive(m, before);
        let a = stream(frames.drop_last());
        let b = frames.last();
        laws::law_hands_free_takes_pieces(m, a, b);
        let first = hands_free::on_bytes(m, a);
        laws::lemma_hf_lines_and_buffer(m, m.read_buffer, encoded(before));
        assert(first.0.read_buffer.len() == 0);
        assert(laws::fits_line(responses[responses.len() - 1]));
        laws::law_response_arrives(first.0, responses.last());
    }
}

/// The two sides of a connection, and the commands that the Audio Gateway has
/// not got yet.
#[verifier::ext_equal]
pub struct Talk {
    pub hf: HfModel,
    pub ag: AgModel,
    /// Lines on their way to the Audio Gateway.
    pub commands: Seq<Seq<u8>>,
    /// What the Hands-Free has told.
    pub hf_events: Seq<EventModel>,
    /// What the Audio Gateway has told.
    pub ag_events: Seq<EventModel>,
}

/// A round: the commands reach the Audio Gateway, and its answers reach the
/// Hands-Free.
pub open spec fn round(t: Talk) -> Talk {
    let answered = gateway::on_bytes(t.ag, stream(t.commands));
    let heard = hands_free::on_bytes(t.hf, stream(answered.1.outgoing));
    Talk {
        hf: heard.0,
        ag: answered.0,
        commands: heard.1.outgoing,
        hf_events: t.hf_events + heard.1.events,
        ag_events: t.ag_events + answered.1.events,
    }
}

/// Rounds, one after the other.
pub open spec fn rounds(t: Talk, n: nat) -> Talk
    decreases n,
{
    if n == 0 {
        t
    } else {
        round(rounds(t, (n - 1) as nat))
    }
}

/// Rounds in two parts.
pub proof fn lemma_rounds(t: Talk, n: nat, k: nat)
    ensures
        rounds(rounds(t, n), k) == rounds(t, n + k),
    decreases k,
{
    if k > 0 {
        lemma_rounds(t, n, (k - 1) as nat);
        assert((n + k - 1) as nat == n + (k - 1) as nat);
    }
}

// ---------------------------------------------------------------------------
// Answers to a command
// ---------------------------------------------------------------------------

/// Whether lines hold responses, each of which answers a command.
pub open spec fn answers(
    command: Seq<char>,
    texts: Seq<Seq<char>>,
    responses: Seq<AtResponseModel>,
) -> bool {
    &&& texts.len() == responses.len()
    &&& forall|i: int|
        0 <= i < texts.len() ==> {
            &&& laws::fits_line(#[trigger] texts[i])
            &&& utf8::encode_utf8(texts[i]).len() > 0
            &&& at::response_of(utf8::encode_utf8(texts[i])) == Ok::<AtResponseModel, Seq<char>>(
                responses[i],
            )
            &&& hands_free::mentions(command, responses[i].code)
            &&& !hands_free::is_status(responses[i].code)
        }
}

/// Responses to the command that waits are collected.
proof fn lemma_collected(
    m: HfModel,
    command: Seq<char>,
    texts: Seq<Seq<char>>,
    responses: Seq<AtResponseModel>,
)
    requires
        m.pending_command == Some(command),
        answers(command, texts, responses),
    ensures
        hands_free::on_lines(m, encoded(texts)) == (
            HfModel { pending_responses: m.pending_responses + responses, ..m },
            event::nothing(),
        ),
    decreases texts.len(),
{
    if texts.len() == 0 {
        assert(encoded(texts) =~= seq![]);
        assert(m.pending_responses + responses =~= m.pending_responses);
        assert(HfModel { pending_responses: m.pending_responses + responses, ..m } =~= m);
    } else {
        let n = texts.len() - 1;
        let before = texts.drop_last();
        let known = responses.drop_last();
        assert(encoded(texts).drop_last() =~= encoded(before));
        assert(answers(command, before, known)) by {
            assert forall|i: int| 0 <= i < before.len() implies {
                &&& laws::fits_line(#[trigger] before[i])
                &&& utf8::encode_utf8(before[i]).len() > 0
                &&& at::response_of(utf8::encode_utf8(before[i])) == Ok::<
                    AtResponseModel,
                    Seq<char>,
                >(known[i])
                &&& hands_free::mentions(command, known[i].code)
                &&& !hands_free::is_status(known[i].code)
            } by {
                assert(laws::fits_line(texts[i]));
            }
        }
        lemma_collected(m, command, before, known);
        assert(laws::fits_line(texts[n]));
        let mid = HfModel { pending_responses: m.pending_responses + known, ..m };
        assert(mid.pending_responses.push(responses[n]) =~= m.pending_responses + responses);
        assert(hands_free::on_line(mid, utf8::encode_utf8(texts[n])) == (
            HfModel { pending_responses: m.pending_responses + responses, ..m },
            event::nothing(),
        ));
        assert(event::nothing().followed(event::nothing()) =~= event::nothing());
    }
}

/// `OK` is the status of success.
pub proof fn lemma_ok()
    ensures
        laws::fits_line("OK"@),
        utf8::encode_utf8("OK"@).len() > 0,
        at::response_of(utf8::encode_utf8("OK"@)) == Ok::<AtResponseModel, Seq<char>>(
            AtResponseModel { code: "OK"@, parameters: seq![] },
        ),
{
    reveal_strlit("OK");
    reading::lemma_bare_response_read("OK"@);
    reading::lemma_encode_len("OK"@);
}

/// A command that is answered with responses and `OK` gets its final status
/// with all of them.
pub proof fn lemma_answered(
    m: HfModel,
    command: Seq<char>,
    texts: Seq<Seq<char>>,
    responses: Seq<AtResponseModel>,
)
    requires
        m.pending_command == Some(command),
        m.pending_responses.len() == 0,
        m.read_buffer.len() == 0,
        answers(command, texts, responses),
    ensures
        hands_free::on_bytes(m, stream(response_frames(texts.push("OK"@)))) == (
        match m.slc_step {
            Some(step) => hands_free::advance(m.idle(), step, responses),
            None => (
                m.idle(),
                event::nothing().told(
                    EventModel::CommandCompleted { command, ok: true, responses },
                ),
            ),
        }),
{
    let all = texts.push("OK"@);
    lemma_ok();
    assert forall|i: int| 0 <= i < all.len() implies laws::fits_line(#[trigger] all[i]) by {
        if i < texts.len() {
            assert(laws::fits_line(texts[i]));
        }
    }
    law_responses_arrive(m, all);
    assert(encoded(all).drop_last() =~= encoded(texts));
    lemma_collected(m, command, texts, responses);
    assert(m.pending_responses + responses =~= responses);
    let mid = HfModel { pending_responses: responses, ..m };
    assert(mid.idle() =~= m.idle());
    let now = hands_free::on_line(mid, utf8::encode_utf8("OK"@));
    assert(encoded(all).last() == utf8::encode_utf8("OK"@));
    assert(event::nothing().followed(now.1) =~= now.1);
}

/// A command that is a code with something before and after it mentions the
/// code.
pub proof fn lemma_mentions(before: Seq<char>, code: Seq<char>, after: Seq<char>)
    ensures
        hands_free::mentions(before + code + after, code),
{
    text::laws::lemma_encode_add(before + code, after);
    text::laws::lemma_encode_add(before, code);
    let all = utf8::encode_utf8(before + code + after);
    let n = utf8::encode_utf8(before).len() as int;
    let needle = utf8::encode_utf8(code);
    assert(all.subrange(n, n + needle.len()) =~= needle);
}

/// A step of the procedure: the command reaches the Audio Gateway, and the
/// Hands-Free goes on with the answer.
pub proof fn lemma_step(
    hf: HfModel,
    ag: AgModel,
    hf_events: Seq<EventModel>,
    ag_events: Seq<EventModel>,
    command: Seq<char>,
    step: SlcStep,
    texts: Seq<Seq<char>>,
    responses: Seq<AtResponseModel>,
    after: AgModel,
    told: Seq<EventModel>,
)
    requires
        hf == hf.idle(),
        hf.read_buffer.len() == 0,
        ag.read_buffer.len() == 0,
        laws::fits_line(command),
        answers(command, texts, responses),
        gateway::on_line(ag, utf8::encode_utf8(command)) == (
            after,
            TurnModel { outgoing: response_frames(texts.push("OK"@)), events: told },
        ),
    ensures
        ({
            let next = hands_free::advance(hf, step, responses);
            round(
                Talk {
                    hf: hf.at_step(command, step),
                    ag,
                    commands: seq![framing::command_line(command)],
                    hf_events,
                    ag_events,
                },
            ) == (Talk {
                hf: next.0,
                ag: after,
                commands: next.1.outgoing,
                hf_events: hf_events + next.1.events,
                ag_events: ag_events + told,
            })
        }),
{
    let commands = seq![framing::command_line(command)];
    assert(commands.drop_last() =~= seq![]);
    assert(stream(commands.drop_last()) =~= seq![]);
    assert(stream(commands) =~= framing::command_line(command));
    laws::law_command_arrives(ag, command);
    let waiting = hf.at_step(command, step);
    assert(waiting.idle() =~= hf);
    lemma_answered(waiting, command, texts, responses);
}

/// Turns that say responses, as the lines that they send.
pub proof fn lemma_said(response: Seq<char>)
    ensures
        event::nothing().said("OK"@).outgoing == response_frames(
            Seq::<Seq<char>>::empty().push("OK"@),
        ),
        event::nothing().said(response).said("OK"@).outgoing == response_frames(
            seq![response].push("OK"@),
        ),
{
    assert(event::nothing().said("OK"@).outgoing =~= response_frames(
        Seq::<Seq<char>>::empty().push("OK"@),
    ));
    assert(event::nothing().said(response).said("OK"@).outgoing =~= response_frames(
        seq![response].push("OK"@),
    ));
}

} // verus!
