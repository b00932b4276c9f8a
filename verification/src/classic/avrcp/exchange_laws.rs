//! What comes of a command between two connections.

use vstd::prelude::*;
use crate::classic::avc;
use crate::classic::avc::{CommandType, ResponseCode, ResponseFrameModel};
use crate::classic::avctp;
use crate::classic::avctp::{AssemblerModel, AvctpEventModel, MessageModel};
use crate::classic::avrcp::assembler;
use crate::classic::avrcp::assembler::PduAssemblerModel;
use crate::classic::avrcp::codec_laws;
use crate::classic::avrcp::command::CommandModel;
use crate::classic::avrcp::items;
use crate::classic::avrcp::items::MediaAttributeModel;
use crate::classic::avrcp::protocol;
use crate::classic::avrcp::protocol_laws;
use crate::classic::avrcp::response::ResponseModel;
use crate::classic::avrcp::state;
use crate::classic::avrcp::state::{
    AvrcpEventModel,
    ConnectionModel,
    ContinuationModel,
    Pending,
    Step,
};
use crate::classic::avrcp::wire;
use crate::classic::avrcp::{
    AVRCP_PID,
    BLUETOOTH_SIG_COMPANY_ID,
    PLAYBACK_POSITION_UNAVAILABLE,
};

verus! {

// ---------------------------------------------------------------------------
// Packets between two connections
// ---------------------------------------------------------------------------

/// What incoming packets make a connection do, one after another.
pub open spec fn receive_all(m: ConnectionModel, packets: Seq<Seq<u8>>) -> Step
    decreases packets.len(),
{
    if packets.len() == 0 {
        state::idle(m)
    } else {
        let first = state::receive(m, packets[0]);
        let rest = receive_all(first.state, packets.skip(1));
        Step {
            state: rest.state,
            outgoing: first.outgoing + rest.outgoing,
            events: first.events + rest.events,
        }
    }
}

/// Where two connections stand.
#[verifier::ext_equal]
pub struct Exchange {
    pub asker: ConnectionModel,
    pub target: ConnectionModel,
    /// The events that the asker reported.
    pub asker_events: Seq<AvrcpEventModel>,
    /// The events that the target reported.
    pub target_events: Seq<AvrcpEventModel>,
    /// The packets to the target that were not delivered yet.
    pub in_flight: Seq<Seq<u8>>,
}

/// Where two connections stand when every packet that either sends has been
/// delivered to the other, in at most `rounds` rounds.
pub open spec fn exchanged(
    asker: ConnectionModel,
    target: ConnectionModel,
    to_target: Seq<Seq<u8>>,
    rounds: nat,
) -> Exchange
    decreases rounds,
{
    if rounds == 0 || to_target.len() == 0 {
        Exchange {
            asker,
            target,
            asker_events: seq![],
            target_events: seq![],
            in_flight: to_target,
        }
    } else {
        let t = receive_all(target, to_target);
        let a = receive_all(asker, t.outgoing);
        let next = exchanged(a.state, t.state, a.outgoing, (rounds - 1) as nat);
        Exchange {
            asker_events: a.events + next.asker_events,
            target_events: t.events + next.target_events,
            ..next
        }
    }
}

/// A connection whose transport is in the middle of something else.
spec fn with_transport(m: ConnectionModel, a: AssemblerModel) -> ConnectionModel {
    ConnectionModel { avctp: avctp::ProtocolModel { assembler: a, ..m.avctp }, ..m }
}

/// Packets that complete no message do nothing else.
proof fn lemma_quiet(m: ConnectionModel, packets: Seq<Seq<u8>>)
    requires
        avctp::feed(m.avctp.assembler, packets).1.len() == 0,
    ensures
        receive_all(m, packets) == state::idle(
            with_transport(m, avctp::feed(m.avctp.assembler, packets).0),
        ),
    decreases packets.len(),
{
    if packets.len() > 0 {
        let (next, message) = avctp::assemble(m.avctp.assembler, packets[0]);
        assert(message is None);
        lemma_quiet(with_transport(m, next), packets.skip(1));
        assert(receive_all(m, packets).outgoing =~= seq![]);
        assert(receive_all(m, packets).events =~= seq![]);
    }
}

/// Packets in two parts are received one part after the other.
proof fn lemma_receive_parts(m: ConnectionModel, a: Seq<Seq<u8>>, last: Seq<u8>)
    ensures
        ({
            let first = receive_all(m, a);
            let then = state::receive(first.state, last);
            receive_all(m, a.push(last)) == (Step {
                state: then.state,
                outgoing: first.outgoing + then.outgoing,
                events: first.events + then.events,
            })
        }),
    decreases a.len(),
{
    let all = a.push(last);
    let first = receive_all(m, a);
    let then = state::receive(first.state, last);
    if a.len() == 0 {
        assert(all[0] == last);
        assert(all.skip(1) =~= seq![]);
        assert(receive_all(then.state, all.skip(1)) == state::idle(then.state));
        assert(receive_all(m, all).outgoing =~= first.outgoing + then.outgoing);
        assert(receive_all(m, all).events =~= first.events + then.events);
    } else {
        let head = state::receive(m, a[0]);
        assert(all[0] == a[0]);
        assert(all.skip(1) =~= a.skip(1).push(last));
        lemma_receive_parts(head.state, a.skip(1), last);
        assert(receive_all(m, all).outgoing =~= first.outgoing + then.outgoing);
        assert(receive_all(m, all).events =~= first.events + then.events);
    }
}

/// Packets in two parts are put together one part after the other.
proof fn lemma_feed_parts(a: AssemblerModel, packets: Seq<Seq<u8>>, last: Seq<u8>)
    requires
        avctp::feed(a, packets).1.len() == 0,
    ensures
        ({
            let (next, message) = avctp::assemble(avctp::feed(a, packets).0, last);
            avctp::feed(a, packets.push(last)) == (
                next,
                match message {
                    Some(m) => seq![m],
                    None => seq![],
                },
            )
        }),
    decreases packets.len(),
{
    let all = packets.push(last);
    if packets.len() == 0 {
        assert(all[0] == last);
        assert(all.skip(1) =~= seq![]);
        reveal_with_fuel(avctp::feed, 2);
        assert(avctp::feed(a, all).1 =~= match avctp::assemble(a, last).1 {
            Some(m) => seq![m],
            None => seq![],
        });
    } else {
        let (next, message) = avctp::assemble(a, packets[0]);
        assert(message is None);
        assert(all[0] == packets[0]);
        assert(all.skip(1) =~= packets.skip(1).push(last));
        lemma_feed_parts(next, packets.skip(1), last);
    }
}

/// The event that a message is.
spec fn event_of(msg: MessageModel) -> AvctpEventModel {
    if msg.is_command {
        AvctpEventModel::Command {
            transaction_label: msg.transaction_label,
            pid: msg.pid,
            payload: msg.payload,
        }
    } else {
        AvctpEventModel::Response {
            transaction_label: msg.transaction_label,
            pid: msg.pid,
            payload: msg.payload,
        }
    }
}

/// A connection that waits for the first packet of a message.
pub open spec fn listening(m: ConnectionModel) -> bool {
    m.avctp.assembler == avctp::idle_assembler() && m.avctp.registered_pids.contains(AVRCP_PID)
}

/// The packets of a message are received as the message.
proof fn lemma_message(m: ConnectionModel, msg: MessageModel, peer_mtu: u16)
    requires
        listening(m),
        msg.transaction_label < 16,
        !msg.ipid,
        msg.pid == AVRCP_PID,
        3 + msg.payload.len() > avctp::usable_mtu(peer_mtu) ==> avctp::packet_count(
            msg.payload.len() as int,
            avctp::usable_mtu(peer_mtu),
        ) <= 255,
    ensures
        receive_all(m, avctp::message_packets(msg, peer_mtu)) == state::on_transport_event(
            m,
            event_of(msg),
        ),
        avctp::message_packets(msg, peer_mtu).len() > 0,
{
    let packets = avctp::message_packets(msg, peer_mtu);
    let a = m.avctp.assembler;
    let n = packets.len() - 1;
    let front = packets.take(n);
    let last = packets[n];
    avctp::law_reassembly(a, msg, peer_mtu);
    avctp::law_nothing_completes_early(a, msg, peer_mtu, n);
    assert(packets =~= front.push(last));
    lemma_quiet(m, front);
    lemma_feed_parts(a, front, last);
    lemma_receive_parts(m, front, last);
    let before = with_transport(m, avctp::feed(a, front).0);
    let (next, message) = avctp::assemble(before.avctp.assembler, last);
    assert(avctp::feed(a, packets).1 == seq![msg]);
    assert(message is Some) by {
        if message is None {
            assert(avctp::feed(a, packets).1.len() == 0);
        }
    }
    assert(seq![message->0][0] == msg);
    assert(next == avctp::idle_assembler());
    assert(with_transport(before, next) == m);
    let step = state::on_transport_event(m, event_of(msg));
    let (outgoing, events) = avctp::deliver(before.avctp, message);
    assert(events =~= seq![event_of(msg)]);
    assert(outgoing =~= seq![]);
    assert(receive_all(m, packets).outgoing =~= step.outgoing);
    assert(receive_all(m, packets).events =~= step.events);
}

// ---------------------------------------------------------------------------
// Commands and responses
// ---------------------------------------------------------------------------

/// A message of moderate size is not cut into too many packets.
proof fn lemma_count(len: int, mtu: int)
    requires
        0 <= len <= 2000,
        mtu >= 14,
    ensures
        avctp::packet_count(len, mtu) <= 255,
{
    let x = len + 2;
    let d = mtu - 1;
    vstd::arithmetic::div_mod::lemma_div_is_ordered_by_denominator(x, 13, d);
    assert(len - (mtu - 4) + (mtu - 2) == x);
    assert(x / 13 <= 254);
}

/// A command that one connection sends makes the other do what it does for the
/// command.
proof fn lemma_target_hears(
    m: ConnectionModel,
    p: avctp::ProtocolModel,
    label: u8,
    ctype: CommandType,
    c: CommandModel,
)
    requires
        listening(m),
        p.peer_mtu >= 14,
        label < 16,
        codec_laws::fits_command(c),
        c.parameters().len() <= 1100,
        !m.command_assemblers.contains_key(label),
        ctype == CommandType::Control || ctype == CommandType::Status,
    ensures
        receive_all(
            m,
            avctp::command_packets(p, label, AVRCP_PID, state::command_frame(ctype, c)),
        ) == state::run_command(m, label, c.id(), c),
        avctp::command_packets(p, label, AVRCP_PID, state::command_frame(ctype, c)).len() > 0,
{
    reveal(state::on_transport_event);
    let frame = state::command_frame(ctype, c);
    let msg = MessageModel {
        transaction_label: label,
        is_command: true,
        ipid: false,
        pid: AVRCP_PID,
        payload: frame,
    };
    assert(frame.len() == 10 + c.parameters().len());
    lemma_count(frame.len() as int, avctp::usable_mtu(p.peer_mtu));
    lemma_message(m, msg, p.peer_mtu);
    protocol_laws::law_command_arrives(m, label, ctype, c);
}

/// The frame of a packet of a response PDU.
spec fn response_frame(code: ResponseCode, packet: Seq<u8>) -> ResponseFrameModel {
    ResponseFrameModel {
        response: code,
        subunit_type: avc::subunit_type::PANEL,
        subunit_id: 0,
        opcode: avc::opcode::VENDOR_DEPENDENT,
        operands: avc::vendor_operands(BLUETOOTH_SIG_COMPANY_ID, packet),
    }
}

/// A packet of a response PDU that one connection sends reaches the other.
proof fn lemma_asker_hears(
    m: ConnectionModel,
    target: ConnectionModel,
    label: u8,
    code: ResponseCode,
    packet: Seq<u8>,
)
    requires
        listening(m),
        target.avctp.peer_mtu >= 14,
        label < 16,
        packet.len() <= 600,
        m.pending.contains_key(label),
    ensures
        receive_all(m, state::wrapped(target, label, code, packet)) == state::vendor_response(
            m,
            label,
            response_frame(code, packet),
        ),
{
    reveal(state::on_transport_event);
    reveal(state::on_response);
    let frame = response_frame(code, packet);
    let msg = MessageModel {
        transaction_label: label,
        is_command: false,
        ipid: false,
        pid: AVRCP_PID,
        payload: frame.bytes(),
    };
    assert(frame.bytes().len() == 6 + packet.len());
    lemma_count(frame.bytes().len() as int, avctp::usable_mtu(target.avctp.peer_mtu));
    lemma_message(m, msg, target.avctp.peer_mtu);
    avc::law_response_frame_round_trip(frame);
}

/// The asker puts together one packet of a response.
proof fn lemma_packet_assembled(
    m: ConnectionModel,
    label: u8,
    code: ResponseCode,
    id: u8,
    packet_type: u8,
    chunk: Seq<u8>,
)
    requires
        chunk.len() <= 0xFFFF,
        packet_type <= 3,
        m.response_assemblers.contains_key(label) ==> m.response_assemblers[label].0 == code,
    ensures
        ({
            let packet = assembler::pdu_packet(id, packet_type, chunk);
            let before = state::assembly(m.response_assemblers, label, code).1;
            let (a, complete) = assembler::assemble_pdu(before, packet);
            let next = ConnectionModel {
                response_assemblers: state::keep_assembly(m.response_assemblers, label, code, a),
                ..m
            };
            let step = state::vendor_response(m, label, response_frame(code, packet));
            match complete {
                Some((whole_id, parameters)) => step == state::dispatch_response(
                    next,
                    label,
                    code,
                    whole_id,
                    parameters,
                ),
                None => a.pdu_id is Some && (packet_type == assembler::PDU_START || packet_type
                    == assembler::PDU_CONTINUE) ==> step == state::ask_for_more(next, label, id),
            }
        }),
{
    reveal(state::vendor_response);
    let packet = assembler::pdu_packet(id, packet_type, chunk);
    avc::law_vendor_dependent_round_trip(BLUETOOTH_SIG_COMPANY_ID, packet);
    assembler::lemma_packet(id, packet_type, chunk);
}

/// The request for the rest of a response.
spec fn more_request(id: u8) -> CommandModel {
    CommandModel::RequestContinuingResponse { continuing_pdu_id: id }
}

/// The event that ends a command.
spec fn final_event(r: ResponseModel, pending: Pending) -> AvrcpEventModel {
    state::response_event(
        r,
        match pending {
            Pending::Vendor { attribute_id, .. } => attribute_id,
            Pending::PassThrough { .. } => None,
        },
    )
}

/// A complete response is reported, and frees the label.
proof fn lemma_dispatched(m: ConnectionModel, label: u8, r: ResponseModel)
    requires
        codec_laws::fits_response(r),
        m.pending.contains_key(label),
        m.pending[label] matches Pending::Vendor { pdu_id, .. } && pdu_id == r.id(),
    ensures
        state::dispatch_response(
            m,
            label,
            ResponseCode::ImplementedOrStable,
            r.id(),
            r.parameters(),
        ) == (Step {
            state: ConnectionModel { pending: m.pending.remove(label), ..m },
            outgoing: seq![],
            events: seq![final_event(r, m.pending[label])],
        }),
{
    reveal(state::dispatch_response);
    reveal(state::response_events);
    codec_laws::law_response_round_trip(r);
}

/// Where two connections stand at the end.
spec fn finished(
    asker: ConnectionModel,
    target: ConnectionModel,
    label: u8,
    r: ResponseModel,
    asked: int,
) -> Exchange {
    Exchange {
        asker: ConnectionModel {
            pending: asker.pending.remove(label),
            response_assemblers: asker.response_assemblers.remove(label),
            continuations_requested: (asker.continuations_requested + asked) as u32,
            ..asker
        },
        target: ConnectionModel { continuation: None, ..target },
        asker_events: seq![final_event(r, asker.pending[label])],
        target_events: seq![],
        in_flight: seq![],
    }
}

/// The asker gets the rest of a response that was cut.
#[verifier::rlimit(40)]
proof fn lemma_rest(
    asker: ConnectionModel,
    target: ConnectionModel,
    label: u8,
    r: ResponseModel,
    done: Seq<u8>,
    rest: Seq<u8>,
)
    requires
        listening(asker),
        listening(target),
        asker.avctp.peer_mtu >= 14,
        target.avctp.peer_mtu >= 14,
        label < 16,
        codec_laws::fits_response(r),
        asker.pending.contains_key(label),
        asker.pending[label] matches Pending::Vendor { pdu_id, .. } && pdu_id == r.id(),
        asker.response_assemblers.contains_key(label),
        asker.response_assemblers[label] == (
            ResponseCode::ImplementedOrStable,
            PduAssemblerModel { pdu_id: Some(r.id()), parameters: done },
        ),
        !target.command_assemblers.contains_key(label),
        target.continuation == Some(
            ContinuationModel {
                pdu_id: r.id(),
                response_code: ResponseCode::ImplementedOrStable,
                remaining: assembler::pdu_tail(r.id(), rest, state::parameter_size(target)),
            },
        ),
        done + rest == r.parameters(),
        asker.continuations_requested + rest.len() <= u32::MAX,
        rest.len() > 0,
    ensures
        exchanged(
            asker,
            target,
            state::ask_for_more(asker, label, r.id()).outgoing,
            assembler::pdu_tail(r.id(), rest, state::parameter_size(target)).len(),
        ) == finished(
            asker,
            target,
            label,
            r,
            assembler::pdu_tail(r.id(), rest, state::parameter_size(target)).len() - 1,
        ),
    decreases rest.len(),
{
    let id = r.id();
    let code = ResponseCode::ImplementedOrStable;
    let size = state::parameter_size(target);
    let tail = assembler::pdu_tail(id, rest, size);
    let c = more_request(id);
    let sent = state::ask_for_more(asker, label, id).outgoing;
    lemma_target_hears(target, asker.avctp, label, CommandType::Control, c);
    let t = receive_all(target, sent);
    assert(t == state::sending(state::continue_with(target, label, id))) by {
        reveal(state::run_command);
    }
    let last = rest.len() <= size;
    let chunk = if last {
        rest
    } else {
        rest.take(size)
    };
    let kind = if last {
        assembler::PDU_END
    } else {
        assembler::PDU_CONTINUE
    };
    let packet = assembler::pdu_packet(id, kind, chunk);
    assert(tail[0] == packet);
    assert(t.outgoing == state::wrapped(target, label, code, packet)) by {
        reveal(state::continue_with);
    }
    assembler::lemma_packet(id, kind, chunk);
    lemma_asker_hears(asker, target, label, code, packet);
    lemma_packet_assembled(asker, label, code, id, kind, chunk);
    let a = receive_all(asker, t.outgoing);
    let before = PduAssemblerModel { pdu_id: Some(id), parameters: done };
    if last {
        assert(assembler::assemble_pdu(before, packet) == (
            assembler::empty_assembler(),
            Some((id, r.parameters())),
        ));
        let next = ConnectionModel {
            response_assemblers: asker.response_assemblers.remove(label),
            ..asker
        };
        lemma_dispatched(next, label, r);
        assert(t.state == (ConnectionModel { continuation: None, ..target })) by {
            reveal(state::continue_with);
        }
        assert(tail.len() == 1);
        let rest_of = exchanged(a.state, t.state, a.outgoing, 0);
        let all = exchanged(asker, target, sent, 1);
        assert(all == (Exchange {
            asker_events: a.events + rest_of.asker_events,
            target_events: t.events + rest_of.target_events,
            ..rest_of
        }));
        assert(all =~= finished(asker, target, label, r, 0));
    } else {
        let left = rest.skip(size);
        let more = assembler::pdu_tail(id, left, size);
        assert(tail.skip(1) =~= more);
        assert(more.len() >= 1);
        assert(tail.len() == 1 + more.len());
        let after = PduAssemblerModel { pdu_id: Some(id), parameters: done + chunk };
        assert(assembler::assemble_pdu(before, packet) == (after, None::<(u8, Seq<u8>)>));
        let next = ConnectionModel {
            response_assemblers: asker.response_assemblers.insert(label, (code, after)),
            continuations_requested: (asker.continuations_requested + 1) as u32,
            ..asker
        };
        assert(a.state == next);
        assert(a.outgoing == state::ask_for_more(next, label, id).outgoing);
        let holding = ConnectionModel {
            continuation: Some(
                ContinuationModel { pdu_id: id, response_code: code, remaining: more },
            ),
            ..target
        };
        assert(t.state == holding) by {
            reveal(state::continue_with);
        }
        assert(done + chunk + left =~= r.parameters()) by {
            assert(chunk + left =~= rest);
        }
        lemma_rest(next, holding, label, r, done + chunk, left);
        let rest_of = exchanged(a.state, t.state, a.outgoing, more.len());
        let all = exchanged(asker, target, sent, tail.len());
        assert(all == (Exchange {
            asker_events: a.events + rest_of.asker_events,
            target_events: t.events + rest_of.target_events,
            ..rest_of
        }));
        assert(next.response_assemblers.remove(label) =~= asker.response_assemblers.remove(label));
        assert(all =~= finished(asker, target, label, r, tail.len() - 1));
    }
}

/// A command is answered, whether its response fits one frame or is cut.
proof fn lemma_answered(
    asker: ConnectionModel,
    target: ConnectionModel,
    label: u8,
    c: CommandModel,
    r: ResponseModel,
)
    requires
        listening(asker),
        listening(target),
        asker.avctp.peer_mtu >= 14,
        target.avctp.peer_mtu >= 14,
        label < 16,
        codec_laws::fits_command(c),
        c.parameters().len() <= 1100,
        codec_laws::fits_response(r),
        asker.pending.contains_key(label),
        asker.pending[label] matches Pending::Vendor { pdu_id, .. } && pdu_id == r.id(),
        !asker.response_assemblers.contains_key(label),
        !target.command_assemblers.contains_key(label),
        target.continuation is None,
        state::run_command(target, label, c.id(), c) == state::sending(
            state::answer(target, label, r),
        ),
        r.parameters().len() > 0,
        asker.continuations_requested + r.parameters().len() <= u32::MAX,
    ensures
        exchanged(
            asker,
            target,
            avctp::command_packets(
                asker.avctp,
                label,
                AVRCP_PID,
                state::command_frame(CommandType::Status, c),
            ),
            assembler::pdu_packets(
                r.id(),
                r.parameters(),
                state::parameter_size(target),
            ).len(),
        ) == finished(
            asker,
            target,
            label,
            r,
            assembler::pdu_packets(
                r.id(),
                r.parameters(),
                state::parameter_size(target),
            ).len() - 1,
        ),
{
    let id = r.id();
    let code = ResponseCode::ImplementedOrStable;
    let size = state::parameter_size(target);
    let parameters = r.parameters();
    let packets = assembler::pdu_packets(id, parameters, size);
    let sent = avctp::command_packets(
        asker.avctp,
        label,
        AVRCP_PID,
        state::command_frame(CommandType::Status, c),
    );
    lemma_target_hears(target, asker.avctp, label, CommandType::Status, c);
    let t = receive_all(target, sent);
    assert(t == state::sending(state::respond(target, label, code, id, parameters)));
    let whole = parameters.len() <= size;
    let chunk = if whole {
        parameters
    } else {
        parameters.take(size)
    };
    let kind = if whole {
        assembler::PDU_SINGLE
    } else {
        assembler::PDU_START
    };
    let packet = assembler::pdu_packet(id, kind, chunk);
    assert(packets[0] == packet);
    assert(t.outgoing == state::wrapped(target, label, code, packet)) by {
        reveal(state::respond);
    }
    assembler::lemma_packet(id, kind, chunk);
    lemma_asker_hears(asker, target, label, code, packet);
    lemma_packet_assembled(asker, label, code, id, kind, chunk);
    let a = receive_all(asker, t.outgoing);
    let before = assembler::empty_assembler();
    assert(before.parameters + chunk =~= chunk);
    if whole {
        assert(assembler::assemble_pdu(before, packet) == (before, Some((id, parameters))));
        assert(asker.response_assemblers.remove(label) =~= asker.response_assemblers);
        lemma_dispatched(asker, label, r);
        assert(t.state == target) by {
            reveal(state::respond);
        }
        assert(packets.len() == 1);
        let rest_of = exchanged(a.state, t.state, a.outgoing, 0);
        let all = exchanged(asker, target, sent, 1);
        assert(all == (Exchange {
            asker_events: a.events + rest_of.asker_events,
            target_events: t.events + rest_of.target_events,
            ..rest_of
        }));
        assert(all =~= finished(asker, target, label, r, 0));
    } else {
        let left = parameters.skip(size);
        let more = assembler::pdu_tail(id, left, size);
        assert(packets.skip(1) =~= more);
        assert(more.len() >= 1);
        assert(packets.len() == 1 + more.len());
        let after = PduAssemblerModel { pdu_id: Some(id), parameters: chunk };
        assert(assembler::assemble_pdu(before, packet) == (after, None::<(u8, Seq<u8>)>));
        let next = ConnectionModel {
            response_assemblers: asker.response_assemblers.insert(label, (code, after)),
            continuations_requested: (asker.continuations_requested + 1) as u32,
            ..asker
        };
        assert(a.state == next);
        assert(a.outgoing == state::ask_for_more(next, label, id).outgoing);
        let holding = ConnectionModel {
            continuation: Some(
                ContinuationModel { pdu_id: id, response_code: code, remaining: more },
            ),
            ..target
        };
        assert(t.state == holding) by {
            reveal(state::respond);
        }
        assert(chunk + left =~= parameters);
        lemma_rest(next, holding, label, r, chunk, left);
        let rest_of = exchanged(a.state, t.state, a.outgoing, more.len());
        let all = exchanged(asker, target, sent, packets.len());
        assert(all == (Exchange {
            asker_events: a.events + rest_of.asker_events,
            target_events: t.events + rest_of.target_events,
            ..rest_of
        }));
        assert(next.response_assemblers.remove(label) =~= asker.response_assemblers.remove(label));
        assert(all =~= finished(asker, target, label, r, packets.len() - 1));
    }
}

/// How many packets the bytes behind the first packet of a PDU take.
proof fn lemma_tail_count(id: u8, rest: Seq<u8>, size: int)
    requires
        size > 0,
        rest.len() > 0,
    ensures
        assembler::pdu_tail(id, rest, size).len() == (rest.len() + size - 1) / size,
    decreases rest.len(),
{
    let n = rest.len() as int;
    if n <= size {
        assert((n + size - 1) / size == 1) by (nonlinear_arith)
            requires
                0 < n <= size,
        ;
    } else {
        lemma_tail_count(id, rest.skip(size), size);
        vstd::arithmetic::div_mod::lemma_div_minus_one(n + size - 1, size);
        assert(-size + (n + size - 1) == (n - size) + size - 1);
    }
}

/// How many pieces parameters are cut into: as many as are needed where each
/// holds at most `size` bytes.
pub open spec fn pieces(len: int, size: int) -> int {
    (len + size - 1) / size
}

/// A PDU is cut into as many packets as it takes pieces.
proof fn lemma_packet_count(id: u8, parameters: Seq<u8>, size: int)
    requires
        size > 0,
        parameters.len() > 0,
    ensures
        assembler::pdu_packets(id, parameters, size).len() == pieces(
            parameters.len() as int,
            size,
        ),
        1 <= pieces(parameters.len() as int, size) <= parameters.len(),
{
    let n = parameters.len() as int;
    if n <= size {
        assert((n + size - 1) / size == 1) by (nonlinear_arith)
            requires
                0 < n <= size,
        ;
    } else {
        lemma_tail_count(id, parameters.skip(size), size);
        vstd::arithmetic::div_mod::lemma_div_minus_one(n + size - 1, size);
        assert(-size + (n + size - 1) == (n - size) + size - 1);
        assert(0 < (n + size - 1) / size <= n) by (nonlinear_arith)
            requires
                size > 0,
                n > size,
        ;
    }
}

/// Whether nothing is under way on a connection, and its MTU is large enough
/// for the headers of a response and one byte.
pub open spec fn at_rest(m: ConnectionModel) -> bool {
    &&& listening(m)
    &&& m.avctp.peer_mtu >= 14
    &&& m.peer_mtu >= 14
    &&& m.pending == Map::<u8, Pending>::empty()
    &&& m.command_assemblers == Map::<u8, (CommandType, PduAssemblerModel)>::empty()
    &&& m.response_assemblers == Map::<u8, (ResponseCode, PduAssemblerModel)>::empty()
    &&& m.continuation is None
}

/// A new connection is at rest, whatever track it serves.
pub proof fn law_new_connection_is_at_rest(peer_mtu: u16, list: Seq<MediaAttributeModel>)
    requires
        peer_mtu >= 14,
    ensures
        at_rest(
            (ConnectionModel { element_attributes: list, ..protocol::new_connection(peer_mtu) }),
        ),
{
    let m = protocol::new_connection(peer_mtu);
    assert(m.avctp.registered_pids[0] == AVRCP_PID);
}

/// What a target serves of its track.
pub open spec fn served(target: ConnectionModel, ids: Seq<u32>) -> Seq<MediaAttributeModel> {
    state::selected_attributes(
        state::served_attributes(target.element_attributes, target.song_length),
        ids,
    )
}

/// Four bytes to a number.
proof fn lemma_numbers_len(list: Seq<u32>)
    ensures
        wire::u32s_bytes(list).len() == 4 * list.len(),
    decreases list.len(),
{
    if list.len() > 0 {
        lemma_numbers_len(list.drop_last());
    }
}

/// How many bytes of parameters the response with attributes has.
pub open spec fn answer_size(attributes: Seq<MediaAttributeModel>) -> int {
    ResponseModel::GetElementAttributes { attributes }.parameters().len() as int
}

/// A controller that asks for the attributes of a track gets all of them,
/// however small the pieces are that the target has to cut its response into.
/// When every packet that either side sends has been delivered to the other,
/// the controller has reported exactly one event, with the attributes, and the
/// target none; the target holds nothing back, and nothing is under way. The
/// controller has asked for the rest as many times as there are pieces, less
/// one. The attributes have to fit their counts and lengths, and the counter of
/// requests its range.
pub proof fn law_element_attributes_are_exchanged(
    asker: ConnectionModel,
    target: ConnectionModel,
    identifier: u64,
    ids: Seq<u32>,
)
    requires
        at_rest(asker),
        at_rest(target),
        ids.len() <= 0xFF,
        codec_laws::fit_attributes(served(target, ids)),
        asker.continuations_requested + answer_size(served(target, ids)) <= u32::MAX,
    ensures
        ({
            let attributes = served(target, ids);
            let count = pieces(answer_size(attributes), state::parameter_size(target));
            let (asked, sent) = state::send_command(
                asker,
                CommandType::Status,
                CommandModel::GetElementAttributes { identifier, attribute_ids: ids },
            );
            &&& sent is Ok
            &&& exchanged(asked, target, sent->Ok_0, count as nat) == (Exchange {
                asker: ConnectionModel {
                    next_transaction: asked.next_transaction,
                    continuations_requested: (asker.continuations_requested + count - 1) as u32,
                    ..asker
                },
                target,
                asker_events: seq![AvrcpEventModel::ElementAttributesReceived(attributes)],
                target_events: seq![],
                in_flight: seq![],
            })
        }),
        ids.len() == 0 && target.song_length == PLAYBACK_POSITION_UNAVAILABLE ==> served(
            target,
            ids,
        ) == target.element_attributes,
{
    let attributes = served(target, ids);
    let r = ResponseModel::GetElementAttributes { attributes };
    let c = CommandModel::GetElementAttributes { identifier, attribute_ids: ids };
    let size = state::parameter_size(target);
    let (asked, sent) = state::send_command(asker, CommandType::Status, c);
    let label = state::free_label(asker.pending, asker.next_transaction, 0)->0;
    assert(label < 16);
    assert(state::run_command(target, label, c.id(), c) == state::sending(
        state::answer(target, label, r),
    )) by {
        reveal(state::run_command);
    }
    lemma_packet_count(r.id(), r.parameters(), size);
    lemma_numbers_len(ids);
    lemma_answered(asked, target, label, c, r);
    assert(asked.pending.remove(label) =~= asker.pending);
    assert(asked.response_assemblers.remove(label) =~= asker.response_assemblers);
    if target.song_length == PLAYBACK_POSITION_UNAVAILABLE {
        assert(state::served_attributes(target.element_attributes, target.song_length)
            =~= target.element_attributes);
    }
}

/// Attributes that fit their lengths take a bounded number of bytes.
proof fn lemma_attributes_size(list: Seq<MediaAttributeModel>)
    requires
        forall|i: int|
            0 <= i < list.len() ==> codec_laws::fits_text16((#[trigger] list[i]).value),
    ensures
        items::media_attributes_bytes(list).len() <= list.len() * 0x1_0010,
    decreases list.len(),
{
    if list.len() > 0 {
        let front = list.drop_last();
        assert forall|i: int| 0 <= i < front.len() implies codec_laws::fits_text16(
            (#[trigger] front[i]).value,
        ) by {
            assert(front[i] == list[i]);
        }
        lemma_attributes_size(front);
        assert(codec_laws::fits_text16(list[list.len() - 1].value));
    }
}

/// Between two new connections, a controller that asks for all attributes of
/// the track that the target serves gets them all: it reports one event, and
/// the target none; the target holds nothing back; and the rest was asked for
/// as many times as there are pieces, less one.
pub proof fn law_new_connections_exchange_attributes(
    asker_mtu: u16,
    target_mtu: u16,
    list: Seq<MediaAttributeModel>,
    identifier: u64,
)
    requires
        asker_mtu >= 14,
        target_mtu >= 14,
        codec_laws::fit_attributes(list),
    ensures
        ({
            let asker = protocol::new_connection(asker_mtu);
            let target = ConnectionModel {
                element_attributes: list,
                ..protocol::new_connection(target_mtu)
            };
            let count = pieces(answer_size(list), state::parameter_size(target));
            let (asked, sent) = state::send_command(
                asker,
                CommandType::Status,
                CommandModel::GetElementAttributes { identifier, attribute_ids: seq![] },
            );
            let end = exchanged(asked, target, sent->Ok_0, count as nat);
            &&& sent is Ok
            &&& end.in_flight == Seq::<Seq<u8>>::empty()
            &&& end.asker_events == seq![AvrcpEventModel::ElementAttributesReceived(list)]
            &&& end.target_events == Seq::<AvrcpEventModel>::empty()
            &&& end.target == target
            &&& end.target.continuation is None
            &&& end.asker.continuations_requested == count - 1
        }),
{
    let asker = protocol::new_connection(asker_mtu);
    let target = ConnectionModel {
        element_attributes: list,
        ..protocol::new_connection(target_mtu)
    };
    law_new_connection_is_at_rest(asker_mtu, asker.element_attributes);
    law_new_connection_is_at_rest(target_mtu, list);
    assert((ConnectionModel { element_attributes: asker.element_attributes, ..asker }) == asker);
    assert(state::served_attributes(list, PLAYBACK_POSITION_UNAVAILABLE) =~= list);
    assert(served(target, seq![]) == list);
    lemma_attributes_size(list);
    let r = ResponseModel::GetElementAttributes { attributes: list };
    lemma_packet_count(r.id(), r.parameters(), state::parameter_size(target));
    law_element_attributes_are_exchanged(asker, target, identifier, seq![]);
}

} // verus!
