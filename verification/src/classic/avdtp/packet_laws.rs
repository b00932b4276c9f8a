//! What passes over the signaling channel, byte by byte: what each command
//! does, what is answered, and what each answer does.

use vstd::prelude::*;
use crate::bytes;
use crate::classic::avdtp::assembler;
use crate::classic::avdtp::assembler::{AssembledModel, PacketType};
use crate::classic::avdtp::capability;
use crate::classic::avdtp::capability::{
    CapabilityModel,
    MediaType,
    SepInfo,
    StreamEndPointType,
};
use crate::classic::avdtp::laws;
use crate::classic::avdtp::message;
use crate::classic::avdtp::message::{MessageModel, MessageType};
use crate::classic::avdtp::state;
use crate::classic::avdtp::state::{
    EventModel,
    Handled,
    LocalModel,
    PendingModel,
    ProtocolModel,
    RemoteModel,
    StreamState,
};

verus! {

// ---------------------------------------------------------------------------
// Packets
// ---------------------------------------------------------------------------

/// The byte with a transaction label above and the kind of a single message
/// below: zero for a command, one for a general reject, two for an accept,
/// three for a reject.
pub open spec fn first_byte(label: u8, kind: int) -> u8 {
    (label * 16 + kind) as u8
}

/// Whether a connection is between messages, and a label and a size are in
/// range.
pub open spec fn takes(p: ProtocolModel, label: u8, size: int) -> bool {
    &&& label < 16
    &&& p.assembler == assembler::idle_assembler()
    &&& size + 2 <= p.peer_mtu
}

/// Whether a command packet makes a connection come to have local endpoints,
/// send one packet in answer, and report events. Nothing else changes.
#[verifier::opaque]
pub open spec fn answers(
    p: ProtocolModel,
    packet: Seq<u8>,
    local: Seq<LocalModel>,
    reply: Seq<u8>,
    events: Seq<EventModel>,
) -> bool {
    let step = state::on_packet(p, packet);
    &&& step.state == (ProtocolModel { local, ..p })
    &&& step.outgoing == seq![reply]
    &&& step.events == events
}

/// Whether an answer packet makes a connection come to a state and report
/// events. Nothing is sent.
#[verifier::opaque]
pub open spec fn reports(
    p: ProtocolModel,
    packet: Seq<u8>,
    after: ProtocolModel,
    events: Seq<EventModel>,
) -> bool {
    let step = state::on_packet(p, packet);
    &&& step.state == after
    &&& step.outgoing == Seq::<Seq<u8>>::empty()
    &&& step.events == events
}

/// A single packet is put together as what it holds.
proof fn lemma_single(
    label: u8,
    kind: MessageType,
    signal: u8,
    payload: Seq<u8>,
    packet: Seq<u8>,
)
    requires
        label < 16,
        signal < 0x40,
        packet =~= seq![first_byte(label, kind.bits() as int), signal] + payload,
    ensures
        assembler::assemble(assembler::idle_assembler(), packet) == (
            assembler::idle_assembler(),
            Some(
                (AssembledModel {
                    transaction_label: label,
                    signal_identifier: signal,
                    message_type: kind,
                    payload,
                }),
            ),
        ),
{
    let b = packet[0];
    let k = kind.bits();
    assert(b == label * 16 + k && k < 4);
    assert(b / 16 == label && (b / 4) % 4 == 0 && b % 4 == k);
    assert(packet.skip(2) =~= payload);
    assert(message::message_type_of(b) == kind);
    assert(assembler::packet_type_of(b / 4) == PacketType::Single);
}

/// A single packet is received as the message in it.
#[verifier::rlimit(50)]
proof fn lemma_heard(p: ProtocolModel, label: u8, m: MessageModel, packet: Seq<u8>)
    requires
        label < 16,
        p.assembler == assembler::idle_assembler(),
        m.signal() < 0x40,
        packet =~= seq![first_byte(label, m.kind().bits() as int), m.signal()] + m.payload(),
    ensures
        state::on_packet(p, packet) == laws::on_message(p, assembler::assembled(label, m)),
{
    lemma_packet(p, label, m.kind(), m.signal(), m.payload(), packet);
}

/// A single packet is received as what it holds.
#[verifier::rlimit(50)]
proof fn lemma_packet(
    p: ProtocolModel,
    label: u8,
    kind: MessageType,
    signal: u8,
    payload: Seq<u8>,
    packet: Seq<u8>,
)
    requires
        label < 16,
        p.assembler == assembler::idle_assembler(),
        signal < 0x40,
        packet =~= seq![first_byte(label, kind.bits() as int), signal] + payload,
    ensures
        state::on_packet(p, packet) == laws::on_message(
            p,
            (AssembledModel {
                transaction_label: label,
                signal_identifier: signal,
                message_type: kind,
                payload,
            }),
        ),
{
    lemma_single(label, kind, signal, payload, packet);
    assert((ProtocolModel { assembler: assembler::idle_assembler(), ..p }) == p);
}

/// What a command makes of local endpoints.
#[verifier::opaque]
spec fn outcome(local: Seq<LocalModel>, m: MessageModel) -> Option<Handled> {
    state::handled(local, m)
}

/// The signal, the kind and the payload of a message, and whether it fits its
/// fields.
#[verifier::opaque]
spec fn parts(m: MessageModel) -> (u8, MessageType, Seq<u8>, bool) {
    (m.signal(), m.kind(), m.payload(), message::fits(m))
}

/// A command is answered in one packet.
#[verifier::rlimit(50)]
proof fn lemma_answered(
    p: ProtocolModel,
    label: u8,
    m: MessageModel,
    h: Handled,
    signal: u8,
    payload: Seq<u8>,
)
    requires
        label < 16,
        p.assembler == assembler::idle_assembler(),
        signal < 0x40,
        parts(m) == (signal, MessageType::Command, payload, true),
        outcome(p.local, m) == Some(h),
        parts(h.response).2.len() + 2 <= p.peer_mtu,
    ensures
        answers(
            p,
            seq![first_byte(label, 0), signal] + payload,
            h.local,
            seq![first_byte(label, parts(h.response).1.bits() as int), parts(h.response).0]
                + parts(h.response).2,
            h.events,
        ),
{
    reveal(answers);
    reveal(outcome);
    reveal(parts);
    lemma_heard(p, label, m, seq![first_byte(label, 0), signal] + payload);
    laws::law_command_arrives(p, label, m);
}

/// An accepting answer does what the pending command was for.
#[verifier::rlimit(50)]
proof fn lemma_accepted(p: ProtocolModel, label: u8, m: MessageModel, packet: Seq<u8>)
    requires
        label < 16,
        p.assembler == assembler::idle_assembler(),
        m.signal() < 0x40,
        message::fits(m),
        m.kind() == MessageType::ResponseAccept,
        p.pending.contains_key(label),
        m.signal() == state::pending_signal(p.pending[label], p.version),
        packet =~= seq![first_byte(label, 2), m.signal()] + m.payload(),
    ensures
        ({
            let freed = ProtocolModel { pending: p.pending.remove(label), ..p };
            let (after, events) = state::accepted(freed, p.pending[label], m);
            reports(p, packet, after, events)
        }),
{
    reveal(reports);
    lemma_heard(p, label, m, packet);
    laws::law_answer_arrives(p, label, m);
}

// ---------------------------------------------------------------------------
// Discovery
// ---------------------------------------------------------------------------

/// The bytes of a list of endpoints, two to each.
proof fn lemma_sep_bytes(list: Seq<SepInfo>, i: int)
    requires
        0 <= i < list.len(),
    ensures
        message::sep_list_bytes(list).len() == 2 * list.len(),
        message::sep_list_bytes(list)[2 * i] == list[i].wire()[0],
        message::sep_list_bytes(list)[2 * i + 1] == list[i].wire()[1],
    decreases list.len(),
{
    let front = list.drop_last();
    if front.len() > 0 {
        lemma_sep_bytes(front, if i < front.len() { i } else { 0 });
    } else {
        assert(message::sep_list_bytes(front) =~= seq![]);
    }
}

/// A list of endpoints takes two bytes for each.
proof fn lemma_sep_size(list: Seq<SepInfo>)
    ensures
        message::sep_list_bytes(list).len() == 2 * list.len(),
{
    if list.len() > 0 {
        lemma_sep_bytes(list, 0);
    }
}

/// A discover command is answered with every local endpoint once, in their
/// order: its SEID, whether it is in use, which it is exactly if it is not
/// idle, its media type and its type. Nothing changes.
#[verifier::rlimit(50)]
pub proof fn law_endpoints_are_listed(p: ProtocolModel, label: u8)
    requires
        takes(p, label, 2 * p.local.len() as int),
        forall|i: int| 0 <= i < p.local.len() ==> (#[trigger] p.local[i]).seid < 64,
    ensures
        ({
            let step = state::on_packet(p, seq![first_byte(label, 0), 0x01u8]);
            let reply = step.outgoing[0];
            &&& step.state == p
            &&& step.events == Seq::<EventModel>::empty()
            &&& step.outgoing == seq![reply]
            &&& reply.len() == 2 + 2 * p.local.len()
            &&& reply[0] == first_byte(label, 2)
            &&& reply[1] == 0x01
            &&& forall|i: int|
                0 <= i < p.local.len() ==> {
                    let e = #[trigger] p.local[i];
                    &&& reply[2 + 2 * i] == e.seid * 4 + if e.state == StreamState::Idle {
                        0int
                    } else {
                        2
                    }
                    &&& reply[3 + 2 * i] == match e.media_type {
                        MediaType::Audio => 0int,
                        MediaType::Video => 16,
                        MediaType::Multimedia => 32,
                    } + match e.tsep {
                        StreamEndPointType::Source => 0int,
                        StreamEndPointType::Sink => 8,
                    }
                }
        }),
{
    let m = MessageModel::DiscoverCommand;
    let packet = seq![first_byte(label, 0), 0x01u8];
    let list = state::sep_infos(p.local);
    lemma_sep_size(list);
    let none: Seq<u8> = seq![];
    let response = MessageModel::DiscoverResponse(list);
    let h = Handled { local: p.local, response, events: seq![] };
    assert(outcome(p.local, m) == Some(h)) by {
        reveal(outcome);
    }
    assert(parts(m) == (0x01u8, MessageType::Command, none, true)) by {
        reveal(parts);
    }
    assert(parts(response).0 == 0x01 && parts(response).1 == MessageType::ResponseAccept && parts(
        response,
    ).2 == message::sep_list_bytes(list)) by {
        reveal(parts);
    }
    lemma_answered(p, label, m, h, 0x01, none);
    reveal(answers);
    assert(packet + none =~= packet);
    let reply = seq![first_byte(label, 2), 0x01u8] + message::sep_list_bytes(list);
    assert forall|i: int| 0 <= i < p.local.len() implies {
        let e = #[trigger] p.local[i];
        &&& reply[2 + 2 * i] == e.seid * 4 + if e.state == StreamState::Idle {
            0int
        } else {
            2
        }
        &&& reply[3 + 2 * i] == match e.media_type {
            MediaType::Audio => 0int,
            MediaType::Video => 16,
            MediaType::Multimedia => 32,
        } + match e.tsep {
            StreamEndPointType::Source => 0int,
            StreamEndPointType::Sink => 8,
        }
    } by {
        lemma_sep_bytes(list, i);
        assert(list[i].seid == p.local[i].seid);
    }
}

/// What a discover command is answered says that an endpoint is in use once it
/// has been configured, and free again once it has been closed or aborted.
#[verifier::rlimit(50)]
pub proof fn law_use_is_listed(local: Seq<LocalModel>, seid: u8, m: MessageModel)
    requires
        1 <= seid <= local.len(),
        m is SetConfigurationCommand && m->SetConfigurationCommand_acp_seid == seid
            && local[seid - 1].state == StreamState::Idle || m == (MessageModel::CloseCommand {
            acp_seid: seid,
        }) && (local[seid - 1].state == StreamState::Open || local[seid - 1].state
            == StreamState::Streaming) || m == (MessageModel::AbortCommand { acp_seid: seid }),
    ensures
        ({
            let after = state::handled(local, m)->0.local;
            let before = state::handled(local, MessageModel::DiscoverCommand)->0.response;
            let listed = state::handled(after, MessageModel::DiscoverCommand)->0.response;
            &&& listed is DiscoverResponse
            &&& listed->DiscoverResponse_0.len() == local.len()
            &&& listed->DiscoverResponse_0[seid - 1].in_use == (m is SetConfigurationCommand)
            &&& forall|i: int|
                0 <= i < local.len() && i != seid - 1
                    ==> #[trigger] listed->DiscoverResponse_0[i] == before->DiscoverResponse_0[i]
        }),
{
}

// ---------------------------------------------------------------------------
// Commands
// ---------------------------------------------------------------------------

/// An endpoint that is configured is opened, and that is accepted and reported.
#[verifier::rlimit(50)]
pub proof fn law_open_is_answered(p: ProtocolModel, label: u8, seid: u8)
    requires
        takes(p, label, 2),
        seid < 64,
        1 <= seid <= p.local.len(),
        p.local[seid - 1].state == StreamState::Configured,
    ensures
        answers(
            p,
            seq![first_byte(label, 0), 0x06u8] + seq![(seid * 4) as u8],
            p.local.update(
                seid - 1,
                LocalModel { state: StreamState::Open, ..p.local[seid - 1] },
            ),
            seq![first_byte(label, 2), 0x06u8] + Seq::<u8>::empty(),
            seq![EventModel::StreamOpened { seid }],
        ),
{
    let m = MessageModel::OpenCommand { acp_seid: seid };
    let payload = seq![(seid * 4) as u8];
    let response = MessageModel::OpenResponse;
    let replied = Seq::<u8>::empty();
    let h = Handled {
        local: p.local.update(
                seid - 1,
                LocalModel { state: StreamState::Open, ..p.local[seid - 1] },
            ),
        response,
        events: seq![EventModel::StreamOpened { seid }],
    };
    assert(outcome(p.local, m) == Some(h)) by {
        reveal(outcome);
    }
    assert(parts(m) == (0x06u8, MessageType::Command, payload, true)) by {
        reveal(parts);
        assert(m.payload() =~= payload);
    }
    assert(parts(response).0 == 0x06u8 && parts(response).1 == MessageType::ResponseAccept && parts(
        response,
    ).2 == replied) by {
        reveal(parts);
        assert(response.payload() =~= replied);
    }
    lemma_answered(p, label, m, h, 0x06u8, payload);
}

/// An endpoint that is open or streaming is closed: it is idle and has no peer.
#[verifier::rlimit(50)]
pub proof fn law_close_is_answered(p: ProtocolModel, label: u8, seid: u8)
    requires
        takes(p, label, 2),
        seid < 64,
        1 <= seid <= p.local.len(),
        p.local[seid - 1].state == StreamState::Open || p.local[seid - 1].state
            == StreamState::Streaming,
    ensures
        answers(
            p,
            seq![first_byte(label, 0), 0x08u8] + seq![(seid * 4) as u8],
            p.local.update(
                seid - 1,
                LocalModel { state: StreamState::Idle, remote_seid: None, ..p.local[seid - 1] },
            ),
            seq![first_byte(label, 2), 0x08u8] + Seq::<u8>::empty(),
            seq![EventModel::StreamClosed { seid }],
        ),
{
    let m = MessageModel::CloseCommand { acp_seid: seid };
    let payload = seq![(seid * 4) as u8];
    let response = MessageModel::CloseResponse;
    let replied = Seq::<u8>::empty();
    let h = Handled {
        local: p.local.update(
                seid - 1,
                LocalModel { state: StreamState::Idle, remote_seid: None, ..p.local[seid - 1] },
            ),
        response,
        events: seq![EventModel::StreamClosed { seid }],
    };
    assert(outcome(p.local, m) == Some(h)) by {
        reveal(outcome);
    }
    assert(parts(m) == (0x08u8, MessageType::Command, payload, true)) by {
        reveal(parts);
        assert(m.payload() =~= payload);
    }
    assert(parts(response).0 == 0x08u8 && parts(response).1 == MessageType::ResponseAccept && parts(
        response,
    ).2 == replied) by {
        reveal(parts);
        assert(response.payload() =~= replied);
    }
    lemma_answered(p, label, m, h, 0x08u8, payload);
}

/// An endpoint that is not idle is aborted: it is idle and has no peer.
#[verifier::rlimit(50)]
pub proof fn law_abort_is_answered(p: ProtocolModel, label: u8, seid: u8)
    requires
        takes(p, label, 2),
        seid < 64,
        1 <= seid <= p.local.len(),
        p.local[seid - 1].state != StreamState::Idle,
    ensures
        answers(
            p,
            seq![first_byte(label, 0), 0x0Au8] + seq![(seid * 4) as u8],
            p.local.update(
                seid - 1,
                LocalModel { state: StreamState::Idle, remote_seid: None, ..p.local[seid - 1] },
            ),
            seq![first_byte(label, 2), 0x0Au8] + Seq::<u8>::empty(),
            seq![EventModel::StreamAborted { seid }],
        ),
{
    let m = MessageModel::AbortCommand { acp_seid: seid };
    let payload = seq![(seid * 4) as u8];
    let response = MessageModel::AbortResponse;
    let replied = Seq::<u8>::empty();
    let h = Handled {
        local: p.local.update(
                seid - 1,
                LocalModel { state: StreamState::Idle, remote_seid: None, ..p.local[seid - 1] },
            ),
        response,
        events: seq![EventModel::StreamAborted { seid }],
    };
    assert(outcome(p.local, m) == Some(h)) by {
        reveal(outcome);
    }
    assert(parts(m) == (0x0Au8, MessageType::Command, payload, true)) by {
        reveal(parts);
        assert(m.payload() =~= payload);
    }
    assert(parts(response).0 == 0x0Au8 && parts(response).1 == MessageType::ResponseAccept && parts(
        response,
    ).2 == replied) by {
        reveal(parts);
        assert(response.payload() =~= replied);
    }
    lemma_answered(p, label, m, h, 0x0Au8, payload);
}

/// An abort of an idle or an unknown endpoint is accepted too, and does nothing.
#[verifier::rlimit(50)]
pub proof fn law_needless_abort_is_answered(p: ProtocolModel, label: u8, seid: u8)
    requires
        takes(p, label, 2),
        seid < 64,
        (seid == 0 || seid > p.local.len()) || p.local[seid - 1].state == StreamState::Idle,
    ensures
        answers(
            p,
            seq![first_byte(label, 0), 0x0Au8] + seq![(seid * 4) as u8],
            p.local,
            seq![first_byte(label, 2), 0x0Au8] + Seq::<u8>::empty(),
            seq![],
        ),
{
    let m = MessageModel::AbortCommand { acp_seid: seid };
    let payload = seq![(seid * 4) as u8];
    let response = MessageModel::AbortResponse;
    let replied = Seq::<u8>::empty();
    let h = Handled {
        local: p.local,
        response,
        events: seq![],
    };
    assert(outcome(p.local, m) == Some(h)) by {
        reveal(outcome);
    }
    assert(parts(m) == (0x0Au8, MessageType::Command, payload, true)) by {
        reveal(parts);
        assert(m.payload() =~= payload);
    }
    assert(parts(response).0 == 0x0Au8 && parts(response).1 == MessageType::ResponseAccept && parts(
        response,
    ).2 == replied) by {
        reveal(parts);
        assert(response.payload() =~= replied);
    }
    lemma_answered(p, label, m, h, 0x0Au8, payload);
}

/// An endpoint that is open is started.
#[verifier::rlimit(50)]
pub proof fn law_start_is_answered(p: ProtocolModel, label: u8, seid: u8)
    requires
        takes(p, label, 2),
        seid < 64,
        1 <= seid <= p.local.len(),
        p.local[seid - 1].state == StreamState::Open,
    ensures
        answers(
            p,
            seq![first_byte(label, 0), 0x07u8] + seq![(seid * 4) as u8],
            p.local.update(
                seid - 1,
                LocalModel { state: StreamState::Streaming, ..p.local[seid - 1] },
            ),
            seq![first_byte(label, 2), 0x07u8] + Seq::<u8>::empty(),
            seq![EventModel::StreamStarted { seid }],
        ),
{
    let m = MessageModel::StartCommand { acp_seids: seq![seid] };
    let payload = seq![(seid * 4) as u8];
    let response = MessageModel::StartResponse;
    let replied = Seq::<u8>::empty();
    let h = Handled {
        local: p.local.update(
                seid - 1,
                LocalModel { state: StreamState::Streaming, ..p.local[seid - 1] },
            ),
        response,
        events: seq![EventModel::StreamStarted { seid }],
    };
    assert(outcome(p.local, m) == Some(h)) by {
        reveal(outcome);
        reveal_with_fuel(state::first_refused, 2);
        reveal_with_fuel(state::with_states, 2);
        assert(seq![seid].drop_last() =~= seq![]);
        assert(state::starts(seq![seid]) =~= seq![EventModel::StreamStarted { seid }]);
        assert(state::suspensions(seq![seid]) =~= seq![EventModel::StreamSuspended { seid }]);
    }
    assert(parts(m) == (0x07u8, MessageType::Command, payload, true)) by {
        reveal(parts);
        assert(m.payload() =~= payload);
    }
    assert(parts(response).0 == 0x07u8 && parts(response).1 == MessageType::ResponseAccept && parts(
        response,
    ).2 == replied) by {
        reveal(parts);
        assert(response.payload() =~= replied);
    }
    lemma_answered(p, label, m, h, 0x07u8, payload);
}

/// An endpoint that streams is suspended: it is open again.
#[verifier::rlimit(50)]
pub proof fn law_suspend_is_answered(p: ProtocolModel, label: u8, seid: u8)
    requires
        takes(p, label, 2),
        seid < 64,
        1 <= seid <= p.local.len(),
        p.local[seid - 1].state == StreamState::Streaming,
    ensures
        answers(
            p,
            seq![first_byte(label, 0), 0x09u8] + seq![(seid * 4) as u8],
            p.local.update(
                seid - 1,
                LocalModel { state: StreamState::Open, ..p.local[seid - 1] },
            ),
            seq![first_byte(label, 2), 0x09u8] + Seq::<u8>::empty(),
            seq![EventModel::StreamSuspended { seid }],
        ),
{
    let m = MessageModel::SuspendCommand { acp_seids: seq![seid] };
    let payload = seq![(seid * 4) as u8];
    let response = MessageModel::SuspendResponse;
    let replied = Seq::<u8>::empty();
    let h = Handled {
        local: p.local.update(
                seid - 1,
                LocalModel { state: StreamState::Open, ..p.local[seid - 1] },
            ),
        response,
        events: seq![EventModel::StreamSuspended { seid }],
    };
    assert(outcome(p.local, m) == Some(h)) by {
        reveal(outcome);
        reveal_with_fuel(state::first_refused, 2);
        reveal_with_fuel(state::with_states, 2);
        assert(seq![seid].drop_last() =~= seq![]);
        assert(state::starts(seq![seid]) =~= seq![EventModel::StreamStarted { seid }]);
        assert(state::suspensions(seq![seid]) =~= seq![EventModel::StreamSuspended { seid }]);
    }
    assert(parts(m) == (0x09u8, MessageType::Command, payload, true)) by {
        reveal(parts);
        assert(m.payload() =~= payload);
    }
    assert(parts(response).0 == 0x09u8 && parts(response).1 == MessageType::ResponseAccept && parts(
        response,
    ).2 == replied) by {
        reveal(parts);
        assert(response.payload() =~= replied);
    }
    lemma_answered(p, label, m, h, 0x09u8, payload);
}

/// The capabilities of an endpoint are answered as it has them.
#[verifier::rlimit(50)]
pub proof fn law_capabilities_are_answered(p: ProtocolModel, label: u8, seid: u8)
    requires
        takes(p, label, 2),
        seid < 64,
        1 <= seid <= p.local.len(),
        takes(
            p,
            label,
            capability::capability_list_bytes(p.local[seid - 1].capabilities).len() as int,
        ),
    ensures
        answers(
            p,
            seq![first_byte(label, 0), 0x02u8] + seq![(seid * 4) as u8],
            p.local,
            seq![first_byte(label, 2), 0x02u8] + capability::capability_list_bytes(
                p.local[seid - 1].capabilities,
            ),
            seq![],
        ),
{
    let m = MessageModel::GetCapabilitiesCommand { acp_seid: seid };
    let payload = seq![(seid * 4) as u8];
    let response = MessageModel::GetCapabilitiesResponse(p.local[seid - 1].capabilities);
    let replied = capability::capability_list_bytes(
                p.local[seid - 1].capabilities,
            );
    let h = Handled {
        local: p.local,
        response,
        events: seq![],
    };
    assert(outcome(p.local, m) == Some(h)) by {
        reveal(outcome);
    }
    assert(parts(m) == (0x02u8, MessageType::Command, payload, true)) by {
        reveal(parts);
        assert(m.payload() =~= payload);
    }
    assert(parts(response).0 == 0x02u8 && parts(response).1 == MessageType::ResponseAccept && parts(
        response,
    ).2 == replied) by {
        reveal(parts);
        assert(response.payload() =~= replied);
    }
    lemma_answered(p, label, m, h, 0x02u8, payload);
}

/// The capabilities of an endpoint are answered as it has them.
#[verifier::rlimit(50)]
pub proof fn law_all_capabilities_are_answered(p: ProtocolModel, label: u8, seid: u8)
    requires
        takes(p, label, 2),
        seid < 64,
        1 <= seid <= p.local.len(),
        takes(
            p,
            label,
            capability::capability_list_bytes(p.local[seid - 1].capabilities).len() as int,
        ),
    ensures
        answers(
            p,
            seq![first_byte(label, 0), 0x0Cu8] + seq![(seid * 4) as u8],
            p.local,
            seq![first_byte(label, 2), 0x0Cu8] + capability::capability_list_bytes(
                p.local[seid - 1].capabilities,
            ),
            seq![],
        ),
{
    let m = MessageModel::GetAllCapabilitiesCommand { acp_seid: seid };
    let payload = seq![(seid * 4) as u8];
    let response = MessageModel::GetAllCapabilitiesResponse(p.local[seid - 1].capabilities);
    let replied = capability::capability_list_bytes(
                p.local[seid - 1].capabilities,
            );
    let h = Handled {
        local: p.local,
        response,
        events: seq![],
    };
    assert(outcome(p.local, m) == Some(h)) by {
        reveal(outcome);
    }
    assert(parts(m) == (0x0Cu8, MessageType::Command, payload, true)) by {
        reveal(parts);
        assert(m.payload() =~= payload);
    }
    assert(parts(response).0 == 0x0Cu8 && parts(response).1 == MessageType::ResponseAccept && parts(
        response,
    ).2 == replied) by {
        reveal(parts);
        assert(response.payload() =~= replied);
    }
    lemma_answered(p, label, m, h, 0x0Cu8, payload);
}

/// The configuration of an endpoint that is in use is answered as it is set.
#[verifier::rlimit(50)]
pub proof fn law_configuration_is_answered(p: ProtocolModel, label: u8, seid: u8)
    requires
        takes(p, label, 2),
        seid < 64,
        1 <= seid <= p.local.len(),
        p.local[seid - 1].state == StreamState::Configured || p.local[seid - 1].state
            == StreamState::Open || p.local[seid - 1].state == StreamState::Streaming,
        takes(
            p,
            label,
            capability::capability_list_bytes(p.local[seid - 1].configuration).len() as int,
        ),
    ensures
        answers(
            p,
            seq![first_byte(label, 0), 0x04u8] + seq![(seid * 4) as u8],
            p.local,
            seq![first_byte(label, 2), 0x04u8] + capability::capability_list_bytes(
                p.local[seid - 1].configuration,
            ),
            seq![],
        ),
{
    let m = MessageModel::GetConfigurationCommand { acp_seid: seid };
    let payload = seq![(seid * 4) as u8];
    let response = MessageModel::GetConfigurationResponse(p.local[seid - 1].configuration);
    let replied = capability::capability_list_bytes(
                p.local[seid - 1].configuration,
            );
    let h = Handled {
        local: p.local,
        response,
        events: seq![],
    };
    assert(outcome(p.local, m) == Some(h)) by {
        reveal(outcome);
    }
    assert(parts(m) == (0x04u8, MessageType::Command, payload, true)) by {
        reveal(parts);
        assert(m.payload() =~= payload);
    }
    assert(parts(response).0 == 0x04u8 && parts(response).1 == MessageType::ResponseAccept && parts(
        response,
    ).2 == replied) by {
        reveal(parts);
        assert(response.payload() =~= replied);
    }
    lemma_answered(p, label, m, h, 0x04u8, payload);
}

/// A delay report is accepted and reported, in tenths of milliseconds as it came.
#[verifier::rlimit(50)]
pub proof fn law_delay_is_reported(p: ProtocolModel, label: u8, seid: u8, delay: u16)
    requires
        takes(p, label, 2),
        seid < 64,
        1 <= seid <= p.local.len(),
    ensures
        answers(
            p,
            seq![first_byte(label, 0), 0x0Du8] + (seq![(seid * 4) as u8] + bytes::be16_bytes(
                delay,
            )),
            p.local,
            seq![first_byte(label, 2), 0x0Du8] + Seq::<u8>::empty(),
            seq![EventModel::DelayReport { seid, delay }],
        ),
{
    let m = MessageModel::DelayReportCommand { acp_seid: seid, delay };
    let payload = (seq![(seid * 4) as u8] + bytes::be16_bytes(delay));
    let response = MessageModel::DelayReportResponse;
    let replied = Seq::<u8>::empty();
    let h = Handled {
        local: p.local,
        response,
        events: seq![EventModel::DelayReport { seid, delay }],
    };
    assert(outcome(p.local, m) == Some(h)) by {
        reveal(outcome);
    }
    assert(parts(m) == (0x0Du8, MessageType::Command, payload, true)) by {
        reveal(parts);
        assert(m.payload() =~= payload);
    }
    assert(parts(response).0 == 0x0Du8 && parts(response).1 == MessageType::ResponseAccept && parts(
        response,
    ).2 == replied) by {
        reveal(parts);
        assert(response.payload() =~= replied);
    }
    lemma_answered(p, label, m, h, 0x0Du8, payload);
}

/// Security data is accepted and reported as it came.
#[verifier::rlimit(50)]
pub proof fn law_security_data_is_reported(p: ProtocolModel, label: u8, seid: u8, data: Seq<u8>)
    requires
        takes(p, label, 2),
        seid < 64,
        1 <= seid <= p.local.len(),
    ensures
        answers(
            p,
            seq![first_byte(label, 0), 0x0Bu8] + (seq![(seid * 4) as u8] + data),
            p.local,
            seq![first_byte(label, 2), 0x0Bu8] + Seq::<u8>::empty(),
            seq![EventModel::SecurityControl { seid, data }],
        ),
{
    let m = MessageModel::SecurityControlCommand { acp_seid: seid, data };
    let payload = (seq![(seid * 4) as u8] + data);
    let response = MessageModel::SecurityControlResponse;
    let replied = Seq::<u8>::empty();
    let h = Handled {
        local: p.local,
        response,
        events: seq![EventModel::SecurityControl { seid, data }],
    };
    assert(outcome(p.local, m) == Some(h)) by {
        reveal(outcome);
    }
    assert(parts(m) == (0x0Bu8, MessageType::Command, payload, true)) by {
        reveal(parts);
        assert(m.payload() =~= payload);
    }
    assert(parts(response).0 == 0x0Bu8 && parts(response).1 == MessageType::ResponseAccept && parts(
        response,
    ).2 == replied) by {
        reveal(parts);
        assert(response.payload() =~= replied);
    }
    lemma_answered(p, label, m, h, 0x0Bu8, payload);
}

/// An endpoint that is idle is configured as asked for, with the peer that asks.
#[verifier::rlimit(50)]
pub proof fn law_set_configuration_is_answered(
    p: ProtocolModel,
    label: u8,
    seid: u8,
    remote: u8,
    capabilities: Seq<CapabilityModel>,
)
    requires
        takes(p, label, 2),
        seid < 64,
        1 <= seid <= p.local.len(),
        p.local[seid - 1].state == StreamState::Idle,
        remote < 64,
        capability::capabilities_fit(capabilities),
    ensures
        answers(
            p,
            seq![first_byte(label, 0), 0x03u8] + (seq![(seid * 4) as u8, (remote * 4) as u8]
                + capability::capability_list_bytes(capabilities)),
            p.local.update(
                seid - 1,
                LocalModel {
                    state: StreamState::Configured,
                    remote_seid: Some(remote),
                    configuration: capabilities,
                    ..p.local[seid - 1]
                },
            ),
            seq![first_byte(label, 2), 0x03u8] + Seq::<u8>::empty(),
            seq![EventModel::StreamConfigured { seid }],
        ),
{
    let m = MessageModel::SetConfigurationCommand {
        acp_seid: seid,
        int_seid: remote,
        capabilities,
    };
    let payload = (seq![(seid * 4) as u8, (remote * 4) as u8]
                + capability::capability_list_bytes(capabilities));
    let response = MessageModel::SetConfigurationResponse;
    let replied = Seq::<u8>::empty();
    let h = Handled {
        local: p.local.update(
                seid - 1,
                LocalModel {
                    state: StreamState::Configured,
                    remote_seid: Some(remote),
                    configuration: capabilities,
                    ..p.local[seid - 1]
                },
            ),
        response,
        events: seq![EventModel::StreamConfigured { seid }],
    };
    assert(outcome(p.local, m) == Some(h)) by {
        reveal(outcome);
    }
    assert(parts(m) == (0x03u8, MessageType::Command, payload, true)) by {
        reveal(parts);
        assert(m.payload() =~= payload);
    }
    assert(parts(response).0 == 0x03u8 && parts(response).1 == MessageType::ResponseAccept && parts(
        response,
    ).2 == replied) by {
        reveal(parts);
        assert(response.payload() =~= replied);
    }
    lemma_answered(p, label, m, h, 0x03u8, payload);
}

/// An endpoint that is not idle is not configured: it is in use.
#[verifier::rlimit(50)]
pub proof fn law_used_endpoint_is_not_configured(
    p: ProtocolModel,
    label: u8,
    seid: u8,
    remote: u8,
    capabilities: Seq<CapabilityModel>,
)
    requires
        takes(p, label, 2),
        seid < 64,
        1 <= seid <= p.local.len(),
        p.local[seid - 1].state != StreamState::Idle,
        remote < 64,
        capability::capabilities_fit(capabilities),
    ensures
        answers(
            p,
            seq![first_byte(label, 0), 0x03u8] + (seq![(seid * 4) as u8, (remote * 4) as u8]
                + capability::capability_list_bytes(capabilities)),
            p.local,
            seq![first_byte(label, 3), 0x03u8] + seq![0x00u8, 0x13u8],
            seq![],
        ),
{
    let m = MessageModel::SetConfigurationCommand {
        acp_seid: seid,
        int_seid: remote,
        capabilities,
    };
    let payload = (seq![(seid * 4) as u8, (remote * 4) as u8]
                + capability::capability_list_bytes(capabilities));
    let response = MessageModel::SetConfigurationReject { service_category: 0, error_code: 0x13 };
    let replied = seq![0x00u8, 0x13u8];
    let h = Handled {
        local: p.local,
        response,
        events: seq![],
    };
    assert(outcome(p.local, m) == Some(h)) by {
        reveal(outcome);
    }
    assert(parts(m) == (0x03u8, MessageType::Command, payload, true)) by {
        reveal(parts);
        assert(m.payload() =~= payload);
    }
    assert(parts(response).0 == 0x03u8 && parts(response).1 == MessageType::ResponseReject && parts(
        response,
    ).2 == replied) by {
        reveal(parts);
        assert(response.payload() =~= replied);
    }
    lemma_answered(p, label, m, h, 0x03u8, payload);
}

/// The one capability that an open endpoint is reconfigured with takes the place
/// of the one with its category.
#[verifier::rlimit(50)]
pub proof fn law_one_capability_is_reconfigured(
    p: ProtocolModel,
    label: u8,
    seid: u8,
    i: int,
    capability: CapabilityModel,
)
    requires
        takes(p, label, 2),
        seid < 64,
        1 <= seid <= p.local.len(),
        p.local[seid - 1].state == StreamState::Open,
        0 <= i < p.local[seid - 1].configuration.len(),
        p.local[seid - 1].configuration[i].service_category == capability.service_category,
        forall|j: int|
            0 <= j < i ==> (#[trigger] p.local[seid - 1].configuration[j]).service_category
                != capability.service_category,
        capability::capabilities_fit(seq![capability]),
    ensures
        answers(
            p,
            seq![first_byte(label, 0), 0x05u8] + (seq![(seid * 4) as u8]
                + capability::capability_list_bytes(seq![capability])),
            p.local.update(
                seid - 1,
                LocalModel {
                    configuration: p.local[seid - 1].configuration.update(i, capability),
                    ..p.local[seid - 1]
                },
            ),
            seq![first_byte(label, 2), 0x05u8] + Seq::<u8>::empty(),
            seq![EventModel::StreamReconfigured { seid }],
        ),
{
    let m = MessageModel::ReconfigureCommand {
        acp_seid: seid,
        capabilities: seq![capability],
    };
    let payload = (seq![(seid * 4) as u8]
                + capability::capability_list_bytes(seq![capability]));
    let response = MessageModel::ReconfigureResponse;
    let replied = Seq::<u8>::empty();
    let h = Handled {
        local: p.local.update(
                seid - 1,
                LocalModel {
                    configuration: p.local[seid - 1].configuration.update(i, capability),
                    ..p.local[seid - 1]
                },
            ),
        response,
        events: seq![EventModel::StreamReconfigured { seid }],
    };
    assert(outcome(p.local, m) == Some(h)) by {
        reveal(outcome);
        lemma_replaced_at(p.local[seid - 1].configuration, capability, 0, i);
        reveal_with_fuel(state::reconfigured, 2);
        assert(seq![capability].drop_last() =~= seq![]);
    }
    assert(parts(m) == (0x05u8, MessageType::Command, payload, true)) by {
        reveal(parts);
        assert(m.payload() =~= payload);
    }
    assert(parts(response).0 == 0x05u8 && parts(response).1 == MessageType::ResponseAccept && parts(
        response,
    ).2 == replied) by {
        reveal(parts);
        assert(response.payload() =~= replied);
    }
    lemma_answered(p, label, m, h, 0x05u8, payload);
}

/// An endpoint that is not configured is not opened.
#[verifier::rlimit(50)]
pub proof fn law_open_is_refused(p: ProtocolModel, label: u8, seid: u8)
    requires
        takes(p, label, 2),
        seid < 64,
        1 <= seid <= p.local.len(),
        p.local[seid - 1].state != StreamState::Configured,
    ensures
        answers(
            p,
            seq![first_byte(label, 0), 0x06u8] + seq![(seid * 4) as u8],
            p.local,
            seq![first_byte(label, 3), 0x06u8] + seq![0x31u8],
            seq![],
        ),
{
    let m = MessageModel::OpenCommand { acp_seid: seid };
    let payload = seq![(seid * 4) as u8];
    let response = MessageModel::Reject { signal_identifier: 0x06, error_code: 0x31 };
    let replied = seq![0x31u8];
    let h = Handled {
        local: p.local,
        response,
        events: seq![],
    };
    assert(outcome(p.local, m) == Some(h)) by {
        reveal(outcome);
    }
    assert(parts(m) == (0x06u8, MessageType::Command, payload, true)) by {
        reveal(parts);
        assert(m.payload() =~= payload);
    }
    assert(parts(response).0 == 0x06u8 && parts(response).1 == MessageType::ResponseReject && parts(
        response,
    ).2 == replied) by {
        reveal(parts);
        assert(response.payload() =~= replied);
    }
    lemma_answered(p, label, m, h, 0x06u8, payload);
}

/// An endpoint that is neither open nor streaming is not closed.
#[verifier::rlimit(50)]
pub proof fn law_close_is_refused(p: ProtocolModel, label: u8, seid: u8)
    requires
        takes(p, label, 2),
        seid < 64,
        1 <= seid <= p.local.len(),
        p.local[seid - 1].state != StreamState::Open && p.local[seid - 1].state
            != StreamState::Streaming,
    ensures
        answers(
            p,
            seq![first_byte(label, 0), 0x08u8] + seq![(seid * 4) as u8],
            p.local,
            seq![first_byte(label, 3), 0x08u8] + seq![0x31u8],
            seq![],
        ),
{
    let m = MessageModel::CloseCommand { acp_seid: seid };
    let payload = seq![(seid * 4) as u8];
    let response = MessageModel::Reject { signal_identifier: 0x08, error_code: 0x31 };
    let replied = seq![0x31u8];
    let h = Handled {
        local: p.local,
        response,
        events: seq![],
    };
    assert(outcome(p.local, m) == Some(h)) by {
        reveal(outcome);
    }
    assert(parts(m) == (0x08u8, MessageType::Command, payload, true)) by {
        reveal(parts);
        assert(m.payload() =~= payload);
    }
    assert(parts(response).0 == 0x08u8 && parts(response).1 == MessageType::ResponseReject && parts(
        response,
    ).2 == replied) by {
        reveal(parts);
        assert(response.payload() =~= replied);
    }
    lemma_answered(p, label, m, h, 0x08u8, payload);
}

/// There is no configuration of an endpoint that is idle.
#[verifier::rlimit(50)]
pub proof fn law_configuration_is_refused(p: ProtocolModel, label: u8, seid: u8)
    requires
        takes(p, label, 2),
        seid < 64,
        1 <= seid <= p.local.len(),
        p.local[seid - 1].state == StreamState::Idle,
    ensures
        answers(
            p,
            seq![first_byte(label, 0), 0x04u8] + seq![(seid * 4) as u8],
            p.local,
            seq![first_byte(label, 3), 0x04u8] + seq![0x31u8],
            seq![],
        ),
{
    let m = MessageModel::GetConfigurationCommand { acp_seid: seid };
    let payload = seq![(seid * 4) as u8];
    let response = MessageModel::Reject { signal_identifier: 0x04, error_code: 0x31 };
    let replied = seq![0x31u8];
    let h = Handled {
        local: p.local,
        response,
        events: seq![],
    };
    assert(outcome(p.local, m) == Some(h)) by {
        reveal(outcome);
    }
    assert(parts(m) == (0x04u8, MessageType::Command, payload, true)) by {
        reveal(parts);
        assert(m.payload() =~= payload);
    }
    assert(parts(response).0 == 0x04u8 && parts(response).1 == MessageType::ResponseReject && parts(
        response,
    ).2 == replied) by {
        reveal(parts);
        assert(response.payload() =~= replied);
    }
    lemma_answered(p, label, m, h, 0x04u8, payload);
}

/// An endpoint that is not open is not started.
#[verifier::rlimit(50)]
pub proof fn law_start_is_refused(p: ProtocolModel, label: u8, seid: u8)
    requires
        takes(p, label, 2),
        seid < 64,
        1 <= seid <= p.local.len(),
        p.local[seid - 1].state != StreamState::Open,
    ensures
        answers(
            p,
            seq![first_byte(label, 0), 0x07u8] + seq![(seid * 4) as u8],
            p.local,
            seq![first_byte(label, 3), 0x07u8] + seq![(seid * 4) as u8, 0x31u8],
            seq![],
        ),
{
    let m = MessageModel::StartCommand { acp_seids: seq![seid] };
    let payload = seq![(seid * 4) as u8];
    let response = MessageModel::StartReject { acp_seid: seid, error_code: 0x31 };
    let replied = seq![(seid * 4) as u8, 0x31u8];
    let h = Handled {
        local: p.local,
        response,
        events: seq![],
    };
    assert(outcome(p.local, m) == Some(h)) by {
        reveal(outcome);
        reveal_with_fuel(state::first_refused, 2);
        reveal_with_fuel(state::with_states, 2);
        assert(seq![seid].drop_last() =~= seq![]);
        assert(state::starts(seq![seid]) =~= seq![EventModel::StreamStarted { seid }]);
        assert(state::suspensions(seq![seid]) =~= seq![EventModel::StreamSuspended { seid }]);
    }
    assert(parts(m) == (0x07u8, MessageType::Command, payload, true)) by {
        reveal(parts);
        assert(m.payload() =~= payload);
    }
    assert(parts(response).0 == 0x07u8 && parts(response).1 == MessageType::ResponseReject && parts(
        response,
    ).2 == replied) by {
        reveal(parts);
        assert(response.payload() =~= replied);
    }
    lemma_answered(p, label, m, h, 0x07u8, payload);
}

/// A SEID that names no endpoint is refused with its error.
#[verifier::rlimit(50)]
pub proof fn law_start_of_unknown_is_refused(p: ProtocolModel, label: u8, seid: u8)
    requires
        takes(p, label, 2),
        seid < 64,
        seid == 0 || seid > p.local.len(),
    ensures
        answers(
            p,
            seq![first_byte(label, 0), 0x07u8] + seq![(seid * 4) as u8],
            p.local,
            seq![first_byte(label, 3), 0x07u8] + seq![(seid * 4) as u8, 0x12u8],
            seq![],
        ),
{
    let m = MessageModel::StartCommand { acp_seids: seq![seid] };
    let payload = seq![(seid * 4) as u8];
    let response = MessageModel::StartReject { acp_seid: seid, error_code: 0x12 };
    let replied = seq![(seid * 4) as u8, 0x12u8];
    let h = Handled {
        local: p.local,
        response,
        events: seq![],
    };
    assert(outcome(p.local, m) == Some(h)) by {
        reveal(outcome);
        reveal_with_fuel(state::first_refused, 2);
        reveal_with_fuel(state::with_states, 2);
        assert(seq![seid].drop_last() =~= seq![]);
        assert(state::starts(seq![seid]) =~= seq![EventModel::StreamStarted { seid }]);
        assert(state::suspensions(seq![seid]) =~= seq![EventModel::StreamSuspended { seid }]);
    }
    assert(parts(m) == (0x07u8, MessageType::Command, payload, true)) by {
        reveal(parts);
        assert(m.payload() =~= payload);
    }
    assert(parts(response).0 == 0x07u8 && parts(response).1 == MessageType::ResponseReject && parts(
        response,
    ).2 == replied) by {
        reveal(parts);
        assert(response.payload() =~= replied);
    }
    lemma_answered(p, label, m, h, 0x07u8, payload);
}

/// An endpoint that does not stream is not suspended.
#[verifier::rlimit(50)]
pub proof fn law_suspend_is_refused(p: ProtocolModel, label: u8, seid: u8)
    requires
        takes(p, label, 2),
        seid < 64,
        1 <= seid <= p.local.len(),
        p.local[seid - 1].state != StreamState::Streaming,
    ensures
        answers(
            p,
            seq![first_byte(label, 0), 0x09u8] + seq![(seid * 4) as u8],
            p.local,
            seq![first_byte(label, 3), 0x09u8] + seq![(seid * 4) as u8, 0x31u8],
            seq![],
        ),
{
    let m = MessageModel::SuspendCommand { acp_seids: seq![seid] };
    let payload = seq![(seid * 4) as u8];
    let response = MessageModel::SuspendReject { acp_seid: seid, error_code: 0x31 };
    let replied = seq![(seid * 4) as u8, 0x31u8];
    let h = Handled {
        local: p.local,
        response,
        events: seq![],
    };
    assert(outcome(p.local, m) == Some(h)) by {
        reveal(outcome);
        reveal_with_fuel(state::first_refused, 2);
        reveal_with_fuel(state::with_states, 2);
        assert(seq![seid].drop_last() =~= seq![]);
        assert(state::starts(seq![seid]) =~= seq![EventModel::StreamStarted { seid }]);
        assert(state::suspensions(seq![seid]) =~= seq![EventModel::StreamSuspended { seid }]);
    }
    assert(parts(m) == (0x09u8, MessageType::Command, payload, true)) by {
        reveal(parts);
        assert(m.payload() =~= payload);
    }
    assert(parts(response).0 == 0x09u8 && parts(response).1 == MessageType::ResponseReject && parts(
        response,
    ).2 == replied) by {
        reveal(parts);
        assert(response.payload() =~= replied);
    }
    lemma_answered(p, label, m, h, 0x09u8, payload);
}

/// A SEID that names no endpoint is refused with its error.
#[verifier::rlimit(50)]
pub proof fn law_suspend_of_unknown_is_refused(p: ProtocolModel, label: u8, seid: u8)
    requires
        takes(p, label, 2),
        seid < 64,
        seid == 0 || seid > p.local.len(),
    ensures
        answers(
            p,
            seq![first_byte(label, 0), 0x09u8] + seq![(seid * 4) as u8],
            p.local,
            seq![first_byte(label, 3), 0x09u8] + seq![(seid * 4) as u8, 0x12u8],
            seq![],
        ),
{
    let m = MessageModel::SuspendCommand { acp_seids: seq![seid] };
    let payload = seq![(seid * 4) as u8];
    let response = MessageModel::SuspendReject { acp_seid: seid, error_code: 0x12 };
    let replied = seq![(seid * 4) as u8, 0x12u8];
    let h = Handled {
        local: p.local,
        response,
        events: seq![],
    };
    assert(outcome(p.local, m) == Some(h)) by {
        reveal(outcome);
        reveal_with_fuel(state::first_refused, 2);
        reveal_with_fuel(state::with_states, 2);
        assert(seq![seid].drop_last() =~= seq![]);
        assert(state::starts(seq![seid]) =~= seq![EventModel::StreamStarted { seid }]);
        assert(state::suspensions(seq![seid]) =~= seq![EventModel::StreamSuspended { seid }]);
    }
    assert(parts(m) == (0x09u8, MessageType::Command, payload, true)) by {
        reveal(parts);
        assert(m.payload() =~= payload);
    }
    assert(parts(response).0 == 0x09u8 && parts(response).1 == MessageType::ResponseReject && parts(
        response,
    ).2 == replied) by {
        reveal(parts);
        assert(response.payload() =~= replied);
    }
    lemma_answered(p, label, m, h, 0x09u8, payload);
}

/// A SEID that names no endpoint is refused with its error.
#[verifier::rlimit(50)]
pub proof fn law_capabilities_of_unknown_is_refused(p: ProtocolModel, label: u8, seid: u8)
    requires
        takes(p, label, 2),
        seid < 64,
        seid == 0 || seid > p.local.len(),
    ensures
        answers(
            p,
            seq![first_byte(label, 0), 0x02u8] + seq![(seid * 4) as u8],
            p.local,
            seq![first_byte(label, 3), 0x02u8] + seq![0x12u8],
            seq![],
        ),
{
    let m = MessageModel::GetCapabilitiesCommand { acp_seid: seid };
    let payload = seq![(seid * 4) as u8];
    let response = MessageModel::Reject { signal_identifier: 0x02, error_code: 0x12 };
    let replied = seq![0x12u8];
    let h = Handled {
        local: p.local,
        response,
        events: seq![],
    };
    assert(outcome(p.local, m) == Some(h)) by {
        reveal(outcome);
    }
    assert(parts(m) == (0x02u8, MessageType::Command, payload, true)) by {
        reveal(parts);
        assert(m.payload() =~= payload);
    }
    assert(parts(response).0 == 0x02u8 && parts(response).1 == MessageType::ResponseReject && parts(
        response,
    ).2 == replied) by {
        reveal(parts);
        assert(response.payload() =~= replied);
    }
    lemma_answered(p, label, m, h, 0x02u8, payload);
}

/// A SEID that names no endpoint is refused with its error.
#[verifier::rlimit(50)]
pub proof fn law_all_capabilities_of_unknown_is_refused(p: ProtocolModel, label: u8, seid: u8)
    requires
        takes(p, label, 2),
        seid < 64,
        seid == 0 || seid > p.local.len(),
    ensures
        answers(
            p,
            seq![first_byte(label, 0), 0x0Cu8] + seq![(seid * 4) as u8],
            p.local,
            seq![first_byte(label, 3), 0x0Cu8] + seq![0x12u8],
            seq![],
        ),
{
    let m = MessageModel::GetAllCapabilitiesCommand { acp_seid: seid };
    let payload = seq![(seid * 4) as u8];
    let response = MessageModel::Reject { signal_identifier: 0x0C, error_code: 0x12 };
    let replied = seq![0x12u8];
    let h = Handled {
        local: p.local,
        response,
        events: seq![],
    };
    assert(outcome(p.local, m) == Some(h)) by {
        reveal(outcome);
    }
    assert(parts(m) == (0x0Cu8, MessageType::Command, payload, true)) by {
        reveal(parts);
        assert(m.payload() =~= payload);
    }
    assert(parts(response).0 == 0x0Cu8 && parts(response).1 == MessageType::ResponseReject && parts(
        response,
    ).2 == replied) by {
        reveal(parts);
        assert(response.payload() =~= replied);
    }
    lemma_answered(p, label, m, h, 0x0Cu8, payload);
}

/// A SEID that names no endpoint is refused with its error.
#[verifier::rlimit(50)]
pub proof fn law_configuration_of_unknown_is_refused(p: ProtocolModel, label: u8, seid: u8)
    requires
        takes(p, label, 2),
        seid < 64,
        seid == 0 || seid > p.local.len(),
    ensures
        answers(
            p,
            seq![first_byte(label, 0), 0x04u8] + seq![(seid * 4) as u8],
            p.local,
            seq![first_byte(label, 3), 0x04u8] + seq![0x12u8],
            seq![],
        ),
{
    let m = MessageModel::GetConfigurationCommand { acp_seid: seid };
    let payload = seq![(seid * 4) as u8];
    let response = MessageModel::Reject { signal_identifier: 0x04, error_code: 0x12 };
    let replied = seq![0x12u8];
    let h = Handled {
        local: p.local,
        response,
        events: seq![],
    };
    assert(outcome(p.local, m) == Some(h)) by {
        reveal(outcome);
    }
    assert(parts(m) == (0x04u8, MessageType::Command, payload, true)) by {
        reveal(parts);
        assert(m.payload() =~= payload);
    }
    assert(parts(response).0 == 0x04u8 && parts(response).1 == MessageType::ResponseReject && parts(
        response,
    ).2 == replied) by {
        reveal(parts);
        assert(response.payload() =~= replied);
    }
    lemma_answered(p, label, m, h, 0x04u8, payload);
}

/// A SEID that names no endpoint is refused with its error.
#[verifier::rlimit(50)]
pub proof fn law_open_of_unknown_is_refused(p: ProtocolModel, label: u8, seid: u8)
    requires
        takes(p, label, 2),
        seid < 64,
        seid == 0 || seid > p.local.len(),
    ensures
        answers(
            p,
            seq![first_byte(label, 0), 0x06u8] + seq![(seid * 4) as u8],
            p.local,
            seq![first_byte(label, 3), 0x06u8] + seq![0x12u8],
            seq![],
        ),
{
    let m = MessageModel::OpenCommand { acp_seid: seid };
    let payload = seq![(seid * 4) as u8];
    let response = MessageModel::Reject { signal_identifier: 0x06, error_code: 0x12 };
    let replied = seq![0x12u8];
    let h = Handled {
        local: p.local,
        response,
        events: seq![],
    };
    assert(outcome(p.local, m) == Some(h)) by {
        reveal(outcome);
    }
    assert(parts(m) == (0x06u8, MessageType::Command, payload, true)) by {
        reveal(parts);
        assert(m.payload() =~= payload);
    }
    assert(parts(response).0 == 0x06u8 && parts(response).1 == MessageType::ResponseReject && parts(
        response,
    ).2 == replied) by {
        reveal(parts);
        assert(response.payload() =~= replied);
    }
    lemma_answered(p, label, m, h, 0x06u8, payload);
}

/// A SEID that names no endpoint is refused with its error.
#[verifier::rlimit(50)]
pub proof fn law_close_of_unknown_is_refused(p: ProtocolModel, label: u8, seid: u8)
    requires
        takes(p, label, 2),
        seid < 64,
        seid == 0 || seid > p.local.len(),
    ensures
        answers(
            p,
            seq![first_byte(label, 0), 0x08u8] + seq![(seid * 4) as u8],
            p.local,
            seq![first_byte(label, 3), 0x08u8] + seq![0x12u8],
            seq![],
        ),
{
    let m = MessageModel::CloseCommand { acp_seid: seid };
    let payload = seq![(seid * 4) as u8];
    let response = MessageModel::Reject { signal_identifier: 0x08, error_code: 0x12 };
    let replied = seq![0x12u8];
    let h = Handled {
        local: p.local,
        response,
        events: seq![],
    };
    assert(outcome(p.local, m) == Some(h)) by {
        reveal(outcome);
    }
    assert(parts(m) == (0x08u8, MessageType::Command, payload, true)) by {
        reveal(parts);
        assert(m.payload() =~= payload);
    }
    assert(parts(response).0 == 0x08u8 && parts(response).1 == MessageType::ResponseReject && parts(
        response,
    ).2 == replied) by {
        reveal(parts);
        assert(response.payload() =~= replied);
    }
    lemma_answered(p, label, m, h, 0x08u8, payload);
}

/// A signal that does not exist is refused as a whole; signal zero is dropped.
#[verifier::rlimit(50)]
pub proof fn law_other_signals(p: ProtocolModel, label: u8, signal: u8, payload: Seq<u8>)
    requires
        takes(p, label, 0),
        signal == 0 || 0x0D < signal < 0x40,
    ensures
        signal != 0 ==> answers(
            p,
            seq![first_byte(label, 0), signal] + payload,
            p.local,
            seq![first_byte(label, 1), signal],
            seq![],
        ),
        signal == 0 ==> reports(p, seq![first_byte(label, 0), signal] + payload, p, seq![]),
{
    reveal(answers);
    reveal(reports);
    let packet = seq![first_byte(label, 0), signal] + payload;
    let b = packet[0];
    assert(b / 16 == label && (b / 4) % 4 == 0 && b % 4 == 0);
    assert(packet.skip(2) =~= payload);
    assert(message::message_type_of(b) == MessageType::Command);
    assert(assembler::packet_type_of(b / 4) == PacketType::Single);
    let m = AssembledModel {
        transaction_label: label,
        signal_identifier: signal,
        message_type: MessageType::Command,
        payload,
    };
    assert(assembler::assemble(p.assembler, packet) == (
        assembler::idle_assembler(),
        Some(m),
    ));
    assert((ProtocolModel { assembler: assembler::idle_assembler(), ..p }) == p);
    if signal != 0 {
        let none: Seq<u8> = seq![];
        assert(seq![first_byte(label, 1), signal] + none =~= seq![first_byte(label, 1), signal]);
    }
}

/// The first capability with a category is the one that is replaced.
proof fn lemma_replaced_at(
    configuration: Seq<CapabilityModel>,
    c: CapabilityModel,
    from: int,
    i: int,
)
    requires
        0 <= from <= i < configuration.len(),
        configuration[i].service_category == c.service_category,
        forall|j: int|
            from <= j < i ==> (#[trigger] configuration[j]).service_category
                != c.service_category,
    ensures
        state::replaced(configuration, c, from) == configuration.update(i, c),
    decreases i - from,
{
    if from < i {
        assert(configuration[from].service_category != c.service_category);
        lemma_replaced_at(configuration, c, from + 1, i);
    }
}

// ---------------------------------------------------------------------------
// Answers
// ---------------------------------------------------------------------------

/// The peer opened the stream, and so does this side.
#[verifier::rlimit(50)]
pub proof fn law_open_is_accepted(p: ProtocolModel, label: u8, seid: u8)
    requires
        takes(p, label, 0),
        p.pending.contains_key(label),
        p.pending[label] == (PendingModel::Open { int_seid: seid }),
        1 <= seid <= p.local.len(),
    ensures
        reports(
            p,
            seq![first_byte(label, 2), 0x06u8] + Seq::<u8>::empty(),
            ProtocolModel { pending: p.pending.remove(label), local: p.local.update(
                    seid - 1,
                    LocalModel { state: StreamState::Open, ..p.local[seid - 1] },
                ), ..p },
            seq![EventModel::StreamOpened { seid }],
        ),
{
    let m = MessageModel::OpenResponse;
    lemma_accepted(p, label, m, seq![first_byte(label, 2), 0x06u8] + Seq::<u8>::empty());
}

/// The peer closed the stream, and this side is free again.
#[verifier::rlimit(50)]
pub proof fn law_close_is_accepted(p: ProtocolModel, label: u8, seid: u8)
    requires
        takes(p, label, 0),
        p.pending.contains_key(label),
        p.pending[label] == (PendingModel::Close { int_seid: seid }),
        1 <= seid <= p.local.len(),
    ensures
        reports(
            p,
            seq![first_byte(label, 2), 0x08u8] + Seq::<u8>::empty(),
            ProtocolModel { pending: p.pending.remove(label), local: p.local.update(
                    seid - 1,
                    LocalModel { state: StreamState::Idle, remote_seid: None, ..p.local[seid - 1] },
                ), ..p },
            seq![EventModel::StreamClosed { seid }],
        ),
{
    let m = MessageModel::CloseResponse;
    lemma_accepted(p, label, m, seq![first_byte(label, 2), 0x08u8] + Seq::<u8>::empty());
}

/// The peer aborted the stream, and this side is free again.
#[verifier::rlimit(50)]
pub proof fn law_abort_is_accepted(p: ProtocolModel, label: u8, seid: u8)
    requires
        takes(p, label, 0),
        p.pending.contains_key(label),
        p.pending[label] == (PendingModel::Abort { int_seid: seid }),
        1 <= seid <= p.local.len(),
    ensures
        reports(
            p,
            seq![first_byte(label, 2), 0x0Au8] + Seq::<u8>::empty(),
            ProtocolModel { pending: p.pending.remove(label), local: p.local.update(
                    seid - 1,
                    LocalModel { state: StreamState::Idle, remote_seid: None, ..p.local[seid - 1] },
                ), ..p },
            seq![EventModel::StreamAborted { seid }],
        ),
{
    let m = MessageModel::AbortResponse;
    lemma_accepted(p, label, m, seq![first_byte(label, 2), 0x0Au8] + Seq::<u8>::empty());
}

/// The peer took the configuration, and so does this side, with the peer that it
/// was for.
#[verifier::rlimit(50)]
pub proof fn law_configuration_is_accepted(
    p: ProtocolModel,
    label: u8,
    seid: u8,
    remote: u8,
    capabilities: Seq<CapabilityModel>,
)
    requires
        takes(p, label, 0),
        p.pending.contains_key(label),
        p.pending[label] == (PendingModel::SetConfiguration {
            acp_seid: remote,
            int_seid: seid,
            capabilities,
        }),
        1 <= seid <= p.local.len(),
    ensures
        reports(
            p,
            seq![first_byte(label, 2), 0x03u8] + Seq::<u8>::empty(),
            ProtocolModel { pending: p.pending.remove(label), local: p.local.update(
                    seid - 1,
                    LocalModel {
                        state: StreamState::Configured,
                        remote_seid: Some(remote),
                        configuration: capabilities,
                        ..p.local[seid - 1]
                    },
                ), ..p },
            seq![EventModel::StreamConfigured { seid }],
        ),
{
    let m = MessageModel::SetConfigurationResponse;
    lemma_accepted(p, label, m, seq![first_byte(label, 2), 0x03u8] + Seq::<u8>::empty());
}

/// The peer started the stream, and so does this side.
#[verifier::rlimit(50)]
pub proof fn law_start_is_accepted(p: ProtocolModel, label: u8, seid: u8)
    requires
        takes(p, label, 0),
        p.pending.contains_key(label),
        p.pending[label] == (PendingModel::Start { int_seids: seq![seid] }),
        1 <= seid <= p.local.len(),
    ensures
        reports(
            p,
            seq![first_byte(label, 2), 0x07u8] + Seq::<u8>::empty(),
            ProtocolModel { pending: p.pending.remove(label), local: p.local.update(
                    seid - 1,
                    LocalModel { state: StreamState::Streaming, ..p.local[seid - 1] },
                ), ..p },
            seq![EventModel::StreamStarted { seid }],
        ),
{
    let m = MessageModel::StartResponse;
    reveal_with_fuel(state::with_states, 2);
    assert(seq![seid].drop_last() =~= seq![]);
    assert(state::starts(seq![seid]) =~= seq![EventModel::StreamStarted { seid }]);
    assert(state::suspensions(seq![seid]) =~= seq![EventModel::StreamSuspended { seid }]);
    lemma_accepted(p, label, m, seq![first_byte(label, 2), 0x07u8] + Seq::<u8>::empty());
}

/// The peer suspended the stream, and so does this side.
#[verifier::rlimit(50)]
pub proof fn law_suspend_is_accepted(p: ProtocolModel, label: u8, seid: u8)
    requires
        takes(p, label, 0),
        p.pending.contains_key(label),
        p.pending[label] == (PendingModel::Suspend { int_seids: seq![seid] }),
        1 <= seid <= p.local.len(),
    ensures
        reports(
            p,
            seq![first_byte(label, 2), 0x09u8] + Seq::<u8>::empty(),
            ProtocolModel { pending: p.pending.remove(label), local: p.local.update(
                    seid - 1,
                    LocalModel { state: StreamState::Open, ..p.local[seid - 1] },
                ), ..p },
            seq![EventModel::StreamSuspended { seid }],
        ),
{
    let m = MessageModel::SuspendResponse;
    reveal_with_fuel(state::with_states, 2);
    assert(seq![seid].drop_last() =~= seq![]);
    assert(state::starts(seq![seid]) =~= seq![EventModel::StreamStarted { seid }]);
    assert(state::suspensions(seq![seid]) =~= seq![EventModel::StreamSuspended { seid }]);
    lemma_accepted(p, label, m, seq![first_byte(label, 2), 0x09u8] + Seq::<u8>::empty());
}

/// The configuration that the peer answers is reported for the endpoint that was
/// asked for.
#[verifier::rlimit(50)]
pub proof fn law_peer_configuration_is_reported(
    p: ProtocolModel,
    label: u8,
    seid: u8,
    capabilities: Seq<CapabilityModel>,
)
    requires
        takes(p, label, 0),
        p.pending.contains_key(label),
        p.pending[label] == (PendingModel::GetConfiguration { seid }),
        capability::capabilities_fit(capabilities),
    ensures
        reports(
            p,
            seq![first_byte(label, 2), 0x04u8] + capability::capability_list_bytes(capabilities),
            ProtocolModel { pending: p.pending.remove(label), ..p },
            seq![EventModel::ConfigurationReceived { seid, capabilities }],
        ),
{
    let m = MessageModel::GetConfigurationResponse(capabilities);
    lemma_accepted(
        p,
        label,
        m,
        seq![first_byte(label, 2), 0x04u8] + capability::capability_list_bytes(capabilities),
    );
}

/// The capabilities that the peer answers are kept for the endpoint that was
/// asked for, and reported. From version 1.3 on all of them are asked for.
#[verifier::rlimit(50)]
pub proof fn law_peer_capabilities_are_kept(
    p: ProtocolModel,
    label: u8,
    seid: u8,
    capabilities: Seq<CapabilityModel>,
)
    requires
        takes(p, label, 0),
        p.pending.contains_key(label),
        p.pending[label] == (PendingModel::GetCapabilities { seid }),
        p.remote.contains_key(seid),
        capability::capabilities_fit(capabilities),
    ensures
        reports(
            p,
            seq![
                first_byte(label, 2),
                if p.version.0 == 0 || p.version.0 == 1 && p.version.1 < 3 {
                    0x02u8
                } else {
                    0x0C
                },
            ] + capability::capability_list_bytes(capabilities),
            ProtocolModel {
                pending: p.pending.remove(label),
                remote: p.remote.insert(seid, RemoteModel { capabilities, ..p.remote[seid] }),
                ..p
            },
            seq![EventModel::CapabilitiesReceived { seid, capabilities }],
        ),
{
    let early = p.version.0 == 0 || p.version.0 == 1 && p.version.1 < 3;
    let m = if early {
        MessageModel::GetCapabilitiesResponse(capabilities)
    } else {
        MessageModel::GetAllCapabilitiesResponse(capabilities)
    };
    let signal: u8 = if early {
        0x02
    } else {
        0x0C
    };
    lemma_accepted(
        p,
        label,
        m,
        seq![first_byte(label, 2), signal] + capability::capability_list_bytes(capabilities),
    );
}

/// The endpoints that a discovery lists, where no SEID occurs twice, are known
/// from then on, as they were listed and with no capabilities yet, and no
/// others are.
#[verifier::rlimit(50)]
pub proof fn law_discovered_endpoints_are_known(list: Seq<SepInfo>)
    requires
        forall|i: int, j: int|
            0 <= i < j < list.len() ==> (#[trigger] list[i]).seid != (#[trigger] list[j]).seid,
    ensures
        ({
            let known = state::discovered(list);
            &&& forall|i: int|
                0 <= i < list.len() ==> {
                    let info = #[trigger] list[i];
                    known.contains_key(info.seid) && known[info.seid] == (RemoteModel {
                        seid: info.seid,
                        media_type: info.media_type,
                        tsep: info.tsep,
                        in_use: info.in_use,
                        capabilities: seq![],
                    })
                }
            &&& forall|seid: u8| #[trigger]
                known.contains_key(seid) ==> exists|i: int|
                    0 <= i < list.len() && (#[trigger] list[i]).seid == seid
        }),
    decreases list.len(),
{
    if list.len() > 0 {
        let front = list.drop_last();
        assert forall|i: int, j: int| 0 <= i < j < front.len() implies (#[trigger] front[i]).seid
            != (#[trigger] front[j]).seid by {
            assert(front[i] == list[i] && front[j] == list[j]);
        }
        law_discovered_endpoints_are_known(front);
        let known = state::discovered(list);
        let before = state::discovered(front);
        assert forall|i: int| 0 <= i < list.len() implies {
            let info = #[trigger] list[i];
            known.contains_key(info.seid) && known[info.seid] == (RemoteModel {
                seid: info.seid,
                media_type: info.media_type,
                tsep: info.tsep,
                in_use: info.in_use,
                capabilities: seq![],
            })
        } by {
            if i < front.len() {
                assert(front[i] == list[i]);
                assert(list[i].seid != list[list.len() - 1].seid);
            }
        }
        assert forall|seid: u8| #[trigger] known.contains_key(seid) implies exists|i: int|
            0 <= i < list.len() && (#[trigger] list[i]).seid == seid by {
            if seid == list.last().seid {
                assert(list[list.len() - 1].seid == seid);
            } else {
                assert(before.contains_key(seid));
                let i = choose|i: int| 0 <= i < front.len() && (#[trigger] front[i]).seid == seid;
                assert(list[i].seid == seid);
            }
        }
    }
}

/// A discovery is reported as it was answered, and its endpoints are known from
/// then on.
#[verifier::rlimit(50)]
pub proof fn law_discovery_is_reported(p: ProtocolModel, label: u8, list: Seq<SepInfo>)
    requires
        takes(p, label, 0),
        p.pending.contains_key(label),
        p.pending[label] == PendingModel::Discover,
        forall|i: int| 0 <= i < list.len() ==> (#[trigger] list[i]).seid < 64,
    ensures
        reports(
            p,
            seq![first_byte(label, 2), 0x01u8] + message::sep_list_bytes(list),
            ProtocolModel {
                pending: p.pending.remove(label),
                remote: state::discovered(list),
                ..p
            },
            seq![EventModel::EndpointsDiscovered(list)],
        ),
{
    lemma_accepted(
        p,
        label,
        MessageModel::DiscoverResponse(list),
        seq![first_byte(label, 2), 0x01u8] + message::sep_list_bytes(list),
    );
}

/// Whether capabilities have media transport, and a codec of a type that is not
/// of a vendor.
pub open spec fn plays(e: RemoteModel, codec_type: u8) -> bool {
    &&& exists|i: int|
        0 <= i < e.capabilities.len() && (#[trigger] e.capabilities[i]).service_category == 0x01
    &&& exists|i: int|
        0 <= i < e.capabilities.len() && (#[trigger] e.capabilities[i]).service_category == 0x07
            && e.capabilities[i].data.len() >= 2 && e.capabilities[i].data[0] == 0x00
            && e.capabilities[i].data[1] == codec_type
}

/// A search for a sink finds one that is free, of the kind of media, a sink, and
/// plays the codec; none with a lower SEID does, and where none is found there
/// is none.
#[verifier::rlimit(50)]
pub proof fn law_free_sink_is_found(
    remote: Map<u8, RemoteModel>,
    media_type: MediaType,
    codec_type: u8,
    seid: u8,
)
    requires
        codec_type != 0xFF,
        remote.contains_key(seid),
    ensures
        ({
            let e = remote[seid];
            let matches = !e.in_use && e.media_type == media_type && e.tsep
                == StreamEndPointType::Sink && plays(e, codec_type);
            match state::free_sink(remote, media_type, codec_type, 0, 0, 0) {
                None => !matches,
                Some(found) => exists|at: u8|
                    {
                        &&& #[trigger] remote.contains_key(at)
                        &&& remote[at] == found
                        &&& !found.in_use
                        &&& found.media_type == media_type
                        &&& found.tsep == StreamEndPointType::Sink
                        &&& plays(found, codec_type)
                        &&& seid < at ==> !matches
                    },
            }
        }),
{
    lemma_free_sink(remote, media_type, codec_type, 0, seid);
}

proof fn lemma_plays(e: RemoteModel, codec_type: u8)
    requires
        codec_type != 0xFF,
    ensures
        plays(e, codec_type) <==> state::transports(e.capabilities) && state::offers_codec(
            e.capabilities,
            codec_type,
            0,
            0,
        ),
{
    if state::offers_codec(e.capabilities, codec_type, 0, 0) {
        let i = choose|i: int|
            0 <= i < e.capabilities.len() && match #[trigger] capability::codec_of(
                e.capabilities[i],
            ) {
                Some(codec) => state::is_codec(codec, codec_type, 0, 0),
                None => false,
            };
        assert(e.capabilities[i].service_category == 0x07);
        assert(e.capabilities[i].data[0] == 0x00);
    }
    if plays(e, codec_type) {
        let i = choose|i: int|
            0 <= i < e.capabilities.len() && (#[trigger] e.capabilities[i]).service_category
                == 0x07 && e.capabilities[i].data.len() >= 2 && e.capabilities[i].data[0] == 0x00
                && e.capabilities[i].data[1] == codec_type;
        assert(match capability::codec_of(e.capabilities[i]) {
            Some(codec) => state::is_codec(codec, codec_type, 0, 0),
            None => false,
        });
    }
}

proof fn lemma_free_sink(
    remote: Map<u8, RemoteModel>,
    media_type: MediaType,
    codec_type: u8,
    from: int,
    seid: u8,
)
    requires
        codec_type != 0xFF,
        0 <= from <= 256,
        remote.contains_key(seid),
    ensures
        ({
            let e = remote[seid];
            let matches = !e.in_use && e.media_type == media_type && e.tsep
                == StreamEndPointType::Sink && plays(e, codec_type);
            match state::free_sink(remote, media_type, codec_type, 0, 0, from) {
                None => from <= seid ==> !matches,
                Some(found) => exists|at: u8|
                    {
                        &&& #[trigger] remote.contains_key(at)
                        &&& remote[at] == found
                        &&& !found.in_use
                        &&& found.media_type == media_type
                        &&& found.tsep == StreamEndPointType::Sink
                        &&& plays(found, codec_type)
                        &&& from <= seid < at ==> !matches
                    },
            }
        }),
    decreases 256 - from,
{
    if from < 256 {
        lemma_plays(remote[from as u8], codec_type);
        if remote.contains_key(from as u8) && state::is_free_sink(
            remote[from as u8],
            media_type,
            codec_type,
            0,
            0,
        ) {
            assert(remote.contains_key(from as u8));
        } else {
            lemma_free_sink(remote, media_type, codec_type, from + 1, seid);
        }
    }
}

/// The peer took a changed capability, and so does this side, in place of the
/// one with its category.
#[verifier::rlimit(50)]
pub proof fn law_reconfiguration_is_accepted(
    p: ProtocolModel,
    label: u8,
    seid: u8,
    i: int,
    capability: CapabilityModel,
)
    requires
        takes(p, label, 0),
        p.pending.contains_key(label),
        p.pending[label] == (PendingModel::Reconfigure {
            int_seid: seid,
            capabilities: seq![capability],
        }),
        1 <= seid <= p.local.len(),
        0 <= i < p.local[seid - 1].configuration.len(),
        p.local[seid - 1].configuration[i].service_category == capability.service_category,
        forall|j: int|
            0 <= j < i ==> (#[trigger] p.local[seid - 1].configuration[j]).service_category
                != capability.service_category,
    ensures
        reports(
            p,
            seq![first_byte(label, 2), 0x05u8] + Seq::<u8>::empty(),
            ProtocolModel {
                pending: p.pending.remove(label),
                local: p.local.update(
                    seid - 1,
                    LocalModel {
                        configuration: p.local[seid - 1].configuration.update(i, capability),
                        ..p.local[seid - 1]
                    },
                ),
                ..p
            },
            seq![EventModel::StreamReconfigured { seid }],
        ),
{
    lemma_replaced_at(p.local[seid - 1].configuration, capability, 0, i);
    reveal_with_fuel(state::reconfigured, 2);
    assert(seq![capability].drop_last() =~= seq![]);
    lemma_accepted(
        p,
        label,
        MessageModel::ReconfigureResponse,
        seq![first_byte(label, 2), 0x05u8] + Seq::<u8>::empty(),
    );
}

} // verus!
