//! How messages are cut into packets, byte by byte, and what becomes of them.

use vstd::prelude::*;
use crate::bytes;
use crate::classic::avctp;
use crate::classic::avctp::{
    AssemblerModel,
    AvctpEventModel,
    MessageModel,
    PacketType,
    ProtocolModel,
};

verus! {

/// The first byte of a packet: the label above, then the kind of the packet,
/// zero to three for a single, a first, a middle and a last one, then whether
/// it is a response, and whether it refuses a profile.
pub open spec fn first_byte(m: MessageModel, kind: int) -> u8 {
    (m.transaction_label * 16 + kind * 4 + (if m.is_command {
        0int
    } else {
        2
    }) + if m.ipid {
        1int
    } else {
        0
    }) as u8
}

proof fn lemma_bits(label: u8, kind: u8, response: u8, invalid: u8)
    by (bit_vector)
    requires
        label < 16,
        kind < 4,
        response < 2,
        invalid < 2,
    ensures
        (label << 4) | (kind << 2) | (response << 1) | invalid == label * 16 + kind * 4 + response
            * 2 + invalid,
{
}

proof fn lemma_first_byte(m: MessageModel, kind: PacketType)
    requires
        m.transaction_label < 16,
    ensures
        avctp::header(m.transaction_label, kind, m.is_command, m.ipid) == first_byte(
            m,
            kind.bits() as int,
        ),
{
    let response: u8 = if m.is_command {
        0
    } else {
        1
    };
    let invalid: u8 = if m.ipid {
        1
    } else {
        0
    };
    lemma_bits(m.transaction_label, kind.bits(), response, invalid);
}

/// A message that fits in a packet stands in one, behind its first byte and the
/// profile.
#[verifier::rlimit(50)]
pub proof fn law_short_message(m: MessageModel, peer_mtu: u16)
    requires
        m.transaction_label < 16,
        3 + m.payload.len() <= peer_mtu,
    ensures
        avctp::message_packets(m, peer_mtu) == seq![
            seq![first_byte(m, 0), (m.pid / 256) as u8, (m.pid % 256) as u8] + m.payload,
        ],
{
    lemma_first_byte(m, PacketType::Single);
    assert(seq![first_byte(m, 0)] + bytes::be16_bytes(m.pid) + m.payload =~= seq![
        first_byte(m, 0),
        (m.pid / 256) as u8,
        (m.pid % 256) as u8,
    ] + m.payload);
}

/// A message that does not fit is cut. The first packet counts the packets and
/// names the profile; the others have only their first byte before the data, and
/// all but the last are full.
#[verifier::rlimit(50)]
pub proof fn law_long_message(m: MessageModel, peer_mtu: u16, i: int)
    requires
        m.transaction_label < 16,
        peer_mtu >= 5,
        3 + m.payload.len() > peer_mtu,
        avctp::message_packets(m, peer_mtu).len() <= 255,
        0 <= i < avctp::message_packets(m, peer_mtu).len(),
    ensures
        ({
            let packets = avctp::message_packets(m, peer_mtu);
            let at = (peer_mtu - 4) + (i - 1) * (peer_mtu - 1);
            &&& packets.len() >= 2
            &&& i == 0 ==> packets[i] == seq![
                first_byte(m, 1),
                packets.len() as u8,
                (m.pid / 256) as u8,
                (m.pid % 256) as u8,
            ] + m.payload.take(peer_mtu - 4)
            &&& 0 < i < packets.len() - 1 ==> packets[i] == seq![first_byte(m, 2)]
                + m.payload.subrange(at, at + peer_mtu - 1)
            &&& i == packets.len() - 1 ==> at < m.payload.len() <= at + peer_mtu - 1 && packets[i]
                == seq![first_byte(m, 3)] + m.payload.subrange(at, m.payload.len() as int)
        }),
{
    let mtu = peer_mtu as int;
    let packets = avctp::message_packets(m, peer_mtu);
    let rest = m.payload.skip(mtu - 4);
    let tail = avctp::tail_packets(m.transaction_label, m.is_command, m.ipid, rest, mtu - 1);
    lemma_first_byte(m, PacketType::Start);
    lemma_tail_len(m, rest, mtu - 1);
    let n = m.payload.len() as int;
    let count = avctp::packet_count(n, mtu);
    assert(tail.len() == (rest.len() - 1) / (mtu - 1) + 1);
    assert(count == 1 + tail.len()) by {
        assert(n - (mtu - 4) + (mtu - 2) == (rest.len() - 1) + (mtu - 1));
        vstd::arithmetic::div_mod::lemma_div_plus_one(rest.len() - 1, mtu - 1);
    }
    if i == 0 {
        assert(packets[0] =~= seq![
            first_byte(m, 1),
            packets.len() as u8,
            (m.pid / 256) as u8,
            (m.pid % 256) as u8,
        ] + m.payload.take(mtu - 4));
    } else {
        assert(packets[i] == tail[i - 1]);
        lemma_tail(m, rest, mtu - 1, i - 1);
        let at = (mtu - 4) + (i - 1) * (mtu - 1);
        let from = (i - 1) * (mtu - 1);
        assert(from >= 0) by (nonlinear_arith)
            requires
                from == (i - 1) * (mtu - 1),
                i >= 1,
                mtu >= 5,
        ;
        if i < packets.len() - 1 {
            assert(rest.subrange(from, from + (mtu - 1)) =~= m.payload.subrange(
                at,
                at + mtu - 1,
            ));
        } else {
            assert(rest.subrange(from, rest.len() as int) =~= m.payload.subrange(at, n));
        }
    }
}

proof fn lemma_tail_len(m: MessageModel, rest: Seq<u8>, capacity: int)
    requires
        capacity > 0,
        rest.len() > 0,
    ensures
        avctp::tail_packets(m.transaction_label, m.is_command, m.ipid, rest, capacity).len() == (
        rest.len() - 1) / capacity + 1,
    decreases rest.len(),
{
    if rest.len() > capacity {
        lemma_tail_len(m, rest.skip(capacity), capacity);
        vstd::arithmetic::div_mod::lemma_div_minus_one(rest.len() - 1, capacity);
        assert(-capacity + (rest.len() - 1) == rest.len() - capacity - 1);
    } else {
        vstd::arithmetic::div_mod::lemma_basic_div(rest.len() - 1, capacity);
    }
}

proof fn lemma_tail(m: MessageModel, rest: Seq<u8>, capacity: int, i: int)
    requires
        m.transaction_label < 16,
        capacity > 0,
        rest.len() > 0,
        0 <= i < avctp::tail_packets(
            m.transaction_label,
            m.is_command,
            m.ipid,
            rest,
            capacity,
        ).len(),
    ensures
        ({
            let tail = avctp::tail_packets(
                m.transaction_label,
                m.is_command,
                m.ipid,
                rest,
                capacity,
            );
            let at = i * capacity;
            &&& i < tail.len() - 1 ==> at + capacity <= rest.len() && tail[i] == seq![
                first_byte(m, 2),
            ] + rest.subrange(at, at + capacity)
            &&& i == tail.len() - 1 ==> at < rest.len() <= at + capacity && tail[i] == seq![
                first_byte(m, 3),
            ] + rest.subrange(at, rest.len() as int)
        }),
    decreases rest.len(),
{
    lemma_first_byte(m, PacketType::Continue);
    lemma_first_byte(m, PacketType::End);
    assert(0 * capacity == 0) by (nonlinear_arith);
    if rest.len() <= capacity {
        assert(rest.subrange(0, rest.len() as int) =~= rest);
    } else {
        let next = rest.skip(capacity);
        let tail = avctp::tail_packets(m.transaction_label, m.is_command, m.ipid, rest, capacity);
        let after = avctp::tail_packets(m.transaction_label, m.is_command, m.ipid, next, capacity);
        lemma_tail_len(m, next, capacity);
        vstd::arithmetic::div_mod::lemma_div_pos_is_pos(next.len() - 1, capacity);
        if i == 0 {
            assert(rest.subrange(0, capacity) =~= rest.take(capacity));
        } else {
            assert(tail[i] == after[i - 1]);
            lemma_tail(m, next, capacity, i - 1);
            let at = (i - 1) * capacity;
            assert(i * capacity == at + capacity) by (nonlinear_arith)
                requires
                    at == (i - 1) * capacity,
            ;
            assert(at >= 0) by (nonlinear_arith)
                requires
                    at == (i - 1) * capacity,
                    i >= 1,
                    capacity > 0,
            ;
            if i < tail.len() - 1 {
                assert(next.subrange(at, at + capacity) =~= rest.subrange(
                    at + capacity,
                    at + capacity + capacity,
                ));
            } else {
                assert(next.subrange(at, next.len() as int) =~= rest.subrange(
                    at + capacity,
                    rest.len() as int,
                ));
            }
        }
    }
}

/// What becomes of a message: a command for a profile that is there is handed
/// on, and for another is refused in one packet; a response is handed on, and
/// one that refuses a profile is reported as such. Each keeps its label.
#[verifier::rlimit(50)]
pub proof fn law_messages_are_delivered(p: ProtocolModel, m: MessageModel)
    requires
        m.transaction_label < 16,
        p.peer_mtu >= 3,
    ensures
        ({
            let (outgoing, events) = avctp::deliver(p, Some(m));
            let label = m.transaction_label;
            let none = Seq::<Seq<u8>>::empty();
            &&& m.is_command && p.registered_pids.contains(m.pid) ==> outgoing == none && events
                == seq![
                AvctpEventModel::Command {
                    transaction_label: label,
                    pid: m.pid,
                    payload: m.payload,
                },
            ]
            &&& m.is_command && !p.registered_pids.contains(m.pid) ==> outgoing == seq![
                seq![(label * 16 + 3) as u8, (m.pid / 256) as u8, (m.pid % 256) as u8],
            ] && events == Seq::<AvctpEventModel>::empty()
            &&& !m.is_command && !m.ipid ==> outgoing == none && events == seq![
                AvctpEventModel::Response {
                    transaction_label: label,
                    pid: m.pid,
                    payload: m.payload,
                },
            ]
            &&& !m.is_command && m.ipid ==> outgoing == none && events == seq![
                AvctpEventModel::InvalidPid { transaction_label: label, pid: m.pid },
            ]
        }),
        avctp::deliver(p, None) == (Seq::<Seq<u8>>::empty(), Seq::<AvctpEventModel>::empty()),
{
    let refusal = MessageModel {
        transaction_label: m.transaction_label,
        is_command: false,
        ipid: true,
        pid: m.pid,
        payload: seq![],
    };
    law_short_message(refusal, p.peer_mtu);
    assert(seq![
        first_byte(refusal, 0),
        (m.pid / 256) as u8,
        (m.pid % 256) as u8,
    ] + refusal.payload =~= seq![
        (m.transaction_label * 16 + 3) as u8,
        (m.pid / 256) as u8,
        (m.pid % 256) as u8,
    ]);
}

/// A packet that goes on with a message of another label, or in the other
/// direction, or without a first packet, completes nothing, and what was there
/// is dropped.
#[verifier::rlimit(50)]
pub proof fn law_foreign_packets_are_dropped(a: AssemblerModel, m: MessageModel, last: bool, data:
    Seq<u8>)
    requires
        m.transaction_label < 16,
        !(m.is_command && m.ipid),
        !a.in_progress || a.transaction_label != m.transaction_label || a.is_command
            != m.is_command,
    ensures
        avctp::assemble(
            a,
            seq![
                first_byte(
                    m,
                    if last {
                        3
                    } else {
                        2
                    },
                ),
            ] + data,
        ) == (avctp::idle_assembler(), None::<MessageModel>),
{
    let kind = if last {
        PacketType::End
    } else {
        PacketType::Continue
    };
    lemma_first_byte(m, kind);
    avctp::lemma_header(m.transaction_label, kind, m.is_command, m.ipid);
}

} // verus!
