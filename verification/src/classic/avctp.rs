//! AVCTP (Audio/Video Control Transport Protocol), the message transport that
//! remote control rides on.
//!
//! Every packet starts with a header byte: the transaction label, the packet
//! type (single, start, continue or end), the C/R bit (command or response)
//! and the IPID bit (set in a response to report an unsupported profile). A
//! single packet carries the 16-bit profile identifier (PID) after the header.
//! A message that exceeds the channel's MTU is cut into a start packet
//! (header, packet count, PID) followed by continue and end packets that carry
//! the header alone; [`MessageAssembler`] puts it together again.
//!
//! [`Protocol`] is the state machine of one channel: it reassembles messages,
//! routes commands by PID, and answers commands for unregistered PIDs with an
//! IPID response.

pub mod packet_laws;

use vstd::prelude::*;
use crate::bytes;
use crate::l2cap::classic::{ChannelManagerModel, ClassicChannelManager, ClassicChannelSpec};
use crate::models;
use crate::packets::l2cap_signaling::ConnectionRequestHeader;
use crate::types::SimbleError;

verus! {

/// Well-known PSM of the control channel.
pub const AVCTP_PSM: u16 = 0x0017;

/// Well-known PSM of the browsing channel.
pub const AVCTP_BROWSING_PSM: u16 = 0x001B;

/// The part of a message that a packet carries.
#[derive(Debug, Clone, Copy, PartialEq, Eq, Structural)]
pub enum PacketType {
    Single,
    Start,
    Continue,
    End,
}

/// The packet type in the two low bits of a value.
pub open spec fn packet_type_of(bits: u8) -> PacketType {
    let low: u8 = bits & 3;
    if low == 0 {
        PacketType::Single
    } else if low == 1 {
        PacketType::Start
    } else if low == 2 {
        PacketType::Continue
    } else {
        PacketType::End
    }
}

impl PacketType {
    /// The two bits that encode this packet type.
    pub open spec fn bits(self) -> u8 {
        match self {
            PacketType::Single => 0,
            PacketType::Start => 1,
            PacketType::Continue => 2,
            PacketType::End => 3,
        }
    }

    fn from_bits(bits: u8) -> (r: Self)
        ensures
            r == packet_type_of(bits),
    {
        match bits & 3 {
            0 => PacketType::Single,
            1 => PacketType::Start,
            2 => PacketType::Continue,
            _ => PacketType::End,
        }
    }

    fn as_bits(self) -> (r: u8)
        ensures
            r == self.bits(),
    {
        match self {
            PacketType::Single => 0,
            PacketType::Start => 1,
            PacketType::Continue => 2,
            PacketType::End => 3,
        }
    }
}

/// A fully reassembled message.
#[derive(Debug, Clone, PartialEq, Eq)]
pub struct Message {
    pub transaction_label: u8,
    pub is_command: bool,
    /// Set in a response to report that the command's PID is not supported.
    pub ipid: bool,
    pub pid: u16,
    pub payload: Vec<u8>,
}

/// The model of a [`Message`].
#[verifier::ext_equal]
pub struct MessageModel {
    pub transaction_label: u8,
    pub is_command: bool,
    pub ipid: bool,
    pub pid: u16,
    pub payload: Seq<u8>,
}

impl View for Message {
    type V = MessageModel;

    open spec fn view(&self) -> MessageModel {
        MessageModel {
            transaction_label: self.transaction_label,
            is_command: self.is_command,
            ipid: self.ipid,
            pid: self.pid,
            payload: self.payload@,
        }
    }
}

/// The header byte of a packet.
pub open spec fn header(
    transaction_label: u8,
    packet_type: PacketType,
    is_command: bool,
    ipid: bool,
) -> u8 {
    let response: u8 = if is_command {
        0
    } else {
        1
    };
    let invalid: u8 = if ipid {
        1
    } else {
        0
    };
    (transaction_label << 4) | (packet_type.bits() << 2) | (response << 1) | invalid
}

fn header_byte(
    transaction_label: u8,
    packet_type: PacketType,
    is_command: bool,
    ipid: bool,
) -> (r: u8)
    ensures
        r == header(transaction_label, packet_type, is_command, ipid),
{
    let response: u8 = if is_command {
        0
    } else {
        1
    };
    let invalid: u8 = if ipid {
        1
    } else {
        0
    };
    (transaction_label << 4) | (packet_type.as_bits() << 2) | (response << 1) | invalid
}

/// The MTU that packets are cut to: an MTU too small for a start packet with
/// one byte of payload counts as 5.
pub open spec fn usable_mtu(peer_mtu: u16) -> int {
    if peer_mtu < 5 {
        5
    } else {
        peer_mtu as int
    }
}

/// The continue and end packets for the bytes that did not fit in the start
/// packet, with at most `capacity` bytes in each.
pub open spec fn tail_packets(
    transaction_label: u8,
    is_command: bool,
    ipid: bool,
    rest: Seq<u8>,
    capacity: int,
) -> Seq<Seq<u8>>
    decreases rest.len(),
{
    if rest.len() == 0 || capacity <= 0 {
        seq![]
    } else if rest.len() <= capacity {
        seq![seq![header(transaction_label, PacketType::End, is_command, ipid)] + rest]
    } else {
        seq![
            seq![header(transaction_label, PacketType::Continue, is_command, ipid)] + rest.take(
                capacity,
            ),
        ] + tail_packets(transaction_label, is_command, ipid, rest.skip(capacity), capacity)
    }
}

/// How many packets a message that does not fit in one is cut into.
pub open spec fn packet_count(payload_len: int, mtu: int) -> int {
    1 + (payload_len - (mtu - 4) + (mtu - 2)) / (mtu - 1)
}

/// The packets of a message.
pub open spec fn message_packets(m: MessageModel, peer_mtu: u16) -> Seq<Seq<u8>> {
    let mtu = usable_mtu(peer_mtu);
    if 3 + m.payload.len() <= mtu {
        seq![
            seq![header(m.transaction_label, PacketType::Single, m.is_command, m.ipid)]
                + bytes::be16_bytes(m.pid) + m.payload,
        ]
    } else {
        let count = packet_count(m.payload.len() as int, mtu);
        let start = seq![
            header(m.transaction_label, PacketType::Start, m.is_command, m.ipid),
            if count > 255 { 255u8 } else { count as u8 },
        ] + bytes::be16_bytes(m.pid) + m.payload.take(mtu - 4);
        seq![start] + tail_packets(
            m.transaction_label,
            m.is_command,
            m.ipid,
            m.payload.skip(mtu - 4),
            mtu - 1,
        )
    }
}

/// Serializes one message into packets, cutting it into start, continue and
/// end packets when it exceeds `peer_mtu`. The packet count field is one byte
/// and saturates.
pub fn write_message(
    transaction_label: u8,
    is_command: bool,
    ipid: bool,
    pid: u16,
    payload: &[u8],
    peer_mtu: u16,
) -> (r: Vec<Vec<u8>>)
    ensures
        models::seq_views(r@) == message_packets(
            MessageModel { transaction_label, is_command, ipid, pid, payload: payload@ },
            peer_mtu,
        ),
{
    let ghost m = MessageModel { transaction_label, is_command, ipid, pid, payload: payload@ };
    let mtu: usize = if peer_mtu < 5 {
        5
    } else {
        peer_mtu as usize
    };
    if payload.len() <= mtu - 3 {
        let mut pdu: Vec<u8> = vec![
            header_byte(transaction_label, PacketType::Single, is_command, ipid),
        ];
        bytes::push_be16(&mut pdu, pid);
        bytes::push_bytes(&mut pdu, payload);
        let mut pdus: Vec<Vec<u8>> = Vec::new();
        assert(pdu@ =~= message_packets(m, peer_mtu)[0]);
        pdus.push(pdu);
        assert(models::seq_views(pdus@) =~= message_packets(m, peer_mtu));
        return pdus;
    }
    let first_capacity: usize = mtu - 4;
    let rest_capacity: usize = mtu - 1;
    let beyond: usize = payload.len() - first_capacity;
    let whole: usize = beyond / rest_capacity;
    let tail_count: usize = if beyond % rest_capacity == 0 {
        whole
    } else {
        whole + 1
    };
    proof {
        lemma_div_ceil(beyond as int, rest_capacity as int);
    }
    let number_of_packets: u8 = if tail_count >= 255 {
        255
    } else {
        (1 + tail_count) as u8
    };

    let mut pdus: Vec<Vec<u8>> = Vec::new();
    let mut pdu: Vec<u8> = vec![
        header_byte(transaction_label, PacketType::Start, is_command, ipid),
        number_of_packets,
    ];
    bytes::push_be16(&mut pdu, pid);
    bytes::push_bytes(&mut pdu, bytes::range(payload, 0, first_capacity));
    assert(payload@.subrange(0, first_capacity as int) =~= payload@.take(first_capacity as int));
    let ghost start = pdu@;
    pdus.push(pdu);
    assert(start =~= message_packets(m, peer_mtu)[0]);
    assert(models::seq_views(pdus@) =~= seq![start]);

    let mut tail = write_tail(
        transaction_label,
        is_command,
        ipid,
        bytes::range(payload, first_capacity, payload.len()),
        rest_capacity,
    );
    assert(payload@.subrange(first_capacity as int, payload@.len() as int) =~= payload@.skip(
        first_capacity as int,
    ));
    pdus.append(&mut tail);
    assert(models::seq_views(pdus@) =~= message_packets(m, peer_mtu));
    pdus
}

/// Cuts the bytes that did not fit in the start packet into continue and end
/// packets.
fn write_tail(
    transaction_label: u8,
    is_command: bool,
    ipid: bool,
    rest: &[u8],
    capacity: usize,
) -> (r: Vec<Vec<u8>>)
    requires
        capacity > 0,
    ensures
        models::seq_views(r@) == tail_packets(
            transaction_label,
            is_command,
            ipid,
            rest@,
            capacity as int,
        ),
{
    let ghost whole = tail_packets(transaction_label, is_command, ipid, rest@, capacity as int);
    let mut pdus: Vec<Vec<u8>> = Vec::new();
    let mut at: usize = 0;
    assert(rest@.skip(0) =~= rest@);
    assert(models::seq_views(pdus@) + whole =~= whole);
    while at < rest.len()
        invariant
            at <= rest@.len(),
            capacity > 0,
            models::seq_views(pdus@) + tail_packets(
                transaction_label,
                is_command,
                ipid,
                rest@.skip(at as int),
                capacity as int,
            ) == whole,
        decreases rest@.len() - at,
    {
        let ghost left = rest@.skip(at as int);
        let ghost done = models::seq_views(pdus@);
        let remaining: usize = rest.len() - at;
        let take: usize = if capacity < remaining {
            capacity
        } else {
            remaining
        };
        let packet_type = if take == remaining {
            PacketType::End
        } else {
            PacketType::Continue
        };
        let mut pdu: Vec<u8> = vec![header_byte(transaction_label, packet_type, is_command, ipid)];
        bytes::push_bytes(&mut pdu, bytes::range(rest, at, at + take));
        assert(rest@.subrange(at as int, at + take) =~= left.take(take as int));
        assert(left.skip(take as int) =~= rest@.skip(at + take));
        assert(take == remaining ==> left.take(take as int) =~= left);
        let ghost packet = pdu@;
        assert(packet =~= seq![header(transaction_label, packet_type, is_command, ipid)]
            + left.take(take as int));
        pdus.push(pdu);
        assert(models::seq_views(pdus@) =~= done + seq![packet]);
        let ghost after = tail_packets(
            transaction_label,
            is_command,
            ipid,
            left.skip(take as int),
            capacity as int,
        );
        assert(tail_packets(transaction_label, is_command, ipid, left, capacity as int) =~= seq![
            packet,
        ] + after);
        assert(done + (seq![packet] + after) =~= (done + seq![packet]) + after);
        at = at + take;
    }
    assert(models::seq_views(pdus@) =~= whole);
    pdus
}

/// Rounding a quotient up.
proof fn lemma_div_ceil(a: int, b: int)
    requires
        a >= 0,
        b > 0,
    ensures
        (a + b - 1) / b == a / b + (if a % b == 0 { 0int } else { 1int }),
{
    vstd::arithmetic::div_mod::lemma_fundamental_div_mod(a, b);
    let q = a / b;
    let r = a % b;
    vstd::arithmetic::div_mod::lemma_mod_bound(a, b);
    vstd::arithmetic::mul::lemma_mul_is_commutative(b, q);
    if r == 0 {
        vstd::arithmetic::div_mod::lemma_fundamental_div_mod_converse(a + b - 1, b, q, b - 1);
    } else {
        assert((q + 1) * b == q * b + b) by (nonlinear_arith);
        vstd::arithmetic::div_mod::lemma_fundamental_div_mod_converse(a + b - 1, b, q + 1, r - 1);
    }
}

// ---------------------------------------------------------------------------
// Message assembler
// ---------------------------------------------------------------------------

/// Reassembles fragmented messages. Malformed and out-of-sequence packets are
/// dropped.
#[derive(Debug)]
pub struct MessageAssembler {
    in_progress: bool,
    transaction_label: u8,
    is_command: bool,
    ipid: bool,
    pid: u16,
    payload: Vec<u8>,
    number_of_packets: u8,
    packets_received: u8,
}

/// The model of a [`MessageAssembler`].
#[verifier::ext_equal]
pub struct AssemblerModel {
    pub in_progress: bool,
    pub transaction_label: u8,
    pub is_command: bool,
    pub ipid: bool,
    pub pid: u16,
    pub payload: Seq<u8>,
    pub number_of_packets: u8,
    pub packets_received: u8,
}

impl View for MessageAssembler {
    type V = AssemblerModel;

    closed spec fn view(&self) -> AssemblerModel {
        AssemblerModel {
            in_progress: self.in_progress,
            transaction_label: self.transaction_label,
            is_command: self.is_command,
            ipid: self.ipid,
            pid: self.pid,
            payload: self.payload@,
            number_of_packets: self.number_of_packets,
            packets_received: self.packets_received,
        }
    }
}

/// An assembler with no message in progress.
pub open spec fn idle_assembler() -> AssemblerModel {
    AssemblerModel {
        in_progress: false,
        transaction_label: 0,
        is_command: false,
        ipid: false,
        pid: 0,
        payload: seq![],
        number_of_packets: 0,
        packets_received: 0,
    }
}

/// What an assembler becomes, and the message it completes, when a packet
/// arrives.
pub open spec fn assemble(a: AssemblerModel, pdu: Seq<u8>) -> (
    AssemblerModel,
    Option<MessageModel>,
) {
    let received: u8 = if a.packets_received == 255 {
        255
    } else {
        (a.packets_received + 1) as u8
    };
    if pdu.len() == 0 {
        (AssemblerModel { packets_received: received, ..a }, None)
    } else {
        let label: u8 = pdu[0] >> 4;
        let packet_type = packet_type_of(pdu[0] >> 2);
        let is_command = (pdu[0] >> 1) & 1 == 0;
        let ipid = pdu[0] & 1 != 0;
        if is_command && ipid {
            // IPID is only meaningful in responses.
            (idle_assembler(), None)
        } else if packet_type == PacketType::Single {
            if pdu.len() < 3 {
                (idle_assembler(), None)
            } else {
                (
                    idle_assembler(),
                    Some(
                        MessageModel {
                            transaction_label: label,
                            is_command,
                            ipid,
                            pid: bytes::be16(pdu, 1),
                            payload: pdu.skip(3),
                        },
                    ),
                )
            }
        } else if packet_type == PacketType::Start {
            if pdu.len() < 2 {
                (AssemblerModel { packets_received: 1, ..idle_assembler() }, None)
            } else if pdu.len() < 4 {
                (
                    AssemblerModel {
                        packets_received: 1,
                        number_of_packets: pdu[1],
                        ..idle_assembler()
                    },
                    None,
                )
            } else {
                (
                    AssemblerModel {
                        in_progress: true,
                        transaction_label: label,
                        is_command,
                        ipid,
                        pid: bytes::be16(pdu, 2),
                        payload: pdu.skip(4),
                        number_of_packets: pdu[1],
                        packets_received: 1,
                    },
                    None,
                )
            }
        } else if !a.in_progress || label != a.transaction_label || is_command != a.is_command
            || received > a.number_of_packets {
            (idle_assembler(), None)
        } else if packet_type == PacketType::Continue {
            (
                AssemblerModel {
                    payload: a.payload + pdu.skip(1),
                    packets_received: received,
                    ..a
                },
                None,
            )
        } else if received != a.number_of_packets {
            // The end came too early.
            (idle_assembler(), None)
        } else {
            (
                idle_assembler(),
                Some(
                    MessageModel {
                        transaction_label: a.transaction_label,
                        is_command: a.is_command,
                        ipid: a.ipid,
                        pid: a.pid,
                        payload: a.payload + pdu.skip(1),
                    },
                ),
            )
        }
    }
}

impl Default for MessageAssembler {
    fn default() -> (r: Self)
        ensures
            r@ == idle_assembler(),
    {
        let r = MessageAssembler {
            in_progress: false,
            transaction_label: 0,
            is_command: false,
            ipid: false,
            pid: 0,
            payload: Vec::new(),
            number_of_packets: 0,
            packets_received: 0,
        };
        assert(r@ =~= idle_assembler());
        r
    }
}

impl MessageAssembler {
    /// An assembler with no message in progress.
    pub fn new() -> (r: Self)
        ensures
            r@ == idle_assembler(),
    {
        Self::default()
    }

    fn reset(&mut self)
        ensures
            final(self)@ == idle_assembler(),
    {
        *self = Self::default();
    }

    /// Feeds one packet; returns the completed message once the last fragment
    /// arrives, or `None` while incomplete (or on a dropped packet).
    pub fn on_pdu(&mut self, pdu: &[u8]) -> (r: Option<Message>)
        ensures
            final(self)@ == assemble(old(self)@, pdu@).0,
            models::opt_view(r) == assemble(old(self)@, pdu@).1,
    {
        self.packets_received = self.packets_received.saturating_add(1);
        if pdu.len() == 0 {
            return None;
        }
        let first: u8 = pdu[0];
        let transaction_label: u8 = first >> 4;
        let packet_type = PacketType::from_bits(first >> 2);
        let is_command = (first >> 1) & 1 == 0;
        let ipid = first & 1 != 0;

        if is_command && ipid {
            self.reset();
            return None;
        }
        match packet_type {
            PacketType::Single => {
                self.reset();
                if pdu.len() < 3 {
                    return None;
                }
                let payload = bytes::copy_range(pdu, 3, pdu.len());
                assert(payload@ =~= pdu@.skip(3));
                Some(
                    Message {
                        transaction_label,
                        is_command,
                        ipid,
                        pid: bytes::read_be16(pdu, 1),
                        payload,
                    },
                )
            },
            PacketType::Start => {
                self.reset();
                self.packets_received = 1;
                if pdu.len() < 2 {
                    return None;
                }
                self.number_of_packets = pdu[1];
                if pdu.len() < 4 {
                    return None;
                }
                self.in_progress = true;
                self.transaction_label = transaction_label;
                self.is_command = is_command;
                self.ipid = ipid;
                self.pid = bytes::read_be16(pdu, 2);
                self.payload = bytes::copy_range(pdu, 4, pdu.len());
                assert(self.payload@ =~= pdu@.skip(4));
                None
            },
            _ => {
                if !self.in_progress || transaction_label != self.transaction_label || is_command
                    != self.is_command || self.packets_received > self.number_of_packets {
                    self.reset();
                    return None;
                }
                let fragment = bytes::range(pdu, 1, pdu.len());
                assert(fragment@ =~= pdu@.skip(1));
                bytes::push_bytes(&mut self.payload, fragment);
                if packet_type == PacketType::Continue {
                    return None;
                }
                if self.packets_received != self.number_of_packets {
                    self.reset();
                    return None;
                }
                let mut payload: Vec<u8> = Vec::new();
                std::mem::swap(&mut payload, &mut self.payload);
                let message = Message {
                    transaction_label: self.transaction_label,
                    is_command: self.is_command,
                    ipid: self.ipid,
                    pid: self.pid,
                    payload,
                };
                self.reset();
                Some(message)
            },
        }
    }
}

// ---------------------------------------------------------------------------
// Protocol
// ---------------------------------------------------------------------------

/// Result of feeding one incoming packet into [`Protocol::receive`].
#[derive(Debug, Clone, PartialEq, Eq)]
pub enum AvctpEvent {
    /// A command arrived for a registered PID.
    Command { transaction_label: u8, pid: u16, payload: Vec<u8> },
    /// A response arrived for one of our commands.
    Response { transaction_label: u8, pid: u16, payload: Vec<u8> },
    /// The peer answered our command with IPID: it does not support `pid`.
    InvalidPid { transaction_label: u8, pid: u16 },
}

/// The model of an [`AvctpEvent`].
#[verifier::ext_equal]
pub enum AvctpEventModel {
    Command { transaction_label: u8, pid: u16, payload: Seq<u8> },
    Response { transaction_label: u8, pid: u16, payload: Seq<u8> },
    InvalidPid { transaction_label: u8, pid: u16 },
}

impl View for AvctpEvent {
    type V = AvctpEventModel;

    open spec fn view(&self) -> AvctpEventModel {
        match self {
            AvctpEvent::Command { transaction_label, pid, payload } => AvctpEventModel::Command {
                transaction_label: *transaction_label,
                pid: *pid,
                payload: payload@,
            },
            AvctpEvent::Response { transaction_label, pid, payload } => AvctpEventModel::Response {
                transaction_label: *transaction_label,
                pid: *pid,
                payload: payload@,
            },
            AvctpEvent::InvalidPid { transaction_label, pid } => AvctpEventModel::InvalidPid {
                transaction_label: *transaction_label,
                pid: *pid,
            },
        }
    }
}

/// The state machine of one channel: reassembles incoming messages and routes
/// them by PID. Commands for PIDs that nothing has registered draw an IPID
/// response.
#[derive(Debug)]
pub struct Protocol {
    peer_mtu: u16,
    assembler: MessageAssembler,
    registered_pids: Vec<u16>,
}

/// The model of a [`Protocol`].
#[verifier::ext_equal]
pub struct ProtocolModel {
    pub peer_mtu: u16,
    pub assembler: AssemblerModel,
    pub registered_pids: Seq<u16>,
}

impl View for Protocol {
    type V = ProtocolModel;

    closed spec fn view(&self) -> ProtocolModel {
        ProtocolModel {
            peer_mtu: self.peer_mtu,
            assembler: self.assembler@,
            registered_pids: self.registered_pids@,
        }
    }
}

/// The packets of a command.
pub open spec fn command_packets(
    p: ProtocolModel,
    transaction_label: u8,
    pid: u16,
    payload: Seq<u8>,
) -> Seq<Seq<u8>> {
    message_packets(
        MessageModel { transaction_label, is_command: true, ipid: false, pid, payload },
        p.peer_mtu,
    )
}

/// The packets of a response.
pub open spec fn response_packets(
    p: ProtocolModel,
    transaction_label: u8,
    pid: u16,
    payload: Seq<u8>,
) -> Seq<Seq<u8>> {
    message_packets(
        MessageModel { transaction_label, is_command: false, ipid: false, pid, payload },
        p.peer_mtu,
    )
}

/// The packets of a response that reports an unsupported PID.
pub open spec fn ipid_packets(p: ProtocolModel, transaction_label: u8, pid: u16) -> Seq<Seq<u8>> {
    message_packets(
        MessageModel { transaction_label, is_command: false, ipid: true, pid, payload: seq![] },
        p.peer_mtu,
    )
}

/// What a complete message makes a channel send and report.
pub open spec fn deliver(p: ProtocolModel, message: Option<MessageModel>) -> (
    Seq<Seq<u8>>,
    Seq<AvctpEventModel>,
) {
    match message {
        None => (seq![], seq![]),
        Some(m) => if m.is_command {
            if p.registered_pids.contains(m.pid) {
                (
                    seq![],
                    seq![
                        AvctpEventModel::Command {
                            transaction_label: m.transaction_label,
                            pid: m.pid,
                            payload: m.payload,
                        },
                    ],
                )
            } else {
                (ipid_packets(p, m.transaction_label, m.pid), seq![])
            }
        } else if m.ipid {
            (
                seq![],
                seq![
                    AvctpEventModel::InvalidPid {
                        transaction_label: m.transaction_label,
                        pid: m.pid,
                    },
                ],
            )
        } else {
            (
                seq![],
                seq![
                    AvctpEventModel::Response {
                        transaction_label: m.transaction_label,
                        pid: m.pid,
                        payload: m.payload,
                    },
                ],
            )
        },
    }
}

impl Protocol {
    /// A channel on which nothing is registered.
    pub fn new(peer_mtu: u16) -> (r: Self)
        ensures
            r@ == (ProtocolModel {
                peer_mtu,
                assembler: idle_assembler(),
                registered_pids: seq![],
            }),
    {
        let r = Protocol {
            peer_mtu,
            assembler: MessageAssembler::new(),
            registered_pids: Vec::new(),
        };
        assert(r@.registered_pids =~= seq![]);
        r
    }

    /// Adopts the MTU that the channel negotiated.
    pub fn set_peer_mtu(&mut self, peer_mtu: u16)
        ensures
            final(self)@ == (ProtocolModel { peer_mtu, ..old(self)@ }),
    {
        self.peer_mtu = peer_mtu;
    }

    fn serves(&self, pid: u16) -> (r: bool)
        ensures
            r == self@.registered_pids.contains(pid),
    {
        let mut i: usize = 0;
        while i < self.registered_pids.len()
            invariant
                i <= self.registered_pids@.len(),
                forall|j: int| 0 <= j < i ==> self.registered_pids@[j] != pid,
            decreases self.registered_pids@.len() - i,
        {
            if self.registered_pids[i] == pid {
                assert(self.registered_pids@[i as int] == pid);
                return true;
            }
            i = i + 1;
        }
        false
    }

    /// Declares `pid` as served locally, so that incoming commands for it are
    /// delivered instead of drawing an IPID response.
    pub fn register_pid(&mut self, pid: u16)
        ensures
            final(self)@ == (ProtocolModel {
                registered_pids: if old(self)@.registered_pids.contains(pid) {
                    old(self)@.registered_pids
                } else {
                    old(self)@.registered_pids.push(pid)
                },
                ..old(self)@
            }),
    {
        if !self.serves(pid) {
            self.registered_pids.push(pid);
        }
    }

    /// Builds the packets of one command message.
    pub fn send_command(&self, transaction_label: u8, pid: u16, payload: &[u8]) -> (r: Vec<Vec<u8>>)
        ensures
            models::seq_views(r@) == command_packets(self@, transaction_label, pid, payload@),
    {
        write_message(transaction_label, true, false, pid, payload, self.peer_mtu)
    }

    /// Builds the packets of one response message.
    pub fn send_response(&self, transaction_label: u8, pid: u16, payload: &[u8]) -> (r: Vec<
        Vec<u8>,
    >)
        ensures
            models::seq_views(r@) == response_packets(self@, transaction_label, pid, payload@),
    {
        write_message(transaction_label, false, false, pid, payload, self.peer_mtu)
    }

    /// Builds the IPID (invalid PID) response to a command that nothing serves.
    pub fn send_ipid_response(&self, transaction_label: u8, pid: u16) -> (r: Vec<Vec<u8>>)
        ensures
            models::seq_views(r@) == ipid_packets(self@, transaction_label, pid),
    {
        let nothing: Vec<u8> = Vec::new();
        assert(nothing@ =~= seq![]);
        write_message(transaction_label, false, true, pid, &nothing, self.peer_mtu)
    }

    /// Processes one incoming packet, returning packets to send back and any
    /// events.
    pub fn receive(&mut self, pdu: &[u8]) -> (r: (Vec<Vec<u8>>, Vec<AvctpEvent>))
        ensures
            final(self)@ == (ProtocolModel {
                assembler: assemble(old(self)@.assembler, pdu@).0,
                ..old(self)@
            }),
            models::seq_views(r.0@) == deliver(
                old(self)@,
                assemble(old(self)@.assembler, pdu@).1,
            ).0,
            models::seq_views(r.1@) == deliver(
                old(self)@,
                assemble(old(self)@.assembler, pdu@).1,
            ).1,
    {
        let mut outgoing: Vec<Vec<u8>> = Vec::new();
        let mut events: Vec<AvctpEvent> = Vec::new();
        let completed = self.assembler.on_pdu(pdu);
        let ghost expected = deliver(old(self)@, models::opt_view(completed));
        if let Some(message) = completed {
            if message.is_command {
                if self.serves(message.pid) {
                    events.push(
                        AvctpEvent::Command {
                            transaction_label: message.transaction_label,
                            pid: message.pid,
                            payload: message.payload,
                        },
                    );
                } else {
                    outgoing = self.send_ipid_response(message.transaction_label, message.pid);
                }
            } else if message.ipid {
                events.push(
                    AvctpEvent::InvalidPid {
                        transaction_label: message.transaction_label,
                        pid: message.pid,
                    },
                );
            } else {
                events.push(
                    AvctpEvent::Response {
                        transaction_label: message.transaction_label,
                        pid: message.pid,
                        payload: message.payload,
                    },
                );
            }
        }
        assert(models::seq_views(outgoing@) =~= expected.0);
        assert(models::seq_views(events@) =~= expected.1);
        (outgoing, events)
    }
}

// ---------------------------------------------------------------------------
// L2CAP integration
// ---------------------------------------------------------------------------

/// Registers the control PSM as accepting incoming connections.
pub fn register_control_server(manager: &mut ClassicChannelManager) -> (r: Result<(), SimbleError>)
    ensures
        r is Ok,
        final(manager)@ == (ChannelManagerModel {
            servers: old(manager)@.servers.insert(AVCTP_PSM),
            ..old(manager)@
        }),
{
    manager.register_server(AVCTP_PSM)
}

/// Registers the browsing PSM as accepting incoming connections.
pub fn register_browsing_server(manager: &mut ClassicChannelManager) -> (r: Result<(), SimbleError>)
    ensures
        r is Ok,
        final(manager)@ == (ChannelManagerModel {
            servers: old(manager)@.servers.insert(AVCTP_BROWSING_PSM),
            ..old(manager)@
        }),
{
    manager.register_server(AVCTP_BROWSING_PSM)
}

/// Allocates the control channel (initiator role), returning its local channel
/// identifier and the Connection Request to send.
pub fn connect_control_channel(manager: &mut ClassicChannelManager, mtu: u16) -> (r: Result<
    (u16, ConnectionRequestHeader),
    SimbleError,
>)
    ensures
        crate::l2cap::classic::connects(
            old(manager)@,
            (ClassicChannelSpec { psm: AVCTP_PSM, mtu }),
            r,
            final(manager)@,
        ),
{
    manager.connect(&ClassicChannelSpec::with_mtu(AVCTP_PSM, mtu))
}

/// Allocates the browsing channel (initiator role); see
/// [`connect_control_channel`].
pub fn connect_browsing_channel(manager: &mut ClassicChannelManager, mtu: u16) -> (r: Result<
    (u16, ConnectionRequestHeader),
    SimbleError,
>)
    ensures
        crate::l2cap::classic::connects(
            old(manager)@,
            (ClassicChannelSpec { psm: AVCTP_BROWSING_PSM, mtu }),
            r,
            final(manager)@,
        ),
{
    manager.connect(&ClassicChannelSpec::with_mtu(AVCTP_BROWSING_PSM, mtu))
}

// ---------------------------------------------------------------------------
// Laws
// ---------------------------------------------------------------------------

/// Feeding packets one after another: the assembler that is left and the
/// messages that were completed on the way.
pub open spec fn feed(a: AssemblerModel, packets: Seq<Seq<u8>>) -> (
    AssemblerModel,
    Seq<MessageModel>,
)
    decreases packets.len(),
{
    if packets.len() == 0 {
        (a, seq![])
    } else {
        let (next, message) = assemble(a, packets[0]);
        let (last, messages) = feed(next, packets.skip(1));
        (
            last,
            match message {
                Some(m) => seq![m] + messages,
                None => messages,
            },
        )
    }
}

proof fn lemma_header_bits(label: u8, kind: u8, response: u8, ipid: u8)
    by (bit_vector)
    requires
        label < 16,
        kind < 4,
        response < 2,
        ipid < 2,
    ensures
        ((label << 4) | (kind << 2) | (response << 1) | ipid) >> 4 == label,
        (((label << 4) | (kind << 2) | (response << 1) | ipid) >> 2) & 3 == kind,
        (((label << 4) | (kind << 2) | (response << 1) | ipid) >> 1) & 1 == response,
        ((label << 4) | (kind << 2) | (response << 1) | ipid) & 1 == ipid,
{
}

/// The fields of a header byte are read back.
pub proof fn lemma_header(label: u8, kind: PacketType, is_command: bool, ipid: bool)
    requires
        label < 16,
    ensures
        header(label, kind, is_command, ipid) >> 4 == label,
        packet_type_of(header(label, kind, is_command, ipid) >> 2) == kind,
        ((header(label, kind, is_command, ipid) >> 1) & 1 == 0) == is_command,
        (header(label, kind, is_command, ipid) & 1 != 0) == ipid,
{
    let response: u8 = if is_command {
        0
    } else {
        1
    };
    let invalid: u8 = if ipid {
        1
    } else {
        0
    };
    lemma_header_bits(label, kind.bits(), response, invalid);
}

/// The continue and end packets of a message complete it.
proof fn lemma_tail_reassembles(m: MessageModel, a: AssemblerModel, rest: Seq<u8>, capacity: int)
    requires
        m.transaction_label < 16,
        !(m.is_command && m.ipid),
        capacity > 0,
        rest.len() > 0,
        a.in_progress,
        a.transaction_label == m.transaction_label,
        a.is_command == m.is_command,
        a.ipid == m.ipid,
        a.pid == m.pid,
        a.payload + rest == m.payload,
        a.packets_received + (rest.len() + capacity - 1) / capacity == a.number_of_packets,
    ensures
        feed(
            a,
            tail_packets(m.transaction_label, m.is_command, m.ipid, rest, capacity),
        ) == (idle_assembler(), seq![m]),
    decreases rest.len(),
{
    let label = m.transaction_label;
    let packets = tail_packets(label, m.is_command, m.ipid, rest, capacity);
    vstd::arithmetic::div_mod::lemma_fundamental_div_mod(rest.len() + capacity - 1, capacity);
    vstd::arithmetic::div_mod::lemma_mod_bound(rest.len() + capacity - 1, capacity);
    reveal_with_fuel(feed, 2);
    if rest.len() <= capacity {
        lemma_header(label, PacketType::End, m.is_command, m.ipid);
        assert((rest.len() + capacity - 1) / capacity == 1) by {
            vstd::arithmetic::div_mod::lemma_fundamental_div_mod_converse(
                rest.len() + capacity - 1,
                capacity,
                1,
                rest.len() - 1,
            );
        }
        assert(packets[0].skip(1) =~= rest);
        assert(packets.skip(1) =~= seq![]);
        assert(assemble(a, packets[0]) == (idle_assembler(), Some(m)));
        assert(feed(a, packets).1 =~= seq![m]);
    } else {
        lemma_header(label, PacketType::Continue, m.is_command, m.ipid);
        let next = AssemblerModel {
            payload: a.payload + rest.take(capacity),
            packets_received: (a.packets_received + 1) as u8,
            ..a
        };
        let n = (rest.len() + capacity - 1) / capacity;
        let left = rest.skip(capacity);
        assert((left.len() + capacity - 1) / capacity == n - 1) by {
            let x = rest.len() + capacity - 1;
            vstd::arithmetic::div_mod::lemma_fundamental_div_mod(x, capacity);
            assert((n - 1) * capacity == n * capacity - capacity) by (nonlinear_arith);
            vstd::arithmetic::div_mod::lemma_fundamental_div_mod_converse(
                x - capacity,
                capacity,
                n - 1,
                x % capacity,
            );
        }
        assert(n >= 2) by {
            assert(n * capacity + (rest.len() + capacity - 1) % capacity == rest.len() + capacity
                - 1) by {
                vstd::arithmetic::mul::lemma_mul_is_commutative(n, capacity);
            }
            if n <= 1 {
                assert(n * capacity <= capacity) by (nonlinear_arith)
                    requires
                        n <= 1,
                        capacity > 0,
                ;
            }
        }
        assert(packets[0].skip(1) =~= rest.take(capacity));
        assert(packets.skip(1) =~= tail_packets(label, m.is_command, m.ipid, left, capacity));
        assert(assemble(a, packets[0]) == (next, None::<MessageModel>));
        assert(next.payload + left =~= m.payload) by {
            assert(rest.take(capacity) + left =~= rest);
        }
        lemma_tail_reassembles(m, next, left, capacity);
    }
}

/// What is cut into packets is put together again: whatever state an assembler
/// is in, the packets of a message complete exactly that message and leave the
/// assembler idle. The label has four bits, only responses carry IPID, and
/// the packet count has to fit its one-byte field.
pub proof fn law_reassembly(a: AssemblerModel, m: MessageModel, peer_mtu: u16)
    requires
        m.transaction_label < 16,
        !(m.is_command && m.ipid),
        3 + m.payload.len() > usable_mtu(peer_mtu) ==> packet_count(
            m.payload.len() as int,
            usable_mtu(peer_mtu),
        ) <= 255,
    ensures
        feed(a, message_packets(m, peer_mtu)) == (idle_assembler(), seq![m]),
{
    let mtu = usable_mtu(peer_mtu);
    let packets = message_packets(m, peer_mtu);
    bytes::lemma_be16_round_trip(m.pid);
    reveal_with_fuel(feed, 2);
    if 3 + m.payload.len() <= mtu {
        lemma_header(m.transaction_label, PacketType::Single, m.is_command, m.ipid);
        assert(packets[0].skip(3) =~= m.payload);
        assert(packets.skip(1) =~= seq![]);
        assert(assemble(a, packets[0]) == (idle_assembler(), Some(m)));
        assert(feed(a, packets).1 =~= seq![m]);
    } else {
        lemma_header(m.transaction_label, PacketType::Start, m.is_command, m.ipid);
        let rest = m.payload.skip(mtu - 4);
        let count = packet_count(m.payload.len() as int, mtu);
        assert(packets[0].skip(4) =~= m.payload.take(mtu - 4));
        assert(packets.skip(1) =~= tail_packets(
            m.transaction_label,
            m.is_command,
            m.ipid,
            rest,
            mtu - 1,
        ));
        let next = AssemblerModel {
            in_progress: true,
            transaction_label: m.transaction_label,
            is_command: m.is_command,
            ipid: m.ipid,
            pid: m.pid,
            payload: m.payload.take(mtu - 4),
            number_of_packets: count as u8,
            packets_received: 1,
        };
        assert(count >= 1) by {
            vstd::arithmetic::div_mod::lemma_div_pos_is_pos(
                m.payload.len() - (mtu - 4) + (mtu - 2),
                mtu - 1,
            );
        }
        assert(assemble(a, packets[0]) == (next, None::<MessageModel>));
        assert(m.payload.take(mtu - 4) + rest =~= m.payload);
        lemma_tail_reassembles(m, next, rest, mtu - 1);
    }
}

proof fn lemma_tail_incomplete(
    m: MessageModel,
    a: AssemblerModel,
    rest: Seq<u8>,
    capacity: int,
    n: int,
)
    requires
        m.transaction_label < 16,
        capacity > 0,
        !(m.is_command && m.ipid),
        a.in_progress,
        a.transaction_label == m.transaction_label,
        a.is_command == m.is_command,
        0 <= n < tail_packets(m.transaction_label, m.is_command, m.ipid, rest, capacity).len(),
    ensures
        feed(
            a,
            tail_packets(m.transaction_label, m.is_command, m.ipid, rest, capacity).take(n),
        ).1.len() == 0,
    decreases rest.len(),
{
    let label = m.transaction_label;
    let packets = tail_packets(label, m.is_command, m.ipid, rest, capacity);
    if n > 0 {
        lemma_header(label, PacketType::Continue, m.is_command, m.ipid);
        let left = rest.skip(capacity);
        let (next, complete) = assemble(a, packets[0]);
        assert(complete is None);
        assert(packets.take(n).skip(1) =~= tail_packets(
            label,
            m.is_command,
            m.ipid,
            left,
            capacity,
        ).take(n - 1));
        if next.in_progress {
            lemma_tail_incomplete(m, next, left, capacity, n - 1);
        } else {
            lemma_idle_incomplete(m, next, left, capacity, n - 1);
        }
    }
}

proof fn lemma_idle_incomplete(
    m: MessageModel,
    a: AssemblerModel,
    rest: Seq<u8>,
    capacity: int,
    n: int,
)
    requires
        m.transaction_label < 16,
        capacity > 0,
        !(m.is_command && m.ipid),
        !a.in_progress,
        0 <= n <= tail_packets(m.transaction_label, m.is_command, m.ipid, rest, capacity).len(),
    ensures
        feed(
            a,
            tail_packets(m.transaction_label, m.is_command, m.ipid, rest, capacity).take(n),
        ).1.len() == 0,
    decreases rest.len(),
{
    let label = m.transaction_label;
    let packets = tail_packets(label, m.is_command, m.ipid, rest, capacity);
    if n > 0 {
        lemma_header(label, PacketType::Continue, m.is_command, m.ipid);
        lemma_header(label, PacketType::End, m.is_command, m.ipid);
        let left = rest.skip(capacity);
        let (next, complete) = assemble(a, packets[0]);
        assert(complete is None && !next.in_progress);
        if rest.len() > capacity {
            assert(packets.take(n).skip(1) =~= tail_packets(
                label,
                m.is_command,
                m.ipid,
                left,
                capacity,
            ).take(n - 1));
            lemma_idle_incomplete(m, next, left, capacity, n - 1);
        } else {
            reveal_with_fuel(feed, 2);
            assert(packets.take(n).skip(1) =~= seq![]);
            assert(packets.take(n)[0] == packets[0]);
        }
    }
}

/// No message is complete before the last of its packets.
pub proof fn law_nothing_completes_early(
    a: AssemblerModel,
    m: MessageModel,
    peer_mtu: u16,
    n: int,
)
    requires
        m.transaction_label < 16,
        !(m.is_command && m.ipid),
        0 <= n < message_packets(m, peer_mtu).len(),
    ensures
        feed(a, message_packets(m, peer_mtu).take(n)).1.len() == 0,
{
    let mtu = usable_mtu(peer_mtu);
    let packets = message_packets(m, peer_mtu);
    if n > 0 {
        lemma_header(m.transaction_label, PacketType::Start, m.is_command, m.ipid);
        let rest = m.payload.skip(mtu - 4);
        let (next, complete) = assemble(a, packets[0]);
        assert(complete is None && next.in_progress);
        assert(packets.take(n).skip(1) =~= tail_packets(
            m.transaction_label,
            m.is_command,
            m.ipid,
            rest,
            mtu - 1,
        ).take(n - 1));
        lemma_tail_incomplete(m, next, rest, mtu - 1, n - 1);
    }
}

/// A command for a PID that nothing has registered is answered with exactly
/// one IPID response and reported to nobody; one for a registered PID is
/// delivered and not answered.
pub proof fn law_unregistered_pid_is_refused(p: ProtocolModel, m: MessageModel)
    requires
        m.is_command,
    ensures
        !p.registered_pids.contains(m.pid) ==> deliver(p, Some(m)) == (
            ipid_packets(p, m.transaction_label, m.pid),
            Seq::<AvctpEventModel>::empty(),
        ),
        p.registered_pids.contains(m.pid) ==> deliver(p, Some(m)).0.len() == 0
            && deliver(p, Some(m)).1.len() == 1,
{
}

} // verus!
