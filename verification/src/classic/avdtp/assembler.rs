//! Cutting messages into signaling packets, and putting them together again.

use vstd::prelude::*;
use crate::bytes;
use crate::classic::avdtp::message;
use crate::classic::avdtp::message::{Message, MessageModel, MessageType};
use crate::models;

verus! {

/// The place of a packet in its message.
#[derive(Debug, Clone, Copy, PartialEq, Eq, Structural)]
pub enum PacketType {
    Single,
    Start,
    Continue,
    End,
}

/// The packet type that the low two bits of a byte stand for.
pub open spec fn packet_type_of(bits: u8) -> PacketType {
    match bits % 4 {
        0 => PacketType::Single,
        1 => PacketType::Start,
        2 => PacketType::Continue,
        _ => PacketType::End,
    }
}

impl PacketType {
    /// The two bits of this packet type.
    pub open spec fn bits(self) -> u8 {
        match self {
            PacketType::Single => 0,
            PacketType::Start => 1,
            PacketType::Continue => 2,
            PacketType::End => 3,
        }
    }

    fn from_bits(bits: u8) -> (r: Self)
        ensures
            r == packet_type_of(bits),
    {
        match bits % 4 {
            0 => PacketType::Single,
            1 => PacketType::Start,
            2 => PacketType::Continue,
            _ => PacketType::End,
        }
    }

    fn as_bits(self) -> (r: u8)
        ensures
            r == self.bits(),
    {
        match self {
            PacketType::Single => 0,
            PacketType::Start => 1,
            PacketType::Continue => 2,
            PacketType::End => 3,
        }
    }
}

// ---------------------------------------------------------------------------
// Cutting
// ---------------------------------------------------------------------------

/// The first byte of a packet: transaction label, packet type, message type.
pub open spec fn header(label: u8, packet_type: PacketType, kind: MessageType) -> u8 {
    ((label % 0x10) * 0x10 + packet_type.bits() * 4 + kind.bits()) as u8
}

fn header_byte(label: u8, packet_type: PacketType, kind: MessageType) -> (r: u8)
    ensures
        r == header(label, packet_type, kind),
{
    (label % 0x10) * 0x10 + packet_type.as_bits() * 4 + kind.as_bits()
}

/// The most payload in a packet: room is left for the longest header.
pub open spec fn fragment_size(peer_mtu: u16) -> int {
    if peer_mtu > 3 {
        peer_mtu - 3
    } else {
        1
    }
}

/// How many pieces of at most `size` bytes `n` bytes make.
pub open spec fn pieces(n: int, size: int) -> int {
    if n <= 0 {
        0
    } else {
        (n - 1) / size + 1
    }
}

/// The packets that follow a start packet.
pub open spec fn tail_packets(label: u8, kind: MessageType, rest: Seq<u8>, size: int) -> Seq<
    Seq<u8>,
>
    decreases rest.len(),
{
    if rest.len() == 0 || size <= 0 {
        seq![]
    } else if rest.len() <= size {
        seq![seq![header(label, PacketType::End, kind)] + rest]
    } else {
        seq![seq![header(label, PacketType::Continue, kind)] + rest.take(size)] + tail_packets(
            label,
            kind,
            rest.skip(size),
            size,
        )
    }
}

/// The packets of a message. One that does not fit a single packet is cut; the
/// start packet counts the packets, in one byte.
pub open spec fn message_packets(label: u8, m: MessageModel, peer_mtu: u16) -> Seq<Seq<u8>> {
    let payload = m.payload();
    let size = fragment_size(peer_mtu);
    if payload.len() + 2 <= peer_mtu {
        seq![seq![header(label, PacketType::Single, m.kind()), m.signal()] + payload]
    } else {
        let n = if payload.len() < size {
            payload.len() as int
        } else {
            size
        };
        let count = (pieces(payload.len() as int, size) % 0x100) as u8;
        seq![
            seq![header(label, PacketType::Start, m.kind()), m.signal(), count] + payload.take(n),
        ] + tail_packets(label, m.kind(), payload.skip(n), size)
    }
}

/// Appends the packets that follow a start packet.
fn write_tail(pdus: &mut Vec<Vec<u8>>, label: u8, kind: MessageType, rest: &[u8], size: usize)
    requires
        size > 0,
    ensures
        models::seq_views(final(pdus)@) == models::seq_views(old(pdus)@) + tail_packets(
            label,
            kind,
            rest@,
            size as int,
        ),
{
    let ghost whole = models::seq_views(pdus@) + tail_packets(label, kind, rest@, size as int);
    let mut at: usize = 0;
    assert(rest@.skip(0) =~= rest@);
    while at < rest.len()
        invariant
            at <= rest@.len(),
            models::seq_views(pdus@) + tail_packets(
                label,
                kind,
                rest@.skip(at as int),
                size as int,
            ) == whole,
        decreases rest@.len() - at,
    {
        let ghost before = models::seq_views(pdus@);
        let ghost left = rest@.skip(at as int);
        let n: usize = rest.len() - at;
        if n <= size {
            let mut pdu: Vec<u8> = vec![header_byte(label, PacketType::End, kind)];
            bytes::push_bytes(&mut pdu, bytes::range(rest, at, rest.len()));
            assert(pdu@ =~= seq![header(label, PacketType::End, kind)] + left);
            proof {
                models::lemma_seq_views_push(pdus@, pdu);
                assert(before + seq![pdu@] =~= before.push(pdu@));
                assert(rest@.skip(rest@.len() as int) =~= seq![]);
                assert(before.push(pdu@) + seq![] =~= before.push(pdu@));
            }
            pdus.push(pdu);
            at = rest.len();
        } else {
            let mut pdu: Vec<u8> = vec![header_byte(label, PacketType::Continue, kind)];
            bytes::push_bytes(&mut pdu, bytes::range(rest, at, at + size));
            assert(pdu@ =~= seq![header(label, PacketType::Continue, kind)] + left.take(
                size as int,
            ));
            proof {
                models::lemma_seq_views_push(pdus@, pdu);
                assert(left.skip(size as int) =~= rest@.skip(at + size));
                let more = tail_packets(label, kind, rest@.skip(at + size), size as int);
                assert(before + (seq![pdu@] + more) =~= before.push(pdu@) + more);
            }
            pdus.push(pdu);
            at = at + size;
        }
    }
    assert(rest@.skip(at as int) =~= seq![]);
    assert(models::seq_views(pdus@) + seq![] =~= models::seq_views(pdus@));
}

/// Serializes a message into signaling packets, cut into start, continue and
/// end packets when it exceeds `peer_mtu`.
pub fn write_message(transaction_label: u8, message: &Message, peer_mtu: u16) -> (r: Vec<Vec<u8>>)
    ensures
        models::seq_views(r@) == message_packets(transaction_label, message@, peer_mtu),
{
    let payload = message.to_payload();
    let signal: u8 = message.signal_identifier();
    let kind = message.message_type();
    let mut pdus: Vec<Vec<u8>> = Vec::new();
    if peer_mtu >= 2 && payload.len() <= peer_mtu as usize - 2 {
        let mut pdu: Vec<u8> = vec![
            header_byte(transaction_label, PacketType::Single, kind),
            signal,
        ];
        bytes::push_bytes(&mut pdu, &payload);
        assert(pdu@ =~= seq![header(transaction_label, PacketType::Single, kind), signal]
            + payload@);
        pdus.push(pdu);
        assert(models::seq_views(pdus@) =~= message_packets(transaction_label, message@, peer_mtu));
        return pdus;
    }
    // Every packet leaves room for the header of a start packet.
    let size: usize = if peer_mtu > 3 {
        peer_mtu as usize - 3
    } else {
        1
    };
    let count: usize = if payload.len() == 0 {
        0
    } else {
        (payload.len() - 1) / size % 0x100 + 1
    };
    proof {
        if payload@.len() > 0 {
            vstd::arithmetic::div_mod::lemma_add_mod_noop(
                (payload@.len() - 1) / size as int,
                1,
                0x100,
            );
        }
    }
    assert((count % 0x100) as u8 == (pieces(payload@.len() as int, size as int) % 0x100) as u8);
    let n: usize = if payload.len() < size {
        payload.len()
    } else {
        size
    };
    let mut pdu: Vec<u8> = vec![
        header_byte(transaction_label, PacketType::Start, kind),
        signal,
        (count % 0x100) as u8,
    ];
    bytes::push_bytes(&mut pdu, bytes::range(&payload, 0, n));
    let ghost first = pdu@;
    assert(first =~= seq![
        header(transaction_label, PacketType::Start, kind),
        signal,
        (count % 0x100) as u8,
    ] + payload@.take(n as int));
    pdus.push(pdu);
    assert(models::seq_views(pdus@) =~= seq![first]);
    let rest = bytes::range(&payload, n, payload.len());
    assert(rest@ =~= payload@.skip(n as int));
    write_tail(&mut pdus, transaction_label, kind, rest, size);
    pdus
}

// ---------------------------------------------------------------------------
// Assembler
// ---------------------------------------------------------------------------

/// A message put together from its packets; the payload is not parsed yet.
#[derive(Debug, Clone, PartialEq, Eq)]
pub struct AssembledMessage {
    pub transaction_label: u8,
    pub signal_identifier: u8,
    pub message_type: MessageType,
    pub payload: Vec<u8>,
}

/// The model of an [`AssembledMessage`].
#[verifier::ext_equal]
pub struct AssembledModel {
    pub transaction_label: u8,
    pub signal_identifier: u8,
    pub message_type: MessageType,
    pub payload: Seq<u8>,
}

impl View for AssembledMessage {
    type V = AssembledModel;

    open spec fn view(&self) -> AssembledModel {
        AssembledModel {
            transaction_label: self.transaction_label,
            signal_identifier: self.signal_identifier,
            message_type: self.message_type,
            payload: self.payload@,
        }
    }
}

/// Puts messages together from their packets. Malformed and out-of-sequence
/// packets are dropped.
#[derive(Debug)]
pub struct MessageAssembler {
    pub(crate) transaction_label: u8,
    pub(crate) message: Option<Vec<u8>>,
    pub(crate) message_type: MessageType,
    pub(crate) signal_identifier: u8,
    pub(crate) number_of_signal_packets: u8,
    pub(crate) packet_count: u8,
}

/// The model of a [`MessageAssembler`].
#[verifier::ext_equal]
pub struct AssemblerModel {
    pub transaction_label: u8,
    /// The payload so far of the message in progress, if there is one.
    pub message: Option<Seq<u8>>,
    pub message_type: MessageType,
    pub signal_identifier: u8,
    pub number_of_signal_packets: u8,
    pub packet_count: u8,
}

impl View for MessageAssembler {
    type V = AssemblerModel;

    closed spec fn view(&self) -> AssemblerModel {
        AssemblerModel {
            transaction_label: self.transaction_label,
            message: models::opt_view(self.message),
            message_type: self.message_type,
            signal_identifier: self.signal_identifier,
            number_of_signal_packets: self.number_of_signal_packets,
            packet_count: self.packet_count,
        }
    }
}

/// An assembler that has seen nothing.
pub open spec fn idle_assembler() -> AssemblerModel {
    AssemblerModel {
        transaction_label: 0,
        message: None,
        message_type: MessageType::Command,
        signal_identifier: 0,
        number_of_signal_packets: 0,
        packet_count: 0,
    }
}

/// What a single or start packet makes of an assembler. A message that was in
/// progress is given up, and packets are counted from this one on.
pub open spec fn begin(a: AssemblerModel, pdu: Seq<u8>) -> (
    AssemblerModel,
    Option<AssembledModel>,
) {
    if pdu.len() < 2 {
        (a, None)
    } else if packet_type_of(pdu[0] / 4) == PacketType::Single {
        (
            idle_assembler(),
            Some(
                AssembledModel {
                    transaction_label: pdu[0] / 0x10,
                    signal_identifier: pdu[1] % 0x40,
                    message_type: message::message_type_of(pdu[0]),
                    payload: pdu.skip(2),
                },
            ),
        )
    } else if pdu.len() < 3 {
        (idle_assembler(), None)
    } else {
        (
            AssemblerModel {
                transaction_label: pdu[0] / 0x10,
                message: Some(pdu.skip(3)),
                message_type: message::message_type_of(pdu[0]),
                signal_identifier: pdu[1] % 0x40,
                number_of_signal_packets: pdu[2],
                packet_count: 1,
            },
            None,
        )
    }
}

/// What a continue or end packet makes of an assembler. One that does not
/// belong to the message in progress is dropped, and not counted.
pub open spec fn proceed(a: AssemblerModel, pdu: Seq<u8>) -> (
    AssemblerModel,
    Option<AssembledModel>,
) {
    match a.message {
        None => (a, None),
        Some(partial) => if pdu[0] / 0x10 != a.transaction_label || message::message_type_of(
            pdu[0],
        ) != a.message_type {
            (a, None)
        } else {
            let next = counted(a);
            let payload = partial + pdu.skip(1);
            if packet_type_of(pdu[0] / 4) == PacketType::End {
                if next.packet_count != a.number_of_signal_packets {
                    (idle_assembler(), None)
                } else {
                    (
                        idle_assembler(),
                        Some(
                            AssembledModel {
                                transaction_label: a.transaction_label,
                                signal_identifier: a.signal_identifier,
                                message_type: a.message_type,
                                payload,
                            },
                        ),
                    )
                }
            } else if next.packet_count > a.number_of_signal_packets {
                (idle_assembler(), None)
            } else {
                (AssemblerModel { message: Some(payload), ..next }, None)
            }
        },
    }
}

/// An assembler that counted one more packet; the count stays at its maximum.
pub open spec fn counted(a: AssemblerModel) -> AssemblerModel {
    AssemblerModel {
        packet_count: if a.packet_count == 0xFF {
            0xFF
        } else {
            (a.packet_count + 1) as u8
        },
        ..a
    }
}

/// What a packet makes of an assembler, and the message that it completes.
pub open spec fn assemble(a: AssemblerModel, pdu: Seq<u8>) -> (
    AssemblerModel,
    Option<AssembledModel>,
) {
    if pdu.len() == 0 {
        (a, None)
    } else {
        match packet_type_of(pdu[0] / 4) {
            PacketType::Single => begin(a, pdu),
            PacketType::Start => begin(a, pdu),
            _ => proceed(a, pdu),
        }
    }
}

impl Default for MessageAssembler {
    fn default() -> (r: Self)
        ensures
            r@ == idle_assembler(),
    {
        MessageAssembler {
            transaction_label: 0,
            message: None,
            message_type: MessageType::Command,
            signal_identifier: 0,
            number_of_signal_packets: 0,
            packet_count: 0,
        }
    }
}

impl MessageAssembler {
    /// An assembler that has seen nothing.
    pub fn new() -> (r: Self)
        ensures
            r@ == idle_assembler(),
    {
        Self::default()
    }

    fn reset(&mut self)
        ensures
            final(self)@ == idle_assembler(),
    {
        *self = Self::default();
    }

    /// Takes one packet and returns the message that it completes, if any.
    pub fn on_pdu(&mut self, pdu: &[u8]) -> (r: Option<AssembledMessage>)
        ensures
            (final(self)@, models::opt_view(r)) == assemble(old(self)@, pdu@),
    {
        if pdu.len() == 0 {
            return None;
        }
        match PacketType::from_bits(pdu[0] / 4) {
            PacketType::Single => self.on_begin(pdu),
            PacketType::Start => self.on_begin(pdu),
            _ => self.on_proceed(pdu),
        }
    }

    fn on_begin(&mut self, pdu: &[u8]) -> (r: Option<AssembledMessage>)
        requires
            pdu@.len() > 0,
        ensures
            (final(self)@, models::opt_view(r)) == begin(old(self)@, pdu@),
    {
        if pdu.len() < 2 {
            return None;
        }
        self.reset();
        self.transaction_label = pdu[0] / 0x10;
        self.signal_identifier = pdu[1] % 0x40;
        self.message_type = MessageType::from_bits(pdu[0]);
        if PacketType::from_bits(pdu[0] / 4) == PacketType::Single {
            let payload = bytes::copy_range(pdu, 2, pdu.len());
            assert(payload@ =~= pdu@.skip(2));
            return Some(self.complete(payload));
        }
        if pdu.len() < 3 {
            self.reset();
            return None;
        }
        self.packet_count = 1;
        self.number_of_signal_packets = pdu[2];
        let payload = bytes::copy_range(pdu, 3, pdu.len());
        assert(payload@ =~= pdu@.skip(3));
        self.message = Some(payload);
        None
    }

    fn on_proceed(&mut self, pdu: &[u8]) -> (r: Option<AssembledMessage>)
        requires
            pdu@.len() > 0,
        ensures
            (final(self)@, models::opt_view(r)) == proceed(old(self)@, pdu@),
    {
        if pdu[0] / 0x10 != self.transaction_label || MessageType::from_bits(pdu[0])
            != self.message_type {
            return None;
        }
        let mut payload = match self.message.take() {
            None => {
                return None;
            },
            Some(partial) => partial,
        };
        let more = bytes::range(pdu, 1, pdu.len());
        assert(more@ =~= pdu@.skip(1));
        bytes::push_bytes(&mut payload, more);
        if self.packet_count < 0xFF {
            self.packet_count = self.packet_count + 1;
        }
        if PacketType::from_bits(pdu[0] / 4) == PacketType::End {
            if self.packet_count != self.number_of_signal_packets {
                self.reset();
                return None;
            }
            return Some(self.complete(payload));
        }
        if self.packet_count > self.number_of_signal_packets {
            self.reset();
            return None;
        }
        self.message = Some(payload);
        None
    }

    /// Hands out the message with its payload.
    fn complete(&mut self, payload: Vec<u8>) -> (r: AssembledMessage)
        ensures
            final(self)@ == idle_assembler(),
            r@ == (AssembledModel {
                transaction_label: old(self)@.transaction_label,
                signal_identifier: old(self)@.signal_identifier,
                message_type: old(self)@.message_type,
                payload: payload@,
            }),
    {
        let r = AssembledMessage {
            transaction_label: self.transaction_label,
            signal_identifier: self.signal_identifier,
            message_type: self.message_type,
            payload,
        };
        self.reset();
        r
    }
}

// ---------------------------------------------------------------------------
// Laws
// ---------------------------------------------------------------------------

/// What an assembler makes of packets, one after the other: what it is
/// afterwards, and the messages that they complete.
pub open spec fn feed(a: AssemblerModel, packets: Seq<Seq<u8>>) -> (
    AssemblerModel,
    Seq<AssembledModel>,
)
    decreases packets.len(),
{
    if packets.len() == 0 {
        (a, seq![])
    } else {
        let (next, message) = assemble(a, packets[0]);
        let (last, messages) = feed(next, packets.skip(1));
        (
            last,
            match message {
                Some(m) => seq![m] + messages,
                None => messages,
            },
        )
    }
}

/// The fields of the first byte are read back.
proof fn lemma_header(label: u8, packet_type: PacketType, kind: MessageType)
    requires
        label < 0x10,
    ensures
        header(label, packet_type, kind) / 0x10 == label,
        packet_type_of(header(label, packet_type, kind) / 4) == packet_type,
        message::message_type_of(header(label, packet_type, kind)) == kind,
{
}

proof fn lemma_pieces(n: int, size: int)
    requires
        n > 0,
        size > 0,
    ensures
        n <= size ==> pieces(n, size) == 1,
        n > size ==> pieces(n, size) == pieces(n - size, size) + 1,
        pieces(n, size) >= 1,
{
    if n <= size {
        vstd::arithmetic::div_mod::lemma_basic_div(n - 1, size);
    } else {
        vstd::arithmetic::div_mod::lemma_div_minus_one(n - 1, size);
    }
    vstd::arithmetic::div_mod::lemma_div_pos_is_pos(n - 1, size);
}

/// The packets after a start packet complete the message.
proof fn lemma_tail_reassembles(a: AssemblerModel, m: AssembledModel, rest: Seq<u8>, size: int)
    requires
        m.transaction_label < 0x10,
        size > 0,
        rest.len() > 0,
        a.message is Some,
        a.message->0 + rest == m.payload,
        a.transaction_label == m.transaction_label,
        a.signal_identifier == m.signal_identifier,
        a.message_type == m.message_type,
        a.packet_count + pieces(rest.len() as int, size) == a.number_of_signal_packets,
    ensures
        feed(
            a,
            tail_packets(m.transaction_label, m.message_type, rest, size),
        ) == (idle_assembler(), seq![m]),
    decreases rest.len(),
{
    let label = m.transaction_label;
    let kind = m.message_type;
    let packets = tail_packets(label, kind, rest, size);
    lemma_pieces(rest.len() as int, size);
    reveal_with_fuel(feed, 2);
    if rest.len() <= size {
        lemma_header(label, PacketType::End, kind);
        assert(packets[0].skip(1) =~= rest);
        assert(packets.skip(1) =~= seq![]);
        assert(assemble(a, packets[0]) == (idle_assembler(), Some(m)));
        assert(feed(a, packets).1 =~= seq![m]);
    } else {
        lemma_header(label, PacketType::Continue, kind);
        let left = rest.skip(size);
        lemma_pieces(left.len() as int, size);
        assert(packets[0].skip(1) =~= rest.take(size));
        assert(packets.skip(1) =~= tail_packets(label, kind, left, size));
        let next = AssemblerModel {
            message: Some(a.message->0 + rest.take(size)),
            ..counted(a)
        };
        assert(assemble(a, packets[0]) == (next, None::<AssembledModel>));
        assert(next.message->0 + left =~= m.payload) by {
            assert(rest.take(size) + left =~= rest);
        }
        lemma_tail_reassembles(next, m, left, size);
    }
}

/// The message as an assembler hands it out.
pub open spec fn assembled(label: u8, m: MessageModel) -> AssembledModel {
    AssembledModel {
        transaction_label: label,
        signal_identifier: m.signal(),
        message_type: m.kind(),
        payload: m.payload(),
    }
}

/// Whether the packets of a message can be put together again. A single packet
/// always can. Where the message is cut, the number of packets has to fit its
/// byte, and there has to be room for a start packet.
pub open spec fn deliverable(m: MessageModel, peer_mtu: u16) -> bool {
    m.payload().len() + 2 > peer_mtu ==> {
        &&& peer_mtu >= 3
        &&& pieces(m.payload().len() as int, fragment_size(peer_mtu)) <= 0xFF
    }
}

/// What is cut into packets is put together again: whatever an assembler was
/// doing, the packets of a message complete exactly that message and leave the assembler idle. Labels have
/// four bits and signals six.
pub proof fn law_reassembly(a: AssemblerModel, label: u8, m: MessageModel, peer_mtu: u16)
    requires
        label < 0x10,
        m.signal() < 0x40,
        deliverable(m, peer_mtu),
    ensures
        feed(a, message_packets(label, m, peer_mtu)) == (
            idle_assembler(),
            seq![assembled(label, m)],
        ),
{
    let packets = message_packets(label, m, peer_mtu);
    let whole = assembled(label, m);
    let payload = m.payload();
    let size = fragment_size(peer_mtu);
    reveal_with_fuel(feed, 2);
    if payload.len() + 2 <= peer_mtu {
        lemma_header(label, PacketType::Single, m.kind());
        assert(packets[0].skip(2) =~= payload);
        assert(packets.skip(1) =~= seq![]);
        assert(assemble(a, packets[0]) == (idle_assembler(), Some(whole)));
        assert(feed(a, packets).1 =~= seq![whole]);
    } else {
        lemma_header(label, PacketType::Start, m.kind());
        lemma_pieces(payload.len() as int, size);
        let rest = payload.skip(size);
        lemma_pieces(rest.len() as int, size);
        let next = AssemblerModel {
            transaction_label: label,
            message: Some(payload.take(size)),
            message_type: m.kind(),
            signal_identifier: m.signal(),
            number_of_signal_packets: pieces(payload.len() as int, size) as u8,
            packet_count: 1,
        };
        assert(packets[0].skip(3) =~= payload.take(size));
        assert(packets.skip(1) =~= tail_packets(label, m.kind(), rest, size));
        assert(assemble(a, packets[0]) == (next, None::<AssembledModel>));
        assert(payload.take(size) + rest =~= payload);
        lemma_tail_reassembles(next, whole, rest, size);
    }
}

proof fn lemma_tail_incomplete(
    a: AssemblerModel,
    m: AssembledModel,
    rest: Seq<u8>,
    size: int,
    n: int,
)
    requires
        m.transaction_label < 0x10,
        size > 0,
        rest.len() > 0,
        a.message is Some,
        a.transaction_label == m.transaction_label,
        a.message_type == m.message_type,
        a.packet_count + pieces(rest.len() as int, size) == a.number_of_signal_packets,
        0 <= n < tail_packets(m.transaction_label, m.message_type, rest, size).len(),
    ensures
        feed(a, tail_packets(m.transaction_label, m.message_type, rest, size).take(n)).1.len()
            == 0,
    decreases rest.len(),
{
    let label = m.transaction_label;
    let kind = m.message_type;
    let packets = tail_packets(label, kind, rest, size);
    lemma_pieces(rest.len() as int, size);
    if n > 0 {
        lemma_header(label, PacketType::Continue, kind);
        let left = rest.skip(size);
        lemma_pieces(left.len() as int, size);
        assert(packets[0].skip(1) =~= rest.take(size));
        let next = AssemblerModel {
            message: Some(a.message->0 + rest.take(size)),
            ..counted(a)
        };
        assert(assemble(a, packets[0]) == (next, None::<AssembledModel>));
        assert(packets.take(n).skip(1) =~= tail_packets(label, kind, left, size).take(n - 1));
        lemma_tail_incomplete(next, m, left, size, n - 1);
    }
}

/// No message is complete before the last of its packets.
pub proof fn law_nothing_completes_early(
    a: AssemblerModel,
    label: u8,
    m: MessageModel,
    peer_mtu: u16,
    n: int,
)
    requires
        label < 0x10,
        m.signal() < 0x40,
        deliverable(m, peer_mtu),
        0 <= n < message_packets(label, m, peer_mtu).len(),
    ensures
        feed(a, message_packets(label, m, peer_mtu).take(n)).1.len() == 0,
{
    let packets = message_packets(label, m, peer_mtu);
    let payload = m.payload();
    let size = fragment_size(peer_mtu);
    if n > 0 {
        lemma_header(label, PacketType::Start, m.kind());
        lemma_pieces(payload.len() as int, size);
        let rest = payload.skip(size);
        lemma_pieces(rest.len() as int, size);
        let next = AssemblerModel {
            transaction_label: label,
            message: Some(payload.take(size)),
            message_type: m.kind(),
            signal_identifier: m.signal(),
            number_of_signal_packets: pieces(payload.len() as int, size) as u8,
            packet_count: 1,
        };
        assert(packets[0].skip(3) =~= payload.take(size));
        assert(assemble(a, packets[0]) == (next, None::<AssembledModel>));
        assert(packets.take(n).skip(1) =~= tail_packets(label, m.kind(), rest, size).take(n - 1));
        lemma_tail_incomplete(next, assembled(label, m), rest, size, n - 1);
    }
}

/// A packet that is malformed or out of sequence is dropped: it completes
/// nothing, and the message in progress goes on as if it had not come.
pub proof fn law_foreign_packets_are_dropped(a: AssemblerModel, pdu: Seq<u8>)
    requires
        pdu.len() > 0 ==> {
            let packet_type = packet_type_of(pdu[0] / 4);
            if packet_type == PacketType::Single || packet_type == PacketType::Start {
                pdu.len() < 2
            } else {
                ||| a.message is None
                ||| pdu[0] / 0x10 != a.transaction_label
                ||| message::message_type_of(pdu[0]) != a.message_type
            }
        },
    ensures
        assemble(a, pdu) == (a, None::<AssembledModel>),
{
}

} // verus!
