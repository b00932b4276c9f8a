//! PDU packets: cutting PDUs into packets and putting them together again.

use vstd::prelude::*;
use crate::bytes;
use crate::models;

verus! {

// The packet types stand in the two low bits of the second byte of a packet.

/// Packet type of a PDU that fits in one packet.
pub const PDU_SINGLE: u8 = 0;

/// Packet type of the first packet of a PDU.
pub const PDU_START: u8 = 1;

/// Packet type of a packet in the middle of a PDU.
pub const PDU_CONTINUE: u8 = 2;

/// Packet type of the last packet of a PDU.
pub const PDU_END: u8 = 3;

/// One packet; the length field holds the low bits of the length of `chunk`.
pub open spec fn pdu_packet(pdu_id: u8, packet_type: u8, chunk: Seq<u8>) -> Seq<u8> {
    seq![pdu_id, packet_type] + bytes::be16_bytes(chunk.len() as u16) + chunk
}

/// The packets behind the first one, with at most `size` bytes in each.
pub open spec fn pdu_tail(pdu_id: u8, rest: Seq<u8>, size: int) -> Seq<Seq<u8>>
    decreases rest.len(),
{
    if size <= 0 || rest.len() <= size {
        seq![pdu_packet(pdu_id, PDU_END, rest)]
    } else {
        seq![pdu_packet(pdu_id, PDU_CONTINUE, rest.take(size))] + pdu_tail(
            pdu_id,
            rest.skip(size),
            size,
        )
    }
}

/// The packets of a PDU with at most `max_parameter_size` bytes of parameters
/// in each; a size of zero counts as one.
pub open spec fn pdu_packets(pdu_id: u8, parameters: Seq<u8>, max_parameter_size: int) -> Seq<
    Seq<u8>,
> {
    let size = if max_parameter_size < 1 {
        1
    } else {
        max_parameter_size
    };
    if parameters.len() <= size {
        seq![pdu_packet(pdu_id, PDU_SINGLE, parameters)]
    } else {
        seq![pdu_packet(pdu_id, PDU_START, parameters.take(size))] + pdu_tail(
            pdu_id,
            parameters.skip(size),
            size,
        )
    }
}

fn make_packet(pdu_id: u8, packet_type: u8, chunk: &[u8]) -> (r: Vec<u8>)
    ensures
        r@ == pdu_packet(pdu_id, packet_type, chunk@),
{
    let mut pdu: Vec<u8> = vec![pdu_id, packet_type];
    bytes::push_be16(&mut pdu, chunk.len() as u16);
    bytes::push_bytes(&mut pdu, chunk);
    assert(pdu@ =~= pdu_packet(pdu_id, packet_type, chunk@));
    pdu
}

/// Serializes one PDU, cutting the parameters into start, continue and end
/// packets when they exceed `max_parameter_size`.
///
/// Of a response only the first packet is sent at once; the peer asks for each
/// of the others, and `Protocol` answers from the packets that it held back.
pub fn write_pdu(pdu_id: u8, parameters: &[u8], max_parameter_size: usize) -> (r: Vec<Vec<u8>>)
    ensures
        models::seq_views(r@) == pdu_packets(pdu_id, parameters@, max_parameter_size as int),
        r@.len() > 0,
{
    let size: usize = if max_parameter_size < 1 {
        1
    } else {
        max_parameter_size
    };
    let mut pdus: Vec<Vec<u8>> = Vec::new();
    let ghost whole = pdu_packets(pdu_id, parameters@, max_parameter_size as int);
    if parameters.len() <= size {
        pdus.push(make_packet(pdu_id, PDU_SINGLE, parameters));
        assert(models::seq_views(pdus@) =~= whole);
        return pdus;
    }
    pdus.push(make_packet(pdu_id, PDU_START, bytes::range(parameters, 0, size)));
    assert(parameters@.subrange(0, size as int) =~= parameters@.take(size as int));
    let mut at: usize = size;
    assert(models::seq_views(pdus@) + pdu_tail(pdu_id, parameters@.skip(at as int), size as int)
        =~= whole);
    while parameters.len() - at > size
        invariant
            size > 0,
            at < parameters@.len(),
            pdus@.len() > 0,
            models::seq_views(pdus@) + pdu_tail(
                pdu_id,
                parameters@.skip(at as int),
                size as int,
            ) == whole,
        decreases parameters@.len() - at,
    {
        let ghost rest = parameters@.skip(at as int);
        let ghost done = models::seq_views(pdus@);
        let pdu = make_packet(pdu_id, PDU_CONTINUE, bytes::range(parameters, at, at + size));
        assert(parameters@.subrange(at as int, at + size) =~= rest.take(size as int));
        assert(rest.skip(size as int) =~= parameters@.skip(at + size));
        proof {
            models::lemma_seq_views_push(pdus@, pdu);
            let after = pdu_tail(pdu_id, rest.skip(size as int), size as int);
            assert(done + (seq![pdu@] + after) =~= done.push(pdu@) + after);
        }
        pdus.push(pdu);
        at = at + size;
    }
    let pdu = make_packet(pdu_id, PDU_END, bytes::range(parameters, at, parameters.len()));
    assert(parameters@.subrange(at as int, parameters@.len() as int) =~= parameters@.skip(
        at as int,
    ));
    proof {
        models::lemma_seq_views_push(pdus@, pdu);
    }
    pdus.push(pdu);
    assert(models::seq_views(pdus@) =~= whole);
    pdus
}

/// Reassembles PDUs that are spread over several frames. Malformed and
/// out-of-sequence packets are dropped.
#[derive(Debug)]
pub struct PduAssembler {
    pdu_id: Option<u8>,
    parameters: Vec<u8>,
}

/// The model of a [`PduAssembler`].
#[verifier::ext_equal]
pub struct PduAssemblerModel {
    pub pdu_id: Option<u8>,
    pub parameters: Seq<u8>,
}

impl View for PduAssembler {
    type V = PduAssemblerModel;

    closed spec fn view(&self) -> PduAssemblerModel {
        PduAssemblerModel { pdu_id: self.pdu_id, parameters: self.parameters@ }
    }
}

/// An assembler with no PDU in progress.
pub open spec fn empty_assembler() -> PduAssemblerModel {
    PduAssemblerModel { pdu_id: None, parameters: seq![] }
}

/// What an assembler becomes, and the PDU that it completes, when a packet
/// arrives. A packet without a whole header changes nothing; one that is
/// shorter than its length field says, or that continues another PDU, drops
/// what was assembled.
pub open spec fn assemble_pdu(a: PduAssemblerModel, pdu: Seq<u8>) -> (
    PduAssemblerModel,
    Option<(u8, Seq<u8>)>,
) {
    if pdu.len() < 4 {
        (a, None)
    } else if pdu.len() < 4 + bytes::be16(pdu, 2) {
        (empty_assembler(), None)
    } else {
        let pdu_id = pdu[0];
        let packet_type: u8 = pdu[1] & 3;
        let chunk = pdu.subrange(4, 4 + bytes::be16(pdu, 2));
        let starts = packet_type == PDU_SINGLE || packet_type == PDU_START;
        if !starts && a.pdu_id != Some(pdu_id) {
            (empty_assembler(), None)
        } else {
            let parameters = if starts && a.pdu_id is Some {
                chunk
            } else {
                a.parameters + chunk
            };
            if packet_type == PDU_SINGLE || packet_type == PDU_END {
                (empty_assembler(), Some((pdu_id, parameters)))
            } else {
                (PduAssemblerModel { pdu_id: Some(pdu_id), parameters }, None)
            }
        }
    }
}

/// The model of a completed PDU.
pub open spec fn completed(r: Option<(u8, Vec<u8>)>) -> Option<(u8, Seq<u8>)> {
    match r {
        Some((pdu_id, parameters)) => Some((pdu_id, parameters@)),
        None => None,
    }
}

impl Default for PduAssembler {
    fn default() -> (r: Self)
        ensures
            r@ == empty_assembler(),
    {
        let r = PduAssembler { pdu_id: None, parameters: Vec::new() };
        assert(r@ =~= empty_assembler());
        r
    }
}

proof fn lemma_two_bits(x: u8)
    by (bit_vector)
    ensures
        x & 3 == 0 || x & 3 == 1 || x & 3 == 2 || x & 3 == 3,
{
}

impl PduAssembler {
    /// An assembler with no PDU in progress.
    pub fn new() -> (r: Self)
        ensures
            r@ == empty_assembler(),
    {
        Self::default()
    }

    /// Whether a PDU is part-assembled and waiting for more.
    ///
    /// [`Self::on_pdu`] returns `None` both when a PDU is not finished and when
    /// a packet was useless and everything was dropped; this tells them apart.
    pub fn in_progress(&self) -> (r: bool)
        ensures
            r == (self@.pdu_id is Some),
    {
        self.pdu_id.is_some()
    }

    /// Discards any partially reassembled PDU.
    pub(crate) fn reset(&mut self)
        ensures
            final(self)@ == empty_assembler(),
    {
        self.pdu_id = None;
        self.parameters = Vec::new();
        assert(self@ =~= empty_assembler());
    }

    /// Feeds one packet; returns the PDU ID and the parameters once complete.
    pub fn on_pdu(&mut self, pdu: &[u8]) -> (r: Option<(u8, Vec<u8>)>)
        ensures
            final(self)@ == assemble_pdu(old(self)@, pdu@).0,
            completed(r) == assemble_pdu(old(self)@, pdu@).1,
    {
        if pdu.len() < 4 {
            return None;
        }
        let pdu_id: u8 = pdu[0];
        let packet_type: u8 = pdu[1] & 3;
        proof {
            lemma_two_bits(pdu@[1]);
        }
        let length: usize = bytes::read_be16(pdu, 2) as usize;
        if pdu.len() - 4 < length {
            // The length field exceeds the packet.
            self.reset();
            return None;
        }
        let chunk = bytes::range(pdu, 4, 4 + length);
        let starts = packet_type == PDU_SINGLE || packet_type == PDU_START;
        if starts && self.pdu_id.is_some() {
            // The previous fragmented PDU was never terminated.
            self.reset();
        }
        if starts {
            self.pdu_id = Some(pdu_id);
        } else if !self.assembles(pdu_id) {
            self.reset();
            return None;
        }
        bytes::push_bytes(&mut self.parameters, chunk);
        assert(Seq::<u8>::empty() + chunk@ =~= chunk@);
        if packet_type == PDU_SINGLE || packet_type == PDU_END {
            let parameters = bytes::copy(&self.parameters);
            self.reset();
            return Some((pdu_id, parameters));
        }
        None
    }

    /// Whether the PDU in progress has this ID.
    fn assembles(&self, pdu_id: u8) -> (r: bool)
        ensures
            r == (self@.pdu_id == Some(pdu_id)),
    {
        match self.pdu_id {
            Some(id) => id == pdu_id,
            None => false,
        }
    }
}

// ---------------------------------------------------------------------------
// Laws
// ---------------------------------------------------------------------------

/// Whether nothing is held when no PDU is in progress.
pub open spec fn well_formed(a: PduAssemblerModel) -> bool {
    a.pdu_id is None ==> a.parameters.len() == 0
}

/// A new assembler holds nothing, and whatever arrives, an assembler holds
/// parameters only while a PDU is in progress.
pub proof fn law_assembler_stays_well_formed(a: PduAssemblerModel, pdu: Seq<u8>)
    requires
        well_formed(a),
    ensures
        well_formed(empty_assembler()),
        well_formed(assemble_pdu(a, pdu).0),
{
}

/// Feeding packets one after another: the assembler that is left and the PDUs
/// that were completed on the way.
pub open spec fn feed_pdus(a: PduAssemblerModel, packets: Seq<Seq<u8>>) -> (
    PduAssemblerModel,
    Seq<(u8, Seq<u8>)>,
)
    decreases packets.len(),
{
    if packets.len() == 0 {
        (a, seq![])
    } else {
        let (next, pdu) = assemble_pdu(a, packets[0]);
        let (last, pdus) = feed_pdus(next, packets.skip(1));
        (
            last,
            match pdu {
                Some(p) => seq![p] + pdus,
                None => pdus,
            },
        )
    }
}

proof fn lemma_packet_types()
    by (bit_vector)
    ensures
        0u8 & 3 == 0,
        1u8 & 3 == 1,
        2u8 & 3 == 2,
        3u8 & 3 == 3,
{
}

/// The parts of a packet are read back.
pub proof fn lemma_packet(pdu_id: u8, packet_type: u8, chunk: Seq<u8>)
    requires
        chunk.len() <= 0xFFFF,
        packet_type <= 3,
    ensures
        pdu_packet(pdu_id, packet_type, chunk).len() == 4 + chunk.len(),
        pdu_packet(pdu_id, packet_type, chunk)[0] == pdu_id,
        pdu_packet(pdu_id, packet_type, chunk)[1] & 3 == packet_type,
        bytes::be16(pdu_packet(pdu_id, packet_type, chunk), 2) == chunk.len(),
        pdu_packet(pdu_id, packet_type, chunk).subrange(4, 4 + chunk.len() as int) == chunk,
{
    lemma_packet_types();
    bytes::lemma_be16_round_trip(chunk.len() as u16);
    assert(pdu_packet(pdu_id, packet_type, chunk).subrange(4, 4 + chunk.len() as int) =~= chunk);
}

/// The packets behind the first one complete a PDU.
proof fn lemma_tail_completes(
    a: PduAssemblerModel,
    pdu_id: u8,
    parameters: Seq<u8>,
    rest: Seq<u8>,
    size: int,
)
    requires
        0 < size <= 0xFFFF,
        a.pdu_id == Some(pdu_id),
        a.parameters + rest == parameters,
    ensures
        feed_pdus(a, pdu_tail(pdu_id, rest, size)) == (
            empty_assembler(),
            seq![(pdu_id, parameters)],
        ),
    decreases rest.len(),
{
    let packets = pdu_tail(pdu_id, rest, size);
    reveal_with_fuel(feed_pdus, 2);
    if rest.len() <= size {
        lemma_packet(pdu_id, PDU_END, rest);
        assert(packets.skip(1) =~= seq![]);
        assert(feed_pdus(a, packets).1 =~= seq![(pdu_id, parameters)]);
    } else {
        let chunk = rest.take(size);
        let left = rest.skip(size);
        lemma_packet(pdu_id, PDU_CONTINUE, chunk);
        let next = PduAssemblerModel { pdu_id: Some(pdu_id), parameters: a.parameters + chunk };
        assert(packets.skip(1) =~= pdu_tail(pdu_id, left, size));
        assert(next.parameters + left =~= parameters) by {
            assert(chunk + left =~= rest);
        }
        lemma_tail_completes(next, pdu_id, parameters, left, size);
        assert(assemble_pdu(a, packets[0]) == (next, None::<(u8, Seq<u8>)>));
    }
}

/// What is cut into packets is put together again: whatever PDU an assembler
/// is in the middle of, the packets of a PDU complete exactly that PDU and
/// leave the assembler empty. The bytes in a packet have to fit its 16-bit
/// length field.
pub proof fn law_pdu_reassembly(
    a: PduAssemblerModel,
    pdu_id: u8,
    parameters: Seq<u8>,
    max_parameter_size: int,
)
    requires
        well_formed(a),
        max_parameter_size <= 0xFFFF || parameters.len() <= 0xFFFF,
    ensures
        feed_pdus(a, pdu_packets(pdu_id, parameters, max_parameter_size)) == (
            empty_assembler(),
            seq![(pdu_id, parameters)],
        ),
{
    let size = if max_parameter_size < 1 {
        1
    } else {
        max_parameter_size
    };
    let packets = pdu_packets(pdu_id, parameters, max_parameter_size);
    reveal_with_fuel(feed_pdus, 2);
    if parameters.len() <= size {
        lemma_packet(pdu_id, PDU_SINGLE, parameters);
        assert(packets.skip(1) =~= seq![]);
        assert(a.pdu_id is None ==> a.parameters + parameters =~= parameters);
        assert(feed_pdus(a, packets).1 =~= seq![(pdu_id, parameters)]);
    } else {
        let chunk = parameters.take(size);
        let left = parameters.skip(size);
        lemma_packet(pdu_id, PDU_START, chunk);
        assert(packets.skip(1) =~= pdu_tail(pdu_id, left, size));
        let next = PduAssemblerModel { pdu_id: Some(pdu_id), parameters: chunk };
        assert(a.pdu_id is None ==> a.parameters + chunk =~= chunk);
        assert(chunk + left =~= parameters);
        assert(assemble_pdu(a, packets[0]) == (next, None::<(u8, Seq<u8>)>));
        lemma_tail_completes(next, pdu_id, parameters, left, size);
    }
}

} // verus!
