//! SBC frames in media payloads: packing, fragmentation and reassembly.

use vstd::prelude::*;
use crate::bytes;
use crate::models;

verus! {

/// The most SBC frames in one payload: the count has four bits.
pub const SBC_MAX_FRAMES_PER_PAYLOAD: u8 = 15;

/// The byte that precedes SBC frames in a media payload.
///
/// In an unfragmented payload the count is that of the whole frames present;
/// in a fragment it is that of the fragments still to come, this one included.
#[derive(Debug, Clone, Copy, PartialEq, Eq, Structural)]
pub struct SbcPayloadHeader {
    /// The payload is a fragment of a frame.
    pub fragmented: bool,
    /// This is the first fragment of a frame.
    pub start: bool,
    /// This is the last fragment of a frame.
    pub last: bool,
    /// Whole frames present, or remaining fragments.
    pub frame_count: u8,
}

/// A flag as a number.
pub open spec fn bit(b: bool) -> int {
    if b {
        1
    } else {
        0
    }
}

/// The header that a byte stands for.
pub open spec fn sbc_header_of(byte: u8) -> SbcPayloadHeader {
    SbcPayloadHeader {
        fragmented: byte >= 0x80,
        start: (byte / 0x40) % 2 == 1,
        last: (byte / 0x20) % 2 == 1,
        frame_count: byte % 0x10,
    }
}

impl SbcPayloadHeader {
    /// The byte of this header.
    pub open spec fn byte(self) -> u8 {
        (bit(self.fragmented) * 0x80 + bit(self.start) * 0x40 + bit(self.last) * 0x20
            + self.frame_count % 0x10) as u8
    }

    /// The header of a payload with `frames` whole frames; the count has four
    /// bits.
    pub fn unfragmented(frames: u8) -> (r: Self)
        ensures
            r == (SbcPayloadHeader {
                fragmented: false,
                start: false,
                last: false,
                frame_count: frames % 0x10,
            }),
    {
        SbcPayloadHeader {
            fragmented: false,
            start: false,
            last: false,
            frame_count: frames % 0x10,
        }
    }

    /// Encodes the header.
    pub fn to_byte(self) -> (r: u8)
        ensures
            r == self.byte(),
    {
        let mut byte: u8 = self.frame_count % 0x10;
        if self.fragmented {
            byte = byte + 0x80;
        }
        if self.start {
            byte = byte + 0x40;
        }
        if self.last {
            byte = byte + 0x20;
        }
        byte
    }

    /// Decodes a header.
    pub fn from_byte(byte: u8) -> (r: Self)
        ensures
            r == sbc_header_of(byte),
    {
        SbcPayloadHeader {
            fragmented: byte >= 0x80,
            start: (byte / 0x40) % 2 == 1,
            last: (byte / 0x20) % 2 == 1,
            frame_count: byte % 0x10,
        }
    }
}

/// A header whose count has four bits is read back from its byte.
pub proof fn law_sbc_header_round_trip(header: SbcPayloadHeader)
    requires
        header.frame_count < 0x10,
    ensures
        sbc_header_of(header.byte()) == header,
{
}

// ---------------------------------------------------------------------------
// Payload
// ---------------------------------------------------------------------------

/// A media payload: its header, and whole frames or one fragment of a frame.
#[derive(Debug, Clone, PartialEq, Eq)]
pub struct SbcPayload {
    /// The payload header.
    pub header: SbcPayloadHeader,
    /// Everything after it, never decoded here.
    pub data: Vec<u8>,
}

/// The model of a [`SbcPayload`].
#[verifier::ext_equal]
pub struct SbcPayloadModel {
    pub header: SbcPayloadHeader,
    pub data: Seq<u8>,
}

impl View for SbcPayload {
    type V = SbcPayloadModel;

    open spec fn view(&self) -> SbcPayloadModel {
        SbcPayloadModel { header: self.header, data: self.data@ }
    }
}

/// Frames one after the other.
pub open spec fn joined(frames: Seq<Seq<u8>>) -> Seq<u8>
    decreases frames.len(),
{
    if frames.len() == 0 {
        seq![]
    } else {
        joined(frames.drop_last()) + frames.last()
    }
}

/// The payload of whole frames.
pub open spec fn whole_frames(frames: Seq<Seq<u8>>) -> SbcPayloadModel {
    SbcPayloadModel {
        header: SbcPayloadHeader {
            fragmented: false,
            start: false,
            last: false,
            frame_count: (frames.len() % 0x10) as u8,
        },
        data: joined(frames),
    }
}

/// The payload that bytes hold.
pub open spec fn payload_of(payload: Seq<u8>) -> Option<SbcPayloadModel> {
    if payload.len() == 0 {
        None
    } else {
        Some(SbcPayloadModel { header: sbc_header_of(payload[0]), data: payload.skip(1) })
    }
}

impl SbcPayloadModel {
    /// The wire form of this payload.
    pub open spec fn wire(self) -> Seq<u8> {
        seq![self.header.byte()] + self.data
    }
}

impl SbcPayload {
    /// Reads the payload header off a media payload.
    pub fn parse(payload: &[u8]) -> (r: Option<Self>)
        ensures
            models::opt_view(r) == payload_of(payload@),
    {
        if payload.len() == 0 {
            return None;
        }
        let data = bytes::copy_range(payload, 1, payload.len());
        assert(data@ =~= payload@.skip(1));
        Some(SbcPayload { header: SbcPayloadHeader::from_byte(payload[0]), data })
    }

    /// Builds a payload of whole frames.
    pub fn unfragmented(frames: &[Vec<u8>]) -> (r: Self)
        ensures
            r@ == whole_frames(models::seq_views(frames@)),
    {
        let ghost all = models::seq_views(frames@);
        let mut data: Vec<u8> = Vec::new();
        let mut i: usize = 0;
        assert(data@ =~= joined(all.take(0)));
        while i < frames.len()
            invariant
                i <= frames@.len(),
                data@ == joined(all.take(i as int)),
            decreases frames@.len() - i,
        {
            assert(all.take(i + 1).drop_last() =~= all.take(i as int));
            assert(all.take(i + 1).last() == frames@[i as int]@);
            bytes::push_bytes(&mut data, &frames[i]);
            i = i + 1;
        }
        assert(all.take(i as int) =~= all);
        SbcPayload {
            header: SbcPayloadHeader::unfragmented((frames.len() % 0x10) as u8),
            data,
        }
    }

    /// Serializes header and data.
    pub fn to_bytes(&self) -> (r: Vec<u8>)
        ensures
            r@ == self@.wire(),
    {
        let mut out: Vec<u8> = vec![self.header.to_byte()];
        bytes::push_bytes(&mut out, &self.data);
        assert(out@ =~= self@.wire());
        out
    }
}

/// A payload is read back from its bytes.
pub proof fn law_payload_round_trip(p: SbcPayloadModel)
    requires
        p.header.frame_count < 0x10,
    ensures
        payload_of(p.wire()) == Some(p),
{
    law_sbc_header_round_trip(p.header);
    assert(p.wire().skip(1) =~= p.data);
}

// ---------------------------------------------------------------------------
// Reassembly
// ---------------------------------------------------------------------------

/// Puts frames together that were split over several payloads.
///
/// A frame too large for one payload is sent as fragments from a first to a
/// last; anything else is handed on as it is.
#[derive(Debug)]
pub struct SbcReassembler {
    partial: Vec<u8>,
    in_progress: bool,
}

/// The model of a [`SbcReassembler`].
#[verifier::ext_equal]
pub struct ReassemblerModel {
    pub partial: Seq<u8>,
    pub in_progress: bool,
}

impl View for SbcReassembler {
    type V = ReassemblerModel;

    closed spec fn view(&self) -> ReassemblerModel {
        ReassemblerModel { partial: self.partial@, in_progress: self.in_progress }
    }
}

/// A reassembler that holds nothing.
pub open spec fn empty() -> ReassemblerModel {
    ReassemblerModel { partial: seq![], in_progress: false }
}

/// What a payload makes of a reassembler, and the frame data it completes. A
/// first fragment drops what was there; a later fragment without a first one
/// is dropped itself.
pub open spec fn after_payload(m: ReassemblerModel, payload: Seq<u8>) -> (
    ReassemblerModel,
    Option<Seq<u8>>,
) {
    match payload_of(payload) {
        None => (m, None),
        Some(p) => if !p.header.fragmented {
            (empty(), Some(p.data))
        } else if !p.header.start && !m.in_progress {
            (m, None)
        } else {
            let partial = if p.header.start {
                p.data
            } else {
                m.partial + p.data
            };
            if p.header.last {
                (empty(), Some(partial))
            } else {
                (ReassemblerModel { partial, in_progress: true }, None)
            }
        },
    }
}

impl Default for SbcReassembler {
    fn default() -> (r: Self)
        ensures
            r@ == empty(),
    {
        let r = SbcReassembler { partial: Vec::new(), in_progress: false };
        assert(r@ =~= empty());
        r
    }
}

impl SbcReassembler {
    /// A reassembler that holds nothing.
    pub fn new() -> (r: Self)
        ensures
            r@ == empty(),
    {
        Self::default()
    }

    /// Takes one payload and returns the frame data that it completed, if any.
    pub fn push(&mut self, payload: &[u8]) -> (r: Option<Vec<u8>>)
        ensures
            (final(self)@, models::opt_view(r)) == after_payload(old(self)@, payload@),
    {
        let parsed = match SbcPayload::parse(payload) {
            None => {
                return None;
            },
            Some(parsed) => parsed,
        };
        if !parsed.header.fragmented {
            self.reset();
            return Some(parsed.data);
        }
        if parsed.header.start {
            self.partial = Vec::new();
            self.in_progress = true;
        } else if !self.in_progress {
            return None;
        }
        let ghost before = self.partial@;
        bytes::push_bytes(&mut self.partial, &parsed.data);
        assert(parsed.header.start ==> self.partial@ =~= parsed.data@);
        if parsed.header.last {
            let whole = bytes::copy(&self.partial);
            self.reset();
            return Some(whole);
        }
        None
    }

    /// Whether a frame is partially received.
    pub fn is_reassembling(&self) -> (r: bool)
        ensures
            r == self@.in_progress,
    {
        self.in_progress
    }

    /// Drops a partial frame, as when a stream restarts.
    pub fn reset(&mut self)
        ensures
            final(self)@ == empty(),
    {
        self.partial = Vec::new();
        self.in_progress = false;
        assert(self@ =~= empty());
    }
}

// ---------------------------------------------------------------------------
// Packing
// ---------------------------------------------------------------------------

/// How many pieces of at most `budget` bytes `n` bytes make.
pub open spec fn pieces(n: int, budget: int) -> int {
    if n <= 0 {
        0
    } else {
        (n - 1) / budget + 1
    }
}

/// The fragment of a frame from an offset on.
pub open spec fn fragment(frame: Seq<u8>, budget: int, from: int) -> SbcPayloadModel {
    let left = frame.len() - from;
    let count = pieces(left, budget);
    SbcPayloadModel {
        header: SbcPayloadHeader {
            fragmented: true,
            start: from == 0,
            last: left <= budget,
            frame_count: if count < 0x0F {
                count as u8
            } else {
                0x0F
            },
        },
        data: frame.subrange(from, if left <= budget { frame.len() as int } else { from + budget }),
    }
}

/// The fragments of a frame from an offset on.
pub open spec fn fragments(frame: Seq<u8>, budget: int, from: int) -> Seq<Seq<u8>>
    decreases (if from < frame.len() { frame.len() - from } else { 0 }),
{
    if from >= frame.len() || budget <= 0 {
        seq![]
    } else {
        seq![fragment(frame, budget, from).wire()] + fragments(frame, budget, from + budget)
    }
}

/// Payloads that are complete, and the frames gathered for the next one.
#[verifier::ext_equal]
pub struct Packing {
    pub payloads: Seq<Seq<u8>>,
    pub batch: Seq<Seq<u8>>,
}

/// The payloads, with one for the gathered frames if there are any.
pub open spec fn flushed(p: Packing) -> Seq<Seq<u8>> {
    if p.batch.len() == 0 {
        p.payloads
    } else {
        p.payloads.push(whole_frames(p.batch).wire())
    }
}

/// Packing one more frame: a frame that no payload can hold is fragmented by
/// itself; any other is gathered, in a new batch where it does not fit.
pub open spec fn packed(p: Packing, frame: Seq<u8>, budget: int) -> Packing {
    if frame.len() > budget {
        Packing { payloads: flushed(p) + fragments(frame, budget, 0), batch: seq![] }
    } else if joined(p.batch).len() + frame.len() > budget || p.batch.len()
        >= SBC_MAX_FRAMES_PER_PAYLOAD {
        Packing { payloads: flushed(p), batch: seq![frame] }
    } else {
        Packing { payloads: p.payloads, batch: p.batch.push(frame) }
    }
}

/// Packing frames one after the other.
pub open spec fn packing(frames: Seq<Seq<u8>>, budget: int) -> Packing
    decreases frames.len(),
{
    if frames.len() == 0 {
        Packing { payloads: seq![], batch: seq![] }
    } else {
        packed(packing(frames.drop_last(), budget), frames.last(), budget)
    }
}

/// The payloads for frames. One byte of each is the header; where that leaves
/// no room, there are none.
pub open spec fn packets(frames: Seq<Seq<u8>>, max_payload: int) -> Seq<Seq<u8>> {
    if max_payload < 2 {
        seq![]
    } else {
        flushed(packing(frames, max_payload - 1))
    }
}

proof fn lemma_joined_push(batch: Seq<Seq<u8>>, frame: Seq<u8>)
    ensures
        joined(batch.push(frame)) == joined(batch) + frame,
{
    assert(batch.push(frame).drop_last() =~= batch);
}

/// Appends the payload of gathered frames, if there are any.
fn flush_batch(payloads: &mut Vec<Vec<u8>>, batch: &[Vec<u8>])
    ensures
        models::seq_views(final(payloads)@) == flushed(
            Packing {
                payloads: models::seq_views(old(payloads)@),
                batch: models::seq_views(batch@),
            },
        ),
{
    if batch.len() > 0 {
        let payload = SbcPayload::unfragmented(batch).to_bytes();
        proof {
            models::lemma_seq_views_push(payloads@, payload);
        }
        payloads.push(payload);
    }
}

/// Appends the fragments of a frame.
fn push_fragments(payloads: &mut Vec<Vec<u8>>, frame: &[u8], budget: usize)
    requires
        budget > 0,
    ensures
        models::seq_views(final(payloads)@) == models::seq_views(old(payloads)@) + fragments(
            frame@,
            budget as int,
            0,
        ),
{
    let ghost whole = models::seq_views(payloads@) + fragments(frame@, budget as int, 0);
    let mut from: usize = 0;
    let mut done = frame.len() == 0;
    while !done
        invariant
            done ==> models::seq_views(payloads@) == whole,
            !done ==> from < frame@.len() && models::seq_views(payloads@) + fragments(
                frame@,
                budget as int,
                from as int,
            ) == whole,
        decreases (if done { 0 } else { frame@.len() - from }),
    {
        let ghost before = models::seq_views(payloads@);
        let left: usize = frame.len() - from;
        let count: usize = (left - 1) / budget;
        let last = left <= budget;
        let header = SbcPayloadHeader {
            fragmented: true,
            start: from == 0,
            last,
            frame_count: if count < 0x0E {
                count as u8 + 1
            } else {
                0x0F
            },
        };
        let end: usize = if last {
            frame.len()
        } else {
            from + budget
        };
        let data = bytes::copy_range(frame, from, end);
        let payload = SbcPayload { header, data }.to_bytes();
        assert(payload@ == fragment(frame@, budget as int, from as int).wire());
        proof {
            models::lemma_seq_views_push(payloads@, payload);
            let rest = fragments(frame@, budget as int, from + budget);
            assert(before + (seq![payload@] + rest) =~= before.push(payload@) + rest);
            if last {
                assert(before.push(payload@) + rest =~= before.push(payload@));
            }
        }
        payloads.push(payload);
        if last {
            done = true;
        } else {
            from = end;
        }
    }
    assert(frame@.len() == 0 ==> whole =~= models::seq_views(payloads@));
}

/// Splits SBC frames into payloads of at most `max_payload` bytes.
///
/// Frames are packed whole where they fit, up to
/// [`SBC_MAX_FRAMES_PER_PAYLOAD`]; a frame too large for a payload of its own
/// is fragmented.
pub fn packetize_sbc(frames: &[Vec<u8>], max_payload: usize) -> (r: Vec<Vec<u8>>)
    ensures
        models::seq_views(r@) == packets(models::seq_views(frames@), max_payload as int),
{
    let ghost all = models::seq_views(frames@);
    let mut payloads: Vec<Vec<u8>> = Vec::new();
    assert(models::seq_views(payloads@) =~= seq![]);
    if max_payload < 2 {
        return payloads;
    }
    // One byte of every payload is the header.
    let budget: usize = max_payload - 1;
    let mut batch: Vec<Vec<u8>> = Vec::new();
    let mut batch_len: usize = 0;
    let mut i: usize = 0;
    assert(models::seq_views(batch@) =~= seq![]);
    while i < frames.len()
        invariant
            i <= frames@.len(),
            packing(all.take(i as int), budget as int) == (Packing {
                payloads: models::seq_views(payloads@),
                batch: models::seq_views(batch@),
            }),
            batch_len == joined(models::seq_views(batch@)).len(),
            batch_len <= budget,
            batch@.len() <= SBC_MAX_FRAMES_PER_PAYLOAD,
        decreases frames@.len() - i,
    {
        assert(all.take(i + 1).drop_last() =~= all.take(i as int));
        assert(all.take(i + 1).last() == frames@[i as int]@);
        let frame = &frames[i];
        if frame.len() > budget {
            flush_batch(&mut payloads, &batch);
            batch = Vec::new();
            batch_len = 0;
            assert(models::seq_views(batch@) =~= seq![]);
            push_fragments(&mut payloads, frame, budget);
        } else {
            if frame.len() > budget - batch_len || batch.len() >= SBC_MAX_FRAMES_PER_PAYLOAD as usize
            {
                flush_batch(&mut payloads, &batch);
                batch = Vec::new();
                batch_len = 0;
                assert(models::seq_views(batch@) =~= seq![]);
                assert(seq![frame@] =~= models::seq_views(batch@).push(frame@));
            }
            let copy = bytes::copy(frame);
            proof {
                models::lemma_seq_views_push(batch@, copy);
                lemma_joined_push(models::seq_views(batch@), frame@);
            }
            batch_len = batch_len + frame.len();
            batch.push(copy);
        }
        i = i + 1;
    }
    assert(all.take(i as int) =~= all);
    flush_batch(&mut payloads, &batch);
    payloads
}

// ---------------------------------------------------------------------------
// Laws
// ---------------------------------------------------------------------------

/// What a reassembler makes of payloads, one after the other: the frame data
/// that they complete.
pub open spec fn reassembled(m: ReassemblerModel, payloads: Seq<Seq<u8>>) -> (
    ReassemblerModel,
    Seq<u8>,
)
    decreases payloads.len(),
{
    if payloads.len() == 0 {
        (m, seq![])
    } else {
        let (before, data) = reassembled(m, payloads.drop_last());
        let (after, completed) = after_payload(before, payloads.last());
        match completed {
            Some(more) => (after, data + more),
            None => (after, data),
        }
    }
}

proof fn lemma_reassembled_add(m: ReassemblerModel, a: Seq<Seq<u8>>, b: Seq<Seq<u8>>)
    ensures
        reassembled(m, a + b) == ({
            let (mid, first) = reassembled(m, a);
            let (after, second) = reassembled(mid, b);
            (after, first + second)
        }),
    decreases b.len(),
{
    if b.len() == 0 {
        assert(a + b =~= a);
        let (mid, first) = reassembled(m, a);
        assert(first + seq![] =~= first);
    } else {
        lemma_reassembled_add(m, a, b.drop_last());
        assert((a + b).drop_last() =~= a + b.drop_last());
        let (mid, first) = reassembled(m, a);
        let (before, second) = reassembled(mid, b.drop_last());
        match after_payload(before, b.last()).1 {
            Some(more) => {
                assert((first + second) + more =~= first + (second + more));
            },
            None => {},
        }
    }
}

proof fn lemma_reassembled_one(m: ReassemblerModel, payload: Seq<u8>)
    ensures
        reassembled(m, seq![payload]) == ({
            let (after, completed) = after_payload(m, payload);
            match completed {
                Some(more) => (after, more),
                None => (after, seq![]),
            }
        }),
{
    assert(seq![payload].drop_last() =~= seq![]);
    assert(reassembled(m, seq![payload].drop_last()) == (m, Seq::<u8>::empty()));
    let (after, completed) = after_payload(m, payload);
    match completed {
        Some(more) => {
            assert(seq![] + more =~= more);
        },
        None => {},
    }
}

proof fn lemma_piece_count(left: int, budget: int)
    by (nonlinear_arith)
    requires
        left > 0,
        budget > 0,
    ensures
        (left - 1) / budget + 1 >= 1,
{
}

proof fn lemma_fragments_reassembled(
    m: ReassemblerModel,
    frame: Seq<u8>,
    budget: int,
    from: int,
)
    requires
        0 < budget,
        0 <= from < frame.len(),
        from > 0 ==> m.in_progress && m.partial == frame.take(from),
    ensures
        reassembled(m, fragments(frame, budget, from)) == (empty(), frame),
    decreases frame.len() - from,
{
    let f = fragment(frame, budget, from);
    let left = frame.len() - from;
    lemma_piece_count(left, budget);
    law_payload_round_trip(f);
    let rest = fragments(frame, budget, from + budget);
    lemma_reassembled_one(m, f.wire());
    lemma_reassembled_add(m, seq![f.wire()], rest);
    if left <= budget {
        assert(rest =~= seq![]);
        assert(frame.take(from) + f.data =~= frame);
        assert(from == 0 ==> f.data =~= frame);
        assert(frame + seq![] =~= frame);
    } else {
        let partial = frame.take(from + budget);
        assert(frame.take(from) + f.data =~= partial);
        assert(from == 0 ==> f.data =~= partial);
        let mid = ReassemblerModel { partial, in_progress: true };
        lemma_fragments_reassembled(mid, frame, budget, from + budget);
        assert(seq![] + frame =~= frame);
    }
}

proof fn lemma_packing_reassembled(m: ReassemblerModel, frames: Seq<Seq<u8>>, budget: int)
    requires
        budget > 0,
    ensures
        ({
            let p = packing(frames, budget);
            let (after, data) = reassembled(m, p.payloads);
            &&& data + joined(p.batch) == joined(frames)
            &&& p.batch.len() <= SBC_MAX_FRAMES_PER_PAYLOAD
            &&& joined(p.batch).len() <= budget
            &&& p.payloads.len() > 0 ==> after == empty()
        }),
    decreases frames.len(),
{
    if frames.len() == 0 {
        assert(seq![] + joined(seq![]) =~= joined(frames));
    } else {
        let before = packing(frames.drop_last(), budget);
        let frame = frames.last();
        let p = packing(frames, budget);
        lemma_packing_reassembled(m, frames.drop_last(), budget);
        let (mid, data) = reassembled(m, before.payloads);
        lemma_flushed_reassembled(m, before);
        if frame.len() > budget {
            let (full, out) = reassembled(m, flushed(before));
            lemma_fragments_reassembled(full, frame, budget, 0);
            lemma_reassembled_add(m, flushed(before), fragments(frame, budget, 0));
            assert(joined(frames.drop_last()) + frame =~= joined(frames));
            assert(joined(frames) + seq![] =~= joined(frames));
            assert(fragments(frame, budget, 0).len() > 0);
        } else if joined(before.batch).len() + frame.len() > budget || before.batch.len()
            >= SBC_MAX_FRAMES_PER_PAYLOAD {
            lemma_joined_push(seq![], frame);
            assert(Seq::<Seq<u8>>::empty().push(frame) =~= seq![frame]);
            assert(seq![] + frame =~= frame);
            assert(joined(seq![frame]) == frame);
        } else {
            lemma_joined_push(before.batch, frame);
            assert(data + (joined(before.batch) + frame) =~= (data + joined(before.batch)) + frame);
        }
    }
}

proof fn lemma_flushed_reassembled(m: ReassemblerModel, p: Packing)
    requires
        p.batch.len() <= SBC_MAX_FRAMES_PER_PAYLOAD,
        p.payloads.len() > 0 ==> reassembled(m, p.payloads).0 == empty(),
    ensures
        reassembled(m, flushed(p)).1 == reassembled(m, p.payloads).1 + joined(p.batch),
        flushed(p).len() > 0 ==> reassembled(m, flushed(p)).0 == empty(),
{
    let (mid, data) = reassembled(m, p.payloads);
    if p.batch.len() == 0 {
        assert(data + joined(p.batch) =~= data);
    } else {
        let whole = whole_frames(p.batch);
        law_payload_round_trip(whole);
        assert(p.payloads.push(whole.wire()).drop_last() =~= p.payloads);
    }
}

/// Packed frames are put together again byte for byte, whatever a reassembler
/// held before, as long as there is room for more than the header.
pub proof fn law_packed_frames_are_reassembled(
    m: ReassemblerModel,
    frames: Seq<Seq<u8>>,
    max_payload: int,
)
    requires
        max_payload >= 2,
    ensures
        reassembled(m, packets(frames, max_payload)).1 == joined(frames),
        frames.len() > 0 ==> reassembled(m, packets(frames, max_payload)).0 == empty(),
{
    let p = packing(frames, max_payload - 1);
    lemma_packing_reassembled(m, frames, max_payload - 1);
    lemma_flushed_reassembled(m, p);
    if frames.len() > 0 {
        lemma_packing_nonempty(frames, max_payload - 1);
    }
}

proof fn lemma_packing_nonempty(frames: Seq<Seq<u8>>, budget: int)
    requires
        budget > 0,
        frames.len() > 0,
    ensures
        flushed(packing(frames, budget)).len() > 0,
{
    let before = packing(frames.drop_last(), budget);
    let frame = frames.last();
    if frame.len() > budget {
        assert(fragments(frame, budget, 0).len() > 0);
    }
}

/// Whether a payload is neither empty nor larger than `max_payload`, and counts
/// 1 to 15 frames where it carries whole ones.
pub open spec fn payload_is_sound(payload: Seq<u8>, max_payload: int) -> bool {
    &&& 1 <= payload.len() <= max_payload
    &&& match payload_of(payload) {
        Some(p) => p.header.fragmented || 1 <= p.header.frame_count <= SBC_MAX_FRAMES_PER_PAYLOAD,
        None => false,
    }
}

proof fn lemma_fragments_are_sound(frame: Seq<u8>, budget: int, from: int, i: int)
    requires
        0 < budget,
        0 <= from,
        0 <= i < fragments(frame, budget, from).len(),
    ensures
        payload_is_sound(fragments(frame, budget, from)[i], budget + 1),
    decreases (if from < frame.len() { frame.len() - from } else { 0 }),
{
    if i > 0 {
        lemma_fragments_are_sound(frame, budget, from + budget, i - 1);
    } else {
        lemma_piece_count(frame.len() - from, budget);
        law_payload_round_trip(fragment(frame, budget, from));
    }
}

proof fn lemma_batch_is_sound(batch: Seq<Seq<u8>>, budget: int)
    requires
        0 < batch.len() <= SBC_MAX_FRAMES_PER_PAYLOAD,
        joined(batch).len() <= budget,
    ensures
        payload_is_sound(whole_frames(batch).wire(), budget + 1),
{
    law_payload_round_trip(whole_frames(batch));
}

/// No payload is empty or larger than what it was packed for, and one that
/// carries whole frames counts 1 to 15 of them.
pub proof fn law_payloads_fit(frames: Seq<Seq<u8>>, max_payload: int, i: int)
    requires
        0 <= i < packets(frames, max_payload).len(),
    ensures
        payload_is_sound(packets(frames, max_payload)[i], max_payload),
{
    let budget = max_payload - 1;
    let p = packing(frames, budget);
    lemma_packing_reassembled(empty(), frames, budget);
    if i < p.payloads.len() {
        lemma_packing_is_sound(frames, budget, i);
    } else {
        lemma_batch_is_sound(p.batch, budget);
    }
}

proof fn lemma_packing_is_sound(frames: Seq<Seq<u8>>, budget: int, i: int)
    requires
        0 < budget,
        0 <= i < packing(frames, budget).payloads.len(),
    ensures
        payload_is_sound(packing(frames, budget).payloads[i], budget + 1),
    decreases frames.len(),
{
    let before = packing(frames.drop_last(), budget);
    let frame = frames.last();
    if i < before.payloads.len() {
        lemma_packing_is_sound(frames.drop_last(), budget, i);
    } else {
        lemma_packing_reassembled(empty(), frames.drop_last(), budget);
        if i >= flushed(before).len() {
            lemma_fragments_are_sound(frame, budget, 0, i - flushed(before).len());
        } else {
            lemma_batch_is_sound(before.batch, budget);
        }
    }
}

/// Frames survive packing as a whole: without room beyond the header there is
/// no payload; otherwise every payload is sound, and a new reassembler gives
/// back all frames, in order, and is left with nothing.
pub proof fn law_frames_survive_packing(frames: Seq<Seq<u8>>, max_payload: int)
    ensures
        max_payload < 2 ==> packets(frames, max_payload).len() == 0,
        forall|i: int|
            0 <= i < packets(frames, max_payload).len() ==> payload_is_sound(
                #[trigger] packets(frames, max_payload)[i],
                max_payload,
            ),
        max_payload >= 2 ==> reassembled(empty(), packets(frames, max_payload)) == (
            empty(),
            joined(frames),
        ),
{
    assert forall|i: int| 0 <= i < packets(frames, max_payload).len() implies payload_is_sound(
        #[trigger] packets(frames, max_payload)[i],
        max_payload,
    ) by {
        law_payloads_fit(frames, max_payload, i);
    }
    if max_payload >= 2 {
        law_packed_frames_are_reassembled(empty(), frames, max_payload);
    }
}

/// A later fragment whose first one was lost completes nothing, and a first
/// fragment drops what was there.
pub proof fn law_lost_fragments_are_not_spliced(m: ReassemblerModel, p: SbcPayloadModel)
    requires
        p.header.frame_count < 0x10,
        p.header.fragmented,
    ensures
        !m.in_progress && !p.header.start ==> after_payload(m, p.wire()) == (
            m,
            None::<Seq<u8>>,
        ),
        p.header.start ==> after_payload(m, p.wire()) == after_payload(empty(), p.wire()),
{
    law_payload_round_trip(p);
}

} // verus!
