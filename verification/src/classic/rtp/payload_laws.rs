//! What the bits of media packets and payloads mean, and how frames are packed.

use vstd::prelude::*;
use crate::bytes;
use crate::classic::rtp::packet;
use crate::classic::rtp::packet::{MediaPacketError, MediaPacketModel};
use crate::classic::rtp::sbc;
use crate::classic::rtp::sbc::SbcPayloadHeader;

verus! {

/// A media packet of version 2 is read with what its header says. Contributing
/// sources, four bytes each, are passed over; padding, where it is declared, is
/// cut off by the count in the last byte.
#[verifier::rlimit(50)]
pub proof fn law_media_packet_bits(
    data: Seq<u8>,
    padded: bool,
    extended: bool,
    sources: int,
    marker: bool,
    payload_type: u8,
)
    requires
        data.len() >= 12,
        0 <= sources < 16,
        payload_type < 128,
        data[0] == 128 + (if padded {
            32int
        } else {
            0
        }) + (if extended {
            16int
        } else {
            0
        }) + sources,
        data[1] == payload_type + if marker {
            128int
        } else {
            0
        },
    ensures
        ({
            let start = 12 + 4 * sources;
            let room = data.len() - start;
            let padding = data[data.len() - 1];
            match packet::packet_of(data) {
                Ok(p) => {
                    &&& room >= 0
                    &&& p.sequence_number == data[2] * 256 + data[3]
                    &&& p.timestamp == bytes::be32(data, 4)
                    &&& p.ssrc == bytes::be32(data, 8)
                    &&& p.payload_type == payload_type
                    &&& p.marker == marker
                    &&& !padded ==> p.payload == data.subrange(start, data.len() as int)
                    &&& padded ==> 1 <= padding <= room && p.payload == data.subrange(
                        start,
                        data.len() - padding,
                    )
                },
                Err(why) => {
                    &&& why == MediaPacketError::Truncated <==> room < 0
                    &&& why == MediaPacketError::BadPadding <==> room >= 0
                    &&& room >= 0 ==> padded && (padding == 0 || padding > room)
                },
            }
        }),
{
    let b = data[0];
    assert(b / 0x40 == 2 && (b / 0x20) % 2 == (if padded {
        1int
    } else {
        0
    }) && b % 0x10 == sources);
    assert(data[1] % 0x80 == payload_type && (data[1] >= 0x80) == marker);
    let start = 12 + 4 * sources;
    if data.len() >= start {
        let payload = data.skip(start);
        assert(payload =~= data.subrange(start, data.len() as int));
        if payload.len() > 0 {
            let padding = payload.last();
            assert(padding == data[data.len() - 1]);
            if padding <= payload.len() {
                assert(payload.take(payload.len() - padding) =~= data.subrange(
                    start,
                    data.len() - padding,
                ));
            }
        }
    }
}

/// Bytes that are too few, or of another version, are no media packet.
#[verifier::rlimit(50)]
pub proof fn law_media_packet_errors(data: Seq<u8>)
    ensures
        data.len() < 12 ==> packet::packet_of(data) == Err::<MediaPacketModel, MediaPacketError>(
            MediaPacketError::Truncated,
        ),
        data.len() >= 12 && (data[0] < 128 || data[0] >= 192) ==> packet::packet_of(data) == Err::<
            MediaPacketModel,
            MediaPacketError,
        >(MediaPacketError::UnsupportedVersion(data[0] / 64)),
{
}

/// A media packet is written as version 2 with nothing optional: marker and
/// type, sequence number, time and source, and then its payload.
#[verifier::rlimit(50)]
pub proof fn law_media_packet_bytes(p: MediaPacketModel)
    requires
        p.payload_type < 128,
    ensures
        p.wire() == seq![
            0x80u8,
            (p.payload_type + if p.marker {
                128int
            } else {
                0
            }) as u8,
        ] + bytes::be16_bytes(p.sequence_number) + bytes::be32_bytes(p.timestamp)
            + bytes::be32_bytes(p.ssrc) + p.payload,
{
}

/// The byte before SBC data says whether it is a fragment, the first and the
/// last, and how many frames or fragments there are.
#[verifier::rlimit(50)]
pub proof fn law_payload_header_bits(
    fragmented: bool,
    start: bool,
    last: bool,
    reserved: bool,
    count: u8,
    data: Seq<u8>,
)
    requires
        count < 16,
    ensures
        ({
            let flag = |b: bool, v: int| if b {
                v
            } else {
                0
            };
            let byte = (flag(fragmented, 128) + flag(start, 64) + flag(last, 32) + flag(
                reserved,
                16,
            ) + count) as u8;
            let read = sbc::payload_of(seq![byte] + data);
            &&& read is Some
            &&& (read->0).data == data
            &&& (read->0).header == (SbcPayloadHeader {
                fragmented,
                start,
                last,
                frame_count: count,
            })
            &&& !reserved ==> (read->0).wire() == seq![byte] + data
        }),
{
    let flag = |b: bool, v: int| if b {
        v
    } else {
        0
    };
    let byte = (flag(fragmented, 128) + flag(start, 64) + flag(last, 32) + flag(reserved, 16)
        + count) as u8;
    assert((seq![byte] + data).skip(1) =~= data);
    assert(byte % 16 == count);
    assert((byte / 0x20) % 2 == (if last {
        1int
    } else {
        0
    }));
    assert((byte / 0x40) % 2 == (if start {
        1int
    } else {
        0
    }));
}

/// Frames that fit together, fifteen at most, go in one payload: their count,
/// and then the frames.
#[verifier::rlimit(50)]
pub proof fn law_frames_share_a_payload(frames: Seq<Seq<u8>>, max_payload: int)
    requires
        0 < frames.len() <= 15,
        max_payload >= 2,
        1 + sbc::joined(frames).len() <= max_payload,
    ensures
        sbc::packets(frames, max_payload) == seq![
            seq![frames.len() as u8] + sbc::joined(frames),
        ],
{
    lemma_gathered(frames, max_payload - 1);
    assert(sbc::packets(frames, max_payload) =~= seq![
        seq![frames.len() as u8] + sbc::joined(frames),
    ]);
}

proof fn lemma_gathered(frames: Seq<Seq<u8>>, budget: int)
    requires
        frames.len() <= 15,
        sbc::joined(frames).len() <= budget,
    ensures
        sbc::packing(frames, budget).payloads == Seq::<Seq<u8>>::empty(),
        sbc::packing(frames, budget).batch == frames,
    decreases frames.len(),
{
    if frames.len() > 0 {
        let front = frames.drop_last();
        lemma_gathered(front, budget);
        assert(front.push(frames.last()) =~= frames);
    } else {
        assert(sbc::packing(frames, budget).batch =~= frames);
    }
}

/// A payload is closed only when the next frame has no room in it, or it holds
/// fifteen frames. A frame that is larger than a payload stands alone.
#[verifier::rlimit(50)]
pub proof fn law_payloads_are_filled(frames: Seq<Seq<u8>>, next: Seq<u8>, budget: int)
    requires
        budget > 0,
    ensures
        ({
            let before = sbc::packing(frames, budget);
            let after = sbc::packing(frames.push(next), budget);
            let fits = next.len() <= budget && before.batch.len() < 15 && sbc::joined(
                before.batch,
            ).len() + next.len() <= budget;
            &&& fits ==> after.payloads == before.payloads && after.batch == before.batch.push(next)
            &&& !fits && next.len() <= budget ==> after.batch == seq![next]
            &&& next.len() > budget ==> after.batch.len() == 0
        }),
{
    assert(frames.push(next).drop_last() =~= frames);
}

/// The fragments of a frame: the first is marked as such and so is the last,
/// each but the last is full, and each counts those that are left, itself
/// included, up to fifteen.
#[verifier::rlimit(50)]
pub proof fn law_fragments(frame: Seq<u8>, budget: int, from: int, i: int)
    requires
        budget > 0,
        0 <= from,
        0 <= i,
        from + i * budget < frame.len(),
    ensures
        ({
            let all = sbc::fragments(frame, budget, from);
            let at = from + i * budget;
            let end = if frame.len() - at <= budget {
                frame.len() as int
            } else {
                at + budget
            };
            let left = all.len() - i;
            let count: int = if left < 15 {
                left
            } else {
                15
            };
            let header = 128 + (if at == 0 {
                64int
            } else {
                0
            }) + (if end == frame.len() {
                32int
            } else {
                0
            }) + count;
            &&& i < all.len()
            &&& all[i] == seq![header as u8] + frame.subrange(at, end)
            &&& (i == all.len() - 1) == (end == frame.len())
        }),
    decreases i,
{
    let all = sbc::fragments(frame, budget, from);
    let rest = sbc::fragments(frame, budget, from + budget);
    assert(0 * budget == 0) by (nonlinear_arith);
    lemma_fragment_count(frame, budget, from);
    if i == 0 {
        let p = sbc::fragment(frame, budget, from);
        assert(all[0] == p.wire());
        assert(all.len() == sbc::pieces(frame.len() - from, budget));
        lemma_fragment_count(frame, budget, from + budget);
    } else {
        assert(from + i * budget == (from + budget) + (i - 1) * budget) by (nonlinear_arith);
        assert((i - 1) * budget >= 0) by (nonlinear_arith)
            requires
                i >= 1,
                budget > 0,
        ;
        law_fragments(frame, budget, from + budget, i - 1);
        assert(all[i] == rest[i - 1]);
    }
}

proof fn lemma_fragment_count(frame: Seq<u8>, budget: int, from: int)
    requires
        budget > 0,
        0 <= from,
    ensures
        sbc::fragments(frame, budget, from).len() == sbc::pieces(frame.len() - from, budget),
        from < frame.len() ==> sbc::fragments(frame, budget, from).len() > 0,
    decreases (if from < frame.len() { frame.len() - from } else { 0 }),
{
    if from < frame.len() {
        lemma_fragment_count(frame, budget, from + budget);
        let n = frame.len() - from;
        if n > budget {
            vstd::arithmetic::div_mod::lemma_div_minus_one(n - 1, budget);
            assert(-budget + (n - 1) == n - budget - 1);
        } else {
            vstd::arithmetic::div_mod::lemma_basic_div(n - 1, budget);
        }
    }
}

} // verus!
