//! Where the fields of frames and of multiplexer commands stand on the wire.

use vstd::prelude::*;
use crate::classic::rfcomm::dlc::DlcState;
use crate::classic::rfcomm::frame;
use crate::classic::rfcomm::mcc;
use crate::classic::rfcomm::mcc::{MccMsc, MccPn};
use crate::classic::rfcomm::state;
use crate::classic::rfcomm::state::{MultiplexerState, Role, SessionModel};
use crate::text;
use crate::types::SimbleErrorModel;

verus! {

proof fn lemma_address(dlci: u8, c_r: u8)
    by (bit_vector)
    requires
        dlci < 64,
        c_r < 2,
    ensures
        (dlci << 2) | (c_r << 1) | 1 == dlci * 4 + c_r * 2 + 1,
{
}

proof fn lemma_controls()
    by (bit_vector)
    ensures
        0x2Fu8 | (1u8 << 4) == 0x3F,
        0x63u8 | (1u8 << 4) == 0x73,
        0x0Fu8 | (1u8 << 4) == 0x1F,
        0x43u8 | (1u8 << 4) == 0x53,
        0xEFu8 | (1u8 << 4) == 0xFF,
        0xEFu8 | (0u8 << 4) == 0xEF,
{
}

/// The address of a frame: the DLCI above, then the C/R bit, then a one.
pub open spec fn address(dlci: u8, c_r: u8) -> u8 {
    (dlci * 4 + c_r * 2 + 1) as u8
}

/// Frames without information have four bytes: the address, their type with the
/// P/F bit, an empty length, and a check over all three.
pub proof fn law_bare_frames(dlci: u8, c_r: u8)
    requires
        dlci < 64,
        c_r < 2,
    ensures
        ({
            let a = address(dlci, c_r);
            &&& frame::bare(0x2F, c_r, dlci).bytes() == seq![
                a,
                0x3Fu8,
                0x01u8,
                frame::fcs_of(seq![a, 0x3Fu8, 0x01u8]),
            ]
            &&& frame::bare(0x63, c_r, dlci).bytes() == seq![
                a,
                0x73u8,
                0x01u8,
                frame::fcs_of(seq![a, 0x73u8, 0x01u8]),
            ]
            &&& frame::bare(0x0F, c_r, dlci).bytes() == seq![
                a,
                0x1Fu8,
                0x01u8,
                frame::fcs_of(seq![a, 0x1Fu8, 0x01u8]),
            ]
            &&& frame::bare(0x43, c_r, dlci).bytes() == seq![
                a,
                0x53u8,
                0x01u8,
                frame::fcs_of(seq![a, 0x53u8, 0x01u8]),
            ]
        }),
{
    lemma_address(dlci, c_r);
    lemma_controls();
    lemma_bare(0x2F, 0x3F, dlci, c_r);
    lemma_bare(0x63, 0x73, dlci, c_r);
    lemma_bare(0x0F, 0x1F, dlci, c_r);
    lemma_bare(0x43, 0x53, dlci, c_r);
}

proof fn lemma_bare(kind: u8, control: u8, dlci: u8, c_r: u8)
    requires
        kind != 0xEF,
        kind | (1u8 << 4) == control,
        (dlci << 2) | (c_r << 1) | 1 == address(dlci, c_r),
    ensures
        frame::bare(kind, c_r, dlci).bytes() == seq![
            address(dlci, c_r),
            control,
            0x01u8,
            frame::fcs_of(seq![address(dlci, c_r), control, 0x01u8]),
        ],
{
    let f = frame::bare(kind, c_r, dlci);
    let a = address(dlci, c_r);
    assert(f.length_field() =~= seq![0x01u8]);
    assert(seq![a, control] + seq![0x01u8] =~= seq![a, control, 0x01u8]);
    assert(f.bytes() =~= seq![a, control, 0x01u8, frame::fcs_of(seq![a, control, 0x01u8])]);
}

/// The length of data: in one byte up to 127, in two above, the low bits first.
pub open spec fn length_bytes(n: int) -> Seq<u8> {
    if n < 128 {
        seq![(2 * n + 1) as u8]
    } else {
        seq![(2 * (n % 128)) as u8, (n / 128) as u8]
    }
}

/// A data frame has its length behind address and type, then its data, and a
/// check over the first two bytes alone. Where it grants credits, which the P/F
/// bit says, they stand before the data and the length does not count them.
pub proof fn law_data_frames(dlci: u8, c_r: u8, data: Seq<u8>, credits: u8)
    requires
        dlci < 64,
        c_r < 2,
        data.len() < 32768,
    ensures
        ({
            let a = address(dlci, c_r);
            &&& frame::uih(c_r, dlci, data, 0).bytes() == seq![a, 0xEFu8] + length_bytes(
                data.len() as int,
            ) + data + seq![frame::fcs_of(seq![a, 0xEFu8])]
            &&& frame::uih(c_r, dlci, seq![credits] + data, 1).bytes() == seq![a, 0xFFu8]
                + length_bytes(data.len() as int) + (seq![credits] + data) + seq![
                frame::fcs_of(seq![a, 0xFFu8]),
            ]
        }),
{
    lemma_address(dlci, c_r);
    lemma_controls();
    let f = frame::uih(c_r, dlci, data, 0);
    let g = frame::uih(c_r, dlci, seq![credits] + data, 1);
    assert(f.length_field() =~= length_bytes(data.len() as int));
    assert(g.length_field() =~= length_bytes(data.len() as int));
}

/// A negotiation has eight bytes: DLCI, kind of flow control, priority, timer,
/// frame size with the low byte first, retransmissions and credits.
pub proof fn law_negotiation_bytes(pn: MccPn)
    requires
        pn.initial_credits < 8,
    ensures
        pn.wire() == seq![
            pn.dlci,
            pn.cl,
            pn.priority,
            pn.ack_timer,
            (pn.max_frame_size % 256) as u8,
            (pn.max_frame_size / 256) as u8,
            pn.max_retransmissions,
            pn.initial_credits,
        ],
{
    assert(pn.wire() =~= seq![
        pn.dlci,
        pn.cl,
        pn.priority,
        pn.ack_timer,
        (pn.max_frame_size % 256) as u8,
        (pn.max_frame_size / 256) as u8,
        pn.max_retransmissions,
        pn.initial_credits,
    ]);
}

/// What this side asks for when it opens a DLC: the even DLCI of the channel,
/// credit-based flow control, priority seven, the frame size, and at most seven
/// credits.
pub proof fn law_open_request(channel: u8, size: u16, credits: u8)
    requires
        channel < 32,
    ensures
        state::open_request(channel, size, credits) == (MccPn {
            dlci: (2 * channel) as u8,
            cl: 0xF0,
            priority: 7,
            ack_timer: 0,
            max_frame_size: size,
            max_retransmissions: 0,
            initial_credits: if credits > 7 {
                7
            } else {
                credits
            },
        }),
{
}

proof fn lemma_status_bits(dlci: u8, fc: u8, rtc: u8, rtr: u8, ic: u8, dv: u8)
    by (bit_vector)
    requires
        dlci < 64,
        fc < 2,
        rtc < 2,
        rtr < 2,
        ic < 2,
        dv < 2,
    ensures
        (dlci << 2) | 3 == dlci * 4 + 3,
        1u8 | (fc << 1) | (rtc << 2) | (rtr << 3) | (ic << 6) | (dv << 7) == 1 + fc * 2 + rtc * 4
            + rtr * 8 + ic * 64 + dv * 128,
{
}

/// A modem status has two bytes: the DLCI, and a bit for each signal.
pub proof fn law_status_bytes(s: MccMsc)
    requires
        s.dlci < 64,
    ensures
        ({
            let flag = |b: bool, v: int| if b {
                v
            } else {
                0
            };
            s.wire() == seq![
                (s.dlci * 4 + 3) as u8,
                (1 + flag(s.fc, 2) + flag(s.rtc, 4) + flag(s.rtr, 8) + flag(s.ic, 64) + flag(
                    s.dv,
                    128,
                )) as u8,
            ]
        }),
{
    lemma_status_bits(
        s.dlci,
        mcc::bit(s.fc),
        mcc::bit(s.rtc),
        mcc::bit(s.rtr),
        mcc::bit(s.ic),
        mcc::bit(s.dv),
    );
}

/// The C/R bit of the initiator is set, that of the responder clear.
pub proof fn law_role_bits()
    ensures
        state::role_bit(Role::Initiator) == 1,
        state::role_bit(Role::Responder) == 0,
{
}

/// What the errors of requests say.
pub proof fn law_error_texts(m: SessionModel, dlci: u8, data: Seq<u8>)
    ensures
        !m.dlcs.contains_key(dlci) ==> state::write(m, dlci, data).1 == Err::<
            Seq<Seq<u8>>,
            SimbleErrorModel,
        >(SimbleErrorModel::DeviceError("RFCOMM: unknown DLCI "@ + text::hex8(dlci))),
        m.dlcs.contains_key(dlci) && m.dlcs[dlci].state != DlcState::Connected ==> state::write(
            m,
            dlci,
            data,
        ).1 == Err::<Seq<Seq<u8>>, SimbleErrorModel>(
            SimbleErrorModel::DeviceError(
                "RFCOMM: DLC "@ + text::decimal(dlci as nat) + " is not connected"@,
            ),
        ),
        m.state != MultiplexerState::Connected ==> state::disconnect(m).1 == Err::<
            Seq<u8>,
            SimbleErrorModel,
        >(SimbleErrorModel::DeviceError("RFCOMM: multiplexer not connected"@)),
        m.role != Role::Initiator ==> state::start(m).1 == Err::<Seq<u8>, SimbleErrorModel>(
            SimbleErrorModel::DeviceError("RFCOMM: only the initiator starts the multiplexer"@),
        ),
        state::malformed() == SimbleErrorModel::PacketParseError(
            "RFCOMM: malformed frame or FCS mismatch"@,
        ),
{
}

} // verus!
