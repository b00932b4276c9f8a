//! How credits are counted, and what each frame of a session does.

use vstd::prelude::*;
use crate::classic::rfcomm::dlc;
use crate::classic::rfcomm::dlc::{DlcModel, DlcState};
use crate::classic::rfcomm::frame;
use crate::classic::rfcomm::frame::FrameModel;
use crate::classic::rfcomm::laws;
use crate::classic::rfcomm::mcc;
use crate::classic::rfcomm::mcc::MccPn;
use crate::classic::rfcomm::multiplexer;
use crate::classic::rfcomm::state;
use crate::classic::rfcomm::state::{
    CreditFlowControl,
    MultiplexerState,
    Role,
    SessionEvent,
    SessionModel,
    Step,
};

verus! {

// ---------------------------------------------------------------------------
// Credits
// ---------------------------------------------------------------------------

/// The credits that a frame grants: where its P/F bit is set, it starts with
/// them.
pub open spec fn credits_in(sent: Seq<u8>) -> int {
    match frame::frame_of(sent) {
        Some(f) => if f.p_f == 1 && f.information.len() > 0 {
            f.information[0] as int
        } else {
            0
        },
        None => 0,
    }
}

/// The credits that frames grant together.
pub open spec fn granted(frames: Seq<Seq<u8>>) -> int
    decreases frames.len(),
{
    if frames.len() == 0 {
        0
    } else {
        credits_in(frames[0]) + granted(frames.skip(1))
    }
}

/// How many of the frames carry data.
pub open spec fn data_count(frames: Seq<Seq<u8>>) -> int
    decreases frames.len(),
{
    if frames.len() == 0 {
        0
    } else {
        (if carries_data(frames[0]) {
            1int
        } else {
            0
        }) + data_count(frames.skip(1))
    }
}

/// Whether a frame with credit-based flow control carries data: more than its
/// credits.
pub open spec fn carries_data(sent: Seq<u8>) -> bool {
    match frame::frame_of(sent) {
        Some(f) => if f.p_f == 1 {
            f.information.len() > 1
        } else {
            f.information.len() > 0
        },
        None => false,
    }
}

proof fn lemma_granted_first(first: Seq<u8>, rest: Seq<Seq<u8>>)
    ensures
        granted(seq![first] + rest) == credits_in(first) + granted(rest),
        data_count(seq![first] + rest) == (if carries_data(first) {
            1int
        } else {
            0
        }) + data_count(rest),
{
    assert((seq![first] + rest).skip(1) =~= rest);
}

/// Frames that are paid with credits grant none, and each carries data.
proof fn lemma_spent_grants_nothing(d: DlcModel)
    requires
        d.dlci < 64,
        d.c_r <= 1,
        d.mtu > 0,
    ensures
        ({
            let (after, frames) = dlc::spend_credits(d);
            &&& granted(frames) == 0
            &&& data_count(frames) == frames.len()
            &&& after.tx_credits + frames.len() == d.tx_credits
            &&& after.rx_credits == d.rx_credits
        }),
    decreases d.tx_credits,
{
    if d.tx_buffer.len() > 0 && d.tx_credits > 0 {
        let n = dlc::at_most(d.mtu as int, d.tx_buffer.len());
        let next = DlcModel {
            tx_credits: (d.tx_credits - 1) as u8,
            tx_buffer: d.tx_buffer.skip(n),
            ..d
        };
        let f = frame::uih(d.c_r, d.dlci, d.tx_buffer.take(n), 0);
        laws::lemma_frame_types();
        frame::law_frame_round_trip(f);
        lemma_spent_grants_nothing(next);
        lemma_granted_first(f.bytes(), dlc::spend_credits(next).1);
    }
}

/// The credits that go out are those that the peer is topped up with: where it
/// has no more than the threshold, up to the maximum. Each frame with data that
/// goes out takes one of this side's credits.
#[verifier::rlimit(50)]
pub proof fn law_peer_is_topped_up(d: DlcModel)
    requires
        d.cfc,
        d.dlci < 64,
        d.c_r <= 1,
        d.mtu > 1,
        d.rx_credits <= d.rx_max_credits,
    ensures
        ({
            let (after, frames) = dlc::flush(d);
            &&& granted(frames) == if d.rx_credits <= d.rx_credits_threshold {
                d.rx_max_credits - d.rx_credits
            } else {
                0
            }
            &&& after.rx_credits == d.rx_credits + granted(frames)
            &&& after.tx_credits == d.tx_credits - data_count(frames)
        }),
{
    let (grown, first) = dlc::grant_credits(d);
    let (after, rest) = dlc::spend_credits(grown);
    lemma_spent_grants_nothing(grown);
    let owed = dlc::credits_owed(d);
    if owed <= 0 {
        assert(first + rest =~= rest);
    } else {
        let n = d.tx_buffer.len() - grown.tx_buffer.len();
        let f = frame::uih(d.c_r, d.dlci, seq![owed as u8] + d.tx_buffer.take(n), 1);
        assert(first =~= seq![f.bytes()]);
        laws::lemma_frame_types();
        frame::law_frame_round_trip(f);
        assert(f.information[0] == owed);
        lemma_granted_first(f.bytes(), rest);
    }
}

/// Whether a session has a DLC with credit-based flow control that can send.
pub open spec fn credited(m: SessionModel, dlci: u8) -> bool {
    &&& 0 < dlci < 64
    &&& m.dlcs.contains_key(dlci)
    &&& m.dlcs[dlci].dlci == dlci
    &&& m.dlcs[dlci].cfc
    &&& m.dlcs[dlci].c_r <= 1
    &&& m.dlcs[dlci].mtu > 1
    &&& m.dlcs[dlci].rx_credits_threshold < m.dlcs[dlci].rx_max_credits
    &&& m.dlcs[dlci].rx_credits <= m.dlcs[dlci].rx_max_credits
}

/// A data frame uses up one of the credits that the peer was granted: after it
/// the peer has one less, and what is granted in answer. A frame that only
/// grants credits uses up none.
#[verifier::rlimit(50)]
pub proof fn law_data_frame_uses_up_a_credit(m: SessionModel, sent: Seq<u8>, f: FrameModel)
    requires
        credited(m, f.dlci),
        frame::frame_of(sent) == Some(f),
        f.frame_type == 0xEF,
        m.dlcs[f.dlci].rx_credits > 0,
    ensures
        ({
            let step = state::on_frame(m, f);
            let d = m.dlcs[f.dlci];
            let after = step.state.dlcs[f.dlci];
            let left = if carries_data(sent) {
                d.rx_credits - 1
            } else {
                d.rx_credits as int
            };
            &&& granted(step.outgoing) == if left <= d.rx_credits_threshold {
                d.rx_max_credits - left
            } else {
                0
            }
            &&& after.rx_credits == left + granted(step.outgoing)
            &&& after.rx_credits > d.rx_credits_threshold
            &&& credited(step.state, f.dlci)
            &&& after.rx_max_credits == d.rx_max_credits
            &&& after.rx_credits_threshold == d.rx_credits_threshold
        }),
{
    let d = state::credited(m.dlcs[f.dlci], f);
    law_peer_is_topped_up(d);
    lemma_flush_keeps(d);
}

proof fn lemma_spend_keeps(d: DlcModel)
    ensures
        ({
            let after = dlc::spend_credits(d).0;
            after == DlcModel {
                tx_credits: after.tx_credits,
                tx_buffer: after.tx_buffer,
                ..d
            }
        }),
    decreases d.tx_credits,
{
    if d.tx_buffer.len() > 0 && d.tx_credits > 0 {
        let n = dlc::at_most(d.mtu as int, d.tx_buffer.len());
        lemma_spend_keeps(
            DlcModel {
                tx_credits: (d.tx_credits - 1) as u8,
                tx_buffer: d.tx_buffer.skip(n),
                ..d
            },
        );
    }
}

proof fn lemma_flush_keeps(d: DlcModel)
    ensures
        ({
            let after = dlc::flush(d).0;
            after == DlcModel {
                tx_credits: after.tx_credits,
                rx_credits: after.rx_credits,
                tx_buffer: after.tx_buffer,
                ..d
            }
        }),
{
    if d.cfc {
        lemma_spend_keeps(dlc::grant_credits(d).0);
    }
}

/// What a session sends in answer to frames, one after the other, and what it
/// is afterwards.
pub open spec fn answered(m: SessionModel, frames: Seq<Seq<u8>>) -> (SessionModel, Seq<Seq<u8>>)
    decreases frames.len(),
{
    if frames.len() == 0 {
        (m, seq![])
    } else {
        match frame::frame_of(frames[0]) {
            Some(f) => {
                let step = state::on_frame(m, f);
                let (after, rest) = answered(step.state, frames.skip(1));
                (after, step.outgoing + rest)
            },
            None => answered(m, frames.skip(1)),
        }
    }
}

proof fn lemma_granted_add(a: Seq<Seq<u8>>, b: Seq<Seq<u8>>)
    ensures
        granted(a + b) == granted(a) + granted(b),
    decreases a.len(),
{
    if a.len() == 0 {
        assert(a + b =~= b);
    } else {
        assert((a + b).skip(1) =~= a.skip(1) + b);
        lemma_granted_add(a.skip(1), b);
    }
}

/// The credits of a peer add up, however many frames it sends: what it had, and
/// all that it was granted, is what it has left and the frames with data that
/// it sent. It never runs out: it always has more than the threshold left, or
/// has sent nothing.
#[verifier::rlimit(50)]
pub proof fn law_credits_add_up(m: SessionModel, dlci: u8, frames: Seq<Seq<u8>>)
    requires
        credited(m, dlci),
        m.dlcs[dlci].rx_credits > 0,
        laws::data_frames(frames, dlci),
    ensures
        ({
            let (after, sent) = answered(m, frames);
            &&& m.dlcs[dlci].rx_credits + granted(sent) == after.dlcs[dlci].rx_credits
                + data_count(frames)
            &&& after.dlcs[dlci].rx_credits > 0
            &&& frames.len() > 0 ==> after.dlcs[dlci].rx_credits
                > m.dlcs[dlci].rx_credits_threshold
        }),
    decreases frames.len(),
{
    if frames.len() > 0 {
        let f = frame::frame_of(frames[0])->0;
        assert(frame::frame_of(frames[0]) == Some(f));
        let step = state::on_frame(m, f);
        law_data_frame_uses_up_a_credit(m, frames[0], f);
        let rest = frames.skip(1);
        assert forall|i: int| 0 <= i < rest.len() implies match #[trigger] frame::frame_of(
            rest[i],
        ) {
            Some(f) => f.dlci == dlci && f.frame_type == 0xEF,
            None => false,
        } by {
            assert(rest[i] == frames[i + 1]);
        }
        law_credits_add_up(step.state, dlci, rest);
        lemma_granted_add(step.outgoing, answered(step.state, rest).1);
    }
}

/// Credits that the peer grants are added to those of this side, up to 255,
/// and each frame with data that then goes out takes one.
#[verifier::rlimit(50)]
pub proof fn law_granted_credits_are_added(m: SessionModel, sent: Seq<u8>, f: FrameModel)
    requires
        credited(m, f.dlci),
        frame::frame_of(sent) == Some(f),
        f.frame_type == 0xEF,
        m.dlcs[f.dlci].rx_credits > 0,
    ensures
        ({
            let step = state::on_frame(m, f);
            let d = m.dlcs[f.dlci];
            let sum = d.tx_credits + credits_in(sent);
            step.state.dlcs[f.dlci].tx_credits + data_count(step.outgoing) == if sum > 255 {
                255
            } else {
                sum
            }
        }),
{
    let d = state::credited(m.dlcs[f.dlci], f);
    law_peer_is_topped_up(d);
}

/// The bytes of a data frame are reported as they came, without the credits
/// before them; a frame without bytes is not reported.
#[verifier::rlimit(50)]
pub proof fn law_data_is_reported(m: SessionModel, f: FrameModel)
    requires
        0 < f.dlci,
        m.dlcs.contains_key(f.dlci),
        f.frame_type == 0xEF,
    ensures
        ({
            let step = state::on_frame(m, f);
            let with_credits = m.dlcs[f.dlci].cfc && f.p_f == 1 && f.information.len() > 0;
            let data = if with_credits {
                f.information.subrange(1, f.information.len() as int)
            } else {
                f.information
            };
            &&& data.len() > 0 ==> step.events == seq![SessionEvent::DataReceived(f.dlci, data)]
            &&& data.len() == 0 ==> step.events == Seq::<SessionEvent>::empty()
        }),
{
    if f.information.len() > 0 {
        assert(f.information.skip(1) =~= f.information.subrange(1, f.information.len() as int));
    }
}

/// Every frame that goes out carries at most as many bytes as the DLC allows,
/// credits included.
#[verifier::rlimit(50)]
pub proof fn law_frames_are_small(d: DlcModel, i: int)
    requires
        d.dlci < 64,
        d.c_r <= 1,
        d.mtu > 0,
        d.rx_credits <= d.rx_max_credits,
        0 <= i < dlc::flush(d).1.len(),
    ensures
        match frame::frame_of(dlc::flush(d).1[i]) {
            Some(f) => f.information.len() <= d.mtu && f.dlci == d.dlci && f.frame_type == 0xEF,
            None => false,
        },
{
    laws::lemma_frame_types();
    if !d.cfc {
        lemma_plain_small(d, d.tx_buffer, i);
    } else {
        let (grown, first) = dlc::grant_credits(d);
        let rest = dlc::spend_credits(grown).1;
        let owed = dlc::credits_owed(d);
        if owed <= 0 {
            assert(first + rest =~= rest);
            lemma_spent_small(grown, i);
        } else if i == 0 {
            let n = d.tx_buffer.len() - grown.tx_buffer.len();
            let f = frame::uih(d.c_r, d.dlci, seq![owed as u8] + d.tx_buffer.take(n), 1);
            assert(first =~= seq![f.bytes()]);
            frame::law_frame_round_trip(f);
        } else {
            assert((first + rest)[i] == rest[i - 1]);
            lemma_spent_small(grown, i - 1);
        }
    }
}

proof fn lemma_plain_small(d: DlcModel, buffer: Seq<u8>, i: int)
    requires
        d.dlci < 64,
        d.c_r <= 1,
        d.mtu > 0,
        0 <= i < dlc::plain_frames(d, buffer).len(),
    ensures
        match frame::frame_of(dlc::plain_frames(d, buffer)[i]) {
            Some(f) => f.information.len() <= d.mtu && f.dlci == d.dlci && f.frame_type == 0xEF,
            None => false,
        },
    decreases buffer.len(),
{
    let n = dlc::at_most(d.mtu as int, buffer.len());
    laws::lemma_frame_types();
    if i == 0 {
        frame::law_frame_round_trip(frame::uih(d.c_r, d.dlci, buffer.take(n), 0));
    } else {
        lemma_plain_small(d, buffer.skip(n), i - 1);
    }
}

proof fn lemma_spent_small(d: DlcModel, i: int)
    requires
        d.dlci < 64,
        d.c_r <= 1,
        d.mtu > 0,
        0 <= i < dlc::spend_credits(d).1.len(),
    ensures
        match frame::frame_of(dlc::spend_credits(d).1[i]) {
            Some(f) => f.information.len() <= d.mtu && f.dlci == d.dlci && f.frame_type == 0xEF,
            None => false,
        },
    decreases d.tx_credits,
{
    let n = dlc::at_most(d.mtu as int, d.tx_buffer.len());
    let next = DlcModel {
        tx_credits: (d.tx_credits - 1) as u8,
        tx_buffer: d.tx_buffer.skip(n),
        ..d
    };
    laws::lemma_frame_types();
    if i == 0 {
        frame::law_frame_round_trip(frame::uih(d.c_r, d.dlci, d.tx_buffer.take(n), 0));
    } else {
        lemma_spent_small(next, i - 1);
    }
}

// ---------------------------------------------------------------------------
// New sessions and DLCs
// ---------------------------------------------------------------------------

/// A new session has no DLC, listens nowhere, and has not been started.
#[verifier::rlimit(50)]
pub proof fn law_new_session(role: Role, peer_mtu: u16)
    ensures
        ({
            let m = multiplexer::new_session(role, peer_mtu);
            &&& m.role == role
            &&& m.state == MultiplexerState::Init
            &&& m.cfc == CreditFlowControl::Unknown
            &&& m.peer_mtu == peer_mtu
            &&& m.pending_open is None
            &&& forall|k: u8| !m.dlcs.contains_key(k) && !m.listen_configs.contains_key(k)
        }),
{
}

// ---------------------------------------------------------------------------
// Frames for DLCs
// ---------------------------------------------------------------------------

/// Whether bytes are the frame of a type on a DLCI, without information.
pub open spec fn is_bare(sent: Seq<u8>, frame_type: u8, dlci: u8) -> bool {
    match frame::frame_of(sent) {
        Some(f) => f.frame_type == frame_type && f.dlci == dlci && f.p_f == 1
            && f.information.len() == 0,
        None => false,
    }
}

/// Whether bytes are a modem status on the control channel, for a DLCI and with
/// all signals asserted: ready to communicate, ready to receive, data valid.
pub open spec fn is_status(sent: Seq<u8>, command: bool, dlci: u8) -> bool {
    match frame::frame_of(sent) {
        Some(f) => f.frame_type == 0xEF && f.dlci == 0 && f.p_f == 0 && f.information == seq![
            if command {
                0xE3u8
            } else {
                0xE1
            },
            0x05u8,
            (dlci << 2) | 3,
            0x8Du8,
        ],
        None => false,
    }
}

proof fn lemma_status_bits(dlci: u8)
    by (bit_vector)
    ensures
        (0x38u8 << 2) | (1u8 << 1) | 1 == 0xE3,
        (0x38u8 << 2) | (0u8 << 1) | 1 == 0xE1,
        ((2u8 & 0x7F) << 1) | 1 == 0x05,
        1u8 | (0u8 << 1) | (1u8 << 2) | (1u8 << 3) | (0u8 << 6) | (1u8 << 7) == 0x8D,
{
}

proof fn lemma_status(c_r: u8, command: bool, dlci: u8)
    requires
        c_r <= 1,
    ensures
        is_status(state::control_frame(c_r, 0x38, command, mcc::ready(dlci).wire()), command, dlci),
{
    lemma_status_bits(dlci);
    laws::lemma_frame_types();
    let value = mcc::ready(dlci).wire();
    assert(value =~= seq![(dlci << 2) | 3, 0x8Du8]);
    let information = mcc::mcc_bytes(0x38, command, value);
    frame::law_frame_round_trip(frame::uih(c_r, 0, information, 0));
    assert(information =~= seq![
        if command {
            0xE3u8
        } else {
            0xE1
        },
        0x05u8,
        (dlci << 2) | 3,
        0x8Du8,
    ]);
}

/// A DLC that one side closes is closed on both: the request takes the DLC out
/// of use, the peer drops it and acknowledges, and the acknowledgement drops it
/// here. Each side reports that once.
#[verifier::rlimit(50)]
pub proof fn law_dlc_closes(a: SessionModel, b: SessionModel, dlci: u8)
    requires
        state::well_formed(a),
        state::well_formed(b),
        0 < dlci < 64,
        a.dlcs.contains_key(dlci),
        a.dlcs[dlci].state == DlcState::Connected,
        b.dlcs.contains_key(dlci),
    ensures
        match state::close_dlc(a, dlci) {
            (closing, Ok(disc)) => {
                let accepted = laws::on_bytes(b, disc);
                let closed = laws::on_bytes(closing, accepted.outgoing[0]);
                &&& is_bare(disc, 0x43, dlci)
                &&& closing.dlcs[dlci].state == DlcState::Disconnecting
                &&& accepted.outgoing.len() == 1
                &&& is_bare(accepted.outgoing[0], 0x63, dlci)
                &&& accepted.events == seq![SessionEvent::DlcClosed(dlci)]
                &&& accepted.state == SessionModel { dlcs: b.dlcs.remove(dlci), ..b }
                &&& closed.outgoing.len() == 0
                &&& closed.events == seq![SessionEvent::DlcClosed(dlci)]
                &&& closed.state == SessionModel { dlcs: a.dlcs.remove(dlci), ..a }
            },
            (_, Err(_)) => false,
        },
{
    reveal(laws::on_bytes);
    laws::lemma_bare_arrives(0x43, state::role_bit(a.role), dlci);
    laws::lemma_bare_arrives(0x63, (1 - b.dlcs[dlci].c_r) as u8, dlci);
    let closing = state::close_dlc(a, dlci).0;
    assert(closing.dlcs.remove(dlci) =~= a.dlcs.remove(dlci));
}

/// Only a DLC that is open can be written to or closed, and only an open session
/// opens a DLC or ends; anything else is an error and changes nothing.
#[verifier::rlimit(50)]
pub proof fn law_requests_need_what_they_use(m: SessionModel, dlci: u8, data: Seq<u8>, size: u16)
    ensures
        ({
            let open = m.dlcs.contains_key(dlci) && m.dlcs[dlci].state == DlcState::Connected;
            let up = m.state == MultiplexerState::Connected;
            &&& state::write(m, dlci, data).1 is Ok <==> open
            &&& state::close_dlc(m, dlci).1 is Ok <==> open
            &&& state::open_dlc(m, dlci, size, 7).1 is Ok <==> up
            &&& state::disconnect(m).1 is Ok <==> up
            &&& state::start(m).1 is Ok <==> m.role == Role::Initiator && m.state
                == MultiplexerState::Init
            &&& !open ==> state::write(m, dlci, data).0 == m && state::close_dlc(m, dlci).0 == m
            &&& !up ==> state::open_dlc(m, dlci, size, 7).0 == m && state::disconnect(m).0 == m
            &&& state::start(m).1 is Err ==> state::start(m).0 == m
        }),
{
}

/// A modem status of the peer is answered for the DLC that it is about, where
/// there is one; an answer is not answered.
#[verifier::rlimit(50)]
pub proof fn law_modem_status_is_answered(
    m: SessionModel,
    c_r: u8,
    command: bool,
    dlci: u8,
    signals: u8,
)
    requires
        state::well_formed(m),
        c_r <= 1,
        dlci < 64,
    ensures
        ({
            let step = laws::on_bytes(
                m,
                state::control_frame(c_r, 0x38, command, seq![(dlci << 2) | 3, signals]),
            );
            &&& step.state == m
            &&& step.events == Seq::<SessionEvent>::empty()
            &&& command && m.dlcs.contains_key(dlci) ==> step.outgoing.len() == 1 && is_status(
                step.outgoing[0],
                false,
                dlci,
            )
            &&& !command || !m.dlcs.contains_key(dlci) ==> step.outgoing.len() == 0
        }),
{
    reveal(laws::on_bytes);
    let value = seq![(dlci << 2) | 3, signals];
    lemma_dlci_bits(dlci);
    laws::lemma_control_arrives(m, c_r, 0x38, command, value);
    assert(mcc::msc_of(value)->0.dlci == dlci);
    if m.dlcs.contains_key(dlci) {
        lemma_status(m.dlcs[dlci].c_r, false, dlci);
    }
}

proof fn lemma_dlci_bits(dlci: u8)
    by (bit_vector)
    requires
        dlci < 64,
    ensures
        ((dlci << 2) | 3) >> 2 == dlci,
{
}

/// A SABM for a DLCI without a DLC opens one with frames of 127 bytes and no
/// credits to send with, if its channel is listened on. Credits are not used
/// then, unless they were negotiated before. Otherwise it is refused. A DISC is
/// refused, and other frames are dropped.
#[verifier::rlimit(50)]
pub proof fn law_unknown_dlci(m: SessionModel, f: FrameModel)
    requires
        0 < f.dlci < 64,
        !m.dlcs.contains_key(f.dlci),
        f.frame_type != 0x0F,
    ensures
        ({
            let step = state::on_frame(m, f);
            let d = step.state.dlcs[f.dlci];
            let listened = m.listen_configs.contains_key(f.dlci / 2);
            &&& f.frame_type == 0x2F && listened ==> {
                &&& step.events == seq![SessionEvent::DlcOpened(f.dlci)]
                &&& step.outgoing.len() == 2
                &&& is_bare(step.outgoing[0], 0x63, f.dlci)
                &&& is_status(step.outgoing[1], true, f.dlci)
                &&& step.state.state == MultiplexerState::Connected
                &&& step.state.dlcs == m.dlcs.insert(f.dlci, d)
                &&& d.state == DlcState::Connected
                &&& d.dlci == f.dlci
                &&& d.tx_max_frame_size == 127
                &&& d.tx_credits == 0
                &&& d.rx_max_frame_size == m.listen_configs[f.dlci / 2].0
                &&& d.cfc == (m.cfc == CreditFlowControl::Supported)
                &&& step.state.cfc != CreditFlowControl::Unknown
                &&& d.tx_buffer.len() == 0
            }
            &&& (f.frame_type == 0x2F && !listened) || f.frame_type == 0x43 ==> {
                &&& step.state == m
                &&& step.events == Seq::<SessionEvent>::empty()
                &&& step.outgoing.len() == 1
                &&& is_bare(step.outgoing[0], 0x0F, f.dlci)
            }
            &&& f.frame_type != 0x2F && f.frame_type != 0x43 ==> step == (Step {
                state: m,
                outgoing: seq![],
                events: seq![],
            })
        }),
{
    laws::lemma_bare_arrives(0x0F, 1, f.dlci);
    let c_r = state::role_bit(m.role);
    laws::lemma_bare_arrives(0x63, (1 - c_r) as u8, f.dlci);
    lemma_status(c_r, true, f.dlci);
}

/// A DLC that is being opened is open once its SABM or its UA is there. The
/// modem status follows, and a SABM is acknowledged first.
#[verifier::rlimit(50)]
pub proof fn law_opening_dlc_opens(m: SessionModel, f: FrameModel)
    requires
        state::well_formed(m),
        0 < f.dlci < 64,
        m.dlcs.contains_key(f.dlci),
        m.dlcs[f.dlci].state == DlcState::Connecting,
        f.frame_type == 0x2F || f.frame_type == 0x63,
    ensures
        ({
            let step = state::on_frame(m, f);
            let n = step.outgoing.len();
            &&& step.events == seq![SessionEvent::DlcOpened(f.dlci)]
            &&& step.state == SessionModel {
                state: MultiplexerState::Connected,
                dlcs: m.dlcs.insert(
                    f.dlci,
                    DlcModel { state: DlcState::Connected, ..m.dlcs[f.dlci] },
                ),
                ..m
            }
            &&& n == if f.frame_type == 0x2F {
                2int
            } else {
                1
            }
            &&& is_status(step.outgoing[n - 1], true, f.dlci)
            &&& f.frame_type == 0x2F ==> is_bare(step.outgoing[0], 0x63, f.dlci)
        }),
{
    let c_r = m.dlcs[f.dlci].c_r;
    laws::lemma_bare_arrives(0x63, (1 - c_r) as u8, f.dlci);
    lemma_status(c_r, true, f.dlci);
}

/// The DLCs that close with a session are reported once each, in the order of
/// their DLCIs.
pub proof fn law_closings_are_in_order(dlcs: Map<u8, DlcModel>, n: nat, i: int, j: int)
    requires
        n <= 256,
        0 <= i < j < state::closings(dlcs, n).len(),
    ensures
        match (state::closings(dlcs, n)[i], state::closings(dlcs, n)[j]) {
            (SessionEvent::DlcClosed(a), SessionEvent::DlcClosed(b)) => a < b,
            _ => false,
        },
    decreases n,
{
    lemma_closings_below(dlcs, n);
    if n > 0 {
        let before = state::closings(dlcs, (n - 1) as nat);
        lemma_closings_below(dlcs, (n - 1) as nat);
        if j < before.len() {
            law_closings_are_in_order(dlcs, (n - 1) as nat, i, j);
        } else {
            assert(state::closings(dlcs, n)[i] == before[i]);
        }
    }
}

proof fn lemma_closings_below(dlcs: Map<u8, DlcModel>, n: nat)
    requires
        n <= 256,
    ensures
        forall|i: int|
            0 <= i < state::closings(dlcs, n).len() ==> match #[trigger] state::closings(
                dlcs,
                n,
            )[i] {
                SessionEvent::DlcClosed(a) => a < n,
                _ => false,
            },
    decreases n,
{
    if n > 0 {
        let before = state::closings(dlcs, (n - 1) as nat);
        lemma_closings_below(dlcs, (n - 1) as nat);
        assert forall|i: int| 0 <= i < state::closings(dlcs, n).len() implies match
            #[trigger] state::closings(dlcs, n)[i] {
            SessionEvent::DlcClosed(a) => a < n,
            _ => false,
        } by {
            if i < before.len() {
                assert(state::closings(dlcs, n)[i] == before[i]);
            }
        }
    }
}

/// A peer that asks for a DLC without credits gets one without, and the session
/// goes without from then on. An odd DLCI is ignored, and a channel that is not
/// listened on is refused.
#[verifier::rlimit(50)]
pub proof fn law_negotiation_without_credits(m: SessionModel, pn: MccPn)
    requires
        pn.cl != 0xF0,
    ensures
        ({
            let step = state::on_pn_command(m, pn);
            let channel = pn.dlci / 2;
            let d = step.state.dlcs[pn.dlci];
            &&& pn.dlci % 2 == 1 ==> step == (Step { state: m, outgoing: seq![], events: seq![] })
            &&& pn.dlci % 2 == 0 && m.listen_configs.contains_key(channel) ==> {
                &&& step.state.cfc == CreditFlowControl::NotSupported
                &&& step.state.dlcs == m.dlcs.insert(pn.dlci, d)
                &&& !d.cfc
                &&& d.state == DlcState::Connecting
                &&& d.tx_credits == 0 && d.rx_credits == 0
                &&& d.tx_max_frame_size == pn.max_frame_size
                &&& step.events == Seq::<SessionEvent>::empty()
                &&& step.outgoing == seq![
                    state::control_frame(
                        if m.role == Role::Initiator {
                            1
                        } else {
                            0
                        },
                        0x20,
                        false,
                        (MccPn {
                            dlci: pn.dlci,
                            cl: 0x00,
                            priority: 7,
                            ack_timer: 0,
                            max_frame_size: m.listen_configs[channel].0,
                            max_retransmissions: 0,
                            initial_credits: 0,
                        }).wire(),
                    ),
                ]
            }
            &&& pn.dlci % 2 == 0 && !m.listen_configs.contains_key(channel) && pn.dlci < 64 ==> {
                &&& step.state == m
                &&& step.outgoing.len() == 1
                &&& is_bare(step.outgoing[0], 0x0F, pn.dlci)
            }
        }),
{
    if pn.dlci < 64 {
        laws::lemma_bare_arrives(0x0F, 1, pn.dlci);
    }
}

} // verus!
