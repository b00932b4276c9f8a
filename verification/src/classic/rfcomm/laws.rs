//! What holds of sessions as a whole.

use vstd::prelude::*;
use crate::classic::rfcomm::dlc;
use crate::classic::rfcomm::dlc::{DlcModel, DlcState};
use crate::classic::rfcomm::frame;
use crate::classic::rfcomm::frame::FrameModel;
use crate::classic::rfcomm::frame_type;
use crate::classic::rfcomm::mcc;
use crate::classic::rfcomm::mcc::MccPn;
use crate::classic::rfcomm::mcc_type;
use crate::classic::rfcomm::pn_cl;
use crate::classic::rfcomm::state;
use crate::classic::rfcomm::state::{
    CreditFlowControl,
    MultiplexerState,
    Role,
    SessionEvent,
    SessionModel,
    Step,
};

verus! {

// ---------------------------------------------------------------------------
// Data
// ---------------------------------------------------------------------------

/// The data that a receiver finds in a frame of a DLC.
#[verifier::opaque]
pub open spec fn data_in(cfc: bool, sent: Seq<u8>) -> Seq<u8> {
    match frame::frame_of(sent) {
        Some(f) => if cfc && f.p_f == 1 {
            if f.information.len() == 0 {
                seq![]
            } else {
                f.information.skip(1)
            }
        } else {
            f.information
        },
        None => seq![],
    }
}

/// The data that a receiver finds in frames of a DLC, in order.
pub open spec fn delivered(cfc: bool, frames: Seq<Seq<u8>>) -> Seq<u8>
    decreases frames.len(),
{
    if frames.len() == 0 {
        seq![]
    } else {
        data_in(cfc, frames[0]) + delivered(cfc, frames.skip(1))
    }
}

proof fn lemma_delivered_first(cfc: bool, first: Seq<u8>, rest: Seq<Seq<u8>>)
    ensures
        delivered(cfc, seq![first] + rest) == data_in(cfc, first) + delivered(cfc, rest),
{
    assert((seq![first] + rest).skip(1) =~= rest);
}

/// The types of frames leave out the P/F bit.
pub proof fn lemma_frame_types()
    by (bit_vector)
    ensures
        0x2Fu8 & 0xEF == 0x2Fu8,
        0x63u8 & 0xEF == 0x63u8,
        0x0Fu8 & 0xEF == 0x0Fu8,
        0x43u8 & 0xEF == 0x43u8,
        0xEFu8 & 0xEF == 0xEFu8,
{
}

proof fn lemma_data_frame(d: DlcModel, data: Seq<u8>)
    requires
        d.dlci < 64,
        d.c_r <= 1,
    ensures
        frame::frame_of(frame::uih(d.c_r, d.dlci, data, 0).bytes()) == Some(
            frame::uih(d.c_r, d.dlci, data, 0),
        ),
        data_in(d.cfc, frame::uih(d.c_r, d.dlci, data, 0).bytes()) == data,
{
    reveal(data_in);
    lemma_frame_types();
    frame::law_frame_round_trip(frame::uih(d.c_r, d.dlci, data, 0));
}

proof fn lemma_plain_delivered(d: DlcModel, buffer: Seq<u8>)
    requires
        d.dlci < 64,
        d.c_r <= 1,
        d.mtu > 0 || buffer.len() == 0,
    ensures
        delivered(d.cfc, dlc::plain_frames(d, buffer)) == buffer,
    decreases buffer.len(),
{
    if buffer.len() == 0 {
        assert(delivered(d.cfc, dlc::plain_frames(d, buffer)) =~= buffer);
    } else {
        let n = dlc::at_most(d.mtu as int, buffer.len());
        let first = frame::uih(d.c_r, d.dlci, buffer.take(n), 0).bytes();
        let rest = dlc::plain_frames(d, buffer.skip(n));
        lemma_plain_delivered(d, buffer.skip(n));
        lemma_data_frame(d, buffer.take(n));
        lemma_delivered_first(d.cfc, first, rest);
        assert(buffer.take(n) + buffer.skip(n) =~= buffer);
    }
}

proof fn lemma_spent_delivered(d: DlcModel)
    requires
        d.dlci < 64,
        d.c_r <= 1,
    ensures
        delivered(d.cfc, dlc::spend_credits(d).1) + dlc::spend_credits(d).0.tx_buffer
            == d.tx_buffer,
    decreases d.tx_credits,
{
    if d.tx_buffer.len() == 0 || d.tx_credits == 0 {
        assert(delivered(d.cfc, dlc::spend_credits(d).1) + d.tx_buffer =~= d.tx_buffer);
    } else {
        let n = dlc::at_most(d.mtu as int, d.tx_buffer.len());
        let next = DlcModel {
            tx_credits: (d.tx_credits - 1) as u8,
            tx_buffer: d.tx_buffer.skip(n),
            ..d
        };
        let first = frame::uih(d.c_r, d.dlci, d.tx_buffer.take(n), 0).bytes();
        let (after, rest) = dlc::spend_credits(next);
        lemma_spent_delivered(next);
        lemma_data_frame(d, d.tx_buffer.take(n));
        lemma_delivered_first(d.cfc, first, rest);
        assert((d.tx_buffer.take(n) + delivered(d.cfc, rest)) + after.tx_buffer
            =~= d.tx_buffer.take(n) + (delivered(d.cfc, rest) + after.tx_buffer));
        assert(d.tx_buffer.take(n) + d.tx_buffer.skip(n) =~= d.tx_buffer);
    }
}

/// Bytes go out in order, and none is lost or sent twice: what the frames
/// deliver and what still waits is what waited before.
pub proof fn law_data_goes_out_in_order(d: DlcModel)
    requires
        dlc::well_formed(d),
        d.dlci < 64,
    ensures
        delivered(d.cfc, dlc::flush(d).1) + dlc::flush(d).0.tx_buffer == d.tx_buffer,
{
    if !d.cfc {
        lemma_plain_delivered(d, d.tx_buffer);
        assert(d.tx_buffer + seq![] =~= d.tx_buffer);
    } else {
        let (granted, first) = dlc::grant_credits(d);
        let (after, rest) = dlc::spend_credits(granted);
        lemma_spent_delivered(granted);
        let owed = dlc::credits_owed(d);
        if owed <= 0 {
            assert(first + rest =~= rest);
        } else {
            let n = d.tx_buffer.len() - granted.tx_buffer.len();
            let chunk = d.tx_buffer.take(n);
            let f = frame::uih(d.c_r, d.dlci, seq![owed as u8] + chunk, 1);
            assert(first =~= seq![f.bytes()]);
            lemma_frame_types();
            frame::law_frame_round_trip(f);
            assert((seq![owed as u8] + chunk).skip(1) =~= chunk);
            reveal(data_in);
            lemma_delivered_first(true, f.bytes(), rest);
            assert((chunk + delivered(true, rest)) + after.tx_buffer =~= chunk + (delivered(
                true,
                rest,
            ) + after.tx_buffer));
            assert(chunk + d.tx_buffer.skip(n) =~= d.tx_buffer);
        }
    }
}

/// What a session does with frames, one after the other.
pub open spec fn feed(m: SessionModel, frames: Seq<Seq<u8>>) -> (SessionModel, Seq<SessionEvent>)
    decreases frames.len(),
{
    if frames.len() == 0 {
        (m, seq![])
    } else {
        match frame::frame_of(frames[0]) {
            Some(f) => {
                let step = state::on_frame(m, f);
                let (after, events) = feed(step.state, frames.skip(1));
                (after, step.events + events)
            },
            None => feed(m, frames.skip(1)),
        }
    }
}

/// The data among events for a DLC, in order.
pub open spec fn received(events: Seq<SessionEvent>, dlci: u8) -> Seq<u8>
    decreases events.len(),
{
    if events.len() == 0 {
        seq![]
    } else {
        let rest = received(events.skip(1), dlci);
        match events[0] {
            SessionEvent::DataReceived(at, data) => if at == dlci {
                data + rest
            } else {
                rest
            },
            _ => rest,
        }
    }
}

/// Frames that carry data of a DLC.
pub open spec fn data_frames(frames: Seq<Seq<u8>>, dlci: u8) -> bool {
    forall|i: int|
        0 <= i < frames.len() ==> match #[trigger] frame::frame_of(frames[i]) {
            Some(f) => f.dlci == dlci && f.frame_type == frame_type::UIH,
            None => false,
        }
}

proof fn lemma_flush_keeps_cfc(d: DlcModel)
    ensures
        dlc::flush(d).0.cfc == d.cfc,
{
    if d.cfc {
        lemma_spend_keeps_cfc(dlc::grant_credits(d).0);
    }
}

proof fn lemma_spend_keeps_cfc(d: DlcModel)
    ensures
        dlc::spend_credits(d).0.cfc == d.cfc,
    decreases d.tx_credits,
{
    if d.tx_buffer.len() > 0 && d.tx_credits > 0 {
        let n = dlc::at_most(d.mtu as int, d.tx_buffer.len());
        lemma_spend_keeps_cfc(
            DlcModel {
                tx_credits: (d.tx_credits - 1) as u8,
                tx_buffer: d.tx_buffer.skip(n),
                ..d
            },
        );
    }
}

/// A session hands on the data of the frames for a DLC that it has.
pub proof fn law_data_is_handed_on(m: SessionModel, dlci: u8, frames: Seq<Seq<u8>>)
    requires
        dlci != 0,
        m.dlcs.contains_key(dlci),
        data_frames(frames, dlci),
    ensures
        received(feed(m, frames).1, dlci) == delivered(m.dlcs[dlci].cfc, frames),
    decreases frames.len(),
{
    if frames.len() > 0 {
        let d = m.dlcs[dlci];
        let f = frame::frame_of(frames[0])->0;
        assert(frame::frame_of(frames[0]) == Some(f));
        let step = state::on_frame(m, f);
        assert(step == state::on_data(m, f));
        lemma_flush_keeps_cfc(state::credited(d, f));
        let rest = frames.skip(1);
        assert forall|i: int| 0 <= i < rest.len() implies match #[trigger] frame::frame_of(
            rest[i],
        ) {
            Some(f) => f.dlci == dlci && f.frame_type == frame_type::UIH,
            None => false,
        } by {
            assert(rest[i] == frames[i + 1]);
        }
        law_data_is_handed_on(step.state, dlci, rest);
        reveal(data_in);
        let data = data_in(d.cfc, frames[0]);
        let events = feed(step.state, rest).1;
        if data.len() > 0 {
            assert(step.events + events =~= seq![SessionEvent::DataReceived(dlci, data)] + events);
            assert((step.events + events).skip(1) =~= events);
        } else {
            assert(step.events + events =~= events);
            assert(data + delivered(d.cfc, rest) =~= delivered(d.cfc, rest));
        }
    }
}

proof fn lemma_spent_data_frames(d: DlcModel)
    requires
        d.dlci < 64,
        d.c_r <= 1,
    ensures
        data_frames(dlc::spend_credits(d).1, d.dlci),
    decreases d.tx_credits,
{
    if d.tx_buffer.len() > 0 && d.tx_credits > 0 {
        let n = dlc::at_most(d.mtu as int, d.tx_buffer.len());
        lemma_data_frame(d, d.tx_buffer.take(n));
        lemma_spent_data_frames(
            DlcModel {
                tx_credits: (d.tx_credits - 1) as u8,
                tx_buffer: d.tx_buffer.skip(n),
                ..d
            },
        );
    }
}

proof fn lemma_plain_data_frames(d: DlcModel, buffer: Seq<u8>)
    requires
        d.dlci < 64,
        d.c_r <= 1,
    ensures
        data_frames(dlc::plain_frames(d, buffer), d.dlci),
    decreases buffer.len(),
{
    if buffer.len() > 0 && d.mtu > 0 {
        let n = dlc::at_most(d.mtu as int, buffer.len());
        lemma_data_frame(d, buffer.take(n));
        lemma_plain_data_frames(d, buffer.skip(n));
    }
}

proof fn lemma_flush_data_frames(d: DlcModel)
    requires
        d.dlci < 64,
        dlc::well_formed(d),
    ensures
        data_frames(dlc::flush(d).1, d.dlci),
{
    if !d.cfc {
        lemma_plain_data_frames(d, d.tx_buffer);
    } else {
        let (granted, first) = dlc::grant_credits(d);
        lemma_spent_data_frames(granted);
        let owed = dlc::credits_owed(d);
        if owed > 0 {
            let n = d.tx_buffer.len() - granted.tx_buffer.len();
            let f = frame::uih(d.c_r, d.dlci, seq![owed as u8] + d.tx_buffer.take(n), 1);
            assert(first =~= seq![f.bytes()]);
            lemma_frame_types();
            frame::law_frame_round_trip(f);
        }
    }
}

/// Written data arrives at the peer in order: what the peer reports and what
/// still waits here is what waited before and what was written.
pub proof fn law_written_data_arrives(
    a: SessionModel,
    b: SessionModel,
    dlci: u8,
    data: Seq<u8>,
)
    requires
        dlci != 0,
        a.dlcs.contains_key(dlci),
        a.dlcs[dlci].dlci == dlci,
        a.dlcs[dlci].state == DlcState::Connected,
        dlc::well_formed(state::queued(a.dlcs[dlci], data)),
        dlci < 64,
        b.dlcs.contains_key(dlci),
        b.dlcs[dlci].cfc == a.dlcs[dlci].cfc,
    ensures
        match state::write(a, dlci, data) {
            (after, Ok(frames)) => received(feed(b, frames).1, dlci)
                + after.dlcs[dlci].tx_buffer == a.dlcs[dlci].tx_buffer + data,
            (_, Err(_)) => false,
        },
{
    let d = state::queued(a.dlcs[dlci], data);
    law_data_goes_out_in_order(d);
    lemma_flush_data_frames(d);
    law_data_is_handed_on(b, dlci, dlc::flush(d).1);
}

// ---------------------------------------------------------------------------
// Credits
// ---------------------------------------------------------------------------

/// Without credit-based flow control no frame carries a credit octet, and
/// nothing waits.
pub proof fn law_no_credits_without_cfc(d: DlcModel, i: int)
    requires
        !d.cfc,
        dlc::well_formed(d),
        d.dlci < 64,
        0 <= i < dlc::flush(d).1.len(),
    ensures
        match frame::frame_of(dlc::flush(d).1[i]) {
            Some(f) => f.p_f == 0,
            None => false,
        },
        dlc::flush(d).0.tx_buffer == Seq::<u8>::empty(),
        dlc::flush(d).0.rx_credits == d.rx_credits,
{
    lemma_plain_without_credits(d, d.tx_buffer, i);
}

proof fn lemma_plain_without_credits(d: DlcModel, buffer: Seq<u8>, i: int)
    requires
        d.dlci < 64,
        d.c_r <= 1,
        0 <= i < dlc::plain_frames(d, buffer).len(),
    ensures
        match frame::frame_of(dlc::plain_frames(d, buffer)[i]) {
            Some(f) => f.p_f == 0,
            None => false,
        },
    decreases buffer.len(),
{
    let n = dlc::at_most(d.mtu as int, buffer.len());
    lemma_data_frame(d, buffer.take(n));
    if i > 0 {
        lemma_plain_without_credits(d, buffer.skip(n), i - 1);
    }
}

/// Sending never takes more credits than there are: each frame costs one, but
/// for one frame that may only grant credits. It stops when nothing waits or
/// no credit is left, and the peer's credits never exceed their maximum.
pub proof fn law_credits_are_kept(d: DlcModel)
    requires
        d.cfc,
        dlc::well_formed(d),
        d.rx_credits <= d.rx_max_credits,
    ensures
        dlc::flush(d).0.tx_credits <= d.tx_credits,
        dlc::flush(d).1.len() <= d.tx_credits - dlc::flush(d).0.tx_credits + 1,
        dlc::flush(d).0.tx_buffer.len() == 0 || dlc::flush(d).0.tx_credits == 0,
        d.rx_credits <= dlc::flush(d).0.rx_credits <= d.rx_max_credits,
        dlc::flush(d).0.rx_credits == d.rx_credits + dlc::credits_owed(d),
        d.rx_credits_threshold < d.rx_max_credits ==> dlc::flush(d).0.rx_credits
            > d.rx_credits_threshold,
{
    lemma_spent_credits(dlc::grant_credits(d).0);
}

proof fn lemma_spent_credits(d: DlcModel)
    ensures
        ({
            let (after, frames) = dlc::spend_credits(d);
            &&& after.tx_credits <= d.tx_credits
            &&& frames.len() == d.tx_credits - after.tx_credits
            &&& after.tx_buffer.len() == 0 || after.tx_credits == 0
            &&& after.rx_credits == d.rx_credits
        }),
    decreases d.tx_credits,
{
    if d.tx_buffer.len() > 0 && d.tx_credits > 0 {
        let n = dlc::at_most(d.mtu as int, d.tx_buffer.len());
        lemma_spent_credits(
            DlcModel {
                tx_credits: (d.tx_credits - 1) as u8,
                tx_buffer: d.tx_buffer.skip(n),
                ..d
            },
        );
    }
}

/// The first negotiation decides on credit-based flow control: what a peer
/// declined stays declined, whatever arrives.
pub proof fn law_declined_flow_control_stays_declined(m: SessionModel, f: FrameModel)
    ensures
        m.cfc == CreditFlowControl::NotSupported ==> state::on_frame(m, f).state.cfc
            == CreditFlowControl::NotSupported,
        m.cfc != CreditFlowControl::Unknown ==> state::on_frame(m, f).state.cfc
            != CreditFlowControl::Unknown,
        m.cfc == CreditFlowControl::Supported && state::on_frame(m, f).state.cfc != m.cfc
            ==> f.dlci == 0,
{
}

// ---------------------------------------------------------------------------
// Sessions
// ---------------------------------------------------------------------------

/// Every frame keeps a session well-formed, and so do the requests of this
/// side: the C/R bits stay bits, and no DLC is left with bytes that no frame
/// can carry.
pub proof fn law_session_stays_well_formed(m: SessionModel, f: FrameModel)
    requires
        state::well_formed(m),
    ensures
        state::well_formed(state::on_frame(m, f).state),
{
    if f.dlci != 0 && f.frame_type == frame_type::UIH && m.dlcs.contains_key(f.dlci) {
        dlc::lemma_flush_stays_well_formed(state::credited(m.dlcs[f.dlci], f));
    }
}

/// Whether the DLCIs of a session fit the six bits that a frame has for them.
pub open spec fn dlcis_fit(m: SessionModel) -> bool {
    forall|k: u8| #[trigger] m.dlcs.contains_key(k) ==> k < 64
}

/// Whether the channels that a session listens on have a DLCI.
pub open spec fn channels_fit(m: SessionModel) -> bool {
    forall|k: u8| #[trigger] m.listen_configs.contains_key(k) ==> k < 32
}

/// The DLCI that a peer answers a request for a DLC with, where a frame is
/// such an answer.
pub open spec fn answered_dlci(f: FrameModel) -> Option<u8> {
    match mcc::mcc_of(f.information) {
        Some((kind, command, from, to)) => if f.dlci == 0 && f.frame_type == frame_type::UIH && kind
            == mcc_type::PN && !command {
            match mcc::pn_of(f.information.subrange(from, to)) {
                Some(pn) => Some(pn.dlci),
                None => None,
            }
        } else {
            None
        },
        None => None,
    }
}

/// The DLCIs of a session stay below 64, and each DLC stands under its own. A
/// session that listens on valid channels gets others only from a peer that
/// answers its request with one.
pub proof fn law_dlcis_stay_small(m: SessionModel, data: Seq<u8>)
    requires
        state::well_formed(m),
        dlcis_fit(m),
        channels_fit(m),
        match frame::frame_of(data) {
            Some(f) => match answered_dlci(f) {
                Some(dlci) => dlci < 64,
                None => true,
            },
            None => true,
        },
    ensures
        match frame::frame_of(data) {
            Some(f) => {
                let after = state::on_frame(m, f).state;
                &&& state::well_formed(after)
                &&& dlcis_fit(after)
                &&& channels_fit(after)
            },
            None => true,
        },
{
    if let Some(f) = frame::frame_of(data) {
        law_session_stays_well_formed(m, f);
        let address = data[0];
        assert((address >> 2) & 0x3F < 64) by (bit_vector);
    }
}

proof fn lemma_closings(dlcs: Map<u8, DlcModel>, n: nat, k: u8)
    requires
        n <= 256,
    ensures
        state::closings(dlcs, n).contains(SessionEvent::DlcClosed(k)) == (k < n
            && dlcs.contains_key(k)),
    decreases n,
{
    if n > 0 {
        let before = state::closings(dlcs, (n - 1) as nat);
        lemma_closings(dlcs, (n - 1) as nat, k);
        vstd::seq_lib::lemma_seq_contains_after_push(
            before,
            SessionEvent::DlcClosed((n - 1) as u8),
            SessionEvent::DlcClosed(k),
        );
    }
}

/// The end of a session closes exactly the DLCs that it had, and is reported
/// after them.
pub proof fn law_session_end_closes_every_dlc(m: SessionModel, outgoing: Seq<Seq<u8>>, k: u8)
    ensures
        ({
            let step = state::end_session(m, outgoing);
            &&& step.events.contains(SessionEvent::DlcClosed(k)) == m.dlcs.contains_key(k)
            &&& step.events.last() == SessionEvent::Disconnected
            &&& step.state.dlcs == Map::<u8, DlcModel>::empty()
            &&& step.state.state == MultiplexerState::Disconnected
        }),
{
    lemma_closings(m.dlcs, 256, k);
    vstd::seq_lib::lemma_seq_contains_after_push(
        state::closings(m.dlcs, 256),
        SessionEvent::Disconnected,
        SessionEvent::DlcClosed(k),
    );
}

/// A frame without information is read as it was meant.
pub proof fn lemma_bare_arrives(frame_type: u8, c_r: u8, dlci: u8)
    requires
        frame_type == frame_type::SABM || frame_type == frame_type::UA || frame_type
            == frame_type::DM || frame_type == frame_type::DISC,
        c_r <= 1,
        dlci < 64,
    ensures
        frame::frame_of(frame::bare(frame_type, c_r, dlci).bytes()) == Some(
            frame::bare(frame_type, c_r, dlci),
        ),
{
    lemma_frame_types();
    frame::law_frame_round_trip(frame::bare(frame_type, c_r, dlci));
}

/// A frame on the control channel is read as it was meant.
pub proof fn lemma_control_arrives(m: SessionModel, c_r: u8, kind: u8, command: bool, value: Seq<u8>)
    requires
        c_r <= 1,
        kind < 64,
        value.len() < 128,
    ensures
        match frame::frame_of(state::control_frame(c_r, kind, command, value)) {
            Some(f) => f == frame::uih(c_r, 0, mcc::mcc_bytes(kind, command, value), 0)
                && state::on_frame(m, f) == match kind {
                mcc_type::PN => match mcc::pn_of(value) {
                    None => state::idle(m),
                    Some(pn) => if command {
                        state::on_pn_command(m, pn)
                    } else {
                        state::on_pn_response(m, pn)
                    },
                },
                mcc_type::MSC => state::on_msc(m, command, value),
                _ => state::on_other(m, kind, command),
            },
            None => false,
        },
{
    let information = mcc::mcc_bytes(kind, command, value);
    lemma_frame_types();
    frame::law_frame_round_trip(frame::uih(c_r, 0, information, 0));
    mcc::law_mcc_round_trip(kind, command, value);
}

/// What a session does with bytes, if they are a frame.
#[verifier::opaque]
pub open spec fn on_bytes(m: SessionModel, sent: Seq<u8>) -> Step {
    match frame::frame_of(sent) {
        Some(f) => state::on_frame(m, f),
        None => state::idle(m),
    }
}

/// A session that one side starts comes up on both sides.
pub proof fn law_session_starts(a: SessionModel, b: SessionModel)
    requires
        a.role == Role::Initiator,
        a.state == MultiplexerState::Init,
        b.state == MultiplexerState::Init,
    ensures
        match state::start(a) {
            (starting, Ok(sabm)) => {
                let accepted = on_bytes(b, sabm);
                let started = on_bytes(starting, accepted.outgoing[0]);
                &&& accepted.outgoing.len() == 1
                &&& accepted.events == seq![SessionEvent::Started]
                &&& accepted.state == SessionModel { state: MultiplexerState::Connected, ..b }
                &&& started.outgoing == Seq::<Seq<u8>>::empty()
                &&& started.events == seq![SessionEvent::Started]
                &&& started.state == SessionModel { state: MultiplexerState::Connected, ..a }
            },
            (_, Err(_)) => false,
        },
{
    reveal(on_bytes);
    lemma_bare_arrives(frame_type::SABM, 1, 0);
    lemma_bare_arrives(frame_type::UA, 1, 0);
}

/// A session that one side ends goes down on both sides.
pub proof fn law_session_ends(a: SessionModel, b: SessionModel)
    requires
        a.state == MultiplexerState::Connected,
    ensures
        match state::disconnect(a) {
            (ending, Ok(disc)) => {
                let accepted = on_bytes(b, disc);
                let ended = on_bytes(ending, accepted.outgoing[0]);
                &&& accepted.outgoing.len() == 1
                &&& accepted == state::end_session(b, accepted.outgoing)
                &&& ended == state::end_session(ending, seq![])
            },
            (_, Err(_)) => false,
        },
{
    reveal(on_bytes);
    lemma_bare_arrives(frame_type::DISC, state::role_bit(a.role), 0);
    lemma_bare_arrives(frame_type::UA, (1 - state::role_bit(b.role)) as u8, 0);
}

proof fn lemma_pn_arrives(m: SessionModel, c_r: u8, command: bool, pn: MccPn)
    requires
        c_r <= 1,
        pn.initial_credits < 8,
    ensures
        on_bytes(m, state::control_frame(c_r, mcc_type::PN, command, pn.wire())) == if command {
            state::on_pn_command(m, pn)
        } else {
            state::on_pn_response(m, pn)
        },
{
    reveal(on_bytes);
    mcc::law_pn_round_trip(pn);
    lemma_control_arrives(m, c_r, mcc_type::PN, command, pn.wire());
}

proof fn lemma_dm_arrives(m: SessionModel, dlci: u8)
    requires
        0 < dlci < 64,
    ensures
        on_bytes(m, frame::bare(frame_type::DM, 1, dlci).bytes()) == state::on_dm(m, dlci),
{
    reveal(on_bytes);
    lemma_bare_arrives(frame_type::DM, 1, dlci);
}

/// A channel that the peer does not listen on is refused, and the refusal is
/// reported for that channel.
pub proof fn law_unlistened_channel_is_refused(
    a: SessionModel,
    b: SessionModel,
    channel: u8,
    max_frame_size: u16,
    initial_credits: u8,
)
    requires
        a.state == MultiplexerState::Connected,
        0 < channel < 32,
        !b.listen_configs.contains_key(channel),
    ensures
        match state::open_dlc(a, channel, max_frame_size, initial_credits) {
            (opening, Ok(request)) => {
                let refused = on_bytes(b, request);
                let rejected = on_bytes(opening, refused.outgoing[0]);
                &&& refused.outgoing.len() == 1
                &&& refused.state == b
                &&& refused.events == Seq::<SessionEvent>::empty()
                &&& rejected.events == seq![SessionEvent::DlcOpenRejected(channel)]
                &&& rejected.state == SessionModel { pending_open: None, ..a }
            },
            (_, Err(_)) => false,
        },
{
    let pn = state::open_request(channel, max_frame_size, initial_credits);
    let opening = SessionModel {
        pending_open: Some(pn),
        state: MultiplexerState::Opening,
        ..a
    };
    lemma_pn_arrives(b, state::role_bit(a.role), true, pn);
    lemma_dm_arrives(opening, pn.dlci);
}

proof fn lemma_sabm_arrives(m: SessionModel, c_r: u8, dlci: u8)
    requires
        c_r <= 1,
        0 < dlci < 64,
        m.dlcs.contains_key(dlci),
        m.dlcs[dlci].state == DlcState::Connecting,
    ensures
        on_bytes(m, frame::bare(frame_type::SABM, c_r, dlci).bytes()) == state::opened(
            m,
            dlci,
            m.dlcs[dlci],
            seq![
                frame::bare(frame_type::UA, (1 - m.dlcs[dlci].c_r) as u8, dlci).bytes(),
                state::status_frame(m.dlcs[dlci].c_r, dlci),
            ],
        ),
{
    reveal(on_bytes);
    lemma_bare_arrives(frame_type::SABM, c_r, dlci);
}

proof fn lemma_ua_arrives(m: SessionModel, c_r: u8, dlci: u8)
    requires
        c_r <= 1,
        0 < dlci < 64,
        m.dlcs.contains_key(dlci),
        m.dlcs[dlci].state == DlcState::Connecting,
    ensures
        on_bytes(m, frame::bare(frame_type::UA, c_r, dlci).bytes()) == state::opened(
            m,
            dlci,
            m.dlcs[dlci],
            seq![state::status_frame(m.dlcs[dlci].c_r, dlci)],
        ),
{
    reveal(on_bytes);
    lemma_bare_arrives(frame_type::UA, c_r, dlci);
}

/// The answer to a request for a DLC on a channel that is listened on.
pub open spec fn open_response(b: SessionModel, pn: MccPn) -> MccPn {
    let cfc = state::negotiated(b.cfc, pn.cl == pn_cl::CFC_COMMAND);
    let credited = cfc == CreditFlowControl::Supported;
    MccPn {
        dlci: pn.dlci,
        cl: if credited {
            pn_cl::CFC_RESPONSE
        } else {
            pn_cl::NO_CFC
        },
        priority: 7,
        ack_timer: 0,
        max_frame_size: b.listen_configs[pn.dlci / 2].0,
        max_retransmissions: 0,
        initial_credits: if credited {
            state::clamped(b.listen_configs[pn.dlci / 2].1)
        } else {
            0
        },
    }
}

/// The four frames that open a DLC between two sessions, and what each side
/// is afterwards: asking, answering, SABM and UA.
pub open spec fn opened_between(
    a: SessionModel,
    b: SessionModel,
    channel: u8,
    max_frame_size: u16,
    initial_credits: u8,
) -> (Step, Step) {
    let (opening, request) = state::open_dlc(a, channel, max_frame_size, initial_credits);
    let answered = on_bytes(b, request->Ok_0);
    let asked = on_bytes(opening, answered.outgoing[0]);
    let accepted = on_bytes(answered.state, asked.outgoing[0]);
    let done = on_bytes(asked.state, accepted.outgoing[0]);
    (done, accepted)
}

/// A channel that the peer listens on opens on both sides, with the frame
/// sizes that each side gave. Credits are in use where no side declined them,
/// and then each side may send what the other granted: what it gave, seven at
/// most, and later up to 32 whenever no more than 16 are left. A frame carries
/// what the peer takes, and what fits in its MTU beside five bytes.
pub proof fn law_listened_channel_opens(
    a: SessionModel,
    b: SessionModel,
    channel: u8,
    max_frame_size: u16,
    initial_credits: u8,
)
    requires
        a.state == MultiplexerState::Connected,
        a.cfc == b.cfc,
        0 < channel < 32,
        b.listen_configs.contains_key(channel),
    ensures
        ({
            let (ours, theirs) = opened_between(a, b, channel, max_frame_size, initial_credits);
            let dlci = (channel * 2) as u8;
            let d = ours.state.dlcs[dlci];
            let p = theirs.state.dlcs[dlci];
            &&& ours.events == seq![SessionEvent::DlcOpened(dlci)]
            &&& theirs.events == seq![SessionEvent::DlcOpened(dlci)]
            &&& ours.state.state == MultiplexerState::Connected
            &&& theirs.state.state == MultiplexerState::Connected
            &&& ours.state.dlcs == a.dlcs.insert(dlci, d)
            &&& theirs.state.dlcs == b.dlcs.insert(dlci, p)
            &&& d.state == DlcState::Connected && p.state == DlcState::Connected
            &&& ours.state.cfc == theirs.state.cfc
            &&& a.cfc != CreditFlowControl::NotSupported ==> ours.state.cfc
                == CreditFlowControl::Supported
            &&& d.cfc == (ours.state.cfc == CreditFlowControl::Supported)
            &&& p.cfc == d.cfc
            &&& d.tx_credits == p.rx_credits && d.rx_credits == p.tx_credits
            &&& d.tx_max_frame_size == p.rx_max_frame_size == b.listen_configs[channel].0
            &&& p.tx_max_frame_size == d.rx_max_frame_size == max_frame_size
            &&& d.cfc ==> d.rx_credits == if initial_credits < 7 {
                initial_credits as int
            } else {
                7
            }
            &&& p.cfc ==> p.rx_credits == if b.listen_configs[channel].1 < 7 {
                b.listen_configs[channel].1 as int
            } else {
                7
            }
            &&& !d.cfc ==> d.rx_credits == 0 && p.rx_credits == 0
            &&& d.rx_max_credits == 32 && p.rx_max_credits == 32
            &&& d.rx_credits_threshold == 16 && p.rx_credits_threshold == 16
            &&& d.dlci == dlci && p.dlci == dlci
            &&& d.tx_buffer.len() == 0 && p.tx_buffer.len() == 0
            &&& d.mtu <= d.tx_max_frame_size && p.mtu <= p.tx_max_frame_size
            &&& a.peer_mtu >= 5 ==> d.mtu <= a.peer_mtu - 5 && (d.mtu == d.tx_max_frame_size
                || d.mtu == a.peer_mtu - 5)
            &&& b.peer_mtu >= 5 ==> p.mtu <= b.peer_mtu - 5 && (p.mtu == p.tx_max_frame_size
                || p.mtu == b.peer_mtu - 5)
        }),
{
    let pn = state::open_request(channel, max_frame_size, initial_credits);
    let ours = state::role_bit(a.role);
    let theirs = state::role_bit(b.role);
    let opening = SessionModel {
        pending_open: Some(pn),
        state: MultiplexerState::Opening,
        ..a
    };
    lemma_pn_arrives(b, ours, true, pn);
    let answered = state::on_pn_command(b, pn);
    let response = open_response(b, pn);
    assert(answered.outgoing[0] == state::control_frame(
        theirs,
        mcc_type::PN,
        false,
        response.wire(),
    ));
    lemma_pn_arrives(opening, theirs, false, response);
    let asked = state::on_pn_response(opening, response);
    lemma_sabm_arrives(answered.state, ours, pn.dlci);
    let accepted = on_bytes(answered.state, asked.outgoing[0]);
    lemma_ua_arrives(asked.state, (1 - theirs) as u8, pn.dlci);
    let done = on_bytes(asked.state, accepted.outgoing[0]);
    assert(opened_between(a, b, channel, max_frame_size, initial_credits) == (done, accepted));
    assert(done.state.dlcs =~= a.dlcs.insert(pn.dlci, done.state.dlcs[pn.dlci]));
    assert(accepted.state.dlcs =~= b.dlcs.insert(pn.dlci, accepted.state.dlcs[pn.dlci]));
}

/// A command that is not implemented is answered with its own type octet; a
/// response that is not implemented is not answered. Neither changes anything.
pub proof fn law_unsupported_command_is_answered(
    m: SessionModel,
    c_r: u8,
    kind: u8,
    command: bool,
    value: Seq<u8>,
)
    requires
        c_r <= 1,
        kind < 64,
        kind != mcc_type::PN,
        kind != mcc_type::MSC,
        value.len() < 128,
    ensures
        ({
            let step = on_bytes(m, state::control_frame(c_r, kind, command, value));
            &&& step.state == m
            &&& step.events == Seq::<SessionEvent>::empty()
            &&& step.outgoing == if command {
                seq![
                    state::control_frame(
                        state::role_bit(m.role),
                        mcc_type::NSC,
                        false,
                        seq![(kind << 2) | 3],
                    ),
                ]
            } else {
                seq![]
            }
        }),
{
    reveal(on_bytes);
    lemma_control_arrives(m, c_r, kind, command, value);
}

} // verus!
