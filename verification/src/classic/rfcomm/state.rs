//! The model of a session: its state, and what it sends and reports.

use vstd::prelude::*;
use crate::classic::rfcomm::dlc;
use crate::classic::rfcomm::dlc::{DlcModel, DlcState};
use crate::classic::rfcomm::frame;
use crate::classic::rfcomm::frame::FrameModel;
use crate::classic::rfcomm::frame_type;
use crate::classic::rfcomm::mcc;
use crate::classic::rfcomm::mcc::MccPn;
use crate::classic::rfcomm::mcc_type;
use crate::classic::rfcomm::pn_cl;
use crate::classic::rfcomm::{DEFAULT_FRAME_SIZE_WITHOUT_PN, MAX_INITIAL_CREDITS};
use crate::text;
use crate::types::SimbleErrorModel;

verus! {

/// Which side opened the multiplexer.
#[derive(Debug, Clone, Copy, PartialEq, Eq, Structural)]
pub enum Role {
    /// The side that started the multiplexer.
    Initiator,
    /// The side that accepted the multiplexer.
    Responder,
}

/// State of a session.
#[derive(Debug, Clone, Copy, PartialEq, Eq, Structural)]
pub enum MultiplexerState {
    /// Created, not yet started.
    Init,
    /// SABM sent, awaiting UA.
    Connecting,
    /// Session established.
    Connected,
    /// The opening of a DLC is in progress.
    Opening,
    /// DISC sent, awaiting UA.
    Disconnecting,
    /// Session closed.
    Disconnected,
}

/// Whether credit-based flow control is in use on a session. The first
/// parameter negotiation settles it; a session whose DLCs all open by a bare
/// SABM goes without.
#[derive(Debug, Clone, Copy, PartialEq, Eq, Structural)]
pub enum CreditFlowControl {
    /// Nothing was negotiated yet.
    Unknown,
    /// Frames carry credit octets and sending waits for credits.
    Supported,
    /// No credit octets.
    NotSupported,
}

/// The model of a session.
#[verifier::ext_equal]
pub struct SessionModel {
    pub role: Role,
    pub state: MultiplexerState,
    pub dlcs: Map<u8, DlcModel>,
    pub cfc: CreditFlowControl,
    pub peer_mtu: u16,
    pub pending_open: Option<MccPn>,
    /// Maximum frame size and initial credits by server channel.
    pub listen_configs: Map<u8, (u16, u8)>,
}

/// The model of an event that a session reports.
#[verifier::ext_equal]
pub enum SessionEvent {
    Started,
    Disconnected,
    DlcOpened(u8),
    DlcOpenRejected(u8),
    DlcClosed(u8),
    DataReceived(u8, Seq<u8>),
}

/// What a session becomes, sends and reports.
#[verifier::ext_equal]
pub struct Step {
    pub state: SessionModel,
    pub outgoing: Seq<Seq<u8>>,
    pub events: Seq<SessionEvent>,
}

/// What holds of every session: its DLCs are well-formed, and each is kept
/// under its own DLCI.
pub open spec fn well_formed(m: SessionModel) -> bool {
    forall|k: u8| #[trigger]
        m.dlcs.contains_key(k) ==> dlc::well_formed(m.dlcs[k]) && m.dlcs[k].dlci == k
}

/// A step that changes nothing.
pub open spec fn idle(m: SessionModel) -> Step {
    Step { state: m, outgoing: seq![], events: seq![] }
}

/// The C/R bit of what a session sends.
pub open spec fn role_bit(role: Role) -> u8 {
    match role {
        Role::Initiator => 1,
        Role::Responder => 0,
    }
}

/// The frame of a command or response on the control channel.
pub open spec fn control_frame(c_r: u8, kind: u8, command: bool, value: Seq<u8>) -> Seq<u8> {
    frame::uih(c_r, 0, mcc::mcc_bytes(kind, command, value), 0).bytes()
}

/// The modem status command that is sent when a DLC opens.
pub open spec fn status_frame(c_r: u8, dlci: u8) -> Seq<u8> {
    control_frame(c_r, mcc_type::MSC, true, mcc::ready(dlci).wire())
}

// ---------------------------------------------------------------------------
// Requests of this side
// ---------------------------------------------------------------------------

/// An error with a message.
pub open spec fn device_error(message: Seq<char>) -> SimbleErrorModel {
    SimbleErrorModel::DeviceError(message)
}

/// The error for a DLCI that does not exist.
pub open spec fn unknown_dlci(dlci: u8) -> SimbleErrorModel {
    device_error("RFCOMM: unknown DLCI "@ + text::hex8(dlci))
}

/// The error for a DLC that is not open.
pub open spec fn not_connected(dlci: u8) -> SimbleErrorModel {
    device_error("RFCOMM: DLC "@ + text::decimal(dlci as nat) + " is not connected"@)
}

/// The error for a session that is not established.
pub open spec fn no_session() -> SimbleErrorModel {
    device_error("RFCOMM: multiplexer not connected"@)
}

/// Starting a session.
pub open spec fn start(m: SessionModel) -> (SessionModel, Result<Seq<u8>, SimbleErrorModel>) {
    if m.role != Role::Initiator {
        (m, Err(device_error("RFCOMM: only the initiator starts the multiplexer"@)))
    } else if m.state != MultiplexerState::Init {
        (m, Err(device_error("RFCOMM: multiplexer already starting"@)))
    } else {
        (
            SessionModel { state: MultiplexerState::Connecting, ..m },
            Ok(frame::bare(frame_type::SABM, 1, 0).bytes()),
        )
    }
}

/// At most as many credits as the negotiation can grant.
pub open spec fn clamped(credits: u8) -> u8 {
    if credits < MAX_INITIAL_CREDITS {
        credits
    } else {
        MAX_INITIAL_CREDITS
    }
}

/// The negotiation that asks for a DLC to a server channel.
pub open spec fn open_request(channel: u8, max_frame_size: u16, initial_credits: u8) -> MccPn {
    MccPn {
        dlci: ((channel % 0x80) * 2) as u8,
        cl: pn_cl::CFC_COMMAND,
        priority: 7,
        ack_timer: 0,
        max_frame_size,
        max_retransmissions: 0,
        initial_credits: clamped(initial_credits),
    }
}

/// Asking for a DLC to a server channel.
pub open spec fn open_dlc(
    m: SessionModel,
    channel: u8,
    max_frame_size: u16,
    initial_credits: u8,
) -> (SessionModel, Result<Seq<u8>, SimbleErrorModel>) {
    if m.state != MultiplexerState::Connected {
        (m, Err(no_session()))
    } else {
        let pn = open_request(channel, max_frame_size, initial_credits);
        (
            SessionModel { pending_open: Some(pn), state: MultiplexerState::Opening, ..m },
            Ok(control_frame(role_bit(m.role), mcc_type::PN, true, pn.wire())),
        )
    }
}

/// The DLC with bytes added to those that wait.
pub open spec fn queued(d: DlcModel, data: Seq<u8>) -> DlcModel {
    DlcModel { tx_buffer: d.tx_buffer + data, ..d }
}

/// Writing bytes to a DLC.
pub open spec fn write(m: SessionModel, dlci: u8, data: Seq<u8>) -> (
    SessionModel,
    Result<Seq<Seq<u8>>, SimbleErrorModel>,
) {
    if !m.dlcs.contains_key(dlci) {
        (m, Err(unknown_dlci(dlci)))
    } else if m.dlcs[dlci].state != DlcState::Connected {
        (m, Err(not_connected(dlci)))
    } else {
        let (after, frames) = dlc::flush(queued(m.dlcs[dlci], data));
        (SessionModel { dlcs: m.dlcs.insert(dlci, after), ..m }, Ok(frames))
    }
}

/// Asking to close a DLC.
pub open spec fn close_dlc(m: SessionModel, dlci: u8) -> (
    SessionModel,
    Result<Seq<u8>, SimbleErrorModel>,
) {
    if !m.dlcs.contains_key(dlci) {
        (m, Err(unknown_dlci(dlci)))
    } else if m.dlcs[dlci].state != DlcState::Connected {
        (m, Err(not_connected(dlci)))
    } else {
        (
            SessionModel {
                dlcs: m.dlcs.insert(
                    dlci,
                    DlcModel { state: DlcState::Disconnecting, ..m.dlcs[dlci] },
                ),
                ..m
            },
            Ok(frame::bare(frame_type::DISC, role_bit(m.role), dlci).bytes()),
        )
    }
}

/// Asking to close the session.
pub open spec fn disconnect(m: SessionModel) -> (SessionModel, Result<Seq<u8>, SimbleErrorModel>) {
    if m.state != MultiplexerState::Connected {
        (m, Err(no_session()))
    } else {
        (
            SessionModel { state: MultiplexerState::Disconnecting, ..m },
            Ok(frame::bare(frame_type::DISC, role_bit(m.role), 0).bytes()),
        )
    }
}

// ---------------------------------------------------------------------------
// The control channel
// ---------------------------------------------------------------------------

/// The events for the DLCs with DLCIs below `n` that close, in ascending
/// order.
pub open spec fn closings(dlcs: Map<u8, DlcModel>, n: nat) -> Seq<SessionEvent>
    decreases n,
{
    if n == 0 {
        seq![]
    } else {
        let before = closings(dlcs, (n - 1) as nat);
        if dlcs.contains_key((n - 1) as u8) {
            before.push(SessionEvent::DlcClosed((n - 1) as u8))
        } else {
            before
        }
    }
}

/// The end of a session: every DLC closes with it.
pub open spec fn end_session(m: SessionModel, outgoing: Seq<Seq<u8>>) -> Step {
    Step {
        state: SessionModel { state: MultiplexerState::Disconnected, dlcs: Map::empty(), ..m },
        outgoing,
        events: closings(m.dlcs, 256).push(SessionEvent::Disconnected),
    }
}

/// A SABM on the control channel: starts a session that is not started.
pub open spec fn on_sabm(m: SessionModel) -> Step {
    if m.state != MultiplexerState::Init {
        idle(m)
    } else {
        Step {
            state: SessionModel { state: MultiplexerState::Connected, ..m },
            outgoing: seq![frame::bare(frame_type::UA, 1, 0).bytes()],
            events: seq![SessionEvent::Started],
        }
    }
}

/// A UA on the control channel: completes what this side asked for.
pub open spec fn on_ua(m: SessionModel) -> Step {
    match m.state {
        MultiplexerState::Connecting => Step {
            state: SessionModel { state: MultiplexerState::Connected, ..m },
            outgoing: seq![],
            events: seq![SessionEvent::Started],
        },
        MultiplexerState::Disconnecting => end_session(m, seq![]),
        _ => idle(m),
    }
}

/// A DISC on the control channel: acknowledged, and the session ends.
pub open spec fn on_disc(m: SessionModel) -> Step {
    end_session(
        m,
        seq![frame::bare(frame_type::UA, (1 - role_bit(m.role)) as u8, 0).bytes()],
    )
}

/// A DM on a DLCI: the peer refused the DLC that is being opened.
pub open spec fn on_dm(m: SessionModel, dlci: u8) -> Step {
    if m.state == MultiplexerState::Opening {
        Step {
            state: SessionModel {
                state: MultiplexerState::Connected,
                pending_open: None,
                ..m
            },
            outgoing: seq![],
            events: seq![SessionEvent::DlcOpenRejected(dlci / 2)],
        }
    } else {
        idle(m)
    }
}

/// Credit-based flow control after a negotiation: the first one settles it,
/// and what a peer declined is not taken up again.
pub open spec fn negotiated(cfc: CreditFlowControl, wanted: bool) -> CreditFlowControl {
    if !wanted {
        CreditFlowControl::NotSupported
    } else if cfc == CreditFlowControl::Unknown {
        CreditFlowControl::Supported
    } else {
        cfc
    }
}

/// The answer to a peer that asks for a DLC. A channel that is not listened
/// on is refused; credits are granted only to a peer that asked for them.
pub open spec fn on_pn_command(m: SessionModel, pn: MccPn) -> Step {
    let channel: u8 = pn.dlci / 2;
    if pn.dlci % 2 != 0 {
        idle(m)
    } else if !m.listen_configs.contains_key(channel) {
        Step {
            state: m,
            outgoing: seq![frame::bare(frame_type::DM, 1, pn.dlci).bytes()],
            events: seq![],
        }
    } else {
        let (rx_max_frame_size, rx_initial_credits) = m.listen_configs[channel];
        let cfc = negotiated(m.cfc, pn.cl == pn_cl::CFC_COMMAND);
        let credited = cfc == CreditFlowControl::Supported;
        let granted = if credited {
            clamped(rx_initial_credits)
        } else {
            0
        };
        let opening = DlcModel {
            state: DlcState::Connecting,
            ..dlc::new_dlc(
                pn.dlci,
                role_bit(m.role),
                pn.max_frame_size,
                if credited {
                    pn.initial_credits
                } else {
                    0
                },
                rx_max_frame_size,
                granted,
                m.peer_mtu,
                credited,
            )
        };
        let response = MccPn {
            dlci: pn.dlci,
            cl: if credited {
                pn_cl::CFC_RESPONSE
            } else {
                pn_cl::NO_CFC
            },
            priority: 7,
            ack_timer: 0,
            max_frame_size: rx_max_frame_size,
            max_retransmissions: 0,
            initial_credits: granted,
        };
        Step {
            state: SessionModel { cfc, dlcs: m.dlcs.insert(pn.dlci, opening), ..m },
            outgoing: seq![
                control_frame(role_bit(m.role), mcc_type::PN, false, response.wire()),
            ],
            events: seq![],
        }
    }
}

/// The answer of a peer to the DLC that this side asked for.
pub open spec fn on_pn_response(m: SessionModel, pn: MccPn) -> Step {
    if m.state != MultiplexerState::Opening {
        idle(m)
    } else {
        match m.pending_open {
            None => idle(m),
            Some(requested) => {
                let cfc = negotiated(m.cfc, pn.cl == pn_cl::CFC_RESPONSE);
                let credited = cfc == CreditFlowControl::Supported;
                let opening = DlcModel {
                    state: DlcState::Connecting,
                    ..dlc::new_dlc(
                        pn.dlci,
                        role_bit(m.role),
                        pn.max_frame_size,
                        if credited {
                            pn.initial_credits
                        } else {
                            0
                        },
                        requested.max_frame_size,
                        if credited {
                            requested.initial_credits
                        } else {
                            0
                        },
                        m.peer_mtu,
                        credited,
                    )
                };
                Step {
                    state: SessionModel {
                        cfc,
                        pending_open: None,
                        dlcs: m.dlcs.insert(pn.dlci, opening),
                        ..m
                    },
                    outgoing: seq![
                        frame::bare(frame_type::SABM, role_bit(m.role), pn.dlci).bytes(),
                    ],
                    events: seq![],
                }
            },
        }
    }
}

/// The answer to a modem status: a command for a known DLC is answered with
/// all signals asserted.
pub open spec fn on_msc(m: SessionModel, command: bool, value: Seq<u8>) -> Step {
    match mcc::msc_of(value) {
        None => idle(m),
        Some(msc) => if !m.dlcs.contains_key(msc.dlci) || !command {
            idle(m)
        } else {
            Step {
                state: m,
                outgoing: seq![
                    control_frame(
                        m.dlcs[msc.dlci].c_r,
                        mcc_type::MSC,
                        false,
                        mcc::ready(msc.dlci).wire(),
                    ),
                ],
                events: seq![],
            }
        },
    }
}

/// The answer to any other command: that it is not supported, with the type
/// octet of the command. A response is not answered.
pub open spec fn on_other(m: SessionModel, kind: u8, command: bool) -> Step {
    if command {
        Step {
            state: m,
            outgoing: seq![
                control_frame(role_bit(m.role), mcc_type::NSC, false, seq![(kind << 2) | 3]),
            ],
            events: seq![],
        }
    } else {
        idle(m)
    }
}

/// What the information of a frame on the control channel makes a session do.
pub open spec fn on_control_information(m: SessionModel, information: Seq<u8>) -> Step {
    match mcc::mcc_of(information) {
        None => idle(m),
        Some((kind, command, from, to)) => {
            let value = information.subrange(from, to);
            if kind == mcc_type::PN {
                match mcc::pn_of(value) {
                    None => idle(m),
                    Some(pn) => if command {
                        on_pn_command(m, pn)
                    } else {
                        on_pn_response(m, pn)
                    },
                }
            } else if kind == mcc_type::MSC {
                on_msc(m, command, value)
            } else {
                on_other(m, kind, command)
            }
        },
    }
}

/// What a frame on the control channel makes a session do.
pub open spec fn on_control(m: SessionModel, f: FrameModel) -> Step {
    match f.frame_type {
        frame_type::SABM => on_sabm(m),
        frame_type::UA => on_ua(m),
        frame_type::DISC => on_disc(m),
        frame_type::UIH => on_control_information(m, f.information),
        _ => idle(m),
    }
}

// ---------------------------------------------------------------------------
// Data link connections
// ---------------------------------------------------------------------------

/// A DLC that opens: what goes out, and the session afterwards.
pub open spec fn opened(m: SessionModel, dlci: u8, d: DlcModel, outgoing: Seq<Seq<u8>>) -> Step {
    Step {
        state: SessionModel {
            state: MultiplexerState::Connected,
            dlcs: m.dlcs.insert(dlci, DlcModel { state: DlcState::Connected, ..d }),
            ..m
        },
        outgoing,
        events: seq![SessionEvent::DlcOpened(dlci)],
    }
}

/// A DLC that closes.
pub open spec fn closed(m: SessionModel, dlci: u8, outgoing: Seq<Seq<u8>>) -> Step {
    Step {
        state: SessionModel { dlcs: m.dlcs.remove(dlci), ..m },
        outgoing,
        events: seq![SessionEvent::DlcClosed(dlci)],
    }
}

/// What a frame for a DLCI without a DLC makes a session do. A SABM opens the
/// DLC with defaults when its channel is listened on, and is refused
/// otherwise; a DISC is answered with DM.
pub open spec fn on_unknown(m: SessionModel, f: FrameModel) -> Step {
    let refused = Step {
        state: m,
        outgoing: seq![frame::bare(frame_type::DM, 1, f.dlci).bytes()],
        events: seq![],
    };
    if f.frame_type == frame_type::SABM {
        if !m.listen_configs.contains_key(f.dlci / 2) {
            refused
        } else {
            let (rx_max_frame_size, rx_initial_credits) = m.listen_configs[f.dlci / 2];
            let cfc = if m.cfc == CreditFlowControl::Unknown {
                CreditFlowControl::NotSupported
            } else {
                m.cfc
            };
            let credited = cfc == CreditFlowControl::Supported;
            let d = dlc::new_dlc(
                f.dlci,
                role_bit(m.role),
                DEFAULT_FRAME_SIZE_WITHOUT_PN,
                0,
                rx_max_frame_size,
                if credited {
                    rx_initial_credits
                } else {
                    0
                },
                m.peer_mtu,
                credited,
            );
            opened(
                SessionModel { cfc, ..m },
                f.dlci,
                d,
                seq![
                    frame::bare(frame_type::UA, (1 - d.c_r) as u8, f.dlci).bytes(),
                    status_frame(d.c_r, f.dlci),
                ],
            )
        }
    } else if f.frame_type == frame_type::DISC {
        refused
    } else {
        idle(m)
    }
}

/// The credits that a data frame brings, and the bytes in it. There is a
/// credit octet only with credit-based flow control and the P/F bit.
pub open spec fn unpacked(d: DlcModel, f: FrameModel) -> (u8, Seq<u8>) {
    if d.cfc && f.p_f == 1 {
        if f.information.len() == 0 {
            (0, seq![])
        } else {
            (f.information[0], f.information.skip(1))
        }
    } else {
        (0, f.information)
    }
}

/// A sum that does not go beyond what 8 bits hold.
pub open spec fn capped(a: u8, b: u8) -> u8 {
    if a + b > 0xFF {
        0xFF
    } else {
        (a + b) as u8
    }
}

/// The DLC after a data frame arrived, before anything is sent.
pub open spec fn credited(d: DlcModel, f: FrameModel) -> DlcModel {
    let (credits, data) = unpacked(d, f);
    DlcModel {
        tx_credits: capped(d.tx_credits, credits),
        rx_credits: if data.len() > 0 && d.rx_credits > 0 {
            (d.rx_credits - 1) as u8
        } else {
            d.rx_credits
        },
        ..d
    }
}

/// What a data frame makes a session do.
pub open spec fn on_data(m: SessionModel, f: FrameModel) -> Step {
    let d = m.dlcs[f.dlci];
    let data = unpacked(d, f).1;
    let (after, frames) = dlc::flush(credited(d, f));
    Step {
        state: SessionModel { dlcs: m.dlcs.insert(f.dlci, after), ..m },
        outgoing: frames,
        events: if data.len() > 0 {
            seq![SessionEvent::DataReceived(f.dlci, data)]
        } else {
            seq![]
        },
    }
}

/// What a frame for a DLC makes a session do.
pub open spec fn on_dlc(m: SessionModel, f: FrameModel) -> Step {
    if !m.dlcs.contains_key(f.dlci) {
        on_unknown(m, f)
    } else {
        let d = m.dlcs[f.dlci];
        let ua = frame::bare(frame_type::UA, (1 - d.c_r) as u8, f.dlci).bytes();
        match f.frame_type {
            frame_type::SABM => if d.state == DlcState::Connecting {
                opened(m, f.dlci, d, seq![ua, status_frame(d.c_r, f.dlci)])
            } else {
                idle(m)
            },
            frame_type::UA => match d.state {
                DlcState::Connecting => opened(m, f.dlci, d, seq![status_frame(d.c_r, f.dlci)]),
                DlcState::Disconnecting => closed(m, f.dlci, seq![]),
                _ => idle(m),
            },
            frame_type::DISC => closed(m, f.dlci, seq![ua]),
            frame_type::UIH => on_data(m, f),
            _ => idle(m),
        }
    }
}

/// What a frame makes a session do.
pub open spec fn on_frame(m: SessionModel, f: FrameModel) -> Step {
    if f.dlci == 0 {
        on_control(m, f)
    } else if f.frame_type == frame_type::DM {
        on_dm(m, f.dlci)
    } else {
        on_dlc(m, f)
    }
}

/// The error for bytes that are no frame.
pub open spec fn malformed() -> SimbleErrorModel {
    SimbleErrorModel::PacketParseError("RFCOMM: malformed frame or FCS mismatch"@)
}

} // verus!
