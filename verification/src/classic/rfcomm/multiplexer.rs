//! The session state machine, and the two roles that set sessions up.

use std::collections::HashMap;
use vstd::prelude::*;
use crate::bytes;
use crate::classic::rfcomm::dlc;
use crate::classic::rfcomm::dlc::{Dlc, DlcState};
use crate::classic::rfcomm::frame;
use crate::classic::rfcomm::frame::RfcommFrame;
use crate::classic::rfcomm::frame_type;
use crate::classic::rfcomm::mcc;
use crate::classic::rfcomm::mcc::{MccMsc, MccPn};
use crate::classic::rfcomm::mcc_type;
use crate::classic::rfcomm::pn_cl;
use crate::classic::rfcomm::state;
use crate::classic::rfcomm::state::{
    CreditFlowControl,
    MultiplexerState,
    Role,
    SessionEvent,
    SessionModel,
    Step,
};
use crate::classic::rfcomm::{DEFAULT_FRAME_SIZE_WITHOUT_PN, MAX_INITIAL_CREDITS, RFCOMM_PSM};
use crate::l2cap::classic;
use crate::l2cap::classic::{
    ChannelManagerModel,
    ClassicChannel,
    ClassicChannelManager,
    ClassicChannelSpec,
};
use crate::models;
use crate::packets::l2cap_signaling::ConnectionRequestHeader;
use crate::text;
use crate::types::{SimbleError, SimbleErrorModel};

verus! {

broadcast use vstd::std_specs::hash::group_hash_axioms;

/// Result of feeding one incoming frame into [`Multiplexer::receive`].
#[derive(Debug, Clone, PartialEq, Eq)]
pub enum MultiplexerEvent {
    /// The session is up.
    Started,
    /// The session has closed.
    Disconnected,
    /// The DLC at this DLCI finished opening.
    DlcOpened(u8),
    /// The peer refused a DLC to this server channel.
    DlcOpenRejected(u8),
    /// The DLC at this DLCI closed.
    DlcClosed(u8),
    /// Data arrived on this DLCI.
    DataReceived(u8, Vec<u8>),
}

impl View for MultiplexerEvent {
    type V = SessionEvent;

    open spec fn view(&self) -> SessionEvent {
        match *self {
            MultiplexerEvent::Started => SessionEvent::Started,
            MultiplexerEvent::Disconnected => SessionEvent::Disconnected,
            MultiplexerEvent::DlcOpened(dlci) => SessionEvent::DlcOpened(dlci),
            MultiplexerEvent::DlcOpenRejected(channel) => SessionEvent::DlcOpenRejected(channel),
            MultiplexerEvent::DlcClosed(dlci) => SessionEvent::DlcClosed(dlci),
            MultiplexerEvent::DataReceived(dlci, data) => SessionEvent::DataReceived(dlci, data@),
        }
    }
}

/// The session state machine over one L2CAP channel: it manages DLCI 0 (the
/// control channel) and any number of data [`Dlc`]s.
#[derive(Debug)]
pub struct Multiplexer {
    /// Whether this side is the initiator or the responder.
    pub role: Role,
    /// Current session state.
    pub state: MultiplexerState,
    /// Data link connections by DLCI.
    pub dlcs: HashMap<u8, Dlc>,
    /// Whether credit-based flow control is in use.
    pub cfc: CreditFlowControl,
    /// The peer's L2CAP MTU.
    pub peer_mtu: u16,
    /// What this side asked for when it is opening a DLC.
    pub pending_open: Option<MccPn>,
    /// Maximum frame size and initial credits of the server channels that are
    /// listened on.
    pub listen_configs: HashMap<u8, (u16, u8)>,
}

impl View for Multiplexer {
    type V = SessionModel;

    open spec fn view(&self) -> SessionModel {
        SessionModel {
            role: self.role,
            state: self.state,
            dlcs: models::map_views(self.dlcs@),
            cfc: self.cfc,
            peer_mtu: self.peer_mtu,
            pending_open: self.pending_open,
            listen_configs: self.listen_configs@,
        }
    }
}

/// The model of the bytes to send, or of the error.
pub open spec fn frame_outcome(r: Result<Vec<u8>, SimbleError>) -> Result<
    Seq<u8>,
    SimbleErrorModel,
> {
    match r {
        Ok(sent) => Ok(sent@),
        Err(why) => Err(why@),
    }
}

/// The model of the frames to send, or of the error.
pub open spec fn frames_outcome(r: Result<Vec<Vec<u8>>, SimbleError>) -> Result<
    Seq<Seq<u8>>,
    SimbleErrorModel,
> {
    match r {
        Ok(frames) => Ok(models::seq_views(frames@)),
        Err(why) => Err(why@),
    }
}

/// The model of a step.
pub open spec fn step_view(
    after: SessionModel,
    r: (Vec<Vec<u8>>, Vec<MultiplexerEvent>),
) -> Step {
    Step {
        state: after,
        outgoing: models::seq_views(r.0@),
        events: models::seq_views(r.1@),
    }
}

fn device_error(message: &str) -> (r: SimbleError)
    ensures
        r@ == state::device_error(message@),
{
    SimbleError::DeviceError(text::owned(message))
}

fn unknown_dlci(dlci: u8) -> (r: SimbleError)
    ensures
        r@ == state::unknown_dlci(dlci),
{
    let mut message = text::owned("RFCOMM: unknown DLCI ");
    text::append_hex8(&mut message, dlci);
    SimbleError::DeviceError(message)
}

fn not_connected(dlci: u8) -> (r: SimbleError)
    ensures
        r@ == state::not_connected(dlci),
{
    let mut message = text::owned("RFCOMM: DLC ");
    text::append_decimal(&mut message, dlci as u64);
    message.append(" is not connected");
    SimbleError::DeviceError(message)
}

fn no_frames() -> (r: Vec<Vec<u8>>)
    ensures
        models::seq_views(r@) == Seq::<Seq<u8>>::empty(),
{
    let r: Vec<Vec<u8>> = Vec::new();
    assert(models::seq_views(r@) =~= Seq::<Seq<u8>>::empty());
    r
}

fn one_frame(sent: Vec<u8>) -> (r: Vec<Vec<u8>>)
    ensures
        models::seq_views(r@) == seq![sent@],
{
    let mut r: Vec<Vec<u8>> = Vec::new();
    r.push(sent);
    assert(models::seq_views(r@) =~= seq![sent@]);
    r
}

fn two_frames(first: Vec<u8>, second: Vec<u8>) -> (r: Vec<Vec<u8>>)
    ensures
        models::seq_views(r@) == seq![first@, second@],
{
    let mut r: Vec<Vec<u8>> = Vec::new();
    r.push(first);
    r.push(second);
    assert(models::seq_views(r@) =~= seq![first@, second@]);
    r
}

fn no_events() -> (r: Vec<MultiplexerEvent>)
    ensures
        models::seq_views(r@) == Seq::<SessionEvent>::empty(),
{
    let r: Vec<MultiplexerEvent> = Vec::new();
    assert(models::seq_views(r@) =~= Seq::<SessionEvent>::empty());
    r
}

fn one_event(event: MultiplexerEvent) -> (r: Vec<MultiplexerEvent>)
    ensures
        models::seq_views(r@) == seq![event@],
{
    let mut r: Vec<MultiplexerEvent> = Vec::new();
    r.push(event);
    assert(models::seq_views(r@) =~= seq![event@]);
    r
}

fn clamp_credits(credits: u8) -> (r: u8)
    ensures
        r == state::clamped(credits),
{
    if credits < MAX_INITIAL_CREDITS {
        credits
    } else {
        MAX_INITIAL_CREDITS
    }
}

fn control_frame(c_r: u8, kind: u8, command: bool, value: &[u8]) -> (r: Vec<u8>)
    ensures
        r@ == state::control_frame(c_r, kind, command, value@),
{
    let mcc = mcc::make_mcc(kind, command, value);
    RfcommFrame::uih(c_r, 0, mcc, 0).to_bytes()
}

/// The modem status command that every side sends once its DLC opens.
fn msc_command(c_r: u8, dlci: u8) -> (r: Vec<u8>)
    ensures
        r@ == state::status_frame(c_r, dlci),
{
    let value = MccMsc::default_response(dlci).to_bytes();
    control_frame(c_r, mcc_type::MSC, true, value.as_slice())
}

/// Reserves a server channel; `false` when it is already reserved.
fn reserve_listen_channel(
    listen_configs: &mut HashMap<u8, (u16, u8)>,
    channel: u8,
    max_frame_size: u16,
    initial_credits: u8,
) -> (r: bool)
    ensures
        r == !old(listen_configs)@.contains_key(channel),
        final(listen_configs)@ == (if r {
            old(listen_configs)@.insert(channel, (max_frame_size, initial_credits))
        } else {
            old(listen_configs)@
        }),
{
    if listen_configs.contains_key(&channel) {
        return false;
    }
    listen_configs.insert(channel, (max_frame_size, initial_credits));
    true
}

/// A new session.
pub open spec fn new_session(role: Role, peer_mtu: u16) -> SessionModel {
    SessionModel {
        role,
        state: MultiplexerState::Init,
        dlcs: Map::empty(),
        cfc: CreditFlowControl::Unknown,
        peer_mtu,
        pending_open: None,
        listen_configs: Map::empty(),
    }
}

impl Multiplexer {
    /// A session that is not started, sized to the peer's L2CAP MTU.
    pub fn new(role: Role, peer_mtu: u16) -> (r: Self)
        ensures
            r@ == new_session(role, peer_mtu),
            state::well_formed(r@),
    {
        let r = Multiplexer {
            role,
            state: MultiplexerState::Init,
            dlcs: HashMap::new(),
            cfc: CreditFlowControl::Unknown,
            peer_mtu,
            pending_open: None,
            listen_configs: HashMap::new(),
        };
        assert(r@.dlcs =~= Map::empty());
        r
    }

    /// Whether the session is up.
    pub fn is_connected(&self) -> (r: bool)
        ensures
            r == (self@.state == MultiplexerState::Connected),
    {
        self.state == MultiplexerState::Connected
    }

    fn role_c_r(&self) -> (r: u8)
        ensures
            r == state::role_bit(self@.role),
            r <= 1,
    {
        match self.role {
            Role::Initiator => 1,
            Role::Responder => 0,
        }
    }

    /// Initiator only: builds the SABM that starts the session.
    pub fn start(&mut self) -> (r: Result<Vec<u8>, SimbleError>)
        ensures
            (final(self)@, frame_outcome(r)) == state::start(old(self)@),
    {
        if self.role != Role::Initiator {
            return Err(device_error("RFCOMM: only the initiator starts the multiplexer"));
        }
        if self.state != MultiplexerState::Init {
            return Err(device_error("RFCOMM: multiplexer already starting"));
        }
        self.state = MultiplexerState::Connecting;
        Ok(RfcommFrame::sabm(1, 0).to_bytes())
    }

    /// Reserves a server channel (1 to 30), to be accepted when a peer asks
    /// for it. `false` when it is already reserved.
    pub fn listen(&mut self, channel: u8, max_frame_size: u16, initial_credits: u8) -> (r: bool)
        ensures
            r == !old(self)@.listen_configs.contains_key(channel),
            final(self)@ == (SessionModel {
                listen_configs: if r {
                    old(self)@.listen_configs.insert(channel, (max_frame_size, initial_credits))
                } else {
                    old(self)@.listen_configs
                },
                ..old(self)@
            }),
    {
        reserve_listen_channel(&mut self.listen_configs, channel, max_frame_size, initial_credits)
    }

    /// Starts opening a DLC to a server channel (1 to 30): builds the
    /// negotiation command. Either role may call this once connected.
    pub fn open_dlc(&mut self, channel: u8, max_frame_size: u16, initial_credits: u8) -> (r: Result<
        Vec<u8>,
        SimbleError,
    >)
        ensures
            (final(self)@, frame_outcome(r)) == state::open_dlc(
                old(self)@,
                channel,
                max_frame_size,
                initial_credits,
            ),
    {
        if self.state != MultiplexerState::Connected {
            return Err(device_error("RFCOMM: multiplexer not connected"));
        }
        let pn = MccPn {
            dlci: (channel % 0x80) * 2,
            cl: pn_cl::CFC_COMMAND,
            priority: 7,
            ack_timer: 0,
            max_frame_size,
            max_retransmissions: 0,
            initial_credits: clamp_credits(initial_credits),
        };
        self.pending_open = Some(pn);
        self.state = MultiplexerState::Opening;
        let value = pn.to_bytes();
        Ok(control_frame(self.role_c_r(), mcc_type::PN, true, value.as_slice()))
    }

    /// Queues bytes on an open DLC and returns the frames to send. A DLC
    /// without credit-based flow control must have room for a byte in a frame.
    pub fn write(&mut self, dlci: u8, data: &[u8]) -> (r: Result<Vec<Vec<u8>>, SimbleError>)
        requires
            state::well_formed(old(self)@),
            old(self)@.dlcs.contains_key(dlci) ==> dlc::well_formed(
                state::queued(old(self)@.dlcs[dlci], data@),
            ),
        ensures
            (final(self)@, frames_outcome(r)) == state::write(old(self)@, dlci, data@),
            state::well_formed(final(self)@),
    {
        let ghost m = self@;
        match self.dlcs.remove(&dlci) {
            None => {
                assert(self@ =~= m);
                Err(unknown_dlci(dlci))
            },
            Some(mut d) => {
                let ghost before = d@;
                if d.state != DlcState::Connected {
                    self.dlcs.insert(dlci, d);
                    assert(self@.dlcs =~= m.dlcs);
                    return Err(not_connected(dlci));
                }
                d.queue(data);
                proof {
                    assert(m.dlcs.contains_key(dlci));
                    dlc::lemma_flush_stays_well_formed(state::queued(before, data@));
                }
                let frames = d.process_tx();
                let ghost after = d@;
                self.dlcs.insert(dlci, d);
                assert(self@.dlcs =~= m.dlcs.insert(dlci, after));
                Ok(frames)
            },
        }
    }

    /// Starts closing an open DLC: builds the DISC.
    pub fn close_dlc(&mut self, dlci: u8) -> (r: Result<Vec<u8>, SimbleError>)
        ensures
            (final(self)@, frame_outcome(r)) == state::close_dlc(old(self)@, dlci),
            state::well_formed(old(self)@) ==> state::well_formed(final(self)@),
    {
        let ghost m = self@;
        match self.dlcs.remove(&dlci) {
            None => {
                assert(self@ =~= m);
                Err(unknown_dlci(dlci))
            },
            Some(mut d) => {
                if d.state != DlcState::Connected {
                    self.dlcs.insert(dlci, d);
                    assert(self@.dlcs =~= m.dlcs);
                    return Err(not_connected(dlci));
                }
                d.state = DlcState::Disconnecting;
                let ghost after = d@;
                self.dlcs.insert(dlci, d);
                assert(self@.dlcs =~= m.dlcs.insert(dlci, after));
                Ok(RfcommFrame::disc(self.role_c_r(), dlci).to_bytes())
            },
        }
    }

    /// Starts closing the session: builds the DISC.
    pub fn disconnect(&mut self) -> (r: Result<Vec<u8>, SimbleError>)
        ensures
            (final(self)@, frame_outcome(r)) == state::disconnect(old(self)@),
    {
        if self.state != MultiplexerState::Connected {
            return Err(device_error("RFCOMM: multiplexer not connected"));
        }
        self.state = MultiplexerState::Disconnecting;
        Ok(RfcommFrame::disc(self.role_c_r(), 0).to_bytes())
    }

    // -- Receiving ------------------------------------------------------------

    /// Processes one incoming frame, returning the frames to send and any
    /// events. Bytes that are no frame, or whose check sequence does not
    /// match, are an error.
    pub fn receive(&mut self, bytes: &[u8]) -> (r: Result<
        (Vec<Vec<u8>>, Vec<MultiplexerEvent>),
        SimbleError,
    >)
        requires
            state::well_formed(old(self)@),
        ensures
            match r {
                Ok(out) => match frame::frame_of(bytes@) {
                    Some(f) => step_view(final(self)@, out) == state::on_frame(old(self)@, f),
                    None => false,
                },
                Err(why) => frame::frame_of(bytes@) is None && why@ == state::malformed()
                    && final(self)@ == old(self)@,
            },
            state::well_formed(final(self)@),
    {
        match RfcommFrame::parse(bytes) {
            None => Err(
                SimbleError::PacketParseError(
                    text::owned("RFCOMM: malformed frame or FCS mismatch"),
                ),
            ),
            Some(f) => {
                if f.dlci == 0 {
                    Ok(self.on_control_frame(f))
                } else if f.frame_type == frame_type::DM {
                    Ok(self.on_dm_frame(f.dlci))
                } else {
                    Ok(self.on_dlc_frame(f))
                }
            },
        }
    }

    fn on_control_frame(&mut self, f: RfcommFrame) -> (r: (Vec<Vec<u8>>, Vec<MultiplexerEvent>))
        requires
            state::well_formed(old(self)@),
        ensures
            step_view(final(self)@, r) == state::on_control(old(self)@, f@),
            state::well_formed(final(self)@),
    {
        match f.frame_type {
            frame_type::SABM => self.on_sabm(),
            frame_type::UA => self.on_ua(),
            frame_type::DISC => self.on_disc(),
            frame_type::UIH => self.on_uih_control(&f.information),
            _ => (no_frames(), no_events()),
        }
    }

    fn on_sabm(&mut self) -> (r: (Vec<Vec<u8>>, Vec<MultiplexerEvent>))
        ensures
            step_view(final(self)@, r) == state::on_sabm(old(self)@),
            state::well_formed(old(self)@) ==> state::well_formed(final(self)@),
    {
        if self.state != MultiplexerState::Init {
            return (no_frames(), no_events());
        }
        self.state = MultiplexerState::Connected;
        (one_frame(RfcommFrame::ua(1, 0).to_bytes()), one_event(MultiplexerEvent::Started))
    }

    fn on_ua(&mut self) -> (r: (Vec<Vec<u8>>, Vec<MultiplexerEvent>))
        ensures
            step_view(final(self)@, r) == state::on_ua(old(self)@),
            state::well_formed(old(self)@) ==> state::well_formed(final(self)@),
    {
        match self.state {
            MultiplexerState::Connecting => {
                self.state = MultiplexerState::Connected;
                (no_frames(), one_event(MultiplexerEvent::Started))
            },
            MultiplexerState::Disconnecting => {
                let events = self.end_session();
                (no_frames(), events)
            },
            _ => (no_frames(), no_events()),
        }
    }

    fn on_disc(&mut self) -> (r: (Vec<Vec<u8>>, Vec<MultiplexerEvent>))
        ensures
            step_view(final(self)@, r) == state::on_disc(old(self)@),
            state::well_formed(final(self)@),
    {
        let c_r: u8 = 1 - self.role_c_r();
        let events = self.end_session();
        (one_frame(RfcommFrame::ua(c_r, 0).to_bytes()), events)
    }

    /// Ends the session: every DLC closes with it.
    fn end_session(&mut self) -> (r: Vec<MultiplexerEvent>)
        ensures
            models::seq_views(r@) == state::closings(old(self)@.dlcs, 256).push(
                SessionEvent::Disconnected,
            ),
            final(self)@ == (SessionModel {
                state: MultiplexerState::Disconnected,
                dlcs: Map::empty(),
                ..old(self)@
            }),
    {
        let ghost m = self@;
        let mut events: Vec<MultiplexerEvent> = Vec::new();
        let mut dlci: u16 = 0;
        assert(models::seq_views(events@) =~= state::closings(m.dlcs, 0));
        while dlci < 256
            invariant
                dlci <= 256,
                self@ == m,
                models::seq_views(events@) == state::closings(m.dlcs, dlci as nat),
            decreases 256 - dlci,
        {
            let key: u8 = dlci as u8;
            if self.dlcs.contains_key(&key) {
                let event = MultiplexerEvent::DlcClosed(key);
                proof {
                    models::lemma_seq_views_push(events@, event);
                }
                events.push(event);
            }
            dlci = dlci + 1;
        }
        proof {
            models::lemma_seq_views_push(events@, MultiplexerEvent::Disconnected);
        }
        events.push(MultiplexerEvent::Disconnected);
        self.dlcs = HashMap::new();
        self.state = MultiplexerState::Disconnected;
        assert(self@.dlcs =~= Map::empty());
        events
    }

    fn on_dm_frame(&mut self, dlci: u8) -> (r: (Vec<Vec<u8>>, Vec<MultiplexerEvent>))
        ensures
            step_view(final(self)@, r) == state::on_dm(old(self)@, dlci),
            state::well_formed(old(self)@) ==> state::well_formed(final(self)@),
    {
        if self.state != MultiplexerState::Opening {
            return (no_frames(), no_events());
        }
        self.state = MultiplexerState::Connected;
        self.pending_open = None;
        (no_frames(), one_event(MultiplexerEvent::DlcOpenRejected(dlci / 2)))
    }

    fn on_uih_control(&mut self, information: &[u8]) -> (r: (Vec<Vec<u8>>, Vec<MultiplexerEvent>))
        requires
            state::well_formed(old(self)@),
        ensures
            step_view(final(self)@, r) == state::on_control_information(old(self)@, information@),
            state::well_formed(final(self)@),
    {
        match mcc::parse_mcc(information) {
            None => (no_frames(), no_events()),
            Some((kind, command, value)) => match kind {
                mcc_type::PN => self.on_mcc_pn(command, value),
                mcc_type::MSC => self.on_mcc_msc(command, value),
                _ => self.on_mcc_other(kind, command),
            },
        }
    }

    fn on_mcc_pn(&mut self, command: bool, value: &[u8]) -> (r: (
        Vec<Vec<u8>>,
        Vec<MultiplexerEvent>,
    ))
        requires
            state::well_formed(old(self)@),
        ensures
            step_view(final(self)@, r) == match mcc::pn_of(value@) {
                None => state::idle(old(self)@),
                Some(pn) => if command {
                    state::on_pn_command(old(self)@, pn)
                } else {
                    state::on_pn_response(old(self)@, pn)
                },
            },
            state::well_formed(final(self)@),
    {
        match MccPn::parse(value) {
            None => (no_frames(), no_events()),
            Some(pn) => {
                if command {
                    self.on_mcc_pn_command(pn)
                } else {
                    self.on_mcc_pn_response(pn)
                }
            },
        }
    }

    /// Settles credit-based flow control from one negotiation.
    fn negotiate_cfc(&mut self, peer_wants_cfc: bool) -> (r: bool)
        ensures
            final(self)@ == (SessionModel {
                cfc: state::negotiated(old(self)@.cfc, peer_wants_cfc),
                ..old(self)@
            }),
            r == (final(self)@.cfc == CreditFlowControl::Supported),
    {
        if !peer_wants_cfc {
            self.cfc = CreditFlowControl::NotSupported;
        } else if self.cfc == CreditFlowControl::Unknown {
            self.cfc = CreditFlowControl::Supported;
        }
        self.cfc == CreditFlowControl::Supported
    }

    fn on_mcc_pn_command(&mut self, pn: MccPn) -> (r: (Vec<Vec<u8>>, Vec<MultiplexerEvent>))
        requires
            state::well_formed(old(self)@),
        ensures
            step_view(final(self)@, r) == state::on_pn_command(old(self)@, pn),
            state::well_formed(final(self)@),
    {
        let ghost m = self@;
        if pn.dlci % 2 != 0 {
            // Not expected in a command.
            return (no_frames(), no_events());
        }
        let channel: u8 = pn.dlci / 2;
        let (rx_max_frame_size, rx_initial_credits) = match self.listen_configs.get(&channel) {
            None => {
                return (one_frame(RfcommFrame::dm(1, pn.dlci).to_bytes()), no_events());
            },
            Some(config) => *config,
        };
        // Credits are granted only to a peer that asked for them: to any other
        // the credit octets would look like data.
        let cfc = self.negotiate_cfc(pn.cl == pn_cl::CFC_COMMAND);
        let granted: u8 = if cfc {
            clamp_credits(rx_initial_credits)
        } else {
            0
        };
        let mut d = Dlc::new(
            pn.dlci,
            self.role_c_r(),
            pn.max_frame_size,
            if cfc {
                pn.initial_credits
            } else {
                0
            },
            rx_max_frame_size,
            granted,
            self.peer_mtu,
            cfc,
        );
        d.state = DlcState::Connecting;
        let ghost opening = d@;
        self.dlcs.insert(pn.dlci, d);
        assert(self@.dlcs =~= m.dlcs.insert(pn.dlci, opening));
        let response = MccPn {
            dlci: pn.dlci,
            cl: if cfc {
                pn_cl::CFC_RESPONSE
            } else {
                pn_cl::NO_CFC
            },
            priority: 7,
            ack_timer: 0,
            max_frame_size: rx_max_frame_size,
            max_retransmissions: 0,
            initial_credits: granted,
        };
        let value = response.to_bytes();
        let sent = control_frame(self.role_c_r(), mcc_type::PN, false, value.as_slice());
        (one_frame(sent), no_events())
    }

    fn on_mcc_pn_response(&mut self, pn: MccPn) -> (r: (Vec<Vec<u8>>, Vec<MultiplexerEvent>))
        requires
            state::well_formed(old(self)@),
        ensures
            step_view(final(self)@, r) == state::on_pn_response(old(self)@, pn),
            state::well_formed(final(self)@),
    {
        let ghost m = self@;
        if self.state != MultiplexerState::Opening {
            return (no_frames(), no_events());
        }
        let requested = match self.pending_open {
            None => {
                return (no_frames(), no_events());
            },
            Some(requested) => requested,
        };
        self.pending_open = None;
        let cfc = self.negotiate_cfc(pn.cl == pn_cl::CFC_RESPONSE);
        let mut d = Dlc::new(
            pn.dlci,
            self.role_c_r(),
            pn.max_frame_size,
            if cfc {
                pn.initial_credits
            } else {
                0
            },
            requested.max_frame_size,
            if cfc {
                requested.initial_credits
            } else {
                0
            },
            self.peer_mtu,
            cfc,
        );
        d.state = DlcState::Connecting;
        let ghost opening = d@;
        self.dlcs.insert(pn.dlci, d);
        assert(self@.dlcs =~= m.dlcs.insert(pn.dlci, opening));
        (one_frame(RfcommFrame::sabm(self.role_c_r(), pn.dlci).to_bytes()), no_events())
    }

    fn on_mcc_msc(&mut self, command: bool, value: &[u8]) -> (r: (
        Vec<Vec<u8>>,
        Vec<MultiplexerEvent>,
    ))
        requires
            state::well_formed(old(self)@),
        ensures
            step_view(final(self)@, r) == state::on_msc(old(self)@, command, value@),
            state::well_formed(final(self)@),
    {
        let msc = match MccMsc::parse(value) {
            None => {
                return (no_frames(), no_events());
            },
            Some(msc) => msc,
        };
        let c_r: u8 = match self.dlcs.get(&msc.dlci) {
            None => {
                return (no_frames(), no_events());
            },
            Some(d) => d.c_r,
        };
        if !command {
            return (no_frames(), no_events());
        }
        let response = MccMsc::default_response(msc.dlci).to_bytes();
        (
            one_frame(control_frame(c_r, mcc_type::MSC, false, response.as_slice())),
            no_events(),
        )
    }

    /// Answers a command that is not implemented. A response is not answered:
    /// two peers that both lack it would go on forever.
    fn on_mcc_other(&mut self, kind: u8, command: bool) -> (r: (
        Vec<Vec<u8>>,
        Vec<MultiplexerEvent>,
    ))
        ensures
            step_view(final(self)@, r) == state::on_other(old(self)@, kind, command),
            state::well_formed(old(self)@) ==> state::well_formed(final(self)@),
    {
        if !command {
            return (no_frames(), no_events());
        }
        let value: Vec<u8> = vec![(kind << 2) | 3];
        assert(value@ =~= seq![(kind << 2) | 3]);
        let sent = control_frame(self.role_c_r(), mcc_type::NSC, false, &value);
        (one_frame(sent), no_events())
    }

    /// Puts a DLC in the connected state, and the session with it.
    fn open_connection(&mut self, dlci: u8, mut d: Dlc, outgoing: Vec<Vec<u8>>) -> (r: (
        Vec<Vec<u8>>,
        Vec<MultiplexerEvent>,
    ))
        requires
            state::well_formed(old(self)@),
            dlc::well_formed(d@),
            d@.dlci == dlci,
        ensures
            step_view(final(self)@, r) == state::opened(
                old(self)@,
                dlci,
                d@,
                models::seq_views(outgoing@),
            ),
            state::well_formed(final(self)@),
    {
        let ghost m = self@;
        d.state = DlcState::Connected;
        let ghost open = d@;
        self.dlcs.insert(dlci, d);
        assert(self@.dlcs =~= m.dlcs.insert(dlci, open));
        self.state = MultiplexerState::Connected;
        (outgoing, one_event(MultiplexerEvent::DlcOpened(dlci)))
    }

    fn on_dlc_frame(&mut self, f: RfcommFrame) -> (r: (Vec<Vec<u8>>, Vec<MultiplexerEvent>))
        requires
            state::well_formed(old(self)@),
        ensures
            step_view(final(self)@, r) == state::on_dlc(old(self)@, f@),
            state::well_formed(final(self)@),
    {
        let ghost m = self@;
        let dlci: u8 = f.dlci;
        let d = match self.dlcs.remove(&dlci) {
            None => {
                assert(self@ =~= m);
                return self.on_frame_for_unknown_dlci(&f);
            },
            Some(d) => d,
        };
        let ghost before = d@;
        assert(dlc::well_formed(m.dlcs[dlci]));
        assert(before == m.dlcs[dlci]);
        assert(self@.dlcs =~= m.dlcs.remove(dlci));
        assert(m.dlcs.remove(dlci).insert(dlci, before) =~= m.dlcs);
        let c_r: u8 = d.c_r;
        let ua = RfcommFrame::ua(1 - c_r, dlci).to_bytes();
        match f.frame_type {
            frame_type::SABM => {
                if d.state == DlcState::Connecting {
                    let r = self.open_connection(
                        dlci,
                        d,
                        two_frames(ua, msc_command(c_r, dlci)),
                    );
                    assert(self@.dlcs =~= state::on_dlc(m, f@).state.dlcs);
                    r
                } else {
                    self.dlcs.insert(dlci, d);
                    assert(self@.dlcs =~= m.dlcs);
                    (no_frames(), no_events())
                }
            },
            frame_type::UA => {
                if d.state == DlcState::Connecting {
                    let r = self.open_connection(dlci, d, one_frame(msc_command(c_r, dlci)));
                    assert(self@.dlcs =~= state::on_dlc(m, f@).state.dlcs);
                    r
                } else if d.state == DlcState::Disconnecting {
                    (no_frames(), one_event(MultiplexerEvent::DlcClosed(dlci)))
                } else {
                    self.dlcs.insert(dlci, d);
                    assert(self@.dlcs =~= m.dlcs);
                    (no_frames(), no_events())
                }
            },
            frame_type::DISC => (one_frame(ua), one_event(MultiplexerEvent::DlcClosed(dlci))),
            frame_type::UIH => {
                let r = self.on_dlc_uih(d, f);
                assert(self@.dlcs =~= state::on_dlc(m, f@).state.dlcs);
                r
            },
            _ => {
                self.dlcs.insert(dlci, d);
                assert(self@.dlcs =~= m.dlcs);
                (no_frames(), no_events())
            },
        }
    }

    /// Handles a frame for a DLCI without a DLC. A negotiation is optional
    /// before SABM, so a peer may open a DLC with a bare one and the defaults.
    fn on_frame_for_unknown_dlci(&mut self, f: &RfcommFrame) -> (r: (
        Vec<Vec<u8>>,
        Vec<MultiplexerEvent>,
    ))
        requires
            state::well_formed(old(self)@),
        ensures
            step_view(final(self)@, r) == state::on_unknown(old(self)@, f@),
            state::well_formed(final(self)@),
    {
        let dlci: u8 = f.dlci;
        match f.frame_type {
            frame_type::SABM => {
                let channel: u8 = dlci / 2;
                let (rx_max_frame_size, rx_initial_credits) = match self.listen_configs.get(
                    &channel,
                ) {
                    None => {
                        return (one_frame(RfcommFrame::dm(1, dlci).to_bytes()), no_events());
                    },
                    Some(config) => *config,
                };
                if self.cfc == CreditFlowControl::Unknown {
                    self.cfc = CreditFlowControl::NotSupported;
                }
                let cfc = self.cfc == CreditFlowControl::Supported;
                let d = Dlc::new(
                    dlci,
                    self.role_c_r(),
                    DEFAULT_FRAME_SIZE_WITHOUT_PN,
                    0,
                    rx_max_frame_size,
                    if cfc {
                        rx_initial_credits
                    } else {
                        0
                    },
                    self.peer_mtu,
                    cfc,
                );
                let c_r: u8 = d.c_r;
                let ua = RfcommFrame::ua(1 - c_r, dlci).to_bytes();
                self.open_connection(dlci, d, two_frames(ua, msc_command(c_r, dlci)))
            },
            frame_type::DISC => (one_frame(RfcommFrame::dm(1, dlci).to_bytes()), no_events()),
            _ => (no_frames(), no_events()),
        }
    }

    /// Handles a data frame for a DLC, which was taken out of the session.
    fn on_dlc_uih(&mut self, mut d: Dlc, f: RfcommFrame) -> (r: (
        Vec<Vec<u8>>,
        Vec<MultiplexerEvent>,
    ))
        requires
            state::well_formed(old(self)@),
            dlc::well_formed(d@),
            d@.dlci == f.dlci,
        ensures
            step_view(final(self)@, r) == state::on_data(
                SessionModel { dlcs: old(self)@.dlcs.insert(f.dlci, d@), ..old(self)@ },
                f@,
            ),
            state::well_formed(final(self)@),
    {
        let ghost m = self@;
        let ghost before = d@;
        // The credit octet exists only with credit-based flow control; reading
        // it otherwise would eat the first byte of data.
        let data: Vec<u8> = if d.cfc && f.p_f == 1 {
            if f.information.len() > 0 {
                let credits: u8 = f.information[0];
                d.tx_credits = if d.tx_credits > 0xFF - credits {
                    0xFF
                } else {
                    d.tx_credits + credits
                };
                let rest = bytes::copy_range(&f.information, 1, f.information.len());
                assert(rest@ =~= f@.information.skip(1));
                rest
            } else {
                let rest: Vec<u8> = Vec::new();
                assert(rest@ =~= seq![]);
                rest
            }
        } else {
            bytes::copy(&f.information)
        };
        assert(data@ == state::unpacked(before, f@).1);
        let events = if data.len() > 0 {
            if d.rx_credits > 0 {
                d.rx_credits = d.rx_credits - 1;
            }
            one_event(MultiplexerEvent::DataReceived(f.dlci, data))
        } else {
            no_events()
        };
        assert(d@ == state::credited(before, f@));
        proof {
            dlc::lemma_flush_stays_well_formed(d@);
        }
        let frames = d.process_tx();
        let ghost after = d@;
        self.dlcs.insert(f.dlci, d);
        assert(self@.dlcs =~= m.dlcs.insert(f.dlci, before).insert(f.dlci, after));
        (frames, events)
    }
}

// ---------------------------------------------------------------------------
// Client and server
// ---------------------------------------------------------------------------

/// Client role.
#[derive(Debug)]
pub struct RfcommClient;

impl Default for RfcommClient {
    fn default() -> (r: Self)
        ensures
            r == RfcommClient,
    {
        RfcommClient
    }
}

impl RfcommClient {
    /// Allocates the L2CAP channel and returns its local identifier and the
    /// Connection Request to send.
    pub fn connect(manager: &mut ClassicChannelManager, mtu: u16) -> (r: Result<
        (u16, ConnectionRequestHeader),
        SimbleError,
    >)
        ensures
            classic::connects(
                old(manager)@,
                (ClassicChannelSpec { psm: RFCOMM_PSM, mtu }),
                r,
                final(manager)@,
            ),
    {
        manager.connect(&ClassicChannelSpec::with_mtu(RFCOMM_PSM, mtu))
    }
}

/// Server role: registers the PSM and tracks which server channels are
/// listened on.
#[derive(Debug)]
pub struct RfcommServer {
    /// Maximum frame size and initial credits of the server channels that are
    /// listened on.
    pub listen_configs: HashMap<u8, (u16, u8)>,
}

impl View for RfcommServer {
    type V = Map<u8, (u16, u8)>;

    open spec fn view(&self) -> Map<u8, (u16, u8)> {
        self.listen_configs@
    }
}

impl Default for RfcommServer {
    fn default() -> (r: Self)
        ensures
            r@ == Map::<u8, (u16, u8)>::empty(),
    {
        RfcommServer { listen_configs: HashMap::new() }
    }
}

impl RfcommServer {
    /// A server that listens on no channel.
    pub fn new() -> (r: Self)
        ensures
            r@ == Map::<u8, (u16, u8)>::empty(),
    {
        Self::default()
    }

    /// Registers the PSM with the channel manager.
    pub fn register(&self, manager: &mut ClassicChannelManager) -> (r: Result<(), SimbleError>)
        ensures
            r is Ok,
            final(manager)@ == (ChannelManagerModel {
                servers: old(manager)@.servers.insert(RFCOMM_PSM),
                ..old(manager)@
            }),
    {
        manager.register_server(RFCOMM_PSM)
    }

    /// Reserves a server channel (1 to 30); `false` when it is already
    /// reserved.
    pub fn listen(&mut self, channel: u8, max_frame_size: u16, initial_credits: u8) -> (r: bool)
        ensures
            r == !old(self)@.contains_key(channel),
            final(self)@ == (if r {
                old(self)@.insert(channel, (max_frame_size, initial_credits))
            } else {
                old(self)@
            }),
    {
        reserve_listen_channel(&mut self.listen_configs, channel, max_frame_size, initial_credits)
    }

    /// A responder session for a freshly opened channel, which listens on the
    /// channels of this server.
    pub fn new_multiplexer(&self, channel: &ClassicChannel) -> (r: Multiplexer)
        ensures
            r@ == (SessionModel {
                listen_configs: self@,
                ..new_session(Role::Responder, channel.peer_mtu)
            }),
            state::well_formed(r@),
    {
        let mut multiplexer = Multiplexer::new(Role::Responder, channel.peer_mtu);
        let ghost fresh = multiplexer@;
        let mut at: u16 = 0;
        while at < 256
            invariant
                at <= 256,
                multiplexer@ == (SessionModel {
                    listen_configs: multiplexer@.listen_configs,
                    ..fresh
                }),
                forall|k: u8|
                    #[trigger] multiplexer@.listen_configs.contains_key(k) <==> k < at
                        && self@.contains_key(k),
                forall|k: u8|
                    #[trigger] multiplexer@.listen_configs.contains_key(k)
                        ==> multiplexer@.listen_configs[k] == self@[k],
            decreases 256 - at,
        {
            let key: u8 = at as u8;
            if let Some(config) = self.listen_configs.get(&key) {
                multiplexer.listen(key, config.0, config.1);
            }
            at = at + 1;
        }
        assert(multiplexer@.listen_configs =~= self@);
        multiplexer
    }
}

} // verus!
