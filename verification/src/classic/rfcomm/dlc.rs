//! Data link connections and their credits.

use vstd::prelude::*;
use crate::bytes;
use crate::classic::rfcomm::frame;
use crate::classic::rfcomm::frame::RfcommFrame;
use crate::classic::rfcomm::{DEFAULT_CREDIT_THRESHOLD, DEFAULT_MAX_CREDITS};
use crate::models;

verus! {

/// Lifecycle of a DLC.
#[derive(Debug, Clone, Copy, PartialEq, Eq, Structural)]
pub enum DlcState {
    /// Created, not yet negotiated.
    Init,
    /// SABM sent or expected.
    Connecting,
    /// Open and carrying data.
    Connected,
    /// DISC sent, awaiting UA.
    Disconnecting,
    /// Closed.
    Disconnected,
}

/// One data link connection of a multiplexer: a byte stream with credit-based
/// flow control of its own, above that of L2CAP.
#[derive(Debug, Clone)]
pub struct Dlc {
    /// DLCI of this connection.
    pub dlci: u8,
    /// Current lifecycle state.
    pub state: DlcState,
    /// Command/response bit of what we send.
    pub c_r: u8,
    /// Maximum frame size that we accept.
    pub rx_max_frame_size: u16,
    /// Initial credits that we grant the peer.
    pub rx_initial_credits: u8,
    /// The most credits that the peer may hold.
    pub rx_max_credits: u8,
    /// Credits that the peer holds.
    pub rx_credits: u8,
    /// The number of credits at which the peer's credits are topped up.
    pub rx_credits_threshold: u8,
    /// Maximum frame size that the peer accepts.
    pub tx_max_frame_size: u16,
    /// Credits that we have for sending.
    pub tx_credits: u8,
    /// Whether credit-based flow control is in use. Otherwise frames carry no
    /// credit octet and sending does not wait for credits.
    pub cfc: bool,
    /// The most bytes of information in a frame.
    pub mtu: usize,
    /// Bytes that were not sent yet.
    pub tx_buffer: Vec<u8>,
}

/// The model of a [`Dlc`].
#[verifier::ext_equal]
pub struct DlcModel {
    pub dlci: u8,
    pub state: DlcState,
    pub c_r: u8,
    pub rx_max_frame_size: u16,
    pub rx_initial_credits: u8,
    pub rx_max_credits: u8,
    pub rx_credits: u8,
    pub rx_credits_threshold: u8,
    pub tx_max_frame_size: u16,
    pub tx_credits: u8,
    pub cfc: bool,
    pub mtu: nat,
    pub tx_buffer: Seq<u8>,
}

impl View for Dlc {
    type V = DlcModel;

    open spec fn view(&self) -> DlcModel {
        DlcModel {
            dlci: self.dlci,
            state: self.state,
            c_r: self.c_r,
            rx_max_frame_size: self.rx_max_frame_size,
            rx_initial_credits: self.rx_initial_credits,
            rx_max_credits: self.rx_max_credits,
            rx_credits: self.rx_credits,
            rx_credits_threshold: self.rx_credits_threshold,
            tx_max_frame_size: self.tx_max_frame_size,
            tx_credits: self.tx_credits,
            cfc: self.cfc,
            mtu: self.mtu as nat,
            tx_buffer: self.tx_buffer@,
        }
    }
}

/// What holds of every DLC: the C/R bit is a bit, the peer's credits are
/// topped up below their maximum, and bytes only wait to be sent where frames
/// can carry them.
pub open spec fn well_formed(d: DlcModel) -> bool {
    &&& d.c_r <= 1
    &&& d.rx_credits_threshold <= d.rx_max_credits
    &&& d.cfc || d.mtu > 0 || d.tx_buffer.len() == 0
}

/// The most bytes of information in a frame: what the peer accepts, and what
/// fits in its L2CAP MTU beside header, length field and check sequence.
pub open spec fn frame_capacity(tx_max_frame_size: u16, peer_l2cap_mtu: u16) -> nat {
    let room = if peer_l2cap_mtu < 5 {
        0
    } else {
        peer_l2cap_mtu - 5
    };
    if tx_max_frame_size < room {
        tx_max_frame_size as nat
    } else {
        room as nat
    }
}

/// A DLC that nothing was sent on.
pub open spec fn new_dlc(
    dlci: u8,
    c_r: u8,
    tx_max_frame_size: u16,
    tx_initial_credits: u8,
    rx_max_frame_size: u16,
    rx_initial_credits: u8,
    peer_l2cap_mtu: u16,
    cfc: bool,
) -> DlcModel {
    DlcModel {
        dlci,
        state: DlcState::Init,
        c_r,
        rx_max_frame_size,
        rx_initial_credits,
        rx_max_credits: DEFAULT_MAX_CREDITS,
        rx_credits: rx_initial_credits,
        rx_credits_threshold: DEFAULT_CREDIT_THRESHOLD,
        tx_max_frame_size,
        tx_credits: tx_initial_credits,
        cfc,
        mtu: frame_capacity(tx_max_frame_size, peer_l2cap_mtu),
        tx_buffer: seq![],
    }
}

/// How many credits the peer has to be granted now.
pub open spec fn credits_owed(d: DlcModel) -> int {
    if d.cfc && d.rx_credits <= d.rx_credits_threshold {
        d.rx_max_credits - d.rx_credits
    } else {
        0
    }
}

/// At most `n`, and at most what there is.
pub open spec fn at_most(n: int, available: nat) -> int {
    if n < available {
        n
    } else {
        available as int
    }
}

/// The frames for bytes that go out without credits.
pub open spec fn plain_frames(d: DlcModel, buffer: Seq<u8>) -> Seq<Seq<u8>>
    decreases buffer.len(),
{
    if buffer.len() == 0 || d.mtu == 0 {
        seq![]
    } else {
        let n = at_most(d.mtu as int, buffer.len());
        seq![frame::uih(d.c_r, d.dlci, buffer.take(n), 0).bytes()] + plain_frames(d, buffer.skip(n))
    }
}

/// Granting the peer the credits that are owed, in a frame that also carries
/// bytes when there are bytes and credits to send them.
pub open spec fn grant_credits(d: DlcModel) -> (DlcModel, Seq<Seq<u8>>) {
    let owed = credits_owed(d);
    if owed <= 0 {
        (d, seq![])
    } else {
        let carries = d.tx_buffer.len() > 0 && d.tx_credits > 0;
        let n = if carries {
            at_most(if d.mtu == 0 { 0 } else { d.mtu - 1 }, d.tx_buffer.len())
        } else {
            0
        };
        (
            DlcModel {
                rx_credits: (d.rx_credits + owed) as u8,
                tx_credits: if carries {
                    (d.tx_credits - 1) as u8
                } else {
                    d.tx_credits
                },
                tx_buffer: d.tx_buffer.skip(n),
                ..d
            },
            seq![
                frame::uih(d.c_r, d.dlci, seq![owed as u8] + d.tx_buffer.take(n), 1).bytes(),
            ],
        )
    }
}

/// Sending bytes as long as there are bytes and credits, one credit a frame.
pub open spec fn spend_credits(d: DlcModel) -> (DlcModel, Seq<Seq<u8>>)
    decreases d.tx_credits,
{
    if d.tx_buffer.len() == 0 || d.tx_credits == 0 {
        (d, seq![])
    } else {
        let n = at_most(d.mtu as int, d.tx_buffer.len());
        let (after, frames) = spend_credits(
            DlcModel {
                tx_credits: (d.tx_credits - 1) as u8,
                tx_buffer: d.tx_buffer.skip(n),
                ..d
            },
        );
        (after, seq![frame::uih(d.c_r, d.dlci, d.tx_buffer.take(n), 0).bytes()] + frames)
    }
}

/// Sending what can be sent. Without credit-based flow control everything goes
/// out at once.
pub open spec fn flush(d: DlcModel) -> (DlcModel, Seq<Seq<u8>>) {
    if !d.cfc {
        (DlcModel { tx_buffer: seq![], ..d }, plain_frames(d, d.tx_buffer))
    } else {
        let (granted, first) = grant_credits(d);
        let (after, rest) = spend_credits(granted);
        (after, first + rest)
    }
}

proof fn lemma_spend_stays_well_formed(d: DlcModel)
    requires
        well_formed(d),
        d.cfc,
    ensures
        well_formed(spend_credits(d).0),
        spend_credits(d).0.dlci == d.dlci,
    decreases d.tx_credits,
{
    if d.tx_buffer.len() > 0 && d.tx_credits > 0 {
        let n = at_most(d.mtu as int, d.tx_buffer.len());
        lemma_spend_stays_well_formed(
            DlcModel {
                tx_credits: (d.tx_credits - 1) as u8,
                tx_buffer: d.tx_buffer.skip(n),
                ..d
            },
        );
    }
}

/// Sending keeps a DLC well-formed, and under its DLCI.
pub proof fn lemma_flush_stays_well_formed(d: DlcModel)
    requires
        well_formed(d),
    ensures
        well_formed(flush(d).0),
        flush(d).0.dlci == d.dlci,
{
    if d.cfc {
        lemma_spend_stays_well_formed(grant_credits(d).0);
    }
}

impl Dlc {
    /// A DLC that nothing was sent on.
    pub fn new(
        dlci: u8,
        c_r: u8,
        tx_max_frame_size: u16,
        tx_initial_credits: u8,
        rx_max_frame_size: u16,
        rx_initial_credits: u8,
        peer_l2cap_mtu: u16,
        cfc: bool,
    ) -> (r: Self)
        ensures
            r@ == new_dlc(
                dlci,
                c_r,
                tx_max_frame_size,
                tx_initial_credits,
                rx_max_frame_size,
                rx_initial_credits,
                peer_l2cap_mtu,
                cfc,
            ),
    {
        // Header, two bytes of length, check sequence.
        let room: u16 = if peer_l2cap_mtu < 5 {
            0
        } else {
            peer_l2cap_mtu - 5
        };
        let mtu: usize = if tx_max_frame_size < room {
            tx_max_frame_size as usize
        } else {
            room as usize
        };
        let r = Dlc {
            dlci,
            state: DlcState::Init,
            c_r,
            rx_max_frame_size,
            rx_initial_credits,
            rx_max_credits: DEFAULT_MAX_CREDITS,
            rx_credits: rx_initial_credits,
            rx_credits_threshold: DEFAULT_CREDIT_THRESHOLD,
            tx_max_frame_size,
            tx_credits: tx_initial_credits,
            cfc,
            mtu,
            tx_buffer: Vec::new(),
        };
        assert(r@.tx_buffer =~= seq![]);
        r
    }

    /// Whether the DLC is open.
    pub fn is_open(&self) -> (r: bool)
        ensures
            r == (self@.state == DlcState::Connected),
    {
        self.state == DlcState::Connected
    }

    /// Queues bytes for sending.
    pub(crate) fn queue(&mut self, data: &[u8])
        ensures
            final(self)@ == (DlcModel { tx_buffer: old(self)@.tx_buffer + data@, ..old(self)@ }),
    {
        bytes::push_bytes(&mut self.tx_buffer, data);
    }

    fn rx_credits_needed(&self) -> (r: u8)
        requires
            well_formed(self@),
        ensures
            r == credits_owed(self@),
    {
        if self.cfc && self.rx_credits <= self.rx_credits_threshold {
            self.rx_max_credits - self.rx_credits
        } else {
            0
        }
    }

    /// Takes bytes off the front of the buffer.
    fn take_bytes(&mut self, n: usize) -> (r: Vec<u8>)
        requires
            n <= old(self).tx_buffer@.len(),
        ensures
            r@ == old(self)@.tx_buffer.take(n as int),
            final(self)@ == (DlcModel {
                tx_buffer: old(self)@.tx_buffer.skip(n as int),
                ..old(self)@
            }),
    {
        let r = bytes::copy_range(&self.tx_buffer, 0, n);
        let rest = bytes::copy_range(&self.tx_buffer, n, self.tx_buffer.len());
        assert(r@ =~= self.tx_buffer@.take(n as int));
        assert(rest@ =~= self.tx_buffer@.skip(n as int));
        self.tx_buffer = rest;
        r
    }

    /// Sends everything, without credits.
    fn send_plain(&mut self) -> (r: Vec<Vec<u8>>)
        requires
            old(self).mtu > 0 || old(self).tx_buffer@.len() == 0,
        ensures
            models::seq_views(r@) == plain_frames(old(self)@, old(self)@.tx_buffer),
            final(self)@ == (DlcModel { tx_buffer: seq![], ..old(self)@ }),
    {
        let ghost d = self@;
        let ghost whole = plain_frames(d, d.tx_buffer);
        let mut frames: Vec<Vec<u8>> = Vec::new();
        assert(models::seq_views(frames@) + whole =~= whole);
        while self.tx_buffer.len() > 0
            invariant
                self.mtu == d.mtu,
                d.mtu > 0 || self.tx_buffer@.len() == 0,
                self@ == (DlcModel { tx_buffer: self.tx_buffer@, ..d }),
                models::seq_views(frames@) + plain_frames(d, self.tx_buffer@) == whole,
            decreases self.tx_buffer@.len(),
        {
            let ghost buffer = self.tx_buffer@;
            let ghost done = models::seq_views(frames@);
            let n: usize = if self.mtu < self.tx_buffer.len() {
                self.mtu
            } else {
                self.tx_buffer.len()
            };
            let chunk = self.take_bytes(n);
            let sent = RfcommFrame::uih(self.c_r, self.dlci, chunk, 0).to_bytes();
            proof {
                models::lemma_seq_views_push(frames@, sent);
                let rest = plain_frames(d, buffer.skip(n as int));
                assert(done + (seq![sent@] + rest) =~= done.push(sent@) + rest);
            }
            frames.push(sent);
        }
        assert(self.tx_buffer@ =~= seq![]);
        assert(models::seq_views(frames@) =~= whole);
        frames
    }

    /// Grants the peer the credits that are owed.
    fn send_credits(&mut self) -> (r: Vec<Vec<u8>>)
        requires
            well_formed(old(self)@),
        ensures
            (final(self)@, models::seq_views(r@)) == grant_credits(old(self)@),
    {
        let ghost d = self@;
        let mut frames: Vec<Vec<u8>> = Vec::new();
        let owed: u8 = self.rx_credits_needed();
        if owed == 0 {
            assert(models::seq_views(frames@) =~= seq![]);
            return frames;
        }
        self.rx_credits = self.rx_credits + owed;
        let mut chunk: Vec<u8> = vec![owed];
        let room: usize = if self.mtu == 0 {
            0
        } else {
            self.mtu - 1
        };
        let n: usize = if self.tx_buffer.len() > 0 && self.tx_credits > 0 {
            self.tx_credits = self.tx_credits - 1;
            if room < self.tx_buffer.len() {
                room
            } else {
                self.tx_buffer.len()
            }
        } else {
            0
        };
        let mut data = self.take_bytes(n);
        chunk.append(&mut data);
        assert(chunk@ =~= seq![owed] + d.tx_buffer.take(n as int));
        let sent = RfcommFrame::uih(self.c_r, self.dlci, chunk, 1).to_bytes();
        frames.push(sent);
        assert(models::seq_views(frames@) =~= grant_credits(d).1);
        frames
    }

    /// Sends bytes as long as there are bytes and credits.
    fn send_with_credits(&mut self) -> (r: Vec<Vec<u8>>)
        ensures
            (final(self)@, models::seq_views(r@)) == spend_credits(old(self)@),
    {
        let ghost d = self@;
        let ghost whole = spend_credits(d).1;
        let mut frames: Vec<Vec<u8>> = Vec::new();
        assert(models::seq_views(frames@) + whole =~= whole);
        while self.tx_buffer.len() > 0 && self.tx_credits > 0
            invariant
                spend_credits(self@).0 == spend_credits(d).0,
                models::seq_views(frames@) + spend_credits(self@).1 == whole,
            decreases self.tx_credits,
        {
            let ghost before = self@;
            let ghost done = models::seq_views(frames@);
            let n: usize = if self.mtu < self.tx_buffer.len() {
                self.mtu
            } else {
                self.tx_buffer.len()
            };
            let chunk = self.take_bytes(n);
            self.tx_credits = self.tx_credits - 1;
            let sent = RfcommFrame::uih(self.c_r, self.dlci, chunk, 0).to_bytes();
            proof {
                models::lemma_seq_views_push(frames@, sent);
                let rest = spend_credits(self@).1;
                assert(spend_credits(before).1 == seq![sent@] + rest);
                assert(done + (seq![sent@] + rest) =~= done.push(sent@) + rest);
            }
            frames.push(sent);
        }
        assert(models::seq_views(frames@) =~= whole);
        frames
    }

    /// Turns waiting bytes into frames, as far as credits and frame size
    /// allow, and tops up the peer's credits when they have run low.
    pub(crate) fn process_tx(&mut self) -> (r: Vec<Vec<u8>>)
        requires
            well_formed(old(self)@),
        ensures
            (final(self)@, models::seq_views(r@)) == flush(old(self)@),
    {
        if !self.cfc {
            return self.send_plain();
        }
        let mut frames = self.send_credits();
        let ghost first = models::seq_views(frames@);
        let mut rest = self.send_with_credits();
        let ghost others = models::seq_views(rest@);
        frames.append(&mut rest);
        assert(models::seq_views(frames@) =~= first + others);
        frames
    }
}

} // verus!
