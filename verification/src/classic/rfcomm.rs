//! RFCOMM: serial port emulation over an L2CAP channel.
//!
//! A frame is a 2-byte address and control header, a length field of one or
//! two bytes, information, and a 1-byte frame check sequence.
//!
//! [`Multiplexer`] is the session state machine over one L2CAP channel; DLCI 0
//! is its control channel, and it owns any number of [`Dlc`]s. It is
//! synchronous: [`Multiplexer::receive`] takes one incoming frame and returns
//! the frames to send and the events to report.
//!
//! Credit-based flow control is negotiated per session by the
//! convergence-layer field of the first parameter negotiation and tracked in
//! [`CreditFlowControl`]. It is not assumed: a peer that declines it, or that
//! opens a DLC by a bare SABM, gets frames without a credit octet.
//!
//! Of the commands on the control channel, parameter negotiation and modem
//! status are implemented. Any other command is answered as not supported.

pub mod credit_laws;
pub mod dlc;
pub mod finder_laws;
pub mod format_laws;
pub mod frame;
pub mod frame_type;
pub mod laws;
pub mod mcc;
pub mod mcc_type;
pub mod multiplexer;
pub mod pn_cl;
pub mod service;
pub mod state;

pub use dlc::{Dlc, DlcState};
pub use frame::{compute_fcs, RfcommFrame};
pub use mcc::{make_mcc, parse_mcc, MccMsc, MccPn};
pub use multiplexer::{Multiplexer, MultiplexerEvent, RfcommClient, RfcommServer};
pub use service::{
    find_rfcomm_channel_with_uuid,
    find_rfcomm_channels,
    make_service_sdp_records,
};
pub use state::{CreditFlowControl, MultiplexerState, Role};

use vstd::prelude::*;

verus! {

/// Well-known PSM of RFCOMM.
pub const RFCOMM_PSM: u16 = 0x0003;

/// Default MTU of the L2CAP channel.
pub const DEFAULT_L2CAP_MTU: u16 = 2048;

/// Default number of credits granted when a DLC opens.
pub const DEFAULT_INITIAL_CREDITS: u8 = 7;

/// The most credits that a parameter negotiation can grant: the field is three
/// bits wide.
pub const MAX_INITIAL_CREDITS: u8 = 7;

/// The most credits that a peer holds for a DLC.
pub const DEFAULT_MAX_CREDITS: u8 = 32;

/// The number of credits at which a peer's credits are topped up.
pub const DEFAULT_CREDIT_THRESHOLD: u8 = 16;

/// Default maximum frame size.
pub const DEFAULT_MAX_FRAME_SIZE: u16 = 1000;

/// The frame size that a DLC opened without negotiation assumes of the peer.
pub const DEFAULT_FRAME_SIZE_WITHOUT_PN: u16 = 127;

/// Lowest assignable server channel number.
pub const DYNAMIC_CHANNEL_NUMBER_START: u8 = 1;

/// Highest assignable server channel number.
pub const DYNAMIC_CHANNEL_NUMBER_END: u8 = 30;

} // verus!
