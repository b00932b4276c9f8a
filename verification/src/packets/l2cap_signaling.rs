//! L2CAP signalling packets.

use vstd::prelude::*;

verus! {

/// An L2CAP Connection Request: the service asked for and the channel
/// endpoint that the requesting side allocated.
#[derive(Debug, Clone, Copy, PartialEq, Eq, Structural)]
pub struct ConnectionRequestHeader {
    /// Protocol/service multiplexer asked for.
    pub psm: u16,
    /// Channel identifier on the requesting side.
    pub source_cid: u16,
}

} // verus!
