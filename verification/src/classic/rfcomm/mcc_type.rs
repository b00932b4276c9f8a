//! Command types of the multiplexer control channel: the 6-bit values before
//! they are shifted into place.

use vstd::prelude::*;

verus! {

/// Non-supported command: the answer to a command that is not implemented.
pub const NSC: u8 = 0x04;

/// Parameter negotiation.
pub const PN: u8 = 0x20;

/// Modem status command.
pub const MSC: u8 = 0x38;

} // verus!
