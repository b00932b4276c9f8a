//! Values of the convergence-layer field of a parameter negotiation.

use vstd::prelude::*;

verus! {

/// A command that asks for credit-based flow control.
pub const CFC_COMMAND: u8 = 0xF0;

/// A response that accepts credit-based flow control.
pub const CFC_RESPONSE: u8 = 0xE0;

/// Neither: no credit octets.
pub const NO_CFC: u8 = 0x00;

} // verus!
