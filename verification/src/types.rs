//! Error and identifier types shared by all layers.

use vstd::prelude::*;

verus! {

/// What a host-stack operation can fail with.
#[derive(Debug, Clone, PartialEq, Eq)]
pub enum SimbleError {
    /// Bytes from the peer that do not form a valid packet.
    PacketParseError(String),
    /// A request that the current state does not allow, or that the peer
    /// refused.
    DeviceError(String),
}

/// The model of a [`SimbleError`].
pub enum SimbleErrorModel {
    PacketParseError(Seq<char>),
    DeviceError(Seq<char>),
}

impl View for SimbleError {
    type V = SimbleErrorModel;

    open spec fn view(&self) -> SimbleErrorModel {
        match self {
            SimbleError::PacketParseError(text) => SimbleErrorModel::PacketParseError(text@),
            SimbleError::DeviceError(text) => SimbleErrorModel::DeviceError(text@),
        }
    }
}

/// A Bluetooth UUID in one of the forms that attribute databases use.
#[derive(Debug, Clone, Copy, PartialEq, Eq, Hash)]
pub enum Uuid {
    /// 16-bit UUID.
    Uuid16(u16),
    /// 128-bit UUID.
    Uuid128([u8; 16]),
}

} // verus!
