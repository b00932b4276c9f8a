//! Signalling packets shared between layers.

pub mod l2cap_signaling;
