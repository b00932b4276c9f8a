//! Bluetooth Classic (BR/EDR) host stack: service discovery, RFCOMM, the
//! hands-free, audio distribution, remote control and HID profiles.
//!
//! Every layer is a synchronous state machine without a transport of its own:
//! a caller hands in the bytes that arrived and gets back the bytes to send
//! and the events to act on. The contracts are stated over mathematical models
//! (`view`) of the types and over the byte sequences on the wire.
#![verifier::loop_isolation(false)]

pub mod bytes;
pub mod classic;
pub mod l2cap;
pub mod layout;
pub mod models;
pub mod packets;
pub mod text;
pub mod types;
