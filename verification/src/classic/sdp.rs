//! Service Discovery Protocol (SDP): data elements, PDUs, client and server.
//!
//! A PDU is a 5-byte header followed by parameters that embed data elements:
//! the self-describing type, length and value encoding for nil, integers,
//! UUIDs, strings, booleans, sequences, alternatives and URLs.

pub mod attribute_id;
pub mod client;
pub mod element;
pub mod element_laws;
pub mod error_code;
pub mod exchange_laws;
pub mod pdu;
pub mod pdu_id;
pub mod pdu_laws;
pub mod record;
pub mod selection_laws;
pub mod server;
pub mod server_laws;
pub mod wire_laws;

pub use client::SdpClient;
pub use element::{DataElement, ElementModel, SdpUuid};
pub use pdu::{AttributeIdSpec, PduModel, SdpPdu};
pub use record::{AttributeModel, Service, ServiceAttribute};
pub use server::SdpServer;

use vstd::prelude::*;

verus! {

/// Well-known PSM of SDP.
pub const SDP_PSM: u16 = 0x0001;

/// How many continuation round trips a client makes for one request.
pub const SDP_CONTINUATION_WATCHDOG: u32 = 64;

/// Range that covers every attribute ID.
pub const ALL_ATTRIBUTES_RANGE: (u16, u16) = (0x0000, 0xFFFF);

} // verus!
