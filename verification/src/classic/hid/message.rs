//! Messages of both channels.

use vstd::prelude::*;
use crate::bytes;
use crate::classic::hid::message_type;
use crate::models;
use crate::text;
use crate::types::{SimbleError, SimbleErrorModel};

verus! {

/// One message.
#[derive(Debug, Clone, PartialEq, Eq)]
pub enum HidMessage {
    /// The result of a transaction.
    Handshake {
        /// Result code.
        result_code: u8,
    },
    /// A control operation.
    Control {
        /// Operation.
        operation: u8,
    },
    /// A request for a stored report.
    GetReport {
        /// Report type.
        report_type: u8,
        /// Report ID.
        report_id: u8,
        /// The most bytes to return. Where it is given, a flag in the
        /// parameter says so, and it follows the report ID.
        buffer_size: Option<u16>,
    },
    /// A report to store: the payload is its ID and its data.
    SetReport {
        /// Report type.
        report_type: u8,
        /// Payload.
        payload: Vec<u8>,
    },
    /// A request for the protocol mode.
    GetProtocol,
    /// A protocol mode to switch to.
    SetProtocol {
        /// Mode.
        mode: u8,
    },
    /// On the control channel, the answer to a request for a report or for the
    /// protocol mode; on the interrupt channel, a report.
    Data {
        /// Report type.
        report_type: u8,
        /// Payload.
        payload: Vec<u8>,
    },
}

/// The model of a [`HidMessage`].
#[verifier::ext_equal]
pub enum MessageModel {
    Handshake { result_code: u8 },
    Control { operation: u8 },
    GetReport { report_type: u8, report_id: u8, buffer_size: Option<u16> },
    SetReport { report_type: u8, payload: Seq<u8> },
    GetProtocol,
    SetProtocol { mode: u8 },
    Data { report_type: u8, payload: Seq<u8> },
}

impl View for HidMessage {
    type V = MessageModel;

    open spec fn view(&self) -> MessageModel {
        match *self {
            HidMessage::Handshake { result_code } => MessageModel::Handshake { result_code },
            HidMessage::Control { operation } => MessageModel::Control { operation },
            HidMessage::GetReport { report_type, report_id, buffer_size } =>
                MessageModel::GetReport { report_type, report_id, buffer_size },
            HidMessage::SetReport { report_type, payload } => MessageModel::SetReport {
                report_type,
                payload: payload@,
            },
            HidMessage::GetProtocol => MessageModel::GetProtocol,
            HidMessage::SetProtocol { mode } => MessageModel::SetProtocol { mode },
            HidMessage::Data { report_type, payload } => MessageModel::Data {
                report_type,
                payload: payload@,
            },
        }
    }
}

/// The header: the message type in the high nibble, the parameter in the low
/// one.
pub open spec fn header(kind: u8, parameter: int) -> u8 {
    (kind * 0x10 + parameter % 0x10) as u8
}

impl MessageModel {
    /// The wire form of this message.
    pub open spec fn wire(self) -> Seq<u8> {
        match self {
            MessageModel::Handshake { result_code } => seq![
                header(message_type::HANDSHAKE, result_code as int),
            ],
            MessageModel::Control { operation } => seq![
                header(message_type::CONTROL, operation as int),
            ],
            MessageModel::GetReport { report_type, report_id, buffer_size } => match buffer_size {
                Some(size) => seq![
                    header(message_type::GET_REPORT, 8 + report_type % 4),
                    report_id,
                ] + bytes::le16_bytes(size),
                None => seq![
                    header(message_type::GET_REPORT, (report_type % 4) as int),
                    report_id,
                ],
            },
            MessageModel::SetReport { report_type, payload } => seq![
                header(message_type::SET_REPORT, (report_type % 4) as int),
            ] + payload,
            MessageModel::GetProtocol => seq![header(message_type::GET_PROTOCOL, 0)],
            MessageModel::SetProtocol { mode } => seq![
                header(message_type::SET_PROTOCOL, (mode % 2) as int),
            ],
            MessageModel::Data { report_type, payload } => seq![
                header(message_type::DATA, (report_type % 4) as int),
            ] + payload,
        }
    }
}

/// The message that bytes hold. Other message types, and a request for a
/// report that is cut, are none.
pub open spec fn message_of(data: Seq<u8>) -> Option<MessageModel> {
    if data.len() == 0 {
        None
    } else {
        let parameter: u8 = data[0] % 0x10;
        match data[0] / 0x10 {
            message_type::HANDSHAKE => Some(MessageModel::Handshake { result_code: parameter }),
            message_type::CONTROL => Some(MessageModel::Control { operation: parameter }),
            message_type::GET_REPORT => if data.len() < 2 || (parameter >= 8 && data.len() < 4) {
                None
            } else {
                Some(
                    MessageModel::GetReport {
                        report_type: parameter % 4,
                        report_id: data[1],
                        buffer_size: if parameter >= 8 {
                            Some(bytes::le16(data, 2))
                        } else {
                            None
                        },
                    },
                )
            },
            message_type::SET_REPORT => Some(
                MessageModel::SetReport { report_type: parameter % 4, payload: data.skip(1) },
            ),
            message_type::GET_PROTOCOL => Some(MessageModel::GetProtocol),
            message_type::SET_PROTOCOL => Some(
                MessageModel::SetProtocol { mode: parameter % 2 },
            ),
            message_type::DATA => Some(
                MessageModel::Data { report_type: parameter % 4, payload: data.skip(1) },
            ),
            _ => None,
        }
    }
}

impl HidMessage {
    fn header(kind: u8, parameter: u8) -> (r: u8)
        requires
            kind < 0x10,
        ensures
            r == header(kind, parameter as int),
    {
        kind * 0x10 + parameter % 0x10
    }

    fn header_only(kind: u8, parameter: u8) -> (r: Vec<u8>)
        requires
            kind < 0x10,
        ensures
            r@ == seq![header(kind, parameter as int)],
    {
        let r: Vec<u8> = vec![Self::header(kind, parameter)];
        assert(r@ =~= seq![header(kind, parameter as int)]);
        r
    }

    fn with_payload(kind: u8, parameter: u8, payload: &[u8]) -> (r: Vec<u8>)
        requires
            kind < 0x10,
        ensures
            r@ == seq![header(kind, parameter as int)] + payload@,
    {
        let mut r = Self::header_only(kind, parameter);
        bytes::push_bytes(&mut r, payload);
        r
    }

    /// Serializes this message.
    pub fn to_bytes(&self) -> (r: Vec<u8>)
        ensures
            r@ == self@.wire(),
    {
        match self {
            HidMessage::Handshake { result_code } => Self::header_only(
                message_type::HANDSHAKE,
                *result_code,
            ),
            HidMessage::Control { operation } => Self::header_only(
                message_type::CONTROL,
                *operation,
            ),
            HidMessage::GetReport { report_type, report_id, buffer_size } => match buffer_size {
                Some(size) => {
                    let mut r: Vec<u8> = vec![
                        Self::header(message_type::GET_REPORT, 8 + *report_type % 4),
                        *report_id,
                    ];
                    bytes::push_le16(&mut r, *size);
                    assert(r@ =~= self@.wire());
                    r
                },
                None => {
                    let r: Vec<u8> = vec![
                        Self::header(message_type::GET_REPORT, *report_type % 4),
                        *report_id,
                    ];
                    assert(r@ =~= self@.wire());
                    r
                },
            },
            HidMessage::SetReport { report_type, payload } => Self::with_payload(
                message_type::SET_REPORT,
                *report_type % 4,
                payload,
            ),
            HidMessage::GetProtocol => Self::header_only(message_type::GET_PROTOCOL, 0),
            HidMessage::SetProtocol { mode } => Self::header_only(
                message_type::SET_PROTOCOL,
                *mode % 2,
            ),
            HidMessage::Data { report_type, payload } => Self::with_payload(
                message_type::DATA,
                *report_type % 4,
                payload,
            ),
        }
    }

    /// Parses a message. `None` for no bytes, a reserved message type, and a
    /// request for a report that is cut.
    pub fn parse(data: &[u8]) -> (r: Option<Self>)
        ensures
            models::opt_view(r) == message_of(data@),
    {
        if data.len() == 0 {
            return None;
        }
        let parameter: u8 = data[0] % 0x10;
        match data[0] / 0x10 {
            message_type::HANDSHAKE => Some(HidMessage::Handshake { result_code: parameter }),
            message_type::CONTROL => Some(HidMessage::Control { operation: parameter }),
            message_type::GET_REPORT => {
                if data.len() < 2 {
                    return None;
                }
                let buffer_size: Option<u16> = if parameter >= 8 {
                    if data.len() < 4 {
                        return None;
                    }
                    Some(bytes::read_le16(data, 2))
                } else {
                    None
                };
                Some(
                    HidMessage::GetReport {
                        report_type: parameter % 4,
                        report_id: data[1],
                        buffer_size,
                    },
                )
            },
            message_type::SET_REPORT => {
                let payload = bytes::copy_range(data, 1, data.len());
                assert(payload@ =~= data@.skip(1));
                Some(HidMessage::SetReport { report_type: parameter % 4, payload })
            },
            message_type::GET_PROTOCOL => Some(HidMessage::GetProtocol),
            message_type::SET_PROTOCOL => Some(HidMessage::SetProtocol { mode: parameter % 2 }),
            message_type::DATA => {
                let payload = bytes::copy_range(data, 1, data.len());
                assert(payload@ =~= data@.skip(1));
                Some(HidMessage::Data { report_type: parameter % 4, payload })
            },
            _ => None,
        }
    }
}

// ---------------------------------------------------------------------------
// Interrupt channel
// ---------------------------------------------------------------------------

/// A report received on the interrupt channel.
#[derive(Debug, Clone, PartialEq, Eq)]
pub struct InterruptData {
    /// Report type.
    pub report_type: u8,
    /// Report.
    pub payload: Vec<u8>,
}

impl View for InterruptData {
    type V = (u8, Seq<u8>);

    open spec fn view(&self) -> (u8, Seq<u8>) {
        (self.report_type, self.payload@)
    }
}

/// What bytes on the interrupt channel come to: only reports are valid there,
/// and other messages are ignored.
pub open spec fn interrupt_of(pdu: Seq<u8>) -> Result<Option<(u8, Seq<u8>)>, SimbleErrorModel> {
    match message_of(pdu) {
        None => Err(SimbleErrorModel::PacketParseError("HID: malformed interrupt PDU"@)),
        Some(MessageModel::Data { report_type, payload }) => Ok(Some((report_type, payload))),
        Some(_) => Ok(None),
    }
}

/// The model of a report, or of the error.
pub open spec fn interrupt_outcome(r: Result<Option<InterruptData>, SimbleError>) -> Result<
    Option<(u8, Seq<u8>)>,
    SimbleErrorModel,
> {
    match r {
        Ok(data) => Ok(models::opt_view(data)),
        Err(why) => Err(why@),
    }
}

/// Processes bytes from the interrupt channel, in either role.
pub fn receive_interrupt(pdu: &[u8]) -> (r: Result<Option<InterruptData>, SimbleError>)
    ensures
        interrupt_outcome(r) == interrupt_of(pdu@),
{
    match HidMessage::parse(pdu) {
        None => Err(SimbleError::PacketParseError(text::owned("HID: malformed interrupt PDU"))),
        Some(HidMessage::Data { report_type, payload }) => Ok(
            Some(InterruptData { report_type, payload }),
        ),
        Some(_) => Ok(None),
    }
}

// ---------------------------------------------------------------------------
// Laws
// ---------------------------------------------------------------------------

/// Whether the fields of a message fit their bits.
pub open spec fn fits(m: MessageModel) -> bool {
    match m {
        MessageModel::Handshake { result_code } => result_code < 0x10,
        MessageModel::Control { operation } => operation < 0x10,
        MessageModel::GetReport { report_type, .. } => report_type < 4,
        MessageModel::SetReport { report_type, .. } => report_type < 4,
        MessageModel::GetProtocol => true,
        MessageModel::SetProtocol { mode } => mode < 2,
        MessageModel::Data { report_type, .. } => report_type < 4,
    }
}

/// A message whose fields fit their bits is read back from its bytes.
pub proof fn law_message_round_trip(m: MessageModel)
    requires
        fits(m),
    ensures
        message_of(m.wire()) == Some(m),
{
    match m {
        MessageModel::GetReport { buffer_size: Some(size), .. } => {
            bytes::lemma_le16_round_trip(size);
        },
        MessageModel::SetReport { payload, .. } => {
            assert(m.wire().skip(1) =~= payload);
        },
        MessageModel::Data { payload, .. } => {
            assert(m.wire().skip(1) =~= payload);
        },
        _ => {},
    }
}

} // verus!
