//! The host role.

use vstd::prelude::*;
use crate::bytes;
use crate::classic::hid::control_command;
use crate::classic::hid::message;
use crate::classic::hid::message::{HidMessage, MessageModel};
use crate::classic::hid::report_type;
use crate::models;
use crate::text;
use crate::types::{SimbleError, SimbleErrorModel};

verus! {

/// Result of feeding bytes into [`HidHost::receive_control`].
#[derive(Debug, Clone, PartialEq, Eq)]
pub enum HidHostEvent {
    /// The result code of the last request.
    Handshake(u8),
    /// The answer to a request: report ID and data, or the protocol mode.
    ControlData {
        /// Report type.
        report_type: u8,
        /// Payload.
        payload: Vec<u8>,
    },
    /// The device tears down the virtual cable.
    VirtualCableUnplug,
}

/// The model of a [`HidHostEvent`].
#[verifier::ext_equal]
pub enum HostEventModel {
    Handshake(u8),
    ControlData { report_type: u8, payload: Seq<u8> },
    VirtualCableUnplug,
}

impl View for HidHostEvent {
    type V = HostEventModel;

    open spec fn view(&self) -> HostEventModel {
        match *self {
            HidHostEvent::Handshake(code) => HostEventModel::Handshake(code),
            HidHostEvent::ControlData { report_type, payload } => HostEventModel::ControlData {
                report_type,
                payload: payload@,
            },
            HidHostEvent::VirtualCableUnplug => HostEventModel::VirtualCableUnplug,
        }
    }
}

/// What a message makes a host report. Requests are ignored.
pub open spec fn host_events(m: MessageModel) -> Seq<HostEventModel> {
    match m {
        MessageModel::Handshake { result_code } => seq![HostEventModel::Handshake(result_code)],
        MessageModel::Data { report_type, payload } => seq![
            HostEventModel::ControlData { report_type, payload },
        ],
        MessageModel::Control { operation } => if operation
            == control_command::VIRTUAL_CABLE_UNPLUG {
            seq![HostEventModel::VirtualCableUnplug]
        } else {
            seq![]
        },
        _ => seq![],
    }
}

/// What bytes on the control channel make a host report. Bytes that are no
/// message are an error.
pub open spec fn on_control(pdu: Seq<u8>) -> Result<Seq<HostEventModel>, SimbleErrorModel> {
    match message::message_of(pdu) {
        Some(m) => Ok(host_events(m)),
        None => if pdu.len() == 0 {
            Err(SimbleErrorModel::PacketParseError("HID: empty control PDU"@))
        } else {
            Err(SimbleErrorModel::PacketParseError("HID: malformed control PDU"@))
        },
    }
}

/// The host: it builds requests and interprets the answers of the device.
#[derive(Debug, Clone, Copy)]
pub struct HidHost;

impl Default for HidHost {
    fn default() -> (r: Self)
        ensures
            r == HidHost,
    {
        HidHost
    }
}

fn control(operation: u8) -> (r: Vec<u8>)
    ensures
        r@ == (MessageModel::Control { operation }).wire(),
{
    HidMessage::Control { operation }.to_bytes()
}

impl HidHost {
    /// A host.
    pub fn new() -> (r: Self)
        ensures
            r == HidHost,
    {
        HidHost
    }

    /// Builds a request for a report. `buffer_size`, where it is given, is the
    /// most bytes that the device may return.
    pub fn get_report(&self, report_type: u8, report_id: u8, buffer_size: Option<u16>) -> (r: Vec<
        u8,
    >)
        ensures
            r@ == (MessageModel::GetReport { report_type, report_id, buffer_size }).wire(),
    {
        HidMessage::GetReport { report_type, report_id, buffer_size }.to_bytes()
    }

    /// Builds a request to store a report.
    pub fn set_report(&self, report_type: u8, report_id: u8, data: &[u8]) -> (r: Vec<u8>)
        ensures
            r@ == (MessageModel::SetReport {
                report_type,
                payload: seq![report_id] + data@,
            }).wire(),
    {
        let mut payload: Vec<u8> = vec![report_id];
        bytes::push_bytes(&mut payload, data);
        assert(payload@ =~= seq![report_id] + data@);
        HidMessage::SetReport { report_type, payload }.to_bytes()
    }

    /// Builds a request for the protocol mode.
    pub fn get_protocol(&self) -> (r: Vec<u8>)
        ensures
            r@ == MessageModel::GetProtocol.wire(),
    {
        HidMessage::GetProtocol.to_bytes()
    }

    /// Builds a request for another protocol mode.
    pub fn set_protocol(&self, mode: u8) -> (r: Vec<u8>)
        ensures
            r@ == (MessageModel::SetProtocol { mode }).wire(),
    {
        HidMessage::SetProtocol { mode }.to_bytes()
    }

    /// Builds the message that asks the device to suspend.
    pub fn suspend(&self) -> (r: Vec<u8>)
        ensures
            r@ == (MessageModel::Control { operation: control_command::SUSPEND }).wire(),
    {
        control(control_command::SUSPEND)
    }

    /// Builds the message that asks the device to resume.
    pub fn exit_suspend(&self) -> (r: Vec<u8>)
        ensures
            r@ == (MessageModel::Control { operation: control_command::EXIT_SUSPEND }).wire(),
    {
        control(control_command::EXIT_SUSPEND)
    }

    /// Builds the message that tears down the virtual cable.
    pub fn virtual_cable_unplug(&self) -> (r: Vec<u8>)
        ensures
            r@ == (MessageModel::Control {
                operation: control_command::VIRTUAL_CABLE_UNPLUG,
            }).wire(),
    {
        control(control_command::VIRTUAL_CABLE_UNPLUG)
    }

    /// Builds an output report, for the interrupt channel.
    pub fn send_output_report(&self, payload: Vec<u8>) -> (r: Vec<u8>)
        ensures
            r@ == (MessageModel::Data {
                report_type: report_type::OUTPUT,
                payload: payload@,
            }).wire(),
    {
        HidMessage::Data { report_type: report_type::OUTPUT, payload }.to_bytes()
    }

    /// Processes bytes from the control channel. Messages that a host never
    /// receives (requests) are ignored; malformed bytes are an error.
    pub fn receive_control(&self, pdu: &[u8]) -> (r: Result<Vec<HidHostEvent>, SimbleError>)
        ensures
            match r {
                Ok(events) => on_control(pdu@) == Ok::<Seq<HostEventModel>, SimbleErrorModel>(
                    models::seq_views(events@),
                ),
                Err(why) => on_control(pdu@) == Err::<Seq<HostEventModel>, SimbleErrorModel>(why@),
            },
    {
        let mut events: Vec<HidHostEvent> = Vec::new();
        match HidMessage::parse(pdu) {
            None => {
                if pdu.len() == 0 {
                    return Err(
                        SimbleError::PacketParseError(text::owned("HID: empty control PDU")),
                    );
                }
                return Err(
                    SimbleError::PacketParseError(text::owned("HID: malformed control PDU")),
                );
            },
            Some(HidMessage::Handshake { result_code }) => {
                events.push(HidHostEvent::Handshake(result_code));
            },
            Some(HidMessage::Data { report_type, payload }) => {
                events.push(HidHostEvent::ControlData { report_type, payload });
            },
            Some(HidMessage::Control { operation }) => {
                if operation == control_command::VIRTUAL_CABLE_UNPLUG {
                    events.push(HidHostEvent::VirtualCableUnplug);
                }
            },
            Some(_) => {},
        }
        assert(models::seq_views(events@) =~= on_control(pdu@)->Ok_0);
        Ok(events)
    }
}

/// What a device answers is what its host reports: the result code, or the
/// data.
pub proof fn law_answers_are_reported(result_code: u8, report_type: u8, payload: Seq<u8>)
    requires
        result_code < 0x10,
        report_type < 4,
    ensures
        on_control((MessageModel::Handshake { result_code }).wire()) == Ok::<
            Seq<HostEventModel>,
            SimbleErrorModel,
        >(seq![HostEventModel::Handshake(result_code)]),
        on_control((MessageModel::Data { report_type, payload }).wire()) == Ok::<
            Seq<HostEventModel>,
            SimbleErrorModel,
        >(seq![HostEventModel::ControlData { report_type, payload }]),
{
    message::law_message_round_trip(MessageModel::Handshake { result_code });
    message::law_message_round_trip(MessageModel::Data { report_type, payload });
}

} // verus!
