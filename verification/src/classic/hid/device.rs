//! The device role.

use std::collections::HashMap;
use vstd::prelude::*;
use crate::bytes;
use crate::classic::hid::control_command;
use crate::classic::hid::handshake_code;
use crate::classic::hid::message;
use crate::classic::hid::message::{HidMessage, MessageModel};
use crate::classic::hid::protocol_mode;
use crate::classic::hid::report_type;
use crate::models;
use crate::text;
use crate::types::{SimbleError, SimbleErrorModel};

verus! {

broadcast use vstd::std_specs::hash::group_hash_axioms;

/// Result of feeding bytes into [`HidDevice::receive_control`].
#[derive(Debug, Clone, PartialEq, Eq)]
pub enum HidDeviceEvent {
    /// The host asks to suspend.
    Suspend,
    /// The host asks to resume.
    ExitSuspend,
    /// The host tears down the virtual cable.
    VirtualCableUnplug,
    /// A report arrived on the control channel.
    ControlData {
        /// Report type.
        report_type: u8,
        /// Payload.
        payload: Vec<u8>,
    },
    /// A report was stored.
    ReportSet {
        /// Report type.
        report_type: u8,
        /// Report ID.
        report_id: u8,
        /// Data.
        data: Vec<u8>,
    },
    /// The protocol mode changed.
    ProtocolSet(u8),
}

/// The model of a [`HidDeviceEvent`].
#[verifier::ext_equal]
pub enum DeviceEventModel {
    Suspend,
    ExitSuspend,
    VirtualCableUnplug,
    ControlData { report_type: u8, payload: Seq<u8> },
    ReportSet { report_type: u8, report_id: u8, data: Seq<u8> },
    ProtocolSet(u8),
}

impl View for HidDeviceEvent {
    type V = DeviceEventModel;

    open spec fn view(&self) -> DeviceEventModel {
        match *self {
            HidDeviceEvent::Suspend => DeviceEventModel::Suspend,
            HidDeviceEvent::ExitSuspend => DeviceEventModel::ExitSuspend,
            HidDeviceEvent::VirtualCableUnplug => DeviceEventModel::VirtualCableUnplug,
            HidDeviceEvent::ControlData { report_type, payload } => DeviceEventModel::ControlData {
                report_type,
                payload: payload@,
            },
            HidDeviceEvent::ReportSet { report_type, report_id, data } =>
                DeviceEventModel::ReportSet { report_type, report_id, data: data@ },
            HidDeviceEvent::ProtocolSet(mode) => DeviceEventModel::ProtocolSet(mode),
        }
    }
}

/// The device: it answers control transactions from the reports that it
/// stores, by report type and ID, and sends input reports. Only reports that
/// were declared can be read and written.
#[derive(Debug, Clone)]
pub struct HidDevice {
    /// Current protocol mode.
    pub protocol_mode: u8,
    /// Reports by the number of their type and ID.
    pub reports: HashMap<u16, Vec<u8>>,
}

/// The number of a report type and ID.
pub open spec fn key(report_type: u8, report_id: u8) -> u16 {
    (report_type * 0x100 + report_id) as u16
}

fn report_key(report_type: u8, report_id: u8) -> (r: u16)
    ensures
        r == key(report_type, report_id),
{
    report_type as u16 * 0x100 + report_id as u16
}

/// The model of a [`HidDevice`].
#[verifier::ext_equal]
pub struct DeviceModel {
    pub protocol_mode: u8,
    /// Reports by type and ID.
    pub reports: Map<(u8, u8), Seq<u8>>,
}

/// The reports by type and ID.
pub open spec fn reports_view(reports: Map<u16, Vec<u8>>) -> Map<(u8, u8), Seq<u8>> {
    Map::new(
        |k: (u8, u8)| reports.contains_key(key(k.0, k.1)),
        |k: (u8, u8)| reports[key(k.0, k.1)]@,
    )
}

impl View for HidDevice {
    type V = DeviceModel;

    open spec fn view(&self) -> DeviceModel {
        DeviceModel {
            protocol_mode: self.protocol_mode,
            reports: reports_view(self.reports@),
        }
    }
}

/// Storing a report stores it under its type and ID alone.
proof fn lemma_reports_insert(reports: Map<u16, Vec<u8>>, t: u8, id: u8, data: Vec<u8>)
    ensures
        reports_view(reports.insert(key(t, id), data)) == reports_view(reports).insert(
            (t, id),
            data@,
        ),
{
    let stored = reports_view(reports.insert(key(t, id), data));
    assert forall|k: (u8, u8)| key(k.0, k.1) == key(t, id) implies k == (t, id) by {}
    assert(stored =~= reports_view(reports).insert((t, id), data@));
}

/// A device without reports, in report mode.
pub open spec fn new_device() -> DeviceModel {
    DeviceModel { protocol_mode: protocol_mode::REPORT, reports: Map::empty() }
}

/// The first bytes of a payload, as many as a buffer holds.
pub open spec fn capped(payload: Seq<u8>, buffer_size: Option<u16>) -> Seq<u8> {
    match buffer_size {
        Some(size) => if size < payload.len() {
            payload.take(size as int)
        } else {
            payload
        },
        None => payload,
    }
}

/// A handshake.
pub open spec fn handshake(result_code: u8) -> Seq<u8> {
    MessageModel::Handshake { result_code }.wire()
}

/// What a transaction makes of a device, its answer, and the events.
#[verifier::ext_equal]
pub struct Answer {
    pub device: DeviceModel,
    pub response: Option<Seq<u8>>,
    pub events: Seq<DeviceEventModel>,
}

/// An answer that changes and reports nothing.
pub open spec fn answered(d: DeviceModel, response: Option<Seq<u8>>) -> Answer {
    Answer { device: d, response, events: seq![] }
}

/// Events without an answer.
pub open spec fn noted(d: DeviceModel, events: Seq<DeviceEventModel>) -> Answer {
    Answer { device: d, response: None, events }
}

/// The answer to a request for a report.
pub open spec fn on_get_report(
    d: DeviceModel,
    report_type: u8,
    report_id: u8,
    buffer_size: Option<u16>,
) -> Answer {
    if d.reports.contains_key((report_type, report_id)) {
        let payload = capped(
            seq![report_id] + d.reports[(report_type, report_id)],
            buffer_size,
        );
        answered(d, Some(MessageModel::Data { report_type, payload }.wire()))
    } else {
        answered(d, Some(handshake(handshake_code::ERR_INVALID_REPORT_ID)))
    }
}

/// The answer to a report to store.
pub open spec fn on_set_report(d: DeviceModel, report_type: u8, payload: Seq<u8>) -> Answer {
    if payload.len() == 0 {
        answered(d, Some(handshake(handshake_code::ERR_INVALID_PARAMETER)))
    } else if !d.reports.contains_key((report_type, payload[0])) {
        answered(d, Some(handshake(handshake_code::ERR_INVALID_REPORT_ID)))
    } else {
        let data = payload.skip(1);
        Answer {
            device: DeviceModel {
                reports: d.reports.insert((report_type, payload[0]), data),
                ..d
            },
            response: Some(handshake(handshake_code::SUCCESSFUL)),
            events: seq![
                DeviceEventModel::ReportSet { report_type, report_id: payload[0], data },
            ],
        }
    }
}

/// What a control operation makes a device report.
pub open spec fn on_operation(d: DeviceModel, operation: u8) -> Answer {
    match operation {
        control_command::SUSPEND => noted(d, seq![DeviceEventModel::Suspend]),
        control_command::EXIT_SUSPEND => noted(d, seq![DeviceEventModel::ExitSuspend]),
        control_command::VIRTUAL_CABLE_UNPLUG => noted(
            d,
            seq![DeviceEventModel::VirtualCableUnplug],
        ),
        _ => noted(d, seq![]),
    }
}

/// The answer to a message.
pub open spec fn on_message(d: DeviceModel, m: MessageModel) -> Answer {
    match m {
        MessageModel::GetReport { report_type, report_id, buffer_size } => on_get_report(
            d,
            report_type,
            report_id,
            buffer_size,
        ),
        MessageModel::SetReport { report_type, payload } => on_set_report(d, report_type, payload),
        MessageModel::GetProtocol => answered(
            d,
            Some(
                MessageModel::Data {
                    report_type: report_type::OTHER,
                    payload: seq![d.protocol_mode],
                }.wire(),
            ),
        ),
        MessageModel::SetProtocol { mode } => Answer {
            device: DeviceModel { protocol_mode: mode, ..d },
            response: Some(handshake(handshake_code::SUCCESSFUL)),
            events: seq![DeviceEventModel::ProtocolSet(mode)],
        },
        MessageModel::Data { report_type, payload } => noted(
            d,
            seq![DeviceEventModel::ControlData { report_type, payload }],
        ),
        MessageModel::Control { operation } => on_operation(d, operation),
        MessageModel::Handshake { .. } => noted(d, seq![]),
    }
}

/// The answer to bytes on the control channel. What is no message is answered
/// as not supported; no bytes at all are an error.
pub open spec fn on_control(d: DeviceModel, pdu: Seq<u8>) -> Result<Answer, SimbleErrorModel> {
    match message::message_of(pdu) {
        Some(m) => Ok(on_message(d, m)),
        None => if pdu.len() == 0 {
            Err(SimbleErrorModel::PacketParseError("HID: empty control PDU"@))
        } else {
            Ok(answered(d, Some(handshake(handshake_code::ERR_UNSUPPORTED_REQUEST))))
        },
    }
}

/// The model of an answer.
pub open spec fn answer_view(
    after: DeviceModel,
    r: (Option<Vec<u8>>, Vec<HidDeviceEvent>),
) -> Answer {
    Answer {
        device: after,
        response: models::opt_view(r.0),
        events: models::seq_views(r.1@),
    }
}

fn no_events() -> (r: Vec<HidDeviceEvent>)
    ensures
        models::seq_views(r@) == Seq::<DeviceEventModel>::empty(),
{
    let r: Vec<HidDeviceEvent> = Vec::new();
    assert(models::seq_views(r@) =~= Seq::<DeviceEventModel>::empty());
    r
}

fn one_event(event: HidDeviceEvent) -> (r: Vec<HidDeviceEvent>)
    ensures
        models::seq_views(r@) == seq![event@],
{
    let mut r: Vec<HidDeviceEvent> = Vec::new();
    r.push(event);
    assert(models::seq_views(r@) =~= seq![event@]);
    r
}

fn make_handshake(result_code: u8) -> (r: Vec<u8>)
    ensures
        r@ == handshake(result_code),
{
    HidMessage::Handshake { result_code }.to_bytes()
}

impl Default for HidDevice {
    fn default() -> (r: Self)
        ensures
            r@ == new_device(),
    {
        let r = HidDevice { protocol_mode: protocol_mode::REPORT, reports: HashMap::new() };
        assert(r@.reports =~= Map::empty());
        r
    }
}

impl HidDevice {
    /// A device without reports. Devices start in report mode.
    pub fn new() -> (r: Self)
        ensures
            r@ == new_device(),
    {
        Self::default()
    }

    /// Declares a report, or overwrites it.
    pub fn put_report(&mut self, report_type: u8, report_id: u8, data: Vec<u8>)
        ensures
            final(self)@ == (DeviceModel {
                reports: old(self)@.reports.insert((report_type, report_id), data@),
                ..old(self)@
            }),
    {
        proof {
            lemma_reports_insert(self.reports@, report_type, report_id, data);
        }
        self.reports.insert(report_key(report_type, report_id), data);
    }

    /// The data of a report, if it is declared.
    pub fn report(&self, report_type: u8, report_id: u8) -> (r: Option<&[u8]>)
        ensures
            match r {
                Some(data) => self@.reports.contains_key((report_type, report_id)) && data@
                    == self@.reports[(report_type, report_id)],
                None => !self@.reports.contains_key((report_type, report_id)),
            },
    {
        match self.reports.get(&report_key(report_type, report_id)) {
            Some(data) => Some(data.as_slice()),
            None => None,
        }
    }

    /// Builds an input report, for the interrupt channel.
    pub fn send_input_report(&self, payload: Vec<u8>) -> (r: Vec<u8>)
        ensures
            r@ == (MessageModel::Data { report_type: report_type::INPUT, payload: payload@ }).wire(
            ),
    {
        HidMessage::Data { report_type: report_type::INPUT, payload }.to_bytes()
    }

    /// Builds the message that tears down the virtual cable.
    pub fn virtual_cable_unplug(&self) -> (r: Vec<u8>)
        ensures
            r@ == (MessageModel::Control {
                operation: control_command::VIRTUAL_CABLE_UNPLUG,
            }).wire(),
    {
        HidMessage::Control { operation: control_command::VIRTUAL_CABLE_UNPLUG }.to_bytes()
    }

    /// Processes bytes from the control channel, returning the answer to send,
    /// if the transaction asks for one, and any events.
    pub fn receive_control(&mut self, pdu: &[u8]) -> (r: Result<
        (Option<Vec<u8>>, Vec<HidDeviceEvent>),
        SimbleError,
    >)
        ensures
            match r {
                Ok(out) => on_control(old(self)@, pdu@) == Ok::<Answer, SimbleErrorModel>(
                    answer_view(final(self)@, out),
                ),
                Err(why) => on_control(old(self)@, pdu@) == Err::<Answer, SimbleErrorModel>(why@)
                    && final(self)@ == old(self)@,
            },
    {
        match HidMessage::parse(pdu) {
            Some(message) => Ok(self.handle(message)),
            None => {
                if pdu.len() == 0 {
                    return Err(
                        SimbleError::PacketParseError(text::owned("HID: empty control PDU")),
                    );
                }
                Ok((Some(make_handshake(handshake_code::ERR_UNSUPPORTED_REQUEST)), no_events()))
            },
        }
    }

    fn handle(&mut self, message: HidMessage) -> (r: (Option<Vec<u8>>, Vec<HidDeviceEvent>))
        ensures
            answer_view(final(self)@, r) == on_message(old(self)@, message@),
    {
        match message {
            HidMessage::GetReport { report_type, report_id, buffer_size } => (
                Some(self.get_report(report_type, report_id, buffer_size)),
                no_events(),
            ),
            HidMessage::SetReport { report_type, payload } => self.set_report(
                report_type,
                &payload,
            ),
            HidMessage::GetProtocol => {
                let payload: Vec<u8> = vec![self.protocol_mode];
                assert(payload@ =~= seq![self.protocol_mode]);
                (
                    Some(
                        HidMessage::Data { report_type: report_type::OTHER, payload }.to_bytes(),
                    ),
                    no_events(),
                )
            },
            HidMessage::SetProtocol { mode } => {
                self.protocol_mode = mode;
                (
                    Some(make_handshake(handshake_code::SUCCESSFUL)),
                    one_event(HidDeviceEvent::ProtocolSet(mode)),
                )
            },
            HidMessage::Data { report_type, payload } => (
                None,
                one_event(HidDeviceEvent::ControlData { report_type, payload }),
            ),
            HidMessage::Control { operation } => match operation {
                control_command::SUSPEND => (None, one_event(HidDeviceEvent::Suspend)),
                control_command::EXIT_SUSPEND => (None, one_event(HidDeviceEvent::ExitSuspend)),
                control_command::VIRTUAL_CABLE_UNPLUG => (
                    None,
                    one_event(HidDeviceEvent::VirtualCableUnplug),
                ),
                _ => (None, no_events()),
            },
            HidMessage::Handshake { .. } => (None, no_events()),
        }
    }

    fn get_report(&self, report_type: u8, report_id: u8, buffer_size: Option<u16>) -> (r: Vec<u8>)
        ensures
            Some(r@) == on_get_report(self@, report_type, report_id, buffer_size).response,
    {
        match self.report(report_type, report_id) {
            Some(data) => {
                let mut payload: Vec<u8> = vec![report_id];
                bytes::push_bytes(&mut payload, data);
                assert(payload@ =~= seq![report_id] + data@);
                if let Some(size) = buffer_size {
                    if (size as usize) < payload.len() {
                        let ghost whole = payload@;
                        payload = bytes::copy_range(&payload, 0, size as usize);
                        assert(payload@ =~= whole.take(size as int));
                    }
                }
                HidMessage::Data { report_type, payload }.to_bytes()
            },
            None => make_handshake(handshake_code::ERR_INVALID_REPORT_ID),
        }
    }

    fn set_report(&mut self, report_type: u8, payload: &[u8]) -> (r: (
        Option<Vec<u8>>,
        Vec<HidDeviceEvent>,
    ))
        ensures
            answer_view(final(self)@, r) == on_set_report(old(self)@, report_type, payload@),
    {
        if payload.len() == 0 {
            return (Some(make_handshake(handshake_code::ERR_INVALID_PARAMETER)), no_events());
        }
        let report_id: u8 = payload[0];
        if self.report(report_type, report_id).is_none() {
            return (Some(make_handshake(handshake_code::ERR_INVALID_REPORT_ID)), no_events());
        }
        let data = bytes::copy_range(payload, 1, payload.len());
        assert(data@ =~= payload@.skip(1));
        self.put_report(report_type, report_id, bytes::copy(&data));
        (
            Some(make_handshake(handshake_code::SUCCESSFUL)),
            one_event(HidDeviceEvent::ReportSet { report_type, report_id, data }),
        )
    }
}

// ---------------------------------------------------------------------------
// Laws
// ---------------------------------------------------------------------------

/// A report that a host stores is what a host reads back, if it is declared.
pub proof fn law_stored_report_is_read_back(
    d: DeviceModel,
    report_type: u8,
    report_id: u8,
    data: Seq<u8>,
)
    requires
        report_type < 4,
        d.reports.contains_key((report_type, report_id)),
    ensures
        ({
            let request = MessageModel::SetReport {
                report_type,
                payload: seq![report_id] + data,
            };
            let read = MessageModel::GetReport { report_type, report_id, buffer_size: None };
            match on_control(d, request.wire()) {
                Ok(stored) => stored.response == Some(handshake(handshake_code::SUCCESSFUL))
                    && on_control(stored.device, read.wire()) == Ok::<Answer, SimbleErrorModel>(
                    answered(
                        stored.device,
                        Some(
                            MessageModel::Data {
                                report_type,
                                payload: seq![report_id] + data,
                            }.wire(),
                        ),
                    ),
                ),
                Err(_) => false,
            }
        }),
{
    let request = MessageModel::SetReport { report_type, payload: seq![report_id] + data };
    let read = MessageModel::GetReport { report_type, report_id, buffer_size: None };
    message::law_message_round_trip(request);
    message::law_message_round_trip(read);
    assert((seq![report_id] + data).skip(1) =~= data);
}

/// A report that is not declared can neither be read nor stored.
pub proof fn law_undeclared_report_is_refused(
    d: DeviceModel,
    report_type: u8,
    report_id: u8,
    buffer_size: Option<u16>,
    data: Seq<u8>,
)
    requires
        report_type < 4,
        !d.reports.contains_key((report_type, report_id)),
    ensures
        ({
            let refused = Ok::<Answer, SimbleErrorModel>(
                answered(d, Some(handshake(handshake_code::ERR_INVALID_REPORT_ID))),
            );
            &&& on_control(
                d,
                MessageModel::GetReport { report_type, report_id, buffer_size }.wire(),
            ) == refused
            &&& on_control(
                d,
                MessageModel::SetReport {
                    report_type,
                    payload: seq![report_id] + data,
                }.wire(),
            ) == refused
        }),
{
    message::law_message_round_trip(
        MessageModel::GetReport { report_type, report_id, buffer_size },
    );
    message::law_message_round_trip(
        MessageModel::SetReport { report_type, payload: seq![report_id] + data },
    );
}

/// The protocol mode that a host sets is the one that it reads back.
pub proof fn law_protocol_mode_is_read_back(d: DeviceModel, mode: u8)
    requires
        mode < 2,
    ensures
        match on_control(d, MessageModel::SetProtocol { mode }.wire()) {
            Ok(set) => on_control(set.device, MessageModel::GetProtocol.wire()) == Ok::<
                Answer,
                SimbleErrorModel,
            >(
                answered(
                    set.device,
                    Some(
                        MessageModel::Data {
                            report_type: report_type::OTHER,
                            payload: seq![mode],
                        }.wire(),
                    ),
                ),
            ),
            Err(_) => false,
        },
{
    message::law_message_round_trip(MessageModel::SetProtocol { mode });
    message::law_message_round_trip(MessageModel::GetProtocol);
}

/// No answer to a request for a report is longer than the buffer that the
/// request names, header aside.
pub proof fn law_buffer_size_is_kept(payload: Seq<u8>, size: u16)
    ensures
        capped(payload, Some(size)).len() <= size,
        payload.len() <= size ==> capped(payload, Some(size)) == payload,
{
}

/// Bytes on the control channel never change which reports are declared.
pub proof fn law_declared_reports_stay(d: DeviceModel, pdu: Seq<u8>)
    ensures
        match on_control(d, pdu) {
            Ok(answer) => answer.device.reports.dom() == d.reports.dom(),
            Err(_) => true,
        },
{
    match on_control(d, pdu) {
        Ok(answer) => {
            assert(answer.device.reports.dom() =~= d.reports.dom());
        },
        Err(_) => {},
    }
}

} // verus!
