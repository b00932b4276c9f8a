//! What passes over the channels, byte by byte: what a device does with each
//! message of a host, and what a host reports.

use vstd::prelude::*;
use crate::classic::hid::device;
use crate::classic::hid::device::{Answer, DeviceEventModel, DeviceModel};
use crate::classic::hid::host;
use crate::classic::hid::host::HostEventModel;
use crate::classic::hid::message;
use crate::classic::hid::message::MessageModel;
use crate::types::SimbleErrorModel;

verus! {

// ---------------------------------------------------------------------------
// The device
// ---------------------------------------------------------------------------

/// Whether bytes on the control channel make a device come to a state, answer,
/// and report events.
pub open spec fn answers(
    d: DeviceModel,
    pdu: Seq<u8>,
    after: DeviceModel,
    response: Option<Seq<u8>>,
    events: Seq<DeviceEventModel>,
) -> bool {
    device::on_control(d, pdu) == Ok::<Answer, SimbleErrorModel>(
        Answer { device: after, response, events },
    )
}

/// A report that is there is answered as data of its type: its ID, and then its
/// bytes. Nothing changes.
pub proof fn law_report_is_answered(d: DeviceModel, report_type: u8, id: u8)
    requires
        report_type < 4,
        d.reports.contains_key((report_type, id)),
    ensures
        answers(
            d,
            seq![(0x40 + report_type) as u8, id],
            d,
            Some(seq![(0xA0 + report_type) as u8, id] + d.reports[(report_type, id)]),
            seq![],
        ),
{
    let pdu = seq![(0x40 + report_type) as u8, id];
    assert(pdu[0] / 16 == 4 && pdu[0] % 16 == report_type);
    assert(seq![(0xA0 + report_type) as u8] + (seq![id] + d.reports[(report_type, id)])
        =~= seq![(0xA0 + report_type) as u8, id] + d.reports[(report_type, id)]);
}

/// Where the request says how much it has room for, the answer has at most so
/// many bytes behind its header: the first of them.
pub proof fn law_report_is_cut(d: DeviceModel, report_type: u8, id: u8, size: u16)
    requires
        report_type < 4,
        d.reports.contains_key((report_type, id)),
    ensures
        ({
            let report = d.reports[(report_type, id)];
            let whole = seq![(0xA0 + report_type) as u8, id] + report;
            answers(
                d,
                seq![
                    (0x48 + report_type) as u8,
                    id,
                    (size % 256) as u8,
                    (size / 256) as u8,
                ],
                d,
                Some(
                    if 1 + size < whole.len() {
                        whole.take(1 + size)
                    } else {
                        whole
                    },
                ),
                seq![],
            )
        }),
{
    let pdu = seq![
        (0x48 + report_type) as u8,
        id,
        (size % 256) as u8,
        (size / 256) as u8,
    ];
    let report = d.reports[(report_type, id)];
    let whole = seq![(0xA0 + report_type) as u8, id] + report;
    assert(pdu[0] / 16 == 4 && pdu[0] % 16 == 8 + report_type);
    assert(crate::bytes::le16(pdu, 2) == size);
    let head = seq![(0xA0 + report_type) as u8];
    let body = seq![id] + report;
    assert(head + body =~= whole);
    if 1 + size < whole.len() {
        assert(head + body.take(size as int) =~= whole.take(1 + size));
    }
}

/// A report that is not there is refused, when it is asked for and when it is
/// to be stored, and so is a report without an ID.
pub proof fn law_missing_report_is_refused(d: DeviceModel, report_type: u8, id: u8, data: Seq<u8>)
    requires
        report_type < 4,
        !d.reports.contains_key((report_type, id)),
    ensures
        answers(d, seq![(0x40 + report_type) as u8, id], d, Some(seq![0x02u8]), seq![]),
        answers(d, seq![(0x50 + report_type) as u8, id] + data, d, Some(seq![0x02u8]), seq![]),
        answers(d, seq![(0x50 + report_type) as u8], d, Some(seq![0x04u8]), seq![]),
{
    let get = seq![(0x40 + report_type) as u8, id];
    let set = seq![(0x50 + report_type) as u8, id] + data;
    let bare = seq![(0x50 + report_type) as u8];
    assert(get[0] / 16 == 4 && get[0] % 16 == report_type);
    assert(set[0] / 16 == 5 && set[0] % 16 == report_type);
    assert(bare[0] / 16 == 5 && bare[0] % 16 == report_type);
    assert(set.skip(1)[0] == id);
    assert(bare.skip(1) =~= seq![]);
}

/// A report that is stored takes the place of the one with its type and ID, and
/// of no other. That is acknowledged and reported.
pub proof fn law_report_is_stored(d: DeviceModel, report_type: u8, id: u8, data: Seq<u8>)
    requires
        report_type < 4,
        d.reports.contains_key((report_type, id)),
    ensures
        answers(
            d,
            seq![(0x50 + report_type) as u8, id] + data,
            DeviceModel { reports: d.reports.insert((report_type, id), data), ..d },
            Some(seq![0x00u8]),
            seq![DeviceEventModel::ReportSet { report_type, report_id: id, data }],
        ),
{
    let set = seq![(0x50 + report_type) as u8, id] + data;
    assert(set[0] / 16 == 5 && set[0] % 16 == report_type);
    assert(set.skip(1)[0] == id);
    assert(set.skip(1).skip(1) =~= data);
}

/// The protocol mode is answered as data without a report type, and a mode that
/// is set is kept, acknowledged and reported: zero is boot mode, one report
/// mode. A new device is in report mode and has no reports.
pub proof fn law_protocol_mode(d: DeviceModel, mode: u8)
    requires
        mode < 2,
    ensures
        answers(d, seq![0x60u8], d, Some(seq![0xA0u8, d.protocol_mode]), seq![]),
        answers(
            d,
            seq![(0x70 + mode) as u8],
            DeviceModel { protocol_mode: mode, ..d },
            Some(seq![0x00u8]),
            seq![DeviceEventModel::ProtocolSet(mode)],
        ),
        device::new_device().protocol_mode == 1,
        forall|k: (u8, u8)| !device::new_device().reports.contains_key(k),
{
    let set = seq![(0x70 + mode) as u8];
    assert(set[0] / 16 == 7 && set[0] % 16 == mode);
    assert(seq![0xA0u8] + seq![d.protocol_mode] =~= seq![0xA0u8, d.protocol_mode]);
}

/// Suspend, resume and unplug are reported and not answered; other control
/// operations do nothing.
pub proof fn law_control_operations(d: DeviceModel, operation: u8)
    requires
        operation < 16,
    ensures
        answers(
            d,
            seq![(0x10 + operation) as u8],
            d,
            None,
            if operation == 3 {
                seq![DeviceEventModel::Suspend]
            } else if operation == 4 {
                seq![DeviceEventModel::ExitSuspend]
            } else if operation == 5 {
                seq![DeviceEventModel::VirtualCableUnplug]
            } else {
                seq![]
            },
        ),
{
    let pdu = seq![(0x10 + operation) as u8];
    assert(pdu[0] / 16 == 1 && pdu[0] % 16 == operation);
}

/// Data is reported with its type and not answered; a handshake does nothing.
pub proof fn law_data_and_handshakes(d: DeviceModel, report_type: u8, code: u8, data: Seq<u8>)
    requires
        report_type < 4,
        code < 16,
    ensures
        answers(
            d,
            seq![(0xA0 + report_type) as u8] + data,
            d,
            None,
            seq![DeviceEventModel::ControlData { report_type, payload: data }],
        ),
        answers(d, seq![code], d, None, seq![]),
{
    let pdu = seq![(0xA0 + report_type) as u8] + data;
    assert(pdu[0] / 16 == 10 && pdu[0] % 16 == report_type);
    assert(pdu.skip(1) =~= data);
}

/// Message types that do not exist are answered as not supported. No bytes at
/// all are an error.
pub proof fn law_unsupported_messages(d: DeviceModel, pdu: Seq<u8>)
    ensures
        pdu.len() > 0 && (pdu[0] / 16 == 2 || pdu[0] / 16 == 3 || pdu[0] / 16 == 8 || pdu[0] / 16
            == 9 || pdu[0] / 16 > 10) ==> answers(d, pdu, d, Some(seq![0x03u8]), seq![]),
        pdu.len() == 0 ==> device::on_control(d, pdu) is Err,
{
}

// ---------------------------------------------------------------------------
// The host
// ---------------------------------------------------------------------------

/// The bytes of the requests of a host, and of the reports of either side.
pub proof fn law_message_bytes(
    report_type: u8,
    id: u8,
    size: u16,
    mode: u8,
    code: u8,
    payload: Seq<u8>,
)
    requires
        report_type < 4,
        mode < 2,
        code < 16,
    ensures
        (MessageModel::GetReport { report_type, report_id: id, buffer_size: None }).wire() == seq![
            (0x40 + report_type) as u8,
            id,
        ],
        (MessageModel::GetReport { report_type, report_id: id, buffer_size: Some(size) }).wire()
            == seq![
            (0x48 + report_type) as u8,
            id,
            (size % 256) as u8,
            (size / 256) as u8,
        ],
        (MessageModel::SetReport { report_type, payload }).wire() == seq![
            (0x50 + report_type) as u8,
        ] + payload,
        MessageModel::GetProtocol.wire() == seq![0x60u8],
        (MessageModel::SetProtocol { mode }).wire() == seq![(0x70 + mode) as u8],
        (MessageModel::Data { report_type, payload }).wire() == seq![(0xA0 + report_type) as u8]
            + payload,
        (MessageModel::Control { operation: code }).wire() == seq![(0x10 + code) as u8],
        (MessageModel::Handshake { result_code: code }).wire() == seq![code],
{
    assert((MessageModel::GetReport {
        report_type,
        report_id: id,
        buffer_size: Some(size),
    }).wire() =~= seq![
        (0x48 + report_type) as u8,
        id,
        (size % 256) as u8,
        (size / 256) as u8,
    ]);
}

/// A host reports the result of a request, the data that it asked for and an
/// unplug. Other messages are ignored, and what is no message is an error.
pub proof fn law_host_events(report_type: u8, code: u8, payload: Seq<u8>)
    requires
        report_type < 4,
        code < 16,
    ensures
        host::on_control(seq![code]) == Ok::<Seq<HostEventModel>, SimbleErrorModel>(
            seq![HostEventModel::Handshake(code)],
        ),
        host::on_control(seq![(0xA0 + report_type) as u8] + payload) == Ok::<
            Seq<HostEventModel>,
            SimbleErrorModel,
        >(seq![HostEventModel::ControlData { report_type, payload }]),
        host::on_control(seq![(0x10 + code) as u8]) == Ok::<Seq<HostEventModel>, SimbleErrorModel>(
            if code == 5 {
                seq![HostEventModel::VirtualCableUnplug]
            } else {
                seq![]
            },
        ),
        host::on_control(seq![(0x50 + report_type) as u8] + payload) == Ok::<
            Seq<HostEventModel>,
            SimbleErrorModel,
        >(seq![]),
        host::on_control(seq![(0x80 + code) as u8]) is Err,
        host::on_control(Seq::<u8>::empty()) is Err,
{
    let data = seq![(0xA0 + report_type) as u8] + payload;
    assert(data[0] / 16 == 10 && data[0] % 16 == report_type);
    assert(data.skip(1) =~= payload);
    let control = seq![(0x10 + code) as u8];
    assert(control[0] / 16 == 1 && control[0] % 16 == code);
    let set = seq![(0x50 + report_type) as u8] + payload;
    assert(set[0] / 16 == 5);
    let other = seq![(0x80 + code) as u8];
    assert(other[0] / 16 == 8);
}

/// A report on the interrupt channel is reported with its type and its bytes.
/// Another message there is ignored, and what is no message is an error.
pub proof fn law_interrupt_reports(report_type: u8, code: u8, payload: Seq<u8>)
    requires
        report_type < 4,
        code < 16,
    ensures
        message::interrupt_of(seq![(0xA0 + report_type) as u8] + payload) == Ok::<
            Option<(u8, Seq<u8>)>,
            SimbleErrorModel,
        >(Some((report_type, payload))),
        message::interrupt_of(seq![(0x10 + code) as u8]) == Ok::<
            Option<(u8, Seq<u8>)>,
            SimbleErrorModel,
        >(None),
        message::interrupt_of(seq![(0x80 + code) as u8]) is Err,
{
    let data = seq![(0xA0 + report_type) as u8] + payload;
    assert(data[0] / 16 == 10 && data[0] % 16 == report_type);
    assert(data.skip(1) =~= payload);
    let control = seq![(0x10 + code) as u8];
    assert(control[0] / 16 == 1);
    let other = seq![(0x80 + code) as u8];
    assert(other[0] / 16 == 8);
}

} // verus!
