//! The model of a connection: its state, and what it sends and reports.

use vstd::prelude::*;
use crate::classic::avc;
use crate::classic::avc::{
    CommandFrameModel,
    CommandType,
    FrameModel,
    ResponseCode,
    ResponseFrameModel,
};
use crate::classic::avctp;
use crate::classic::avctp::AvctpEventModel;
use crate::classic::avrcp::assembler;
use crate::classic::avrcp::assembler::PduAssemblerModel;
use crate::classic::avrcp::capability_id;
use crate::classic::avrcp::command;
use crate::classic::avrcp::command::CommandModel;
use crate::classic::avrcp::event::EventModel;
use crate::classic::avrcp::event_id;
use crate::classic::avrcp::items::{ApplicationSetting, CapabilityModel, MediaAttributeModel};
use crate::classic::avrcp::media_attribute_id;
use crate::classic::avrcp::pdu_id;
use crate::classic::avrcp::response;
use crate::classic::avrcp::response::ResponseModel;
use crate::classic::avrcp::status_code;
use crate::classic::avrcp::{
    AVRCP_PID,
    BLUETOOTH_SIG_COMPANY_ID,
    MAXIMUM_VOLUME,
    PLAYBACK_POSITION_UNAVAILABLE,
};
use crate::text;
use crate::types::SimbleErrorModel;

verus! {

/// What a transaction label in flight stands for.
#[derive(Debug, Clone, Copy)]
pub enum Pending {
    PassThrough { operation_id: u8, pressed: bool },
    Vendor { pdu_id: u8, attribute_id: Option<u8> },
}

/// The model of the held-back tail of a response.
#[verifier::ext_equal]
pub struct ContinuationModel {
    /// The PDU ID of the response that was cut.
    pub pdu_id: u8,
    /// The response code that every packet carries.
    pub response_code: ResponseCode,
    /// The packets that were not sent yet, in order.
    pub remaining: Seq<Seq<u8>>,
}

/// The model of a connection.
#[verifier::ext_equal]
pub struct ConnectionModel {
    pub supported_events: Seq<u8>,
    pub supported_company_ids: Seq<u32>,
    pub supported_player_app_settings: Seq<(u8, Seq<u8>)>,
    pub player_app_settings: Seq<ApplicationSetting>,
    pub volume: u8,
    pub playback_status: u8,
    pub song_length: u32,
    pub song_position: u32,
    pub uid_counter: u16,
    pub addressed_player_id: u16,
    pub current_track_uid: u64,
    pub element_attributes: Seq<MediaAttributeModel>,
    pub key_event_response: ResponseCode,
    pub avctp: avctp::ProtocolModel,
    pub peer_mtu: u16,
    /// Part-assembled commands by transaction label, with the command type of
    /// the first packet.
    pub command_assemblers: Map<u8, (CommandType, PduAssemblerModel)>,
    /// Part-assembled responses by transaction label, with the response code
    /// of the first packet.
    pub response_assemblers: Map<u8, (ResponseCode, PduAssemblerModel)>,
    /// What the labels in flight stand for.
    pub pending: Map<u8, Pending>,
    pub next_transaction: u8,
    /// The labels on which notifications were registered, by event ID.
    pub notification_listeners: Map<u8, u8>,
    pub continuation: Option<ContinuationModel>,
    pub continuations_requested: u32,
}

/// The model of an event that a connection reports.
#[verifier::ext_equal]
pub enum AvrcpEventModel {
    KeyEvent { operation_id: u8, pressed: bool, data: Seq<u8> },
    VolumeSet { volume: u8 },
    PlayerAppSettingsSet { settings: Seq<ApplicationSetting> },
    PlayItemRequested { scope: u8, uid: u64, uid_counter: u16 },
    NotificationRegistered { event_id: u8 },
    PassThroughResponse { response: ResponseCode, operation_id: u8, pressed: bool },
    SupportedEventsReceived(Seq<u8>),
    SupportedCompanyIdsReceived(Seq<u32>),
    PlayStatusReceived { song_length: u32, song_position: u32, play_status: u8 },
    ElementAttributesReceived(Seq<MediaAttributeModel>),
    AppSettingAttributesReceived(Seq<u8>),
    AppSettingValuesReceived { attribute_id: u8, value_ids: Seq<u8> },
    CurrentAppSettingsReceived(Seq<ApplicationSetting>),
    AppSettingsAccepted,
    VolumeAccepted { volume: u8 },
    PlayItemCompleted { status: u8 },
    NotificationReceived { event: EventModel, interim: bool },
    ResponseReceived { response: ResponseModel },
    CommandRejected { pdu_id: u8, status_code: u8 },
    CommandNotImplemented { pdu_id: u8 },
    InvalidPid { pid: u16 },
}

/// What a connection becomes, sends and reports.
#[verifier::ext_equal]
pub struct Step {
    pub state: ConnectionModel,
    pub outgoing: Seq<Seq<u8>>,
    pub events: Seq<AvrcpEventModel>,
}

/// A step that changes nothing.
pub open spec fn idle(m: ConnectionModel) -> Step {
    Step { state: m, outgoing: seq![], events: seq![] }
}

/// A step that only sends.
pub open spec fn sending(sent: (ConnectionModel, Seq<Seq<u8>>)) -> Step {
    Step { state: sent.0, outgoing: sent.1, events: seq![] }
}

/// A step that sends and reports one event.
pub open spec fn reporting(sent: (ConnectionModel, Seq<Seq<u8>>), event: AvrcpEventModel) -> Step {
    Step { state: sent.0, outgoing: sent.1, events: seq![event] }
}

// ---------------------------------------------------------------------------
// Sending commands
// ---------------------------------------------------------------------------

/// The first label from the next one on that is not in flight, after `tried`
/// labels.
pub open spec fn free_label(pending: Map<u8, Pending>, next: u8, tried: int) -> Option<u8>
    decreases 16 - tried,
{
    if tried >= 16 {
        None
    } else {
        let label = ((next % 16 + tried) % 16) as u8;
        if pending.contains_key(label) {
            free_label(pending, next, tried + 1)
        } else {
            Some(label)
        }
    }
}

/// The error when every label is in flight.
pub open spec fn labels_exhausted() -> SimbleErrorModel {
    SimbleErrorModel::DeviceError("AVRCP: all 16 transaction labels are in flight"@)
}

/// The frame of a command PDU.
pub open spec fn command_frame(ctype: CommandType, c: CommandModel) -> Seq<u8> {
    CommandFrameModel {
        ctype,
        subunit_type: avc::subunit_type::PANEL,
        subunit_id: 0,
        opcode: avc::opcode::VENDOR_DEPENDENT,
        operands: avc::vendor_operands(
            BLUETOOTH_SIG_COMPANY_ID,
            assembler::pdu_packet(c.id(), assembler::PDU_SINGLE, c.parameters()),
        ),
    }.bytes()
}

/// The frame of a key press or release.
pub open spec fn key_frame(operation_id: u8, pressed: bool) -> Seq<u8> {
    CommandFrameModel {
        ctype: CommandType::Control,
        subunit_type: avc::subunit_type::PANEL,
        subunit_id: 0,
        opcode: avc::opcode::PASS_THROUGH,
        operands: avc::PassThroughModel { pressed, operation_id, operation_data: seq![] }.operands(
        ),
    }.bytes()
}

/// Sending a command frame on a label of its own, which stays in flight.
pub open spec fn send_frame(m: ConnectionModel, pending: Pending, frame: Seq<u8>) -> (
    ConnectionModel,
    Result<Seq<Seq<u8>>, SimbleErrorModel>,
) {
    match free_label(m.pending, m.next_transaction, 0) {
        None => (m, Err(labels_exhausted())),
        Some(label) => (
            ConnectionModel {
                pending: m.pending.insert(label, pending),
                next_transaction: ((label + 1) % 16) as u8,
                ..m
            },
            Ok(avctp::command_packets(m.avctp, label, AVRCP_PID, frame)),
        ),
    }
}

/// What is remembered of a command in flight.
pub open spec fn pending_of(c: CommandModel) -> Pending {
    Pending::Vendor {
        pdu_id: c.id(),
        attribute_id: match c {
            CommandModel::ListPlayerApplicationSettingValues { attribute_id } => Some(attribute_id),
            _ => None,
        },
    }
}

/// Sending a command PDU.
pub open spec fn send_command(m: ConnectionModel, ctype: CommandType, c: CommandModel) -> (
    ConnectionModel,
    Result<Seq<Seq<u8>>, SimbleErrorModel>,
) {
    send_frame(m, pending_of(c), command_frame(ctype, c))
}

// ---------------------------------------------------------------------------
// Sending responses
// ---------------------------------------------------------------------------

/// How many bytes of parameters fit in one frame of the connection.
pub open spec fn parameter_size(m: ConnectionModel) -> int {
    let frame = if m.peer_mtu < 512 {
        m.peer_mtu as int
    } else {
        512
    };
    if frame - 13 < 1 {
        1
    } else {
        frame - 13
    }
}

/// The packets of a vendor-dependent response frame around a PDU packet.
pub open spec fn wrapped(
    m: ConnectionModel,
    label: u8,
    code: ResponseCode,
    pdu: Seq<u8>,
) -> Seq<Seq<u8>> {
    avctp::response_packets(
        m.avctp,
        label,
        AVRCP_PID,
        ResponseFrameModel {
            response: code,
            subunit_type: avc::subunit_type::PANEL,
            subunit_id: 0,
            opcode: avc::opcode::VENDOR_DEPENDENT,
            operands: avc::vendor_operands(BLUETOOTH_SIG_COMPANY_ID, pdu),
        }.bytes(),
    )
}

/// Answering with a PDU. What does not fit in the first packet is held back;
/// an answer that fits supersedes only a tail of the same PDU.
#[verifier::opaque]
pub open spec fn respond(
    m: ConnectionModel,
    label: u8,
    code: ResponseCode,
    id: u8,
    parameters: Seq<u8>,
) -> (ConnectionModel, Seq<Seq<u8>>) {
    let packets = assembler::pdu_packets(id, parameters, parameter_size(m));
    let continuation = if packets.len() > 1 {
        Some(
            ContinuationModel { pdu_id: id, response_code: code, remaining: packets.skip(1) },
        )
    } else {
        match m.continuation {
            Some(c) => if c.pdu_id == id {
                None
            } else {
                Some(c)
            },
            None => None,
        }
    };
    (ConnectionModel { continuation, ..m }, wrapped(m, label, code, packets[0]))
}

/// Answering that a command is rejected.
pub open spec fn reject(m: ConnectionModel, label: u8, id: u8, status: u8) -> (
    ConnectionModel,
    Seq<Seq<u8>>,
) {
    respond(m, label, ResponseCode::Rejected, id, seq![status])
}

/// Answering that a command is not implemented.
pub open spec fn decline(m: ConnectionModel, label: u8, id: u8) -> (
    ConnectionModel,
    Seq<Seq<u8>>,
) {
    respond(m, label, ResponseCode::NotImplemented, id, seq![])
}

/// Answering with a stable response.
pub open spec fn answer(m: ConnectionModel, label: u8, r: ResponseModel) -> (
    ConnectionModel,
    Seq<Seq<u8>>,
) {
    respond(m, label, ResponseCode::ImplementedOrStable, r.id(), r.parameters())
}

/// The packets that echo a frame with the code that says that it is not
/// implemented.
pub open spec fn echo(m: ConnectionModel, label: u8, frame: CommandFrameModel) -> Seq<Seq<u8>> {
    avctp::response_packets(
        m.avctp,
        label,
        AVRCP_PID,
        ResponseFrameModel {
            response: ResponseCode::NotImplemented,
            subunit_type: frame.subunit_type,
            subunit_id: frame.subunit_id,
            opcode: frame.opcode,
            operands: frame.operands,
        }.bytes(),
    )
}

/// Answering a request for the next packet of a response that was cut: the
/// packet goes out under the PDU ID and the response code of that response.
#[verifier::opaque]
pub open spec fn continue_with(m: ConnectionModel, label: u8, continuing_pdu_id: u8) -> (
    ConnectionModel,
    Seq<Seq<u8>>,
) {
    let refused = reject(
        m,
        label,
        pdu_id::REQUEST_CONTINUING_RESPONSE,
        status_code::INVALID_PARAMETER,
    );
    match m.continuation {
        None => refused,
        Some(c) => if c.pdu_id != continuing_pdu_id {
            refused
        } else if c.remaining.len() == 0 {
            reject(
                ConnectionModel { continuation: None, ..m },
                label,
                pdu_id::REQUEST_CONTINUING_RESPONSE,
                status_code::INVALID_PARAMETER,
            )
        } else {
            (
                ConnectionModel {
                    continuation: if c.remaining.len() == 1 {
                        None
                    } else {
                        Some(ContinuationModel { remaining: c.remaining.skip(1), ..c })
                    },
                    ..m
                },
                wrapped(m, label, c.response_code, c.remaining[0]),
            )
        },
    }
}

/// Dropping the held-back tail of a response.
pub open spec fn abort_continuation(m: ConnectionModel, label: u8, continuing_pdu_id: u8) -> (
    ConnectionModel,
    Seq<Seq<u8>>,
) {
    if m.continuation is Some && m.continuation->0.pdu_id == continuing_pdu_id {
        respond(
            ConnectionModel { continuation: None, ..m },
            label,
            ResponseCode::Accepted,
            pdu_id::ABORT_CONTINUING_RESPONSE,
            seq![],
        )
    } else {
        reject(
            m,
            label,
            pdu_id::ABORT_CONTINUING_RESPONSE,
            status_code::INVALID_PARAMETER,
        )
    }
}

/// Sending a notification to the listener that registered for it, which
/// consumes the registration.
pub open spec fn notify(m: ConnectionModel, e: EventModel) -> (ConnectionModel, Seq<Seq<u8>>) {
    if m.notification_listeners.contains_key(e.id()) {
        respond(
            ConnectionModel {
                notification_listeners: m.notification_listeners.remove(e.id()),
                ..m
            },
            m.notification_listeners[e.id()],
            ResponseCode::Changed,
            pdu_id::REGISTER_NOTIFICATION,
            e.bytes(),
        )
    } else {
        (m, seq![])
    }
}

// ---------------------------------------------------------------------------
// The target role
// ---------------------------------------------------------------------------

/// The volume that an octet holds, in its low seven bits.
pub open spec fn volume_in(octet: u8) -> u8 {
    (octet as int % (MAXIMUM_VOLUME + 1)) as u8
}

/// An attribute as it is served: once the length of the track is known, the
/// playing time is that length, in milliseconds.
pub open spec fn served_attribute(a: MediaAttributeModel, song_length: u32) -> MediaAttributeModel {
    if a.attribute_id == media_attribute_id::PLAYING_TIME && song_length
        != PLAYBACK_POSITION_UNAVAILABLE {
        MediaAttributeModel { value: text::decimal(song_length as nat), ..a }
    } else {
        a
    }
}

/// The attributes of a track as they are served.
pub open spec fn served_attributes(list: Seq<MediaAttributeModel>, song_length: u32) -> Seq<
    MediaAttributeModel,
> {
    Seq::new(list.len(), |i: int| served_attribute(list[i], song_length))
}

/// The attributes with one of the IDs, in their order; all of them when no ID
/// is given.
pub open spec fn selected_attributes(list: Seq<MediaAttributeModel>, ids: Seq<u32>) -> Seq<
    MediaAttributeModel,
>
    decreases list.len(),
{
    if ids.len() == 0 || list.len() == 0 {
        list
    } else {
        let before = selected_attributes(list.drop_last(), ids);
        if ids.contains(list.last().attribute_id) {
            before.push(list.last())
        } else {
            before
        }
    }
}

/// The attribute IDs of supported settings.
pub open spec fn setting_ids(supported: Seq<(u8, Seq<u8>)>) -> Seq<u8> {
    Seq::new(supported.len(), |i: int| supported[i].0)
}

/// The values that an attribute supports; none when it is not supported.
pub open spec fn setting_values(supported: Seq<(u8, Seq<u8>)>, id: u8) -> Seq<u8>
    decreases supported.len(),
{
    if supported.len() == 0 {
        seq![]
    } else if supported[0].0 == id {
        supported[0].1
    } else {
        setting_values(supported.skip(1), id)
    }
}

/// Where the first setting of an attribute stands.
pub open spec fn setting_index(settings: Seq<ApplicationSetting>, id: u8) -> Option<int>
    decreases settings.len(),
{
    if settings.len() == 0 {
        None
    } else if settings[0].attribute_id == id {
        Some(0)
    } else {
        match setting_index(settings.skip(1), id) {
            Some(i) => Some(i + 1),
            None => None,
        }
    }
}

/// The settings of attributes, in the order of the IDs; none when one of the
/// attributes has no setting.
pub open spec fn current_settings(settings: Seq<ApplicationSetting>, ids: Seq<u8>) -> Option<
    Seq<ApplicationSetting>,
>
    decreases ids.len(),
{
    if ids.len() == 0 {
        Some(seq![])
    } else {
        match (
            current_settings(settings, ids.drop_last()),
            setting_index(settings, ids.last()),
        ) {
            (Some(before), Some(i)) => Some(before.push(settings[i])),
            _ => None,
        }
    }
}

/// The settings after one of them was set: a setting of the attribute gets
/// the new value, and where there is none, the setting is added.
pub open spec fn with_setting(settings: Seq<ApplicationSetting>, s: ApplicationSetting) -> Seq<
    ApplicationSetting,
> {
    match setting_index(settings, s.attribute_id) {
        Some(i) => settings.update(i, s),
        None => settings.push(s),
    }
}

/// The settings after several were set, one after the other.
pub open spec fn with_settings(
    settings: Seq<ApplicationSetting>,
    changes: Seq<ApplicationSetting>,
) -> Seq<ApplicationSetting>
    decreases changes.len(),
{
    if changes.len() == 0 {
        settings
    } else {
        with_setting(with_settings(settings, changes.drop_last()), changes.last())
    }
}

/// The event that says how things stand, for events that are modeled.
pub open spec fn snapshot(m: ConnectionModel, id: u8) -> Option<EventModel> {
    match id {
        event_id::VOLUME_CHANGED => Some(EventModel::VolumeChanged { volume: m.volume }),
        event_id::PLAYBACK_STATUS_CHANGED => Some(
            EventModel::PlaybackStatusChanged { play_status: m.playback_status },
        ),
        event_id::NOW_PLAYING_CONTENT_CHANGED => Some(EventModel::NowPlayingContentChanged),
        event_id::PLAYER_APPLICATION_SETTING_CHANGED => Some(
            EventModel::PlayerApplicationSettingChanged { settings: m.player_app_settings },
        ),
        event_id::AVAILABLE_PLAYERS_CHANGED => Some(EventModel::AvailablePlayersChanged),
        event_id::ADDRESSED_PLAYER_CHANGED => Some(
            EventModel::AddressedPlayerChanged {
                player_id: m.addressed_player_id,
                uid_counter: m.uid_counter,
            },
        ),
        event_id::UIDS_CHANGED => Some(EventModel::UidsChanged { uid_counter: m.uid_counter }),
        event_id::TRACK_CHANGED => Some(EventModel::TrackChanged { uid: m.current_track_uid }),
        _ => None,
    }
}

/// Registering for a notification: an event that is not supported is declined,
/// one that is supported but not modeled is not answered, any other is
/// answered with a snapshot and its listener remembered.
#[verifier::opaque]
pub open spec fn register(m: ConnectionModel, label: u8, id: u8) -> Step {
    if !m.supported_events.contains(id) {
        sending(decline(m, label, pdu_id::REGISTER_NOTIFICATION))
    } else {
        match snapshot(m, id) {
            None => idle(m),
            Some(e) => {
                let (after, outgoing) = respond(
                    m,
                    label,
                    ResponseCode::Interim,
                    pdu_id::REGISTER_NOTIFICATION,
                    e.bytes(),
                );
                Step {
                    state: ConnectionModel {
                        notification_listeners: after.notification_listeners.insert(id, label),
                        ..after
                    },
                    outgoing,
                    events: seq![AvrcpEventModel::NotificationRegistered { event_id: id }],
                }
            },
        }
    }
}

/// What a command PDU makes a target do.
#[verifier::opaque]
pub open spec fn run_command(m: ConnectionModel, label: u8, id: u8, c: CommandModel) -> Step {
    match c {
        CommandModel::RequestContinuingResponse { continuing_pdu_id } => sending(
            continue_with(m, label, continuing_pdu_id),
        ),
        CommandModel::AbortContinuingResponse { continuing_pdu_id } => sending(
            abort_continuation(m, label, continuing_pdu_id),
        ),
        CommandModel::GetCapabilities { capability_id } => sending(
            if capability_id == capability_id::EVENTS_SUPPORTED {
                answer(
                    m,
                    label,
                    ResponseModel::GetCapabilities {
                        capabilities: CapabilityModel::EventIds(m.supported_events),
                    },
                )
            } else if capability_id == capability_id::COMPANY_ID {
                answer(
                    m,
                    label,
                    ResponseModel::GetCapabilities {
                        capabilities: CapabilityModel::CompanyIds(m.supported_company_ids),
                    },
                )
            } else {
                reject(m, label, id, status_code::INVALID_PARAMETER)
            },
        ),
        CommandModel::SetAbsoluteVolume { volume } => {
            let volume = volume_in(volume);
            reporting(
                respond(
                    ConnectionModel { volume, ..m },
                    label,
                    ResponseCode::Accepted,
                    id,
                    ResponseModel::SetAbsoluteVolume { volume }.parameters(),
                ),
                AvrcpEventModel::VolumeSet { volume },
            )
        },
        CommandModel::RegisterNotification { event_id, .. } => register(m, label, event_id),
        CommandModel::GetPlayStatus => sending(
            answer(
                m,
                label,
                ResponseModel::GetPlayStatus {
                    song_length: m.song_length,
                    song_position: m.song_position,
                    play_status: m.playback_status,
                },
            ),
        ),
        CommandModel::GetElementAttributes { attribute_ids, .. } => sending(
            answer(
                m,
                label,
                ResponseModel::GetElementAttributes {
                    attributes: selected_attributes(
                        served_attributes(m.element_attributes, m.song_length),
                        attribute_ids,
                    ),
                },
            ),
        ),
        CommandModel::ListPlayerApplicationSettingAttributes => sending(
            answer(
                m,
                label,
                ResponseModel::ListPlayerApplicationSettingAttributes {
                    attribute_ids: setting_ids(m.supported_player_app_settings),
                },
            ),
        ),
        CommandModel::ListPlayerApplicationSettingValues { attribute_id } => sending(
            answer(
                m,
                label,
                ResponseModel::ListPlayerApplicationSettingValues {
                    value_ids: setting_values(m.supported_player_app_settings, attribute_id),
                },
            ),
        ),
        CommandModel::GetCurrentPlayerApplicationSettingValue { attribute_ids } => sending(
            match current_settings(m.player_app_settings, attribute_ids) {
                Some(settings) => answer(
                    m,
                    label,
                    ResponseModel::GetCurrentPlayerApplicationSettingValue { settings },
                ),
                None => decline(m, label, id),
            },
        ),
        CommandModel::SetPlayerApplicationSettingValue { settings } => reporting(
            answer(
                ConnectionModel {
                    player_app_settings: with_settings(m.player_app_settings, settings),
                    ..m
                },
                label,
                ResponseModel::SetPlayerApplicationSettingValue,
            ),
            AvrcpEventModel::PlayerAppSettingsSet { settings },
        ),
        CommandModel::PlayItem { scope, uid, uid_counter } => reporting(
            answer(
                m,
                label,
                ResponseModel::PlayItem { status: status_code::OPERATION_COMPLETED },
            ),
            AvrcpEventModel::PlayItemRequested { scope, uid, uid_counter },
        ),
        _ => sending(reject(m, label, id, status_code::INVALID_PARAMETER)),
    }
}

/// What a complete command PDU makes a target do. One of a command type that
/// is not for PDUs is rejected; one that cannot be parsed is dropped.
#[verifier::opaque]
pub open spec fn dispatch_command(
    m: ConnectionModel,
    label: u8,
    ctype: CommandType,
    id: u8,
    parameters: Seq<u8>,
) -> Step {
    if !(ctype == CommandType::Control || ctype == CommandType::Status || ctype
        == CommandType::Notify) {
        sending(reject(m, label, id, status_code::INVALID_COMMAND))
    } else {
        match command::command_of(id, parameters) {
            None => idle(m),
            Some(c) => run_command(m, label, id, c),
        }
    }
}

/// Whether a frame addresses the unit, or the PANEL subunit with ID 0.
pub open spec fn addressed(frame: CommandFrameModel) -> bool {
    ||| frame.subunit_type == avc::subunit_type::UNIT && frame.subunit_id == 7
    ||| frame.subunit_type == avc::subunit_type::PANEL && frame.subunit_id == 0
}

/// The assembler of a transaction, or a new one, with its kind.
pub open spec fn assembly<C>(
    assemblers: Map<u8, (C, PduAssemblerModel)>,
    label: u8,
    kind: C,
) -> (C, PduAssemblerModel) {
    if assemblers.contains_key(label) {
        assemblers[label]
    } else {
        (kind, assembler::empty_assembler())
    }
}

/// The assemblers after a transaction moved on: only one that is in the
/// middle of a PDU is kept.
pub open spec fn keep_assembly<C>(
    assemblers: Map<u8, (C, PduAssemblerModel)>,
    label: u8,
    kind: C,
    a: PduAssemblerModel,
) -> Map<u8, (C, PduAssemblerModel)> {
    if a.pdu_id is Some {
        assemblers.insert(label, (kind, a))
    } else {
        assemblers.remove(label)
    }
}

/// What a vendor-dependent command frame makes a target do.
#[verifier::opaque]
pub open spec fn vendor_command(m: ConnectionModel, label: u8, frame: CommandFrameModel) -> Step {
    match avc::vendor_of(frame.operands) {
        None => idle(m),
        Some(vendor) => if vendor.company_id != BLUETOOTH_SIG_COMPANY_ID || frame.subunit_type
            != avc::subunit_type::PANEL {
            idle(m)
        } else {
            let (kind, before) = assembly(m.command_assemblers, label, frame.ctype);
            if kind != frame.ctype {
                idle(
                    ConnectionModel {
                        command_assemblers: m.command_assemblers.remove(label),
                        ..m
                    },
                )
            } else {
                let (a, complete) = assembler::assemble_pdu(before, vendor.data);
                let next = ConnectionModel {
                    command_assemblers: keep_assembly(m.command_assemblers, label, kind, a),
                    ..m
                };
                match complete {
                    None => idle(next),
                    Some((id, parameters)) => dispatch_command(next, label, kind, id, parameters),
                }
            }
        },
    }
}

/// What a pass-through command frame makes a target do.
#[verifier::opaque]
pub open spec fn key_command(m: ConnectionModel, label: u8, frame: CommandFrameModel) -> Step {
    match avc::pass_through_of(frame.operands) {
        None => idle(m),
        Some(p) => Step {
            state: m,
            outgoing: avctp::response_packets(
                m.avctp,
                label,
                AVRCP_PID,
                ResponseFrameModel {
                    response: m.key_event_response,
                    subunit_type: avc::subunit_type::PANEL,
                    subunit_id: 0,
                    opcode: avc::opcode::PASS_THROUGH,
                    operands: p.operands(),
                }.bytes(),
            ),
            events: seq![
                AvrcpEventModel::KeyEvent {
                    operation_id: p.operation_id,
                    pressed: p.pressed,
                    data: p.operation_data,
                },
            ],
        },
    }
}

/// What a command message makes a target do.
#[verifier::opaque]
pub open spec fn on_command(m: ConnectionModel, label: u8, payload: Seq<u8>) -> Step {
    match avc::frame_of(payload) {
        Some(FrameModel::Command(frame)) => if !addressed(frame) {
            sending((m, echo(m, label, frame)))
        } else if frame.opcode == avc::opcode::VENDOR_DEPENDENT {
            vendor_command(m, label, frame)
        } else if frame.opcode == avc::opcode::PASS_THROUGH {
            key_command(m, label, frame)
        } else {
            sending((m, echo(m, label, frame)))
        },
        _ => idle(m),
    }
}

// ---------------------------------------------------------------------------
// The controller role
// ---------------------------------------------------------------------------

/// The event that a stable or accepted response is reported as.
pub open spec fn response_event(r: ResponseModel, attribute_id: Option<u8>) -> AvrcpEventModel {
    match r {
        ResponseModel::GetCapabilities { capabilities } => match capabilities {
            CapabilityModel::EventIds(ids) => AvrcpEventModel::SupportedEventsReceived(ids),
            CapabilityModel::CompanyIds(ids) => AvrcpEventModel::SupportedCompanyIdsReceived(ids),
        },
        ResponseModel::GetPlayStatus { song_length, song_position, play_status } => {
            AvrcpEventModel::PlayStatusReceived { song_length, song_position, play_status }
        },
        ResponseModel::GetElementAttributes { attributes } => {
            AvrcpEventModel::ElementAttributesReceived(attributes)
        },
        ResponseModel::ListPlayerApplicationSettingAttributes { attribute_ids } => {
            AvrcpEventModel::AppSettingAttributesReceived(attribute_ids)
        },
        ResponseModel::ListPlayerApplicationSettingValues { value_ids } => {
            AvrcpEventModel::AppSettingValuesReceived {
                attribute_id: match attribute_id {
                    Some(id) => id,
                    None => 0,
                },
                value_ids,
            }
        },
        ResponseModel::GetCurrentPlayerApplicationSettingValue { settings } => {
            AvrcpEventModel::CurrentAppSettingsReceived(settings)
        },
        ResponseModel::SetPlayerApplicationSettingValue => AvrcpEventModel::AppSettingsAccepted,
        ResponseModel::SetAbsoluteVolume { volume } => AvrcpEventModel::VolumeAccepted { volume },
        ResponseModel::PlayItem { status } => AvrcpEventModel::PlayItemCompleted { status },
        _ => AvrcpEventModel::ResponseReceived { response: r },
    }
}

/// The events for the notification in a response.
pub open spec fn notification_events(id: u8, parameters: Seq<u8>, interim: bool) -> Seq<
    AvrcpEventModel,
> {
    if id != pdu_id::REGISTER_NOTIFICATION {
        seq![]
    } else {
        match response::response_of(id, parameters) {
            Some(ResponseModel::RegisterNotification { event }) => seq![
                AvrcpEventModel::NotificationReceived { event, interim },
            ],
            _ => seq![],
        }
    }
}

/// The events for a complete response PDU to a command in flight.
#[verifier::opaque]
pub open spec fn response_events(
    code: ResponseCode,
    id: u8,
    parameters: Seq<u8>,
    attribute_id: Option<u8>,
) -> Seq<AvrcpEventModel> {
    match code {
        ResponseCode::Rejected => seq![
            AvrcpEventModel::CommandRejected {
                pdu_id: id,
                status_code: if parameters.len() > 0 {
                    parameters[0]
                } else {
                    0
                },
            },
        ],
        ResponseCode::NotImplemented => seq![AvrcpEventModel::CommandNotImplemented { pdu_id: id }],
        ResponseCode::Interim => notification_events(id, parameters, true),
        ResponseCode::Changed => notification_events(id, parameters, false),
        ResponseCode::ImplementedOrStable | ResponseCode::Accepted => match response::response_of(
            id,
            parameters,
        ) {
            None => seq![],
            Some(r) => seq![response_event(r, attribute_id)],
        },
        ResponseCode::InTransition => seq![],
    }
}

/// What a complete response PDU makes a controller do. A label stays in
/// flight only behind an interim answer to the command that it stands for; a
/// response to something else frees the label and is dropped.
#[verifier::opaque]
pub open spec fn dispatch_response(
    m: ConnectionModel,
    label: u8,
    code: ResponseCode,
    id: u8,
    parameters: Seq<u8>,
) -> Step {
    let freed = ConnectionModel { pending: m.pending.remove(label), ..m };
    if !m.pending.contains_key(label) {
        idle(freed)
    } else {
        match m.pending[label] {
            Pending::PassThrough { .. } => idle(freed),
            Pending::Vendor { pdu_id, attribute_id } => if id != pdu_id {
                idle(freed)
            } else {
                Step {
                    state: if code == ResponseCode::Interim {
                        m
                    } else {
                        freed
                    },
                    outgoing: seq![],
                    events: response_events(code, id, parameters, attribute_id),
                }
            },
        }
    }
}

/// What a pass-through response frame makes a controller do.
#[verifier::opaque]
pub open spec fn key_response(m: ConnectionModel, label: u8, code: ResponseCode) -> Step {
    Step {
        state: ConnectionModel { pending: m.pending.remove(label), ..m },
        outgoing: seq![],
        events: match m.pending[label] {
            Pending::PassThrough { operation_id, pressed } => seq![
                AvrcpEventModel::PassThroughResponse { response: code, operation_id, pressed },
            ],
            Pending::Vendor { .. } => seq![],
        },
    }
}

/// Asking for the next packet of a response, on the label in flight.
pub open spec fn ask_for_more(m: ConnectionModel, label: u8, continuing_pdu_id: u8) -> Step {
    Step {
        state: ConnectionModel {
            continuations_requested: (m.continuations_requested + 1) as u32,
            ..m
        },
        outgoing: avctp::command_packets(
            m.avctp,
            label,
            AVRCP_PID,
            command_frame(
                CommandType::Control,
                CommandModel::RequestContinuingResponse { continuing_pdu_id },
            ),
        ),
        events: seq![],
    }
}

/// Whether a packet is one behind which more is to come.
pub open spec fn expects_more(packet: Seq<u8>) -> bool {
    packet.len() >= 2 && (packet[1] & 3 == assembler::PDU_START || packet[1] & 3
        == assembler::PDU_CONTINUE)
}

/// What a vendor-dependent response frame makes a controller do.
#[verifier::opaque]
pub open spec fn vendor_response(m: ConnectionModel, label: u8, frame: ResponseFrameModel) -> Step {
    match avc::vendor_of(frame.operands) {
        None => idle(m),
        Some(vendor) => if vendor.company_id != BLUETOOTH_SIG_COMPANY_ID || frame.subunit_type
            != avc::subunit_type::PANEL || frame.subunit_id != 0 {
            idle(m)
        } else {
            let (kind, before) = assembly(m.response_assemblers, label, frame.response);
            if kind != frame.response {
                idle(
                    ConnectionModel {
                        response_assemblers: m.response_assemblers.remove(label),
                        ..m
                    },
                )
            } else {
                let (a, complete) = assembler::assemble_pdu(before, vendor.data);
                let next = ConnectionModel {
                    response_assemblers: keep_assembly(m.response_assemblers, label, kind, a),
                    ..m
                };
                match complete {
                    Some((id, parameters)) => dispatch_response(next, label, kind, id, parameters),
                    None => if a.pdu_id is Some && expects_more(vendor.data) {
                        ask_for_more(next, label, vendor.data[0])
                    } else {
                        idle(next)
                    },
                }
            }
        },
    }
}

/// What a response message makes a controller do. One on a label that is not
/// in flight is dropped.
#[verifier::opaque]
pub open spec fn on_response(m: ConnectionModel, label: u8, payload: Seq<u8>) -> Step {
    match avc::frame_of(payload) {
        Some(FrameModel::Response(frame)) => if !m.pending.contains_key(label) {
            idle(m)
        } else if frame.opcode == avc::opcode::PASS_THROUGH {
            key_response(m, label, frame.response)
        } else if frame.opcode == avc::opcode::VENDOR_DEPENDENT {
            vendor_response(m, label, frame)
        } else {
            idle(m)
        },
        _ => idle(m),
    }
}

// ---------------------------------------------------------------------------
// Receiving
// ---------------------------------------------------------------------------

/// What an event of the transport makes a connection do.
#[verifier::opaque]
pub open spec fn on_transport_event(m: ConnectionModel, e: AvctpEventModel) -> Step {
    match e {
        AvctpEventModel::Command { transaction_label, payload, .. } => on_command(
            m,
            transaction_label,
            payload,
        ),
        AvctpEventModel::Response { transaction_label, payload, .. } => on_response(
            m,
            transaction_label,
            payload,
        ),
        AvctpEventModel::InvalidPid { transaction_label, pid } => if m.pending.contains_key(
            transaction_label,
        ) {
            Step {
                state: ConnectionModel { pending: m.pending.remove(transaction_label), ..m },
                outgoing: seq![],
                events: seq![AvrcpEventModel::InvalidPid { pid }],
            }
        } else {
            idle(m)
        },
    }
}

/// What an incoming packet makes a connection do.
pub open spec fn receive(m: ConnectionModel, pdu: Seq<u8>) -> Step {
    let (transport, message) = avctp::assemble(m.avctp.assembler, pdu);
    let (outgoing, events) = avctp::deliver(m.avctp, message);
    let next = ConnectionModel {
        avctp: avctp::ProtocolModel { assembler: transport, ..m.avctp },
        ..m
    };
    if events.len() == 0 {
        Step { state: next, outgoing, events: seq![] }
    } else {
        let step = on_transport_event(next, events[0]);
        Step { state: step.state, outgoing: outgoing + step.outgoing, events: step.events }
    }
}

} // verus!
