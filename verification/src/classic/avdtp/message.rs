//! Signaling messages and their payloads.

use vstd::prelude::*;
use crate::bytes;
use crate::classic::avdtp::capability;
use crate::classic::avdtp::capability::{CapabilityModel, SepInfo, ServiceCapability};
use crate::classic::avdtp::signal_identifier;
use crate::models;

verus! {

/// Whether a message is a command or an answer.
#[derive(Debug, Clone, Copy, PartialEq, Eq, Structural)]
pub enum MessageType {
    Command,
    GeneralReject,
    ResponseAccept,
    ResponseReject,
}

/// The message type that the low two bits of a byte stand for.
pub open spec fn message_type_of(bits: u8) -> MessageType {
    match bits % 4 {
        0 => MessageType::Command,
        1 => MessageType::GeneralReject,
        2 => MessageType::ResponseAccept,
        _ => MessageType::ResponseReject,
    }
}

impl Default for MessageType {
    fn default() -> (r: Self)
        ensures
            r == MessageType::Command,
    {
        MessageType::Command
    }
}

impl MessageType {
    /// The two bits of this message type.
    pub open spec fn bits(self) -> u8 {
        match self {
            MessageType::Command => 0,
            MessageType::GeneralReject => 1,
            MessageType::ResponseAccept => 2,
            MessageType::ResponseReject => 3,
        }
    }

    pub(crate) fn from_bits(bits: u8) -> (r: Self)
        ensures
            r == message_type_of(bits),
    {
        match bits % 4 {
            0 => MessageType::Command,
            1 => MessageType::GeneralReject,
            2 => MessageType::ResponseAccept,
            _ => MessageType::ResponseReject,
        }
    }

    pub(crate) fn as_bits(self) -> (r: u8)
        ensures
            r == self.bits(),
    {
        match self {
            MessageType::Command => 0,
            MessageType::GeneralReject => 1,
            MessageType::ResponseAccept => 2,
            MessageType::ResponseReject => 3,
        }
    }
}

/// One signaling message. `Reject` covers every signal whose reject carries
/// only an error code; signals with more in theirs have variants of their own.
#[derive(Debug, Clone, PartialEq, Eq)]
pub enum Message {
    DiscoverCommand,
    DiscoverResponse(Vec<SepInfo>),
    GetCapabilitiesCommand { acp_seid: u8 },
    GetCapabilitiesResponse(Vec<ServiceCapability>),
    GetAllCapabilitiesCommand { acp_seid: u8 },
    GetAllCapabilitiesResponse(Vec<ServiceCapability>),
    SetConfigurationCommand { acp_seid: u8, int_seid: u8, capabilities: Vec<ServiceCapability> },
    SetConfigurationResponse,
    SetConfigurationReject { service_category: u8, error_code: u8 },
    GetConfigurationCommand { acp_seid: u8 },
    GetConfigurationResponse(Vec<ServiceCapability>),
    ReconfigureCommand { acp_seid: u8, capabilities: Vec<ServiceCapability> },
    ReconfigureResponse,
    ReconfigureReject { service_category: u8, error_code: u8 },
    OpenCommand { acp_seid: u8 },
    OpenResponse,
    StartCommand { acp_seids: Vec<u8> },
    StartResponse,
    StartReject { acp_seid: u8, error_code: u8 },
    SuspendCommand { acp_seids: Vec<u8> },
    SuspendResponse,
    SuspendReject { acp_seid: u8, error_code: u8 },
    CloseCommand { acp_seid: u8 },
    CloseResponse,
    AbortCommand { acp_seid: u8 },
    AbortResponse,
    SecurityControlCommand { acp_seid: u8, data: Vec<u8> },
    SecurityControlResponse,
    DelayReportCommand { acp_seid: u8, delay: u16 },
    DelayReportResponse,
    /// A reject with an error code, for any signal.
    Reject { signal_identifier: u8, error_code: u8 },
    /// The answer to an unknown signal, which it repeats.
    GeneralReject { signal_identifier: u8 },
}

/// The model of a [`Message`].
#[verifier::ext_equal]
pub enum MessageModel {
    DiscoverCommand,
    DiscoverResponse(Seq<SepInfo>),
    GetCapabilitiesCommand { acp_seid: u8 },
    GetCapabilitiesResponse(Seq<CapabilityModel>),
    GetAllCapabilitiesCommand { acp_seid: u8 },
    GetAllCapabilitiesResponse(Seq<CapabilityModel>),
    SetConfigurationCommand { acp_seid: u8, int_seid: u8, capabilities: Seq<CapabilityModel> },
    SetConfigurationResponse,
    SetConfigurationReject { service_category: u8, error_code: u8 },
    GetConfigurationCommand { acp_seid: u8 },
    GetConfigurationResponse(Seq<CapabilityModel>),
    ReconfigureCommand { acp_seid: u8, capabilities: Seq<CapabilityModel> },
    ReconfigureResponse,
    ReconfigureReject { service_category: u8, error_code: u8 },
    OpenCommand { acp_seid: u8 },
    OpenResponse,
    StartCommand { acp_seids: Seq<u8> },
    StartResponse,
    StartReject { acp_seid: u8, error_code: u8 },
    SuspendCommand { acp_seids: Seq<u8> },
    SuspendResponse,
    SuspendReject { acp_seid: u8, error_code: u8 },
    CloseCommand { acp_seid: u8 },
    CloseResponse,
    AbortCommand { acp_seid: u8 },
    AbortResponse,
    SecurityControlCommand { acp_seid: u8, data: Seq<u8> },
    SecurityControlResponse,
    DelayReportCommand { acp_seid: u8, delay: u16 },
    DelayReportResponse,
    Reject { signal_identifier: u8, error_code: u8 },
    GeneralReject { signal_identifier: u8 },
}

impl View for Message {
    type V = MessageModel;

    open spec fn view(&self) -> MessageModel {
        match *self {
            Message::DiscoverCommand => MessageModel::DiscoverCommand,
            Message::DiscoverResponse(endpoints) => MessageModel::DiscoverResponse(endpoints@),
            Message::GetCapabilitiesCommand { acp_seid } => MessageModel::GetCapabilitiesCommand {
                acp_seid,
            },
            Message::GetCapabilitiesResponse(c) => MessageModel::GetCapabilitiesResponse(
                models::seq_views(c@),
            ),
            Message::GetAllCapabilitiesCommand { acp_seid } =>
                MessageModel::GetAllCapabilitiesCommand { acp_seid },
            Message::GetAllCapabilitiesResponse(c) => MessageModel::GetAllCapabilitiesResponse(
                models::seq_views(c@),
            ),
            Message::SetConfigurationCommand { acp_seid, int_seid, capabilities } =>
                MessageModel::SetConfigurationCommand {
                acp_seid,
                int_seid,
                capabilities: models::seq_views(capabilities@),
            },
            Message::SetConfigurationResponse => MessageModel::SetConfigurationResponse,
            Message::SetConfigurationReject { service_category, error_code } =>
                MessageModel::SetConfigurationReject { service_category, error_code },
            Message::GetConfigurationCommand { acp_seid } =>
                MessageModel::GetConfigurationCommand { acp_seid },
            Message::GetConfigurationResponse(c) => MessageModel::GetConfigurationResponse(
                models::seq_views(c@),
            ),
            Message::ReconfigureCommand { acp_seid, capabilities } =>
                MessageModel::ReconfigureCommand {
                acp_seid,
                capabilities: models::seq_views(capabilities@),
            },
            Message::ReconfigureResponse => MessageModel::ReconfigureResponse,
            Message::ReconfigureReject { service_category, error_code } =>
                MessageModel::ReconfigureReject { service_category, error_code },
            Message::OpenCommand { acp_seid } => MessageModel::OpenCommand { acp_seid },
            Message::OpenResponse => MessageModel::OpenResponse,
            Message::StartCommand { acp_seids } => MessageModel::StartCommand {
                acp_seids: acp_seids@,
            },
            Message::StartResponse => MessageModel::StartResponse,
            Message::StartReject { acp_seid, error_code } => MessageModel::StartReject {
                acp_seid,
                error_code,
            },
            Message::SuspendCommand { acp_seids } => MessageModel::SuspendCommand {
                acp_seids: acp_seids@,
            },
            Message::SuspendResponse => MessageModel::SuspendResponse,
            Message::SuspendReject { acp_seid, error_code } => MessageModel::SuspendReject {
                acp_seid,
                error_code,
            },
            Message::CloseCommand { acp_seid } => MessageModel::CloseCommand { acp_seid },
            Message::CloseResponse => MessageModel::CloseResponse,
            Message::AbortCommand { acp_seid } => MessageModel::AbortCommand { acp_seid },
            Message::AbortResponse => MessageModel::AbortResponse,
            Message::SecurityControlCommand { acp_seid, data } =>
                MessageModel::SecurityControlCommand { acp_seid, data: data@ },
            Message::SecurityControlResponse => MessageModel::SecurityControlResponse,
            Message::DelayReportCommand { acp_seid, delay } => MessageModel::DelayReportCommand {
                acp_seid,
                delay,
            },
            Message::DelayReportResponse => MessageModel::DelayReportResponse,
            Message::Reject { signal_identifier, error_code } => MessageModel::Reject {
                signal_identifier,
                error_code,
            },
            Message::GeneralReject { signal_identifier } => MessageModel::GeneralReject {
                signal_identifier,
            },
        }
    }
}

// ---------------------------------------------------------------------------
// Payload
// ---------------------------------------------------------------------------

/// The wire form of a list of endpoints.
pub open spec fn sep_list_bytes(list: Seq<SepInfo>) -> Seq<u8>
    decreases list.len(),
{
    if list.len() == 0 {
        seq![]
    } else {
        sep_list_bytes(list.drop_last()) + list.last().wire()
    }
}

/// SEIDs as they travel.
pub open spec fn seid_bytes(seids: Seq<u8>) -> Seq<u8> {
    seids.map_values(|seid: u8| capability::seid_byte(seid))
}

impl MessageModel {
    /// The signal that this message belongs to.
    pub open spec fn signal(self) -> u8 {
        match self {
            MessageModel::DiscoverCommand => signal_identifier::DISCOVER,
            MessageModel::DiscoverResponse(_) => signal_identifier::DISCOVER,
            MessageModel::GetCapabilitiesCommand { .. } => signal_identifier::GET_CAPABILITIES,
            MessageModel::GetCapabilitiesResponse(_) => signal_identifier::GET_CAPABILITIES,
            MessageModel::GetAllCapabilitiesCommand { .. } =>
                signal_identifier::GET_ALL_CAPABILITIES,
            MessageModel::GetAllCapabilitiesResponse(_) => signal_identifier::GET_ALL_CAPABILITIES,
            MessageModel::SetConfigurationCommand { .. } => signal_identifier::SET_CONFIGURATION,
            MessageModel::SetConfigurationResponse => signal_identifier::SET_CONFIGURATION,
            MessageModel::SetConfigurationReject { .. } => signal_identifier::SET_CONFIGURATION,
            MessageModel::GetConfigurationCommand { .. } => signal_identifier::GET_CONFIGURATION,
            MessageModel::GetConfigurationResponse(_) => signal_identifier::GET_CONFIGURATION,
            MessageModel::ReconfigureCommand { .. } => signal_identifier::RECONFIGURE,
            MessageModel::ReconfigureResponse => signal_identifier::RECONFIGURE,
            MessageModel::ReconfigureReject { .. } => signal_identifier::RECONFIGURE,
            MessageModel::OpenCommand { .. } => signal_identifier::OPEN,
            MessageModel::OpenResponse => signal_identifier::OPEN,
            MessageModel::StartCommand { .. } => signal_identifier::START,
            MessageModel::StartResponse => signal_identifier::START,
            MessageModel::StartReject { .. } => signal_identifier::START,
            MessageModel::SuspendCommand { .. } => signal_identifier::SUSPEND,
            MessageModel::SuspendResponse => signal_identifier::SUSPEND,
            MessageModel::SuspendReject { .. } => signal_identifier::SUSPEND,
            MessageModel::CloseCommand { .. } => signal_identifier::CLOSE,
            MessageModel::CloseResponse => signal_identifier::CLOSE,
            MessageModel::AbortCommand { .. } => signal_identifier::ABORT,
            MessageModel::AbortResponse => signal_identifier::ABORT,
            MessageModel::SecurityControlCommand { .. } => signal_identifier::SECURITY_CONTROL,
            MessageModel::SecurityControlResponse => signal_identifier::SECURITY_CONTROL,
            MessageModel::DelayReportCommand { .. } => signal_identifier::DELAYREPORT,
            MessageModel::DelayReportResponse => signal_identifier::DELAYREPORT,
            MessageModel::Reject { signal_identifier, .. } => signal_identifier,
            MessageModel::GeneralReject { signal_identifier } => signal_identifier,
        }
    }

    /// Whether this message is a command or an answer.
    pub open spec fn kind(self) -> MessageType {
        match self {
            MessageModel::DiscoverCommand => MessageType::Command,
            MessageModel::GetCapabilitiesCommand { .. } => MessageType::Command,
            MessageModel::GetAllCapabilitiesCommand { .. } => MessageType::Command,
            MessageModel::SetConfigurationCommand { .. } => MessageType::Command,
            MessageModel::GetConfigurationCommand { .. } => MessageType::Command,
            MessageModel::ReconfigureCommand { .. } => MessageType::Command,
            MessageModel::OpenCommand { .. } => MessageType::Command,
            MessageModel::StartCommand { .. } => MessageType::Command,
            MessageModel::SuspendCommand { .. } => MessageType::Command,
            MessageModel::CloseCommand { .. } => MessageType::Command,
            MessageModel::AbortCommand { .. } => MessageType::Command,
            MessageModel::SecurityControlCommand { .. } => MessageType::Command,
            MessageModel::DelayReportCommand { .. } => MessageType::Command,
            MessageModel::SetConfigurationReject { .. } => MessageType::ResponseReject,
            MessageModel::ReconfigureReject { .. } => MessageType::ResponseReject,
            MessageModel::StartReject { .. } => MessageType::ResponseReject,
            MessageModel::SuspendReject { .. } => MessageType::ResponseReject,
            MessageModel::Reject { .. } => MessageType::ResponseReject,
            MessageModel::GeneralReject { .. } => MessageType::GeneralReject,
            _ => MessageType::ResponseAccept,
        }
    }

    /// The payload of this message.
    pub open spec fn payload(self) -> Seq<u8> {
        match self {
            MessageModel::DiscoverResponse(endpoints) => sep_list_bytes(endpoints),
            MessageModel::GetCapabilitiesCommand { acp_seid } => seq![
                capability::seid_byte(acp_seid),
            ],
            MessageModel::GetAllCapabilitiesCommand { acp_seid } => seq![
                capability::seid_byte(acp_seid),
            ],
            MessageModel::GetConfigurationCommand { acp_seid } => seq![
                capability::seid_byte(acp_seid),
            ],
            MessageModel::OpenCommand { acp_seid } => seq![capability::seid_byte(acp_seid)],
            MessageModel::CloseCommand { acp_seid } => seq![capability::seid_byte(acp_seid)],
            MessageModel::AbortCommand { acp_seid } => seq![capability::seid_byte(acp_seid)],
            MessageModel::GetCapabilitiesResponse(c) => capability::capability_list_bytes(c),
            MessageModel::GetAllCapabilitiesResponse(c) => capability::capability_list_bytes(c),
            MessageModel::GetConfigurationResponse(c) => capability::capability_list_bytes(c),
            MessageModel::SetConfigurationCommand { acp_seid, int_seid, capabilities } => seq![
                capability::seid_byte(acp_seid),
                capability::seid_byte(int_seid),
            ] + capability::capability_list_bytes(capabilities),
            MessageModel::ReconfigureCommand { acp_seid, capabilities } => seq![
                capability::seid_byte(acp_seid),
            ] + capability::capability_list_bytes(capabilities),
            MessageModel::SetConfigurationReject { service_category, error_code } => seq![
                service_category,
                error_code,
            ],
            MessageModel::ReconfigureReject { service_category, error_code } => seq![
                service_category,
                error_code,
            ],
            MessageModel::StartCommand { acp_seids } => seid_bytes(acp_seids),
            MessageModel::SuspendCommand { acp_seids } => seid_bytes(acp_seids),
            MessageModel::StartReject { acp_seid, error_code } => seq![
                capability::seid_byte(acp_seid),
                error_code,
            ],
            MessageModel::SuspendReject { acp_seid, error_code } => seq![
                capability::seid_byte(acp_seid),
                error_code,
            ],
            MessageModel::SecurityControlCommand { acp_seid, data } => seq![
                capability::seid_byte(acp_seid),
            ] + data,
            MessageModel::DelayReportCommand { acp_seid, delay } => seq![
                capability::seid_byte(acp_seid),
            ] + bytes::be16_bytes(delay),
            MessageModel::Reject { error_code, .. } => seq![error_code],
            _ => seq![],
        }
    }
}

// ---------------------------------------------------------------------------
// Parsing
// ---------------------------------------------------------------------------

/// The endpoints listed from an offset on; a byte left over is ignored.
pub open spec fn sep_list_from(payload: Seq<u8>, at: int) -> Option<Seq<SepInfo>>
    decreases payload.len() - at,
{
    if at + 2 > payload.len() {
        Some(seq![])
    } else {
        match (
            capability::sep_info_of(payload[at], payload[at + 1]),
            sep_list_from(payload, at + 2),
        ) {
            (Some(info), Some(rest)) => Some(seq![info] + rest),
            _ => None,
        }
    }
}

/// SEIDs from the bytes that carry them.
pub open spec fn seids_of(payload: Seq<u8>) -> Seq<u8> {
    payload.map_values(|b: u8| b / 4)
}

/// The command that a payload holds.
pub open spec fn command_of(signal: u8, payload: Seq<u8>) -> Option<MessageModel> {
    let acp_seid: u8 = payload[0] / 4;
    match signal {
        signal_identifier::DISCOVER => Some(MessageModel::DiscoverCommand),
        signal_identifier::START => Some(
            MessageModel::StartCommand { acp_seids: seids_of(payload) },
        ),
        signal_identifier::SUSPEND => Some(
            MessageModel::SuspendCommand { acp_seids: seids_of(payload) },
        ),
        _ => if payload.len() == 0 {
            None
        } else {
            match signal {
                signal_identifier::GET_CAPABILITIES => Some(
                    MessageModel::GetCapabilitiesCommand { acp_seid },
                ),
                signal_identifier::GET_ALL_CAPABILITIES => Some(
                    MessageModel::GetAllCapabilitiesCommand { acp_seid },
                ),
                signal_identifier::SET_CONFIGURATION => if payload.len() < 2 {
                    None
                } else {
                    match capability::capabilities_from(payload.skip(2), 0) {
                        Some(capabilities) => Some(
                            MessageModel::SetConfigurationCommand {
                                acp_seid,
                                int_seid: payload[1] / 4,
                                capabilities,
                            },
                        ),
                        None => None,
                    }
                },
                signal_identifier::GET_CONFIGURATION => Some(
                    MessageModel::GetConfigurationCommand { acp_seid },
                ),
                signal_identifier::RECONFIGURE => match capability::capabilities_from(
                    payload.skip(1),
                    0,
                ) {
                    Some(capabilities) => Some(
                        MessageModel::ReconfigureCommand { acp_seid, capabilities },
                    ),
                    None => None,
                },
                signal_identifier::OPEN => Some(MessageModel::OpenCommand { acp_seid }),
                signal_identifier::CLOSE => Some(MessageModel::CloseCommand { acp_seid }),
                signal_identifier::ABORT => Some(MessageModel::AbortCommand { acp_seid }),
                signal_identifier::SECURITY_CONTROL => Some(
                    MessageModel::SecurityControlCommand { acp_seid, data: payload.skip(1) },
                ),
                signal_identifier::DELAYREPORT => if payload.len() < 3 {
                    None
                } else {
                    Some(
                        MessageModel::DelayReportCommand {
                            acp_seid,
                            delay: bytes::be16(payload, 1),
                        },
                    )
                },
                _ => None,
            }
        },
    }
}

/// The accepting answer that a payload holds.
pub open spec fn accept_of(signal: u8, payload: Seq<u8>) -> Option<MessageModel> {
    match signal {
        signal_identifier::DISCOVER => match sep_list_from(payload, 0) {
            Some(list) => Some(MessageModel::DiscoverResponse(list)),
            None => None,
        },
        signal_identifier::GET_CAPABILITIES => match capability::capabilities_from(payload, 0) {
            Some(list) => Some(MessageModel::GetCapabilitiesResponse(list)),
            None => None,
        },
        signal_identifier::GET_ALL_CAPABILITIES => match capability::capabilities_from(
            payload,
            0,
        ) {
            Some(list) => Some(MessageModel::GetAllCapabilitiesResponse(list)),
            None => None,
        },
        signal_identifier::SET_CONFIGURATION => Some(MessageModel::SetConfigurationResponse),
        signal_identifier::GET_CONFIGURATION => match capability::capabilities_from(payload, 0) {
            Some(list) => Some(MessageModel::GetConfigurationResponse(list)),
            None => None,
        },
        signal_identifier::RECONFIGURE => Some(MessageModel::ReconfigureResponse),
        signal_identifier::OPEN => Some(MessageModel::OpenResponse),
        signal_identifier::START => Some(MessageModel::StartResponse),
        signal_identifier::SUSPEND => Some(MessageModel::SuspendResponse),
        signal_identifier::CLOSE => Some(MessageModel::CloseResponse),
        signal_identifier::ABORT => Some(MessageModel::AbortResponse),
        signal_identifier::SECURITY_CONTROL => Some(MessageModel::SecurityControlResponse),
        signal_identifier::DELAYREPORT => Some(MessageModel::DelayReportResponse),
        _ => None,
    }
}

/// The rejecting answer that a payload holds.
pub open spec fn reject_of(signal: u8, payload: Seq<u8>) -> Option<MessageModel> {
    match signal {
        signal_identifier::SET_CONFIGURATION => if payload.len() < 2 {
            None
        } else {
            Some(
                MessageModel::SetConfigurationReject {
                    service_category: payload[0],
                    error_code: payload[1],
                },
            )
        },
        signal_identifier::RECONFIGURE => if payload.len() < 2 {
            None
        } else {
            Some(
                MessageModel::ReconfigureReject {
                    service_category: payload[0],
                    error_code: payload[1],
                },
            )
        },
        signal_identifier::START => if payload.len() < 2 {
            None
        } else {
            Some(
                MessageModel::StartReject { acp_seid: payload[0] / 4, error_code: payload[1] },
            )
        },
        signal_identifier::SUSPEND => if payload.len() < 2 {
            None
        } else {
            Some(
                MessageModel::SuspendReject { acp_seid: payload[0] / 4, error_code: payload[1] },
            )
        },
        _ => if payload.len() == 0 {
            None
        } else {
            Some(MessageModel::Reject { signal_identifier: signal, error_code: payload[0] })
        },
    }
}

/// The message that a payload holds.
pub open spec fn message_of(signal: u8, kind: MessageType, payload: Seq<u8>) -> Option<
    MessageModel,
> {
    match kind {
        MessageType::GeneralReject => Some(
            MessageModel::GeneralReject { signal_identifier: signal },
        ),
        MessageType::Command => command_of(signal, payload),
        MessageType::ResponseAccept => accept_of(signal, payload),
        MessageType::ResponseReject => reject_of(signal, payload),
    }
}

fn serialize_seps(list: &[SepInfo]) -> (r: Vec<u8>)
    ensures
        r@ == sep_list_bytes(list@),
{
    let mut out: Vec<u8> = Vec::new();
    let mut i: usize = 0;
    assert(out@ =~= sep_list_bytes(list@.take(0)));
    while i < list.len()
        invariant
            i <= list@.len(),
            out@ == sep_list_bytes(list@.take(i as int)),
        decreases list@.len() - i,
    {
        assert(list@.take(i + 1).drop_last() =~= list@.take(i as int));
        let entry = list[i].to_bytes();
        bytes::push_bytes(&mut out, &entry);
        i = i + 1;
    }
    assert(list@.take(i as int) =~= list@);
    out
}

fn parse_seps(payload: &[u8]) -> (r: Option<Vec<SepInfo>>)
    ensures
        models::opt_view(r) == sep_list_from(payload@, 0),
{
    let ghost whole = sep_list_from(payload@, 0);
    let mut list: Vec<SepInfo> = Vec::new();
    let mut at: usize = 0;
    proof {
        if whole is Some {
            assert(list@ + whole->0 =~= whole->0);
        }
    }
    while payload.len() - at >= 2
        invariant
            at <= payload@.len(),
            whole == match sep_list_from(payload@, at as int) {
                Some(rest) => Some(list@ + rest),
                None => None,
            },
        decreases payload@.len() - at,
    {
        let ghost before = list@;
        match SepInfo::parse(bytes::range(payload, at, at + 2)) {
            Some(info) => {
                proof {
                    match sep_list_from(payload@, at + 2) {
                        Some(rest) => {
                            assert(before + (seq![info] + rest) =~= before.push(info) + rest);
                        },
                        None => {},
                    }
                }
                list.push(info);
            },
            None => {
                return None;
            },
        }
        at = at + 2;
    }
    assert(list@ + seq![] =~= list@);
    Some(list)
}

fn serialize_seids(seids: &[u8]) -> (r: Vec<u8>)
    ensures
        r@ == seid_bytes(seids@),
{
    let mut out: Vec<u8> = Vec::new();
    let mut i: usize = 0;
    while i < seids.len()
        invariant
            i <= seids@.len(),
            out@.len() == i,
            forall|j: int| 0 <= j < i ==> #[trigger] out@[j] == capability::seid_byte(seids@[j]),
        decreases seids@.len() - i,
    {
        out.push(capability::seid_to_byte(seids[i]));
        i = i + 1;
    }
    assert(out@ =~= seid_bytes(seids@));
    out
}

fn parse_seids(payload: &[u8]) -> (r: Vec<u8>)
    ensures
        r@ == seids_of(payload@),
{
    let mut out: Vec<u8> = Vec::new();
    let mut i: usize = 0;
    while i < payload.len()
        invariant
            i <= payload@.len(),
            out@.len() == i,
            forall|j: int| 0 <= j < i ==> #[trigger] out@[j] == payload@[j] / 4,
        decreases payload@.len() - i,
    {
        out.push(payload[i] / 4);
        i = i + 1;
    }
    assert(out@ =~= seids_of(payload@));
    out
}

fn one_byte(value: u8) -> (r: Vec<u8>)
    ensures
        r@ == seq![value],
{
    let r: Vec<u8> = vec![value];
    assert(r@ =~= seq![value]);
    r
}

fn two_bytes(first: u8, second: u8) -> (r: Vec<u8>)
    ensures
        r@ == seq![first, second],
{
    let r: Vec<u8> = vec![first, second];
    assert(r@ =~= seq![first, second]);
    r
}

impl Message {
    /// The signal that this message belongs to.
    pub fn signal_identifier(&self) -> (r: u8)
        ensures
            r == self@.signal(),
    {
        match self {
            Message::DiscoverCommand => signal_identifier::DISCOVER,
            Message::DiscoverResponse(_) => signal_identifier::DISCOVER,
            Message::GetCapabilitiesCommand { .. } => signal_identifier::GET_CAPABILITIES,
            Message::GetCapabilitiesResponse(_) => signal_identifier::GET_CAPABILITIES,
            Message::GetAllCapabilitiesCommand { .. } => signal_identifier::GET_ALL_CAPABILITIES,
            Message::GetAllCapabilitiesResponse(_) => signal_identifier::GET_ALL_CAPABILITIES,
            Message::SetConfigurationCommand { .. } => signal_identifier::SET_CONFIGURATION,
            Message::SetConfigurationResponse => signal_identifier::SET_CONFIGURATION,
            Message::SetConfigurationReject { .. } => signal_identifier::SET_CONFIGURATION,
            Message::GetConfigurationCommand { .. } => signal_identifier::GET_CONFIGURATION,
            Message::GetConfigurationResponse(_) => signal_identifier::GET_CONFIGURATION,
            Message::ReconfigureCommand { .. } => signal_identifier::RECONFIGURE,
            Message::ReconfigureResponse => signal_identifier::RECONFIGURE,
            Message::ReconfigureReject { .. } => signal_identifier::RECONFIGURE,
            Message::OpenCommand { .. } => signal_identifier::OPEN,
            Message::OpenResponse => signal_identifier::OPEN,
            Message::StartCommand { .. } => signal_identifier::START,
            Message::StartResponse => signal_identifier::START,
            Message::StartReject { .. } => signal_identifier::START,
            Message::SuspendCommand { .. } => signal_identifier::SUSPEND,
            Message::SuspendResponse => signal_identifier::SUSPEND,
            Message::SuspendReject { .. } => signal_identifier::SUSPEND,
            Message::CloseCommand { .. } => signal_identifier::CLOSE,
            Message::CloseResponse => signal_identifier::CLOSE,
            Message::AbortCommand { .. } => signal_identifier::ABORT,
            Message::AbortResponse => signal_identifier::ABORT,
            Message::SecurityControlCommand { .. } => signal_identifier::SECURITY_CONTROL,
            Message::SecurityControlResponse => signal_identifier::SECURITY_CONTROL,
            Message::DelayReportCommand { .. } => signal_identifier::DELAYREPORT,
            Message::DelayReportResponse => signal_identifier::DELAYREPORT,
            Message::Reject { signal_identifier, .. } => *signal_identifier,
            Message::GeneralReject { signal_identifier } => *signal_identifier,
        }
    }

    /// Whether this message is a command or an answer.
    pub fn message_type(&self) -> (r: MessageType)
        ensures
            r == self@.kind(),
    {
        match self {
            Message::DiscoverCommand => MessageType::Command,
            Message::GetCapabilitiesCommand { .. } => MessageType::Command,
            Message::GetAllCapabilitiesCommand { .. } => MessageType::Command,
            Message::SetConfigurationCommand { .. } => MessageType::Command,
            Message::GetConfigurationCommand { .. } => MessageType::Command,
            Message::ReconfigureCommand { .. } => MessageType::Command,
            Message::OpenCommand { .. } => MessageType::Command,
            Message::StartCommand { .. } => MessageType::Command,
            Message::SuspendCommand { .. } => MessageType::Command,
            Message::CloseCommand { .. } => MessageType::Command,
            Message::AbortCommand { .. } => MessageType::Command,
            Message::SecurityControlCommand { .. } => MessageType::Command,
            Message::DelayReportCommand { .. } => MessageType::Command,
            Message::SetConfigurationReject { .. } => MessageType::ResponseReject,
            Message::ReconfigureReject { .. } => MessageType::ResponseReject,
            Message::StartReject { .. } => MessageType::ResponseReject,
            Message::SuspendReject { .. } => MessageType::ResponseReject,
            Message::Reject { .. } => MessageType::ResponseReject,
            Message::GeneralReject { .. } => MessageType::GeneralReject,
            _ => MessageType::ResponseAccept,
        }
    }

    /// Serializes the payload of this message.
    pub fn to_payload(&self) -> (r: Vec<u8>)
        ensures
            r@ == self@.payload(),
    {
        match self {
            Message::DiscoverResponse(endpoints) => serialize_seps(endpoints),
            Message::GetCapabilitiesCommand { acp_seid } => one_byte(
                capability::seid_to_byte(*acp_seid),
            ),
            Message::GetAllCapabilitiesCommand { acp_seid } => one_byte(
                capability::seid_to_byte(*acp_seid),
            ),
            Message::GetConfigurationCommand { acp_seid } => one_byte(
                capability::seid_to_byte(*acp_seid),
            ),
            Message::OpenCommand { acp_seid } => one_byte(capability::seid_to_byte(*acp_seid)),
            Message::CloseCommand { acp_seid } => one_byte(capability::seid_to_byte(*acp_seid)),
            Message::AbortCommand { acp_seid } => one_byte(capability::seid_to_byte(*acp_seid)),
            Message::GetCapabilitiesResponse(c) => ServiceCapability::serialize_list(c),
            Message::GetAllCapabilitiesResponse(c) => ServiceCapability::serialize_list(c),
            Message::GetConfigurationResponse(c) => ServiceCapability::serialize_list(c),
            Message::SetConfigurationCommand { acp_seid, int_seid, capabilities } => {
                let mut out = two_bytes(
                    capability::seid_to_byte(*acp_seid),
                    capability::seid_to_byte(*int_seid),
                );
                let list = ServiceCapability::serialize_list(capabilities);
                bytes::push_bytes(&mut out, &list);
                out
            },
            Message::ReconfigureCommand { acp_seid, capabilities } => {
                let mut out = one_byte(capability::seid_to_byte(*acp_seid));
                let list = ServiceCapability::serialize_list(capabilities);
                bytes::push_bytes(&mut out, &list);
                out
            },
            Message::SetConfigurationReject { service_category, error_code } => two_bytes(
                *service_category,
                *error_code,
            ),
            Message::ReconfigureReject { service_category, error_code } => two_bytes(
                *service_category,
                *error_code,
            ),
            Message::StartCommand { acp_seids } => serialize_seids(acp_seids),
            Message::SuspendCommand { acp_seids } => serialize_seids(acp_seids),
            Message::StartReject { acp_seid, error_code } => two_bytes(
                capability::seid_to_byte(*acp_seid),
                *error_code,
            ),
            Message::SuspendReject { acp_seid, error_code } => two_bytes(
                capability::seid_to_byte(*acp_seid),
                *error_code,
            ),
            Message::SecurityControlCommand { acp_seid, data } => {
                let mut out = one_byte(capability::seid_to_byte(*acp_seid));
                bytes::push_bytes(&mut out, data);
                out
            },
            Message::DelayReportCommand { acp_seid, delay } => {
                let mut out = one_byte(capability::seid_to_byte(*acp_seid));
                bytes::push_be16(&mut out, *delay);
                out
            },
            Message::Reject { error_code, .. } => one_byte(*error_code),
            _ => {
                let out: Vec<u8> = Vec::new();
                assert(out@ =~= seq![]);
                out
            },
        }
    }

    fn parse_command(signal: u8, payload: &[u8]) -> (r: Option<Message>)
        ensures
            models::opt_view(r) == command_of(signal, payload@),
    {
        match signal {
            signal_identifier::DISCOVER => {
                return Some(Message::DiscoverCommand);
            },
            signal_identifier::START => {
                return Some(Message::StartCommand { acp_seids: parse_seids(payload) });
            },
            signal_identifier::SUSPEND => {
                return Some(Message::SuspendCommand { acp_seids: parse_seids(payload) });
            },
            _ => {},
        }
        if payload.len() == 0 {
            return None;
        }
        let acp_seid: u8 = payload[0] / 4;
        match signal {
            signal_identifier::GET_CAPABILITIES => Some(
                Message::GetCapabilitiesCommand { acp_seid },
            ),
            signal_identifier::GET_ALL_CAPABILITIES => Some(
                Message::GetAllCapabilitiesCommand { acp_seid },
            ),
            signal_identifier::SET_CONFIGURATION => {
                if payload.len() < 2 {
                    return None;
                }
                let rest = bytes::range(payload, 2, payload.len());
                assert(rest@ =~= payload@.skip(2));
                match ServiceCapability::parse_list(rest) {
                    Some(capabilities) => Some(
                        Message::SetConfigurationCommand {
                            acp_seid,
                            int_seid: payload[1] / 4,
                            capabilities,
                        },
                    ),
                    None => None,
                }
            },
            signal_identifier::GET_CONFIGURATION => Some(
                Message::GetConfigurationCommand { acp_seid },
            ),
            signal_identifier::RECONFIGURE => {
                let rest = bytes::range(payload, 1, payload.len());
                assert(rest@ =~= payload@.skip(1));
                match ServiceCapability::parse_list(rest) {
                    Some(capabilities) => Some(
                        Message::ReconfigureCommand { acp_seid, capabilities },
                    ),
                    None => None,
                }
            },
            signal_identifier::OPEN => Some(Message::OpenCommand { acp_seid }),
            signal_identifier::CLOSE => Some(Message::CloseCommand { acp_seid }),
            signal_identifier::ABORT => Some(Message::AbortCommand { acp_seid }),
            signal_identifier::SECURITY_CONTROL => {
                let data = bytes::copy_range(payload, 1, payload.len());
                assert(data@ =~= payload@.skip(1));
                Some(Message::SecurityControlCommand { acp_seid, data })
            },
            signal_identifier::DELAYREPORT => {
                if payload.len() < 3 {
                    return None;
                }
                Some(
                    Message::DelayReportCommand { acp_seid, delay: bytes::read_be16(payload, 1) },
                )
            },
            _ => None,
        }
    }

    fn parse_accept(signal: u8, payload: &[u8]) -> (r: Option<Message>)
        ensures
            models::opt_view(r) == accept_of(signal, payload@),
    {
        match signal {
            signal_identifier::DISCOVER => match parse_seps(payload) {
                Some(list) => Some(Message::DiscoverResponse(list)),
                None => None,
            },
            signal_identifier::GET_CAPABILITIES => match ServiceCapability::parse_list(payload) {
                Some(list) => Some(Message::GetCapabilitiesResponse(list)),
                None => None,
            },
            signal_identifier::GET_ALL_CAPABILITIES => match ServiceCapability::parse_list(
                payload,
            ) {
                Some(list) => Some(Message::GetAllCapabilitiesResponse(list)),
                None => None,
            },
            signal_identifier::SET_CONFIGURATION => Some(Message::SetConfigurationResponse),
            signal_identifier::GET_CONFIGURATION => match ServiceCapability::parse_list(payload) {
                Some(list) => Some(Message::GetConfigurationResponse(list)),
                None => None,
            },
            signal_identifier::RECONFIGURE => Some(Message::ReconfigureResponse),
            signal_identifier::OPEN => Some(Message::OpenResponse),
            signal_identifier::START => Some(Message::StartResponse),
            signal_identifier::SUSPEND => Some(Message::SuspendResponse),
            signal_identifier::CLOSE => Some(Message::CloseResponse),
            signal_identifier::ABORT => Some(Message::AbortResponse),
            signal_identifier::SECURITY_CONTROL => Some(Message::SecurityControlResponse),
            signal_identifier::DELAYREPORT => Some(Message::DelayReportResponse),
            _ => None,
        }
    }

    fn parse_reject(signal: u8, payload: &[u8]) -> (r: Option<Message>)
        ensures
            models::opt_view(r) == reject_of(signal, payload@),
    {
        if payload.len() == 0 {
            return None;
        }
        match signal {
            signal_identifier::SET_CONFIGURATION => {
                if payload.len() < 2 {
                    return None;
                }
                Some(
                    Message::SetConfigurationReject {
                        service_category: payload[0],
                        error_code: payload[1],
                    },
                )
            },
            signal_identifier::RECONFIGURE => {
                if payload.len() < 2 {
                    return None;
                }
                Some(
                    Message::ReconfigureReject {
                        service_category: payload[0],
                        error_code: payload[1],
                    },
                )
            },
            signal_identifier::START => {
                if payload.len() < 2 {
                    return None;
                }
                Some(Message::StartReject { acp_seid: payload[0] / 4, error_code: payload[1] })
            },
            signal_identifier::SUSPEND => {
                if payload.len() < 2 {
                    return None;
                }
                Some(Message::SuspendReject { acp_seid: payload[0] / 4, error_code: payload[1] })
            },
            _ => Some(Message::Reject { signal_identifier: signal, error_code: payload[0] }),
        }
    }

    /// Parses the payload of a message with a signal and a type.
    pub fn parse(signal_identifier: u8, message_type: MessageType, payload: &[u8]) -> (r: Option<
        Message,
    >)
        ensures
            models::opt_view(r) == message_of(signal_identifier, message_type, payload@),
    {
        match message_type {
            MessageType::GeneralReject => Some(Message::GeneralReject { signal_identifier }),
            MessageType::Command => Self::parse_command(signal_identifier, payload),
            MessageType::ResponseAccept => Self::parse_accept(signal_identifier, payload),
            MessageType::ResponseReject => Self::parse_reject(signal_identifier, payload),
        }
    }
}

// ---------------------------------------------------------------------------
// Laws
// ---------------------------------------------------------------------------

/// Whether the fields of a message fit the wire: SEIDs have six bits, lengths
/// of capabilities one byte, and rejects with more than an error code are
/// those of their own variants.
pub open spec fn fits(m: MessageModel) -> bool {
    match m {
        MessageModel::DiscoverResponse(list) => forall|i: int|
            0 <= i < list.len() ==> (#[trigger] list[i]).seid < 0x40,
        MessageModel::GetCapabilitiesCommand { acp_seid } => acp_seid < 0x40,
        MessageModel::GetAllCapabilitiesCommand { acp_seid } => acp_seid < 0x40,
        MessageModel::GetConfigurationCommand { acp_seid } => acp_seid < 0x40,
        MessageModel::OpenCommand { acp_seid } => acp_seid < 0x40,
        MessageModel::CloseCommand { acp_seid } => acp_seid < 0x40,
        MessageModel::AbortCommand { acp_seid } => acp_seid < 0x40,
        MessageModel::GetCapabilitiesResponse(c) => capability::capabilities_fit(c),
        MessageModel::GetAllCapabilitiesResponse(c) => capability::capabilities_fit(c),
        MessageModel::GetConfigurationResponse(c) => capability::capabilities_fit(c),
        MessageModel::SetConfigurationCommand { acp_seid, int_seid, capabilities } => acp_seid
            < 0x40 && int_seid < 0x40 && capability::capabilities_fit(capabilities),
        MessageModel::ReconfigureCommand { acp_seid, capabilities } => acp_seid < 0x40
            && capability::capabilities_fit(capabilities),
        MessageModel::StartCommand { acp_seids } => seids_fit(acp_seids),
        MessageModel::SuspendCommand { acp_seids } => seids_fit(acp_seids),
        MessageModel::StartReject { acp_seid, .. } => acp_seid < 0x40,
        MessageModel::SuspendReject { acp_seid, .. } => acp_seid < 0x40,
        MessageModel::SecurityControlCommand { acp_seid, .. } => acp_seid < 0x40,
        MessageModel::DelayReportCommand { acp_seid, .. } => acp_seid < 0x40,
        MessageModel::Reject { signal_identifier, .. } => signal_identifier
            != signal_identifier::SET_CONFIGURATION && signal_identifier
            != signal_identifier::RECONFIGURE && signal_identifier != signal_identifier::START
            && signal_identifier != signal_identifier::SUSPEND,
        _ => true,
    }
}

/// Whether SEIDs have six bits.
pub open spec fn seids_fit(seids: Seq<u8>) -> bool {
    forall|i: int| 0 <= i < seids.len() ==> #[trigger] seids[i] < 0x40
}

proof fn lemma_sep_list_front(list: Seq<SepInfo>)
    requires
        list.len() > 0,
    ensures
        sep_list_bytes(list) == list[0].wire() + sep_list_bytes(list.skip(1)),
    decreases list.len(),
{
    if list.len() == 1 {
        assert(list.drop_last() =~= seq![]);
        assert(list.skip(1) =~= seq![]);
        assert(sep_list_bytes(list) =~= list[0].wire() + sep_list_bytes(list.skip(1)));
    } else {
        lemma_sep_list_front(list.drop_last());
        assert(list.drop_last().skip(1) =~= list.skip(1).drop_last());
        assert(sep_list_bytes(list) =~= list[0].wire() + sep_list_bytes(list.skip(1)));
    }
}

proof fn lemma_seps_read(prefix: Seq<u8>, list: Seq<SepInfo>)
    requires
        forall|i: int| 0 <= i < list.len() ==> (#[trigger] list[i]).seid < 0x40,
    ensures
        sep_list_from(prefix + sep_list_bytes(list), prefix.len() as int) == Some(list),
    decreases list.len(),
{
    let payload = prefix + sep_list_bytes(list);
    let at = prefix.len() as int;
    if list.len() == 0 {
        assert(list =~= seq![]);
    } else {
        let rest = list.skip(1);
        lemma_sep_list_front(list);
        capability::law_sep_info_round_trip(list[0]);
        assert forall|i: int| 0 <= i < rest.len() implies (#[trigger] rest[i]).seid < 0x40 by {
            assert(rest[i] == list[i + 1]);
        }
        lemma_seps_read(prefix + list[0].wire(), rest);
        assert(payload =~= (prefix + list[0].wire()) + sep_list_bytes(rest));
        assert(payload[at] == list[0].wire()[0] && payload[at + 1] == list[0].wire()[1]);
        assert(seq![list[0]] + rest =~= list);
    }
}

proof fn lemma_seids_round_trip(seids: Seq<u8>)
    requires
        seids_fit(seids),
    ensures
        seids_of(seid_bytes(seids)) == seids,
{
    assert(seids_of(seid_bytes(seids)) =~= seids);
}

proof fn lemma_set_configuration_round_trip(
    acp_seid: u8,
    int_seid: u8,
    capabilities: Seq<CapabilityModel>,
)
    requires
        acp_seid < 0x40,
        int_seid < 0x40,
        capability::capabilities_fit(capabilities),
    ensures
        ({
            let m = MessageModel::SetConfigurationCommand { acp_seid, int_seid, capabilities };
            command_of(signal_identifier::SET_CONFIGURATION, m.payload()) == Some(m)
        }),
{
    let m = MessageModel::SetConfigurationCommand { acp_seid, int_seid, capabilities };
    capability::law_capability_list_round_trip(capabilities);
    assert(m.payload().skip(2) =~= capability::capability_list_bytes(capabilities));
}

proof fn lemma_reconfigure_round_trip(acp_seid: u8, capabilities: Seq<CapabilityModel>)
    requires
        acp_seid < 0x40,
        capability::capabilities_fit(capabilities),
    ensures
        ({
            let m = MessageModel::ReconfigureCommand { acp_seid, capabilities };
            command_of(signal_identifier::RECONFIGURE, m.payload()) == Some(m)
        }),
{
    let m = MessageModel::ReconfigureCommand { acp_seid, capabilities };
    capability::law_capability_list_round_trip(capabilities);
    assert(m.payload().skip(1) =~= capability::capability_list_bytes(capabilities));
}

proof fn lemma_security_control_round_trip(acp_seid: u8, data: Seq<u8>)
    requires
        acp_seid < 0x40,
    ensures
        ({
            let m = MessageModel::SecurityControlCommand { acp_seid, data };
            command_of(signal_identifier::SECURITY_CONTROL, m.payload()) == Some(m)
        }),
{
    let m = MessageModel::SecurityControlCommand { acp_seid, data };
    assert(m.payload().skip(1) =~= data);
}

proof fn lemma_delay_report_round_trip(acp_seid: u8, delay: u16)
    requires
        acp_seid < 0x40,
    ensures
        ({
            let m = MessageModel::DelayReportCommand { acp_seid, delay };
            command_of(signal_identifier::DELAYREPORT, m.payload()) == Some(m)
        }),
{
    bytes::lemma_be16_round_trip(delay);
}

#[verifier::rlimit(40)]
proof fn lemma_command_round_trip(m: MessageModel)
    requires
        fits(m),
        m.kind() == MessageType::Command,
    ensures
        command_of(m.signal(), m.payload()) == Some(m),
{
    match m {
        MessageModel::SetConfigurationCommand { acp_seid, int_seid, capabilities } => {
            lemma_set_configuration_round_trip(acp_seid, int_seid, capabilities);
        },
        MessageModel::ReconfigureCommand { acp_seid, capabilities } => {
            lemma_reconfigure_round_trip(acp_seid, capabilities);
        },
        MessageModel::StartCommand { acp_seids } => {
            lemma_seids_round_trip(acp_seids);
        },
        MessageModel::SuspendCommand { acp_seids } => {
            lemma_seids_round_trip(acp_seids);
        },
        MessageModel::SecurityControlCommand { acp_seid, data } => {
            lemma_security_control_round_trip(acp_seid, data);
        },
        MessageModel::DelayReportCommand { acp_seid, delay } => {
            lemma_delay_report_round_trip(acp_seid, delay);
        },
        _ => {},
    }
}

proof fn lemma_accept_round_trip(m: MessageModel)
    requires
        fits(m),
        m.kind() == MessageType::ResponseAccept,
    ensures
        accept_of(m.signal(), m.payload()) == Some(m),
{
    match m {
        MessageModel::DiscoverResponse(list) => {
            lemma_seps_read(seq![], list);
            assert(seq![] + sep_list_bytes(list) =~= sep_list_bytes(list));
        },
        MessageModel::GetCapabilitiesResponse(c) => {
            capability::law_capability_list_round_trip(c);
        },
        MessageModel::GetAllCapabilitiesResponse(c) => {
            capability::law_capability_list_round_trip(c);
        },
        MessageModel::GetConfigurationResponse(c) => {
            capability::law_capability_list_round_trip(c);
        },
        _ => {},
    }
}

proof fn lemma_reject_round_trip(m: MessageModel)
    requires
        fits(m),
        m.kind() == MessageType::ResponseReject,
    ensures
        reject_of(m.signal(), m.payload()) == Some(m),
{
}

/// A message whose fields fit the wire is read back from its signal, type and
/// payload.
pub proof fn law_message_round_trip(m: MessageModel)
    requires
        fits(m),
    ensures
        message_of(m.signal(), m.kind(), m.payload()) == Some(m),
{
    match m.kind() {
        MessageType::Command => lemma_command_round_trip(m),
        MessageType::ResponseAccept => lemma_accept_round_trip(m),
        MessageType::ResponseReject => lemma_reject_round_trip(m),
        MessageType::GeneralReject => {},
    }
}

} // verus!
