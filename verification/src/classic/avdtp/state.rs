//! The model of a connection: its endpoints and transactions, and what it
//! sends and reports.

use vstd::prelude::*;
use crate::bytes;
use crate::classic::avdtp::assembler;
use crate::classic::avdtp::assembler::{AssembledModel, AssemblerModel};
use crate::classic::avdtp::capability;
use crate::classic::avdtp::capability::{
    CapabilityModel,
    CodecModel,
    MediaType,
    SepInfo,
    StreamEndPointType,
};
use crate::classic::avdtp::error_code;
use crate::classic::avdtp::message;
use crate::classic::avdtp::message::{MessageModel, MessageType};
use crate::classic::avdtp::service_category;
use crate::classic::avdtp::signal_identifier;
use crate::text;
use crate::types::SimbleErrorModel;

verus! {

/// States of a stream.
#[derive(Debug, Clone, Copy, PartialEq, Eq, Structural)]
pub enum StreamState {
    Idle,
    Configured,
    Open,
    Streaming,
    Closing,
    Aborting,
}

impl StreamState {
    /// The name of this state.
    pub open spec fn name(self) -> Seq<char> {
        match self {
            StreamState::Idle => "Idle"@,
            StreamState::Configured => "Configured"@,
            StreamState::Open => "Open"@,
            StreamState::Streaming => "Streaming"@,
            StreamState::Closing => "Closing"@,
            StreamState::Aborting => "Aborting"@,
        }
    }
}

/// The model of a local endpoint.
#[verifier::ext_equal]
pub struct LocalModel {
    pub seid: u8,
    pub media_type: MediaType,
    pub tsep: StreamEndPointType,
    pub capabilities: Seq<CapabilityModel>,
    pub configuration: Seq<CapabilityModel>,
    pub state: StreamState,
    pub remote_seid: Option<u8>,
}

/// The model of a remote endpoint.
#[verifier::ext_equal]
pub struct RemoteModel {
    pub seid: u8,
    pub media_type: MediaType,
    pub tsep: StreamEndPointType,
    pub in_use: bool,
    pub capabilities: Seq<CapabilityModel>,
}

/// What a command that was sent is to bring about.
#[verifier::ext_equal]
pub enum PendingModel {
    Discover,
    GetCapabilities { seid: u8 },
    SetConfiguration { acp_seid: u8, int_seid: u8, capabilities: Seq<CapabilityModel> },
    GetConfiguration { seid: u8 },
    Reconfigure { int_seid: u8, capabilities: Seq<CapabilityModel> },
    Open { int_seid: u8 },
    Start { int_seids: Seq<u8> },
    Suspend { int_seids: Seq<u8> },
    Close { int_seid: u8 },
    Abort { int_seid: u8 },
}

/// The model of a connection.
#[verifier::ext_equal]
pub struct ProtocolModel {
    pub version: (u8, u8),
    pub local: Seq<LocalModel>,
    pub remote: Map<u8, RemoteModel>,
    pub peer_mtu: u16,
    pub assembler: AssemblerModel,
    pub pending: Map<u8, PendingModel>,
    pub next_transaction: u8,
}

/// The model of an event.
#[verifier::ext_equal]
pub enum EventModel {
    EndpointsDiscovered(Seq<SepInfo>),
    CapabilitiesReceived { seid: u8, capabilities: Seq<CapabilityModel> },
    ConfigurationReceived { seid: u8, capabilities: Seq<CapabilityModel> },
    StreamConfigured { seid: u8 },
    StreamReconfigured { seid: u8 },
    StreamOpened { seid: u8 },
    StreamStarted { seid: u8 },
    StreamSuspended { seid: u8 },
    StreamClosed { seid: u8 },
    StreamAborted { seid: u8 },
    DelayReport { seid: u8, delay: u16 },
    SecurityControl { seid: u8, data: Seq<u8> },
    CommandRejected { signal_identifier: u8, error_code: u8 },
}

/// What holds of every connection: transaction labels have four bits.
pub open spec fn well_formed(p: ProtocolModel) -> bool {
    p.next_transaction < 0x10
}

// ---------------------------------------------------------------------------
// Endpoints
// ---------------------------------------------------------------------------

/// Whether a SEID names a local endpoint.
pub open spec fn known(local: Seq<LocalModel>, seid: u8) -> bool {
    0 < seid <= local.len()
}

/// The local endpoint with a SEID.
pub open spec fn at(local: Seq<LocalModel>, seid: u8) -> LocalModel {
    local[seid - 1]
}

/// The local endpoints with the one that a SEID names replaced, if it names
/// one.
pub open spec fn with_endpoint(local: Seq<LocalModel>, seid: u8, e: LocalModel) -> Seq<LocalModel> {
    if known(local, seid) {
        local.update(seid - 1, e)
    } else {
        local
    }
}

/// The local endpoints with one in another state.
pub open spec fn with_state(local: Seq<LocalModel>, seid: u8, state: StreamState) -> Seq<
    LocalModel,
> {
    with_endpoint(local, seid, LocalModel { state, ..at(local, seid) })
}

/// The local endpoints with one idle and without a peer.
pub open spec fn released(local: Seq<LocalModel>, seid: u8) -> Seq<LocalModel> {
    with_endpoint(
        local,
        seid,
        LocalModel { state: StreamState::Idle, remote_seid: None, ..at(local, seid) },
    )
}

/// The local endpoints with one configured for a peer.
pub open spec fn configured(
    local: Seq<LocalModel>,
    seid: u8,
    remote_seid: u8,
    configuration: Seq<CapabilityModel>,
) -> Seq<LocalModel> {
    with_endpoint(
        local,
        seid,
        LocalModel {
            configuration,
            remote_seid: Some(remote_seid),
            state: StreamState::Configured,
            ..at(local, seid)
        },
    )
}

/// The local endpoints with several in another state.
pub open spec fn with_states(local: Seq<LocalModel>, seids: Seq<u8>, state: StreamState) -> Seq<
    LocalModel,
>
    decreases seids.len(),
{
    if seids.len() == 0 {
        local
    } else {
        with_state(with_states(local, seids.drop_last(), state), seids.last(), state)
    }
}

/// The first local endpoint that streams with a remote one, from an index on.
pub open spec fn stream_with(local: Seq<LocalModel>, remote_seid: u8, from: int) -> Option<
    LocalModel,
>
    decreases local.len() - from,
{
    if from >= local.len() {
        None
    } else if local[from].remote_seid == Some(remote_seid) {
        Some(local[from])
    } else {
        stream_with(local, remote_seid, from + 1)
    }
}

/// A configuration with one capability replaced: the first of its category, or
/// none, in which case it is added.
pub open spec fn replaced(
    configuration: Seq<CapabilityModel>,
    c: CapabilityModel,
    from: int,
) -> Seq<CapabilityModel>
    decreases configuration.len() - from,
{
    if from >= configuration.len() {
        configuration.push(c)
    } else if configuration[from].service_category == c.service_category {
        configuration.update(from, c)
    } else {
        replaced(configuration, c, from + 1)
    }
}

/// A configuration with capabilities replaced, one after the other. Other
/// categories stay as they are.
pub open spec fn reconfigured(
    configuration: Seq<CapabilityModel>,
    capabilities: Seq<CapabilityModel>,
) -> Seq<CapabilityModel>
    decreases capabilities.len(),
{
    if capabilities.len() == 0 {
        configuration
    } else {
        replaced(reconfigured(configuration, capabilities.drop_last()), capabilities.last(), 0)
    }
}

/// The local endpoints with the configuration of one changed.
pub open spec fn with_reconfiguration(
    local: Seq<LocalModel>,
    seid: u8,
    capabilities: Seq<CapabilityModel>,
) -> Seq<LocalModel> {
    with_endpoint(
        local,
        seid,
        LocalModel {
            configuration: reconfigured(at(local, seid).configuration, capabilities),
            ..at(local, seid)
        },
    )
}

/// A new local endpoint.
pub open spec fn new_endpoint(
    seid: u8,
    media_type: MediaType,
    tsep: StreamEndPointType,
    capabilities: Seq<CapabilityModel>,
) -> LocalModel {
    LocalModel {
        seid,
        media_type,
        tsep,
        capabilities,
        configuration: capabilities,
        state: StreamState::Idle,
        remote_seid: None,
    }
}

/// What a discover response says of the local endpoints.
pub open spec fn sep_infos(local: Seq<LocalModel>) -> Seq<SepInfo> {
    local.map_values(
        |e: LocalModel|
            SepInfo {
                seid: e.seid,
                in_use: e.state != StreamState::Idle,
                media_type: e.media_type,
                tsep: e.tsep,
            },
    )
}

/// Whether a codec is the one looked for; a vendor-specific one is told by the
/// vendor and codec IDs at the start of its information.
pub open spec fn is_codec(
    codec: CodecModel,
    codec_type: u8,
    vendor_id: u32,
    codec_id: u16,
) -> bool {
    let info = codec.media_codec_information;
    &&& codec.media_type == MediaType::Audio
    &&& codec.media_codec_type == codec_type
    &&& codec_type == 0xFF ==> info.len() >= 6 && bytes::le32(info, 0) == vendor_id && bytes::le16(
        info,
        4,
    ) == codec_id
}

/// Whether capabilities include media transport.
pub open spec fn transports(capabilities: Seq<CapabilityModel>) -> bool {
    exists|i: int|
        0 <= i < capabilities.len() && (#[trigger] capabilities[i]).service_category
            == service_category::MEDIA_TRANSPORT
}

/// Whether capabilities include a codec.
pub open spec fn offers_codec(
    capabilities: Seq<CapabilityModel>,
    codec_type: u8,
    vendor_id: u32,
    codec_id: u16,
) -> bool {
    exists|i: int|
        0 <= i < capabilities.len() && match #[trigger] capability::codec_of(capabilities[i]) {
            Some(codec) => is_codec(codec, codec_type, vendor_id, codec_id),
            None => false,
        }
}

/// Whether a remote endpoint is a free sink with a codec.
pub open spec fn is_free_sink(
    e: RemoteModel,
    media_type: MediaType,
    codec_type: u8,
    vendor_id: u32,
    codec_id: u16,
) -> bool {
    &&& !e.in_use
    &&& e.media_type == media_type
    &&& e.tsep == StreamEndPointType::Sink
    &&& transports(e.capabilities)
    &&& offers_codec(e.capabilities, codec_type, vendor_id, codec_id)
}

/// The free sink with a codec under the lowest SEID, from `from` on.
pub open spec fn free_sink(
    remote: Map<u8, RemoteModel>,
    media_type: MediaType,
    codec_type: u8,
    vendor_id: u32,
    codec_id: u16,
    from: int,
) -> Option<RemoteModel>
    decreases 256 - from,
{
    if from >= 256 {
        None
    } else if remote.contains_key(from as u8) && is_free_sink(
        remote[from as u8],
        media_type,
        codec_type,
        vendor_id,
        codec_id,
    ) {
        Some(remote[from as u8])
    } else {
        free_sink(remote, media_type, codec_type, vendor_id, codec_id, from + 1)
    }
}

// ---------------------------------------------------------------------------
// Sending commands
// ---------------------------------------------------------------------------

/// Whether a version knows the command for all capabilities: 1.3 and later.
pub open spec fn knows_all_capabilities(version: (u8, u8)) -> bool {
    version.0 > 1 || (version.0 == 1 && version.1 > 2)
}

/// The first transaction label without a pending command, from an offset
/// behind the next one on.
pub open spec fn free_label(p: ProtocolModel, offset: int) -> Option<u8>
    decreases 16 - offset,
{
    let label = ((p.next_transaction + offset) % 16) as u8;
    if offset >= 16 {
        None
    } else if !p.pending.contains_key(label) {
        Some(label)
    } else {
        free_label(p, offset + 1)
    }
}

/// Sending a command: it takes a free transaction label.
pub open spec fn sent(p: ProtocolModel, pending: PendingModel, m: MessageModel) -> (
    ProtocolModel,
    Result<Seq<Seq<u8>>, SimbleErrorModel>,
) {
    match free_label(p, 0) {
        Some(label) => (
            ProtocolModel {
                pending: p.pending.insert(label, pending),
                next_transaction: ((label + 1) % 16) as u8,
                ..p
            },
            Ok(assembler::message_packets(label, m, p.peer_mtu)),
        ),
        None => (
            p,
            Err(
                SimbleErrorModel::DeviceError(
                    "AVDTP: all 16 transaction labels are in flight"@,
                ),
            ),
        ),
    }
}

/// The error for a SEID that names no local endpoint.
pub open spec fn unknown_seid(seid: u8) -> SimbleErrorModel {
    SimbleErrorModel::DeviceError("AVDTP: unknown local SEID "@ + text::decimal(seid as nat))
}

/// The error for a remote SEID that no local endpoint streams with.
pub open spec fn no_stream(remote_seid: u8) -> SimbleErrorModel {
    SimbleErrorModel::DeviceError(
        "AVDTP: no stream configured with remote SEID "@ + text::decimal(remote_seid as nat),
    )
}

/// The error for a local endpoint in a state that does not allow a request.
pub open spec fn bad_local_state(seid: u8, state: StreamState) -> SimbleErrorModel {
    SimbleErrorModel::DeviceError(
        "AVDTP: local SEID "@ + text::decimal(seid as nat) + " is in state "@ + state.name()
            + ", invalid for this operation"@,
    )
}

/// The SEID of the local endpoint that streams with a remote one and is in one
/// of the given states.
pub open spec fn required_stream(
    p: ProtocolModel,
    remote_seid: u8,
    states: Seq<StreamState>,
) -> Result<u8, SimbleErrorModel> {
    match stream_with(p.local, remote_seid, 0) {
        None => Err(no_stream(remote_seid)),
        Some(e) => if states.contains(e.state) {
            Ok(e.seid)
        } else {
            Err(bad_local_state(e.seid, e.state))
        },
    }
}

/// The SEIDs of the local endpoints that stream with remote ones, or the error
/// for the first that does not.
pub open spec fn required_streams(
    p: ProtocolModel,
    remote_seids: Seq<u8>,
    states: Seq<StreamState>,
) -> Result<Seq<u8>, SimbleErrorModel>
    decreases remote_seids.len(),
{
    if remote_seids.len() == 0 {
        Ok(seq![])
    } else {
        match required_streams(p, remote_seids.drop_last(), states) {
            Ok(seids) => match required_stream(p, remote_seids.last(), states) {
                Ok(seid) => Ok(seids.push(seid)),
                Err(why) => Err(why),
            },
            Err(why) => Err(why),
        }
    }
}

/// Asking for the capabilities of a remote endpoint.
pub open spec fn get_capabilities(p: ProtocolModel, seid: u8) -> (
    ProtocolModel,
    Result<Seq<Seq<u8>>, SimbleErrorModel>,
) {
    sent(
        p,
        PendingModel::GetCapabilities { seid },
        if knows_all_capabilities(p.version) {
            MessageModel::GetAllCapabilitiesCommand { acp_seid: seid }
        } else {
            MessageModel::GetCapabilitiesCommand { acp_seid: seid }
        },
    )
}

/// Configuring a remote endpoint for a local one that is idle.
pub open spec fn set_configuration(
    p: ProtocolModel,
    acp_seid: u8,
    int_seid: u8,
    capabilities: Seq<CapabilityModel>,
) -> (ProtocolModel, Result<Seq<Seq<u8>>, SimbleErrorModel>) {
    if !known(p.local, int_seid) {
        (p, Err(unknown_seid(int_seid)))
    } else if at(p.local, int_seid).state != StreamState::Idle {
        (p, Err(bad_local_state(int_seid, at(p.local, int_seid).state)))
    } else {
        sent(
            p,
            PendingModel::SetConfiguration { acp_seid, int_seid, capabilities },
            MessageModel::SetConfigurationCommand { acp_seid, int_seid, capabilities },
        )
    }
}

/// Changing the configuration of an open stream.
pub open spec fn reconfigure(
    p: ProtocolModel,
    acp_seid: u8,
    capabilities: Seq<CapabilityModel>,
) -> (ProtocolModel, Result<Seq<Seq<u8>>, SimbleErrorModel>) {
    match required_stream(p, acp_seid, seq![StreamState::Open]) {
        Ok(int_seid) => sent(
            p,
            PendingModel::Reconfigure { int_seid, capabilities },
            MessageModel::ReconfigureCommand { acp_seid, capabilities },
        ),
        Err(why) => (p, Err(why)),
    }
}

/// Opening a configured stream.
pub open spec fn open_stream(p: ProtocolModel, acp_seid: u8) -> (
    ProtocolModel,
    Result<Seq<Seq<u8>>, SimbleErrorModel>,
) {
    match required_stream(p, acp_seid, seq![StreamState::Configured]) {
        Ok(int_seid) => sent(
            p,
            PendingModel::Open { int_seid },
            MessageModel::OpenCommand { acp_seid },
        ),
        Err(why) => (p, Err(why)),
    }
}

/// Starting open streams.
pub open spec fn start(p: ProtocolModel, acp_seids: Seq<u8>) -> (
    ProtocolModel,
    Result<Seq<Seq<u8>>, SimbleErrorModel>,
) {
    match required_streams(p, acp_seids, seq![StreamState::Open]) {
        Ok(int_seids) => sent(
            p,
            PendingModel::Start { int_seids },
            MessageModel::StartCommand { acp_seids },
        ),
        Err(why) => (p, Err(why)),
    }
}

/// Suspending streams.
pub open spec fn suspend(p: ProtocolModel, acp_seids: Seq<u8>) -> (
    ProtocolModel,
    Result<Seq<Seq<u8>>, SimbleErrorModel>,
) {
    match required_streams(p, acp_seids, seq![StreamState::Streaming]) {
        Ok(int_seids) => sent(
            p,
            PendingModel::Suspend { int_seids },
            MessageModel::SuspendCommand { acp_seids },
        ),
        Err(why) => (p, Err(why)),
    }
}

/// Closing a stream that is open or streaming.
pub open spec fn close(p: ProtocolModel, acp_seid: u8) -> (
    ProtocolModel,
    Result<Seq<Seq<u8>>, SimbleErrorModel>,
) {
    match required_stream(p, acp_seid, seq![StreamState::Open, StreamState::Streaming]) {
        Ok(int_seid) => sent(
            p,
            PendingModel::Close { int_seid },
            MessageModel::CloseCommand { acp_seid },
        ),
        Err(why) => (p, Err(why)),
    }
}

/// Aborting a stream that is not idle.
pub open spec fn abort(p: ProtocolModel, acp_seid: u8) -> (
    ProtocolModel,
    Result<Seq<Seq<u8>>, SimbleErrorModel>,
) {
    match required_stream(
        p,
        acp_seid,
        seq![StreamState::Configured, StreamState::Open, StreamState::Streaming],
    ) {
        Ok(int_seid) => sent(
            p,
            PendingModel::Abort { int_seid },
            MessageModel::AbortCommand { acp_seid },
        ),
        Err(why) => (p, Err(why)),
    }
}

// ---------------------------------------------------------------------------
// Answering commands
// ---------------------------------------------------------------------------

/// What a command makes of the local endpoints, the answer, and the events.
#[verifier::ext_equal]
pub struct Handled {
    pub local: Seq<LocalModel>,
    pub response: MessageModel,
    pub events: Seq<EventModel>,
}

/// An answer that changes nothing.
pub open spec fn answered(local: Seq<LocalModel>, response: MessageModel) -> Handled {
    Handled { local, response, events: seq![] }
}

/// A reject that changes nothing.
pub open spec fn rejected(
    local: Seq<LocalModel>,
    signal_identifier: u8,
    error_code: u8,
) -> Handled {
    answered(local, MessageModel::Reject { signal_identifier, error_code })
}

/// The answer to a command to configure an endpoint.
pub open spec fn on_set_configuration(
    local: Seq<LocalModel>,
    acp_seid: u8,
    int_seid: u8,
    capabilities: Seq<CapabilityModel>,
) -> Handled {
    if !known(local, acp_seid) {
        answered(
            local,
            MessageModel::SetConfigurationReject {
                service_category: 0,
                error_code: error_code::BAD_ACP_SEID,
            },
        )
    } else if at(local, acp_seid).state != StreamState::Idle {
        answered(
            local,
            MessageModel::SetConfigurationReject {
                service_category: 0,
                error_code: error_code::SEP_IN_USE,
            },
        )
    } else {
        Handled {
            local: configured(local, acp_seid, int_seid, capabilities),
            response: MessageModel::SetConfigurationResponse,
            events: seq![EventModel::StreamConfigured { seid: acp_seid }],
        }
    }
}

/// The answer to a command to change the configuration of an endpoint, which
/// has to be open.
pub open spec fn on_reconfigure(
    local: Seq<LocalModel>,
    acp_seid: u8,
    capabilities: Seq<CapabilityModel>,
) -> Handled {
    if !known(local, acp_seid) {
        answered(
            local,
            MessageModel::ReconfigureReject {
                service_category: 0,
                error_code: error_code::BAD_ACP_SEID,
            },
        )
    } else if at(local, acp_seid).state != StreamState::Open {
        answered(
            local,
            MessageModel::ReconfigureReject {
                service_category: 0,
                error_code: error_code::BAD_STATE,
            },
        )
    } else {
        Handled {
            local: with_reconfiguration(local, acp_seid, capabilities),
            response: MessageModel::ReconfigureResponse,
            events: seq![EventModel::StreamReconfigured { seid: acp_seid }],
        }
    }
}

/// The answer to a command to open an endpoint, which has to be configured.
pub open spec fn on_open(local: Seq<LocalModel>, acp_seid: u8) -> Handled {
    if !known(local, acp_seid) {
        rejected(local, signal_identifier::OPEN, error_code::BAD_ACP_SEID)
    } else if at(local, acp_seid).state != StreamState::Configured {
        rejected(local, signal_identifier::OPEN, error_code::BAD_STATE)
    } else {
        Handled {
            local: with_state(local, acp_seid, StreamState::Open),
            response: MessageModel::OpenResponse,
            events: seq![EventModel::StreamOpened { seid: acp_seid }],
        }
    }
}

/// The answer to a command to close an endpoint, which has to be open or
/// streaming.
pub open spec fn on_close(local: Seq<LocalModel>, acp_seid: u8) -> Handled {
    if !known(local, acp_seid) {
        rejected(local, signal_identifier::CLOSE, error_code::BAD_ACP_SEID)
    } else if at(local, acp_seid).state != StreamState::Open && at(local, acp_seid).state
        != StreamState::Streaming {
        rejected(local, signal_identifier::CLOSE, error_code::BAD_STATE)
    } else {
        Handled {
            local: released(local, acp_seid),
            response: MessageModel::CloseResponse,
            events: seq![EventModel::StreamClosed { seid: acp_seid }],
        }
    }
}

/// The answer to a command to abort: it is always accepted.
pub open spec fn on_abort(local: Seq<LocalModel>, acp_seid: u8) -> Handled {
    if known(local, acp_seid) && at(local, acp_seid).state != StreamState::Idle {
        Handled {
            local: released(local, acp_seid),
            response: MessageModel::AbortResponse,
            events: seq![EventModel::StreamAborted { seid: acp_seid }],
        }
    } else {
        answered(local, MessageModel::AbortResponse)
    }
}

/// The first SEID that names no endpoint in a state, from an index on, with
/// the error for it.
pub open spec fn first_refused(
    local: Seq<LocalModel>,
    seids: Seq<u8>,
    expected: StreamState,
    from: int,
) -> Option<(u8, u8)>
    decreases seids.len() - from,
{
    if from >= seids.len() {
        None
    } else if !known(local, seids[from]) {
        Some((seids[from], error_code::BAD_ACP_SEID))
    } else if at(local, seids[from]).state != expected {
        Some((seids[from], error_code::BAD_STATE))
    } else {
        first_refused(local, seids, expected, from + 1)
    }
}

/// The events for streams that start.
pub open spec fn starts(seids: Seq<u8>) -> Seq<EventModel> {
    seids.map_values(|seid: u8| EventModel::StreamStarted { seid })
}

/// The events for streams that are suspended.
pub open spec fn suspensions(seids: Seq<u8>) -> Seq<EventModel> {
    seids.map_values(|seid: u8| EventModel::StreamSuspended { seid })
}

/// The answer to a command to start endpoints: all of them, or none.
pub open spec fn on_start(local: Seq<LocalModel>, seids: Seq<u8>) -> Handled {
    match first_refused(local, seids, StreamState::Open, 0) {
        Some((acp_seid, error_code)) => answered(
            local,
            MessageModel::StartReject { acp_seid, error_code },
        ),
        None => Handled {
            local: with_states(local, seids, StreamState::Streaming),
            response: MessageModel::StartResponse,
            events: starts(seids),
        },
    }
}

/// The answer to a command to suspend endpoints: all of them, or none.
pub open spec fn on_suspend(local: Seq<LocalModel>, seids: Seq<u8>) -> Handled {
    match first_refused(local, seids, StreamState::Streaming, 0) {
        Some((acp_seid, error_code)) => answered(
            local,
            MessageModel::SuspendReject { acp_seid, error_code },
        ),
        None => Handled {
            local: with_states(local, seids, StreamState::Open),
            response: MessageModel::SuspendResponse,
            events: suspensions(seids),
        },
    }
}

/// The answer to a command for the configuration of an endpoint.
pub open spec fn on_get_configuration(local: Seq<LocalModel>, acp_seid: u8) -> Handled {
    if !known(local, acp_seid) {
        rejected(local, signal_identifier::GET_CONFIGURATION, error_code::BAD_ACP_SEID)
    } else {
        match at(local, acp_seid).state {
            StreamState::Configured => answered(
                local,
                MessageModel::GetConfigurationResponse(at(local, acp_seid).configuration),
            ),
            StreamState::Open => answered(
                local,
                MessageModel::GetConfigurationResponse(at(local, acp_seid).configuration),
            ),
            StreamState::Streaming => answered(
                local,
                MessageModel::GetConfigurationResponse(at(local, acp_seid).configuration),
            ),
            _ => rejected(local, signal_identifier::GET_CONFIGURATION, error_code::BAD_STATE),
        }
    }
}

/// The answer to a command.
pub open spec fn handled(local: Seq<LocalModel>, m: MessageModel) -> Option<Handled> {
    match m {
        MessageModel::DiscoverCommand => Some(
            answered(local, MessageModel::DiscoverResponse(sep_infos(local))),
        ),
        MessageModel::GetCapabilitiesCommand { acp_seid } => Some(
            if known(local, acp_seid) {
                answered(
                    local,
                    MessageModel::GetCapabilitiesResponse(at(local, acp_seid).capabilities),
                )
            } else {
                rejected(local, signal_identifier::GET_CAPABILITIES, error_code::BAD_ACP_SEID)
            },
        ),
        MessageModel::GetAllCapabilitiesCommand { acp_seid } => Some(
            if known(local, acp_seid) {
                answered(
                    local,
                    MessageModel::GetAllCapabilitiesResponse(at(local, acp_seid).capabilities),
                )
            } else {
                rejected(local, signal_identifier::GET_ALL_CAPABILITIES, error_code::BAD_ACP_SEID)
            },
        ),
        MessageModel::SetConfigurationCommand { acp_seid, int_seid, capabilities } => Some(
            on_set_configuration(local, acp_seid, int_seid, capabilities),
        ),
        MessageModel::GetConfigurationCommand { acp_seid } => Some(
            on_get_configuration(local, acp_seid),
        ),
        MessageModel::ReconfigureCommand { acp_seid, capabilities } => Some(
            on_reconfigure(local, acp_seid, capabilities),
        ),
        MessageModel::OpenCommand { acp_seid } => Some(on_open(local, acp_seid)),
        MessageModel::StartCommand { acp_seids } => Some(on_start(local, acp_seids)),
        MessageModel::SuspendCommand { acp_seids } => Some(on_suspend(local, acp_seids)),
        MessageModel::CloseCommand { acp_seid } => Some(on_close(local, acp_seid)),
        MessageModel::AbortCommand { acp_seid } => Some(on_abort(local, acp_seid)),
        MessageModel::SecurityControlCommand { acp_seid, data } => Some(
            if known(local, acp_seid) {
                Handled {
                    local,
                    response: MessageModel::SecurityControlResponse,
                    events: seq![EventModel::SecurityControl { seid: acp_seid, data }],
                }
            } else {
                rejected(local, signal_identifier::SECURITY_CONTROL, error_code::BAD_ACP_SEID)
            },
        ),
        MessageModel::DelayReportCommand { acp_seid, delay } => Some(
            if known(local, acp_seid) {
                Handled {
                    local,
                    response: MessageModel::DelayReportResponse,
                    events: seq![EventModel::DelayReport { seid: acp_seid, delay }],
                }
            } else {
                rejected(local, signal_identifier::DELAYREPORT, error_code::BAD_ACP_SEID)
            },
        ),
        _ => None,
    }
}

/// What a connection becomes, sends and reports.
#[verifier::ext_equal]
pub struct Step {
    pub state: ProtocolModel,
    pub outgoing: Seq<Seq<u8>>,
    pub events: Seq<EventModel>,
}

/// A step that changes, sends and reports nothing.
pub open spec fn idle(p: ProtocolModel) -> Step {
    Step { state: p, outgoing: seq![], events: seq![] }
}

/// What a command from the peer makes a connection do. An unknown signal draws
/// a general reject; signal 0 and a malformed payload are dropped.
pub open spec fn on_command(p: ProtocolModel, m: AssembledModel) -> Step {
    if m.signal_identifier == 0 {
        idle(p)
    } else if m.signal_identifier > signal_identifier::DELAYREPORT {
        Step {
            state: p,
            outgoing: assembler::message_packets(
                m.transaction_label,
                MessageModel::GeneralReject { signal_identifier: m.signal_identifier },
                p.peer_mtu,
            ),
            events: seq![],
        }
    } else {
        match message::message_of(m.signal_identifier, MessageType::Command, m.payload) {
            None => idle(p),
            Some(command) => match handled(p.local, command) {
                None => idle(p),
                Some(h) => Step {
                    state: ProtocolModel { local: h.local, ..p },
                    outgoing: assembler::message_packets(
                        m.transaction_label,
                        h.response,
                        p.peer_mtu,
                    ),
                    events: h.events,
                },
            },
        }
    }
}

// ---------------------------------------------------------------------------
// Taking answers
// ---------------------------------------------------------------------------

/// The signal of the command that is pending.
pub open spec fn pending_signal(pending: PendingModel, version: (u8, u8)) -> u8 {
    match pending {
        PendingModel::Discover => signal_identifier::DISCOVER,
        PendingModel::GetCapabilities { .. } => if knows_all_capabilities(version) {
            signal_identifier::GET_ALL_CAPABILITIES
        } else {
            signal_identifier::GET_CAPABILITIES
        },
        PendingModel::SetConfiguration { .. } => signal_identifier::SET_CONFIGURATION,
        PendingModel::GetConfiguration { .. } => signal_identifier::GET_CONFIGURATION,
        PendingModel::Reconfigure { .. } => signal_identifier::RECONFIGURE,
        PendingModel::Open { .. } => signal_identifier::OPEN,
        PendingModel::Start { .. } => signal_identifier::START,
        PendingModel::Suspend { .. } => signal_identifier::SUSPEND,
        PendingModel::Close { .. } => signal_identifier::CLOSE,
        PendingModel::Abort { .. } => signal_identifier::ABORT,
    }
}

/// The error code that a reject carries; zero where it carries none.
pub open spec fn rejection(m: AssembledModel) -> u8 {
    match message::message_of(m.signal_identifier, m.message_type, m.payload) {
        Some(MessageModel::Reject { error_code, .. }) => error_code,
        Some(MessageModel::SetConfigurationReject { error_code, .. }) => error_code,
        Some(MessageModel::ReconfigureReject { error_code, .. }) => error_code,
        Some(MessageModel::StartReject { error_code, .. }) => error_code,
        Some(MessageModel::SuspendReject { error_code, .. }) => error_code,
        _ => 0,
    }
}

/// The remote endpoints that a discover response lists; where a SEID occurs
/// twice, the later entry counts.
pub open spec fn discovered(endpoints: Seq<SepInfo>) -> Map<u8, RemoteModel>
    decreases endpoints.len(),
{
    if endpoints.len() == 0 {
        Map::empty()
    } else {
        let info = endpoints.last();
        discovered(endpoints.drop_last()).insert(
            info.seid,
            RemoteModel {
                seid: info.seid,
                media_type: info.media_type,
                tsep: info.tsep,
                in_use: info.in_use,
                capabilities: seq![],
            },
        )
    }
}

/// The remote endpoints with the capabilities of one filled in.
pub open spec fn with_capabilities(
    remote: Map<u8, RemoteModel>,
    seid: u8,
    capabilities: Seq<CapabilityModel>,
) -> Map<u8, RemoteModel> {
    if remote.contains_key(seid) {
        remote.insert(seid, RemoteModel { capabilities, ..remote[seid] })
    } else {
        remote
    }
}

/// What an accepting answer to a pending command makes of a connection, and
/// what is reported.
pub open spec fn accepted(p: ProtocolModel, pending: PendingModel, m: MessageModel) -> (
    ProtocolModel,
    Seq<EventModel>,
) {
    match (pending, m) {
        (PendingModel::Discover, MessageModel::DiscoverResponse(endpoints)) => (
            ProtocolModel { remote: discovered(endpoints), ..p },
            seq![EventModel::EndpointsDiscovered(endpoints)],
        ),
        (
            PendingModel::GetCapabilities { seid },
            MessageModel::GetCapabilitiesResponse(capabilities),
        ) => (
            ProtocolModel { remote: with_capabilities(p.remote, seid, capabilities), ..p },
            seq![EventModel::CapabilitiesReceived { seid, capabilities }],
        ),
        (
            PendingModel::GetCapabilities { seid },
            MessageModel::GetAllCapabilitiesResponse(capabilities),
        ) => (
            ProtocolModel { remote: with_capabilities(p.remote, seid, capabilities), ..p },
            seq![EventModel::CapabilitiesReceived { seid, capabilities }],
        ),
        (
            PendingModel::SetConfiguration { acp_seid, int_seid, capabilities },
            MessageModel::SetConfigurationResponse,
        ) => (
            ProtocolModel { local: configured(p.local, int_seid, acp_seid, capabilities), ..p },
            seq![EventModel::StreamConfigured { seid: int_seid }],
        ),
        (
            PendingModel::GetConfiguration { seid },
            MessageModel::GetConfigurationResponse(capabilities),
        ) => (p, seq![EventModel::ConfigurationReceived { seid, capabilities }]),
        (
            PendingModel::Reconfigure { int_seid, capabilities },
            MessageModel::ReconfigureResponse,
        ) => (
            ProtocolModel {
                local: with_reconfiguration(p.local, int_seid, capabilities),
                ..p
            },
            seq![EventModel::StreamReconfigured { seid: int_seid }],
        ),
        (PendingModel::Open { int_seid }, MessageModel::OpenResponse) => (
            ProtocolModel { local: with_state(p.local, int_seid, StreamState::Open), ..p },
            seq![EventModel::StreamOpened { seid: int_seid }],
        ),
        (PendingModel::Start { int_seids }, MessageModel::StartResponse) => (
            ProtocolModel { local: with_states(p.local, int_seids, StreamState::Streaming), ..p },
            starts(int_seids),
        ),
        (PendingModel::Suspend { int_seids }, MessageModel::SuspendResponse) => (
            ProtocolModel { local: with_states(p.local, int_seids, StreamState::Open), ..p },
            suspensions(int_seids),
        ),
        (PendingModel::Close { int_seid }, MessageModel::CloseResponse) => (
            ProtocolModel { local: released(p.local, int_seid), ..p },
            seq![EventModel::StreamClosed { seid: int_seid }],
        ),
        (PendingModel::Abort { int_seid }, MessageModel::AbortResponse) => (
            ProtocolModel { local: released(p.local, int_seid), ..p },
            seq![EventModel::StreamAborted { seid: int_seid }],
        ),
        _ => (p, seq![]),
    }
}

/// What an answer from the peer makes of a connection, and what is reported.
/// It frees its transaction label; one that nothing is pending for, or that
/// answers another signal, is dropped.
pub open spec fn on_response(p: ProtocolModel, m: AssembledModel) -> (
    ProtocolModel,
    Seq<EventModel>,
) {
    if !p.pending.contains_key(m.transaction_label) {
        (p, seq![])
    } else {
        let pending = p.pending[m.transaction_label];
        let signal = pending_signal(pending, p.version);
        let freed = ProtocolModel { pending: p.pending.remove(m.transaction_label), ..p };
        if m.signal_identifier != signal && m.message_type != MessageType::GeneralReject {
            (freed, seq![])
        } else if m.message_type != MessageType::ResponseAccept {
            (
                freed,
                seq![
                    EventModel::CommandRejected {
                        signal_identifier: signal,
                        error_code: rejection(m),
                    },
                ],
            )
        } else {
            match message::message_of(m.signal_identifier, MessageType::ResponseAccept, m.payload) {
                Some(message) => accepted(freed, pending, message),
                None => (freed, seq![]),
            }
        }
    }
}

/// What a packet from the peer makes a connection do.
pub open spec fn on_packet(p: ProtocolModel, pdu: Seq<u8>) -> Step {
    let (a, completed) = assembler::assemble(p.assembler, pdu);
    let fed = ProtocolModel { assembler: a, ..p };
    match completed {
        None => idle(fed),
        Some(m) => if m.message_type == MessageType::Command {
            on_command(fed, m)
        } else {
            let (after, events) = on_response(fed, m);
            Step { state: after, outgoing: seq![], events }
        },
    }
}

} // verus!
