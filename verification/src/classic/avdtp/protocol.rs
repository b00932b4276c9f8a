//! The signaling state machine of one connection.

use std::collections::HashMap;
use vstd::prelude::*;
use crate::bytes;
use crate::classic::avdtp::assembler;
use crate::classic::avdtp::assembler::{write_message, AssembledMessage, MessageAssembler};
use crate::classic::avdtp::capability;
use crate::classic::avdtp::capability::{
    CapabilityModel,
    CodecModel,
    MediaCodecCapabilities,
    MediaType,
    SepInfo,
    ServiceCapability,
    StreamEndPointType,
};
use crate::classic::avdtp::error_code;
use crate::classic::avdtp::message::{Message, MessageModel, MessageType};
use crate::classic::avdtp::service_category;
use crate::classic::avdtp::signal_identifier;
use crate::classic::avdtp::state;
use crate::classic::avdtp::state::{
    EventModel,
    Handled,
    LocalModel,
    PendingModel,
    ProtocolModel,
    RemoteModel,
    Step,
    StreamState,
};
use crate::classic::avdtp::DEFAULT_VERSION;
use crate::models;
use crate::text;
use crate::types::{SimbleError, SimbleErrorModel};

verus! {

broadcast use vstd::std_specs::hash::group_hash_axioms;

// ---------------------------------------------------------------------------
// Endpoints
// ---------------------------------------------------------------------------

/// A local stream endpoint, with the state of the stream that it is part of.
#[derive(Debug, Clone, PartialEq, Eq)]
pub struct LocalStreamEndPoint {
    pub seid: u8,
    pub media_type: MediaType,
    pub tsep: StreamEndPointType,
    pub capabilities: Vec<ServiceCapability>,
    pub configuration: Vec<ServiceCapability>,
    pub state: StreamState,
    /// The SEID of the peer that this endpoint streams with, once configured.
    pub remote_seid: Option<u8>,
}

impl View for LocalStreamEndPoint {
    type V = LocalModel;

    open spec fn view(&self) -> LocalModel {
        LocalModel {
            seid: self.seid,
            media_type: self.media_type,
            tsep: self.tsep,
            capabilities: models::seq_views(self.capabilities@),
            configuration: models::seq_views(self.configuration@),
            state: self.state,
            remote_seid: self.remote_seid,
        }
    }
}

impl LocalStreamEndPoint {
    /// Whether this endpoint is part of a stream.
    pub fn in_use(&self) -> (r: bool)
        ensures
            r == (self@.state != StreamState::Idle),
    {
        self.state != StreamState::Idle
    }

    fn sep_info(&self) -> (r: SepInfo)
        ensures
            r == (SepInfo {
                seid: self@.seid,
                in_use: self@.state != StreamState::Idle,
                media_type: self@.media_type,
                tsep: self@.tsep,
            }),
    {
        SepInfo {
            seid: self.seid,
            in_use: self.in_use(),
            media_type: self.media_type,
            tsep: self.tsep,
        }
    }
}

/// A remote stream endpoint that was discovered.
#[derive(Debug, Clone, PartialEq, Eq)]
pub struct DiscoveredStreamEndPoint {
    pub seid: u8,
    pub media_type: MediaType,
    pub tsep: StreamEndPointType,
    pub in_use: bool,
    pub capabilities: Vec<ServiceCapability>,
}

impl View for DiscoveredStreamEndPoint {
    type V = RemoteModel;

    open spec fn view(&self) -> RemoteModel {
        RemoteModel {
            seid: self.seid,
            media_type: self.media_type,
            tsep: self.tsep,
            in_use: self.in_use,
            capabilities: models::seq_views(self.capabilities@),
        }
    }
}

/// Result of feeding one incoming packet into [`Protocol::receive`].
#[derive(Debug, Clone, PartialEq, Eq)]
pub enum AvdtpEvent {
    /// The remote endpoints are known now.
    EndpointsDiscovered(Vec<SepInfo>),
    /// The capabilities of remote endpoint `seid` are known now.
    CapabilitiesReceived { seid: u8, capabilities: Vec<ServiceCapability> },
    /// The configuration of remote endpoint `seid`.
    ConfigurationReceived { seid: u8, capabilities: Vec<ServiceCapability> },
    /// Local endpoint `seid` is configured.
    StreamConfigured { seid: u8 },
    /// The configuration of local endpoint `seid` changed.
    StreamReconfigured { seid: u8 },
    /// Local endpoint `seid` is open.
    StreamOpened { seid: u8 },
    /// Local endpoint `seid` is streaming.
    StreamStarted { seid: u8 },
    /// Local endpoint `seid` was suspended.
    StreamSuspended { seid: u8 },
    /// Local endpoint `seid` was closed.
    StreamClosed { seid: u8 },
    /// Local endpoint `seid` was aborted.
    StreamAborted { seid: u8 },
    /// The peer reported its rendering delay for local endpoint `seid`.
    DelayReport { seid: u8, delay: u16 },
    /// The peer sent content protection data for local endpoint `seid`.
    SecurityControl { seid: u8, data: Vec<u8> },
    /// A command was rejected. The error code is 0 for a general reject, which
    /// carries none.
    CommandRejected { signal_identifier: u8, error_code: u8 },
}

impl View for AvdtpEvent {
    type V = EventModel;

    open spec fn view(&self) -> EventModel {
        match *self {
            AvdtpEvent::EndpointsDiscovered(list) => EventModel::EndpointsDiscovered(list@),
            AvdtpEvent::CapabilitiesReceived { seid, capabilities } =>
                EventModel::CapabilitiesReceived {
                seid,
                capabilities: models::seq_views(capabilities@),
            },
            AvdtpEvent::ConfigurationReceived { seid, capabilities } =>
                EventModel::ConfigurationReceived {
                seid,
                capabilities: models::seq_views(capabilities@),
            },
            AvdtpEvent::StreamConfigured { seid } => EventModel::StreamConfigured { seid },
            AvdtpEvent::StreamReconfigured { seid } => EventModel::StreamReconfigured { seid },
            AvdtpEvent::StreamOpened { seid } => EventModel::StreamOpened { seid },
            AvdtpEvent::StreamStarted { seid } => EventModel::StreamStarted { seid },
            AvdtpEvent::StreamSuspended { seid } => EventModel::StreamSuspended { seid },
            AvdtpEvent::StreamClosed { seid } => EventModel::StreamClosed { seid },
            AvdtpEvent::StreamAborted { seid } => EventModel::StreamAborted { seid },
            AvdtpEvent::DelayReport { seid, delay } => EventModel::DelayReport { seid, delay },
            AvdtpEvent::SecurityControl { seid, data } => EventModel::SecurityControl {
                seid,
                data: data@,
            },
            AvdtpEvent::CommandRejected { signal_identifier, error_code } =>
                EventModel::CommandRejected { signal_identifier, error_code },
        }
    }
}

/// What a command that was sent is to bring about.
#[derive(Debug)]
pub enum Pending {
    Discover,
    GetCapabilities { seid: u8 },
    SetConfiguration { acp_seid: u8, int_seid: u8, capabilities: Vec<ServiceCapability> },
    GetConfiguration { seid: u8 },
    Reconfigure { int_seid: u8, capabilities: Vec<ServiceCapability> },
    Open { int_seid: u8 },
    Start { int_seids: Vec<u8> },
    Suspend { int_seids: Vec<u8> },
    Close { int_seid: u8 },
    Abort { int_seid: u8 },
}

impl View for Pending {
    type V = PendingModel;

    open spec fn view(&self) -> PendingModel {
        match *self {
            Pending::Discover => PendingModel::Discover,
            Pending::GetCapabilities { seid } => PendingModel::GetCapabilities { seid },
            Pending::SetConfiguration { acp_seid, int_seid, capabilities } =>
                PendingModel::SetConfiguration {
                acp_seid,
                int_seid,
                capabilities: models::seq_views(capabilities@),
            },
            Pending::GetConfiguration { seid } => PendingModel::GetConfiguration { seid },
            Pending::Reconfigure { int_seid, capabilities } => PendingModel::Reconfigure {
                int_seid,
                capabilities: models::seq_views(capabilities@),
            },
            Pending::Open { int_seid } => PendingModel::Open { int_seid },
            Pending::Start { int_seids } => PendingModel::Start { int_seids: int_seids@ },
            Pending::Suspend { int_seids } => PendingModel::Suspend { int_seids: int_seids@ },
            Pending::Close { int_seid } => PendingModel::Close { int_seid },
            Pending::Abort { int_seid } => PendingModel::Abort { int_seid },
        }
    }
}

fn is_after_1_2(version: (u8, u8)) -> (r: bool)
    ensures
        r == state::knows_all_capabilities(version),
{
    version.0 > 1 || (version.0 == 1 && version.1 > 2)
}

impl Pending {
    fn signal_identifier(&self, version: (u8, u8)) -> (r: u8)
        ensures
            r == state::pending_signal(self@, version),
    {
        match self {
            Pending::Discover => signal_identifier::DISCOVER,
            Pending::GetCapabilities { .. } => {
                if is_after_1_2(version) {
                    signal_identifier::GET_ALL_CAPABILITIES
                } else {
                    signal_identifier::GET_CAPABILITIES
                }
            },
            Pending::SetConfiguration { .. } => signal_identifier::SET_CONFIGURATION,
            Pending::GetConfiguration { .. } => signal_identifier::GET_CONFIGURATION,
            Pending::Reconfigure { .. } => signal_identifier::RECONFIGURE,
            Pending::Open { .. } => signal_identifier::OPEN,
            Pending::Start { .. } => signal_identifier::START,
            Pending::Suspend { .. } => signal_identifier::SUSPEND,
            Pending::Close { .. } => signal_identifier::CLOSE,
            Pending::Abort { .. } => signal_identifier::ABORT,
        }
    }
}

// ---------------------------------------------------------------------------
// Protocol
// ---------------------------------------------------------------------------

/// The signaling state machine of one connection: local endpoints, discovered
/// remote endpoints, and commands that wait for an answer.
#[derive(Debug)]
pub struct Protocol {
    pub version: (u8, u8),
    pub local_endpoints: Vec<LocalStreamEndPoint>,
    pub remote_endpoints: HashMap<u8, DiscoveredStreamEndPoint>,
    pub peer_mtu: u16,
    pub assembler: MessageAssembler,
    pub pending: HashMap<u8, Pending>,
    pub next_transaction: u8,
}

impl View for Protocol {
    type V = ProtocolModel;

    open spec fn view(&self) -> ProtocolModel {
        ProtocolModel {
            version: self.version,
            local: models::seq_views(self.local_endpoints@),
            remote: models::map_views(self.remote_endpoints@),
            peer_mtu: self.peer_mtu,
            assembler: self.assembler@,
            pending: models::map_views(self.pending@),
            next_transaction: self.next_transaction,
        }
    }
}

/// A connection without endpoints and pending commands.
pub open spec fn new_protocol(version: (u8, u8), peer_mtu: u16) -> ProtocolModel {
    ProtocolModel {
        version,
        local: seq![],
        remote: Map::empty(),
        peer_mtu,
        assembler: assembler::idle_assembler(),
        pending: Map::empty(),
        next_transaction: 0,
    }
}

/// The model of the packets to send, or of the error.
pub open spec fn packets_outcome(r: Result<Vec<Vec<u8>>, SimbleError>) -> Result<
    Seq<Seq<u8>>,
    SimbleErrorModel,
> {
    match r {
        Ok(packets) => Ok(models::seq_views(packets@)),
        Err(why) => Err(why@),
    }
}

/// The model of a SEID, or of the error.
pub open spec fn seid_outcome(r: Result<u8, SimbleError>) -> Result<u8, SimbleErrorModel> {
    match r {
        Ok(seid) => Ok(seid),
        Err(why) => Err(why@),
    }
}

/// The model of SEIDs, or of the error.
pub open spec fn seids_outcome(r: Result<Vec<u8>, SimbleError>) -> Result<
    Seq<u8>,
    SimbleErrorModel,
> {
    match r {
        Ok(seids) => Ok(seids@),
        Err(why) => Err(why@),
    }
}

/// The model of a step.
pub open spec fn step_view(after: ProtocolModel, r: (Vec<Vec<u8>>, Vec<AvdtpEvent>)) -> Step {
    Step {
        state: after,
        outgoing: models::seq_views(r.0@),
        events: models::seq_views(r.1@),
    }
}

fn no_packets() -> (r: Vec<Vec<u8>>)
    ensures
        models::seq_views(r@) == Seq::<Seq<u8>>::empty(),
{
    let r: Vec<Vec<u8>> = Vec::new();
    assert(models::seq_views(r@) =~= Seq::<Seq<u8>>::empty());
    r
}

fn no_events() -> (r: Vec<AvdtpEvent>)
    ensures
        models::seq_views(r@) == Seq::<EventModel>::empty(),
{
    let r: Vec<AvdtpEvent> = Vec::new();
    assert(models::seq_views(r@) =~= Seq::<EventModel>::empty());
    r
}

fn one_event(event: AvdtpEvent) -> (r: Vec<AvdtpEvent>)
    ensures
        models::seq_views(r@) == seq![event@],
{
    let mut r: Vec<AvdtpEvent> = Vec::new();
    r.push(event);
    assert(models::seq_views(r@) =~= seq![event@]);
    r
}

fn state_name(state: StreamState) -> (r: &'static str)
    ensures
        r@ == state.name(),
{
    match state {
        StreamState::Idle => "Idle",
        StreamState::Configured => "Configured",
        StreamState::Open => "Open",
        StreamState::Streaming => "Streaming",
        StreamState::Closing => "Closing",
        StreamState::Aborting => "Aborting",
    }
}

fn unknown_seid(seid: u8) -> (r: SimbleError)
    ensures
        r@ == state::unknown_seid(seid),
{
    let mut message = text::owned("AVDTP: unknown local SEID ");
    text::append_decimal(&mut message, seid as u64);
    SimbleError::DeviceError(message)
}

fn no_stream(remote_seid: u8) -> (r: SimbleError)
    ensures
        r@ == state::no_stream(remote_seid),
{
    let mut message = text::owned("AVDTP: no stream configured with remote SEID ");
    text::append_decimal(&mut message, remote_seid as u64);
    SimbleError::DeviceError(message)
}

fn bad_local_state(seid: u8, state: StreamState) -> (r: SimbleError)
    ensures
        r@ == state::bad_local_state(seid, state),
{
    let mut message = text::owned("AVDTP: local SEID ");
    text::append_decimal(&mut message, seid as u64);
    message.append(" is in state ");
    message.append(state_name(state));
    message.append(", invalid for this operation");
    SimbleError::DeviceError(message)
}

fn contains_state(states: &[StreamState], state: StreamState) -> (r: bool)
    ensures
        r == states@.contains(state),
{
    let mut i: usize = 0;
    while i < states.len()
        invariant
            i <= states@.len(),
            forall|j: int| 0 <= j < i ==> states@[j] != state,
        decreases states@.len() - i,
    {
        if states[i] == state {
            return true;
        }
        i = i + 1;
    }
    false
}

/// Replaces the capability of the same category, or adds it.
fn apply_capability(configuration: &mut Vec<ServiceCapability>, capability: ServiceCapability)
    ensures
        models::seq_views(final(configuration)@) == state::replaced(
            models::seq_views(old(configuration)@),
            capability@,
            0,
        ),
{
    let ghost before = models::seq_views(configuration@);
    let mut i: usize = 0;
    while i < configuration.len()
        invariant
            i <= configuration@.len(),
            models::seq_views(configuration@) == before,
            state::replaced(before, capability@, i as int) == state::replaced(
                before,
                capability@,
                0,
            ),
        decreases configuration@.len() - i,
    {
        assert(before[i as int] == configuration@[i as int]@);
        if configuration[i].service_category == capability.service_category {
            let ghost entry = capability@;
            configuration.set(i, capability);
            assert(models::seq_views(configuration@) =~= before.update(i as int, entry));
            return;
        }
        i = i + 1;
    }
    proof {
        models::lemma_seq_views_push(configuration@, capability);
    }
    configuration.push(capability);
}

/// Replaces the given categories in a configuration; others stay as they are.
fn apply_reconfiguration(
    configuration: &mut Vec<ServiceCapability>,
    capabilities: &[ServiceCapability],
)
    ensures
        models::seq_views(final(configuration)@) == state::reconfigured(
            models::seq_views(old(configuration)@),
            models::seq_views(capabilities@),
        ),
{
    let ghost before = models::seq_views(configuration@);
    let ghost all = models::seq_views(capabilities@);
    let mut i: usize = 0;
    while i < capabilities.len()
        invariant
            i <= capabilities@.len(),
            models::seq_views(configuration@) == state::reconfigured(before, all.take(i as int)),
        decreases capabilities@.len() - i,
    {
        assert(all.take(i + 1).drop_last() =~= all.take(i as int));
        assert(all.take(i + 1).last() == capabilities@[i as int]@);
        apply_capability(configuration, capabilities[i].clone());
        i = i + 1;
    }
    assert(all.take(i as int) =~= all);
}

fn has_media_transport(capabilities: &[ServiceCapability]) -> (r: bool)
    ensures
        r == state::transports(models::seq_views(capabilities@)),
{
    let ghost all = models::seq_views(capabilities@);
    let mut i: usize = 0;
    while i < capabilities.len()
        invariant
            i <= capabilities@.len(),
            forall|j: int|
                0 <= j < i ==> (#[trigger] all[j]).service_category
                    != service_category::MEDIA_TRANSPORT,
        decreases capabilities@.len() - i,
    {
        assert(all[i as int] == capabilities@[i as int]@);
        if capabilities[i].service_category == service_category::MEDIA_TRANSPORT {
            return true;
        }
        i = i + 1;
    }
    false
}

fn is_codec(codec: &MediaCodecCapabilities, codec_type: u8, vendor_id: u32, codec_id: u16) -> (r:
    bool)
    ensures
        r == state::is_codec(codec@, codec_type, vendor_id, codec_id),
{
    if codec.media_type != MediaType::Audio || codec.media_codec_type != codec_type {
        return false;
    }
    if codec_type != 0xFF {
        return true;
    }
    let info = &codec.media_codec_information;
    info.len() >= 6 && bytes::read_le32(info, 0) == vendor_id && bytes::read_le16(info, 4)
        == codec_id
}

fn has_codec(capabilities: &[ServiceCapability], codec_type: u8, vendor_id: u32, codec_id: u16) -> (
r: bool)
    ensures
        r == state::offers_codec(
            models::seq_views(capabilities@),
            codec_type,
            vendor_id,
            codec_id,
        ),
{
    let ghost all = models::seq_views(capabilities@);
    let mut i: usize = 0;
    while i < capabilities.len()
        invariant
            i <= capabilities@.len(),
            forall|j: int|
                0 <= j < i ==> match #[trigger] capability::codec_of(all[j]) {
                    Some(codec) => !state::is_codec(codec, codec_type, vendor_id, codec_id),
                    None => true,
                },
        decreases capabilities@.len() - i,
    {
        assert(all[i as int] == capabilities@[i as int]@);
        if let Some(codec) = MediaCodecCapabilities::from_capability(&capabilities[i]) {
            assert(capability::codec_of(all[i as int]) == Some(codec@));
            if is_codec(&codec, codec_type, vendor_id, codec_id) {
                return true;
            }
        }
        i = i + 1;
    }
    false
}

impl Protocol {
    /// A connection with the default version.
    pub fn new(peer_mtu: u16) -> (r: Self)
        ensures
            r@ == new_protocol(DEFAULT_VERSION, peer_mtu),
            state::well_formed(r@),
    {
        Self::with_version(DEFAULT_VERSION, peer_mtu)
    }

    /// A connection without endpoints and pending commands.
    pub fn with_version(version: (u8, u8), peer_mtu: u16) -> (r: Self)
        ensures
            r@ == new_protocol(version, peer_mtu),
            state::well_formed(r@),
    {
        let r = Protocol {
            version,
            local_endpoints: Vec::new(),
            remote_endpoints: HashMap::new(),
            peer_mtu,
            assembler: MessageAssembler::new(),
            pending: HashMap::new(),
            next_transaction: 0,
        };
        assert(r@ =~= new_protocol(version, peer_mtu));
        r
    }

    /// Adds a local source and returns its SEID. SEIDs are contiguous from 1;
    /// there are at most 255 endpoints.
    pub fn add_source(&mut self, codec: MediaCodecCapabilities, delay_reporting: bool) -> (r: u8)
        requires
            old(self)@.local.len() < 255,
        ensures
            r == old(self)@.local.len() + 1,
            final(self)@ == (ProtocolModel {
                local: old(self)@.local.push(
                    state::new_endpoint(
                        r,
                        codec@.media_type,
                        StreamEndPointType::Source,
                        source_capabilities(codec@, delay_reporting),
                    ),
                ),
                ..old(self)@
            }),
    {
        let mut capabilities: Vec<ServiceCapability> = Vec::new();
        capabilities.push(ServiceCapability::media_transport());
        capabilities.push(codec.to_capability());
        if delay_reporting {
            capabilities.push(ServiceCapability::delay_reporting());
        }
        assert(models::seq_views(capabilities@) =~= source_capabilities(codec@, delay_reporting));
        self.add_endpoint(codec.media_type, StreamEndPointType::Source, capabilities)
    }

    /// Adds a local sink and returns its SEID. SEIDs are contiguous from 1;
    /// there are at most 255 endpoints.
    pub fn add_sink(&mut self, codec: MediaCodecCapabilities) -> (r: u8)
        requires
            old(self)@.local.len() < 255,
        ensures
            r == old(self)@.local.len() + 1,
            final(self)@ == (ProtocolModel {
                local: old(self)@.local.push(
                    state::new_endpoint(
                        r,
                        codec@.media_type,
                        StreamEndPointType::Sink,
                        sink_capabilities(codec@),
                    ),
                ),
                ..old(self)@
            }),
    {
        let mut capabilities: Vec<ServiceCapability> = Vec::new();
        capabilities.push(ServiceCapability::media_transport());
        capabilities.push(codec.to_capability());
        assert(models::seq_views(capabilities@) =~= sink_capabilities(codec@));
        self.add_endpoint(codec.media_type, StreamEndPointType::Sink, capabilities)
    }

    fn add_endpoint(
        &mut self,
        media_type: MediaType,
        tsep: StreamEndPointType,
        capabilities: Vec<ServiceCapability>,
    ) -> (r: u8)
        requires
            old(self)@.local.len() < 255,
        ensures
            r == old(self)@.local.len() + 1,
            final(self)@ == (ProtocolModel {
                local: old(self)@.local.push(
                    state::new_endpoint(
                        r,
                        media_type,
                        tsep,
                        models::seq_views(capabilities@),
                    ),
                ),
                ..old(self)@
            }),
    {
        let seid: u8 = self.local_endpoints.len() as u8 + 1;
        let endpoint = LocalStreamEndPoint {
            seid,
            media_type,
            tsep,
            configuration: capability::copy_capabilities(&capabilities),
            capabilities,
            state: StreamState::Idle,
            remote_seid: None,
        };
        proof {
            models::lemma_seq_views_push(self.local_endpoints@, endpoint);
        }
        self.local_endpoints.push(endpoint);
        seid
    }

    /// The local endpoint with a SEID.
    pub fn get_local_endpoint_by_seid(&self, seid: u8) -> (r: Option<&LocalStreamEndPoint>)
        ensures
            models::opt_view(r) == if state::known(self@.local, seid) {
                Some(state::at(self@.local, seid))
            } else {
                None
            },
    {
        if seid > 0 && seid as usize <= self.local_endpoints.len() {
            Some(&self.local_endpoints[seid as usize - 1])
        } else {
            None
        }
    }

    /// Puts the endpoint that a SEID names in another state.
    fn set_state(&mut self, seid: u8, state: StreamState)
        ensures
            final(self)@ == (ProtocolModel {
                local: state::with_state(old(self)@.local, seid, state),
                ..old(self)@
            }),
    {
        let ghost before = self@.local;
        if seid > 0 && seid as usize <= self.local_endpoints.len() {
            let i: usize = seid as usize - 1;
            self.local_endpoints[i].state = state;
        }
        assert(self@.local =~= state::with_state(before, seid, state));
    }

    /// Makes the endpoint that a SEID names idle.
    fn release(&mut self, seid: u8)
        ensures
            final(self)@ == (ProtocolModel {
                local: state::released(old(self)@.local, seid),
                ..old(self)@
            }),
    {
        let ghost before = self@.local;
        if seid > 0 && seid as usize <= self.local_endpoints.len() {
            let i: usize = seid as usize - 1;
            self.local_endpoints[i].state = StreamState::Idle;
            self.local_endpoints[i].remote_seid = None;
        }
        assert(self@.local =~= state::released(before, seid));
    }

    /// Configures the endpoint that a SEID names.
    fn configure(&mut self, seid: u8, remote_seid: u8, capabilities: Vec<ServiceCapability>)
        ensures
            final(self)@ == (ProtocolModel {
                local: state::configured(
                    old(self)@.local,
                    seid,
                    remote_seid,
                    models::seq_views(capabilities@),
                ),
                ..old(self)@
            }),
    {
        let ghost before = self@.local;
        let ghost configuration = models::seq_views(capabilities@);
        if seid > 0 && seid as usize <= self.local_endpoints.len() {
            let i: usize = seid as usize - 1;
            self.local_endpoints[i].configuration = capabilities;
            self.local_endpoints[i].remote_seid = Some(remote_seid);
            self.local_endpoints[i].state = StreamState::Configured;
        }
        assert(self@.local =~= state::configured(before, seid, remote_seid, configuration));
    }

    /// Changes the configuration of the endpoint that a SEID names.
    fn change_configuration(&mut self, seid: u8, capabilities: &[ServiceCapability])
        ensures
            final(self)@ == (ProtocolModel {
                local: state::with_reconfiguration(
                    old(self)@.local,
                    seid,
                    models::seq_views(capabilities@),
                ),
                ..old(self)@
            }),
    {
        let ghost before = self@.local;
        if seid > 0 && seid as usize <= self.local_endpoints.len() {
            let i: usize = seid as usize - 1;
            let mut configuration = capability::copy_capabilities(
                &self.local_endpoints[i].configuration,
            );
            apply_reconfiguration(&mut configuration, capabilities);
            self.local_endpoints[i].configuration = configuration;
        }
        assert(self@.local =~= state::with_reconfiguration(
            before,
            seid,
            models::seq_views(capabilities@),
        ));
    }

    /// Puts the endpoints that SEIDs name in another state.
    fn set_states(&mut self, seids: &[u8], state: StreamState)
        ensures
            final(self)@ == (ProtocolModel {
                local: state::with_states(old(self)@.local, seids@, state),
                ..old(self)@
            }),
    {
        let ghost before = self@;
        let mut i: usize = 0;
        while i < seids.len()
            invariant
                i <= seids@.len(),
                self@ == (ProtocolModel {
                    local: state::with_states(before.local, seids@.take(i as int), state),
                    ..before
                }),
            decreases seids@.len() - i,
        {
            assert(seids@.take(i + 1).drop_last() =~= seids@.take(i as int));
            self.set_state(seids[i], state);
            i = i + 1;
        }
        assert(seids@.take(i as int) =~= seids@);
    }

    fn local_endpoint_by_remote_seid(&self, remote_seid: u8) -> (r: Option<&LocalStreamEndPoint>)
        ensures
            models::opt_view(r) == state::stream_with(self@.local, remote_seid, 0),
    {
        let ghost local = self@.local;
        let mut i: usize = 0;
        while i < self.local_endpoints.len()
            invariant
                i <= self.local_endpoints@.len(),
                state::stream_with(local, remote_seid, i as int) == state::stream_with(
                    local,
                    remote_seid,
                    0,
                ),
            decreases self.local_endpoints@.len() - i,
        {
            assert(local[i as int] == self.local_endpoints@[i as int]@);
            if let Some(seid) = self.local_endpoints[i].remote_seid {
                if seid == remote_seid {
                    return Some(&self.local_endpoints[i]);
                }
            }
            i = i + 1;
        }
        None
    }

    /// Finds a free remote sink with a codec, under the lowest SEID. For a
    /// vendor-specific codec, `vendor_id` and `codec_id` are compared with the
    /// start of the codec information; otherwise they are ignored.
    pub fn find_remote_sink_by_codec(
        &self,
        media_type: MediaType,
        codec_type: u8,
        vendor_id: u32,
        codec_id: u16,
    ) -> (r: Option<&DiscoveredStreamEndPoint>)
        ensures
            models::opt_view(r) == state::free_sink(
                self@.remote,
                media_type,
                codec_type,
                vendor_id,
                codec_id,
                0,
            ),
    {
        let ghost remote = self@.remote;
        let mut at: u16 = 0;
        while at < 256
            invariant
                at <= 256,
                state::free_sink(remote, media_type, codec_type, vendor_id, codec_id, at as int)
                    == state::free_sink(remote, media_type, codec_type, vendor_id, codec_id, 0),
            decreases 256 - at,
        {
            let seid: u8 = at as u8;
            if let Some(endpoint) = self.remote_endpoints.get(&seid) {
                assert(remote[seid] == endpoint@);
                if !endpoint.in_use && endpoint.media_type == media_type && endpoint.tsep
                    == StreamEndPointType::Sink && has_media_transport(&endpoint.capabilities)
                    && has_codec(&endpoint.capabilities, codec_type, vendor_id, codec_id) {
                    return Some(endpoint);
                }
            }
            at = at + 1;
        }
        None
    }

    // -- Sending commands -------------------------------------------------------

    fn send_command(&mut self, pending: Pending, message: Message) -> (r: Result<
        Vec<Vec<u8>>,
        SimbleError,
    >)
        requires
            state::well_formed(old(self)@),
        ensures
            (final(self)@, packets_outcome(r)) == state::sent(old(self)@, pending@, message@),
            state::well_formed(final(self)@),
    {
        let ghost p = self@;
        let mut offset: u8 = 0;
        while offset < 16
            invariant
                offset <= 16,
                self@ == p,
                state::well_formed(p),
                state::free_label(p, offset as int) == state::free_label(p, 0),
            decreases 16 - offset,
        {
            let label: u8 = (self.next_transaction + offset) % 16;
            if !self.pending.contains_key(&label) {
                let packets = write_message(label, &message, self.peer_mtu);
                let ghost waiting = pending@;
                self.pending.insert(label, pending);
                assert(self@.pending =~= p.pending.insert(label, waiting));
                self.next_transaction = (label + 1) % 16;
                return Ok(packets);
            }
            offset = offset + 1;
        }
        Err(
            SimbleError::DeviceError(
                text::owned("AVDTP: all 16 transaction labels are in flight"),
            ),
        )
    }

    /// Asks for the endpoints of the peer.
    pub fn discover(&mut self) -> (r: Result<Vec<Vec<u8>>, SimbleError>)
        requires
            state::well_formed(old(self)@),
        ensures
            (final(self)@, packets_outcome(r)) == state::sent(
                old(self)@,
                PendingModel::Discover,
                MessageModel::DiscoverCommand,
            ),
            state::well_formed(final(self)@),
    {
        self.send_command(Pending::Discover, Message::DiscoverCommand)
    }

    /// Asks for the capabilities of a remote endpoint: for all of them from
    /// version 1.3 on.
    pub fn get_capabilities(&mut self, seid: u8) -> (r: Result<Vec<Vec<u8>>, SimbleError>)
        requires
            state::well_formed(old(self)@),
        ensures
            (final(self)@, packets_outcome(r)) == state::get_capabilities(old(self)@, seid),
            state::well_formed(final(self)@),
    {
        let message = if is_after_1_2(self.version) {
            Message::GetAllCapabilitiesCommand { acp_seid: seid }
        } else {
            Message::GetCapabilitiesCommand { acp_seid: seid }
        };
        self.send_command(Pending::GetCapabilities { seid }, message)
    }

    /// Configures remote endpoint `acp_seid` for streaming with local endpoint
    /// `int_seid`, which must be idle.
    pub fn set_configuration(
        &mut self,
        acp_seid: u8,
        int_seid: u8,
        capabilities: Vec<ServiceCapability>,
    ) -> (r: Result<Vec<Vec<u8>>, SimbleError>)
        requires
            state::well_formed(old(self)@),
        ensures
            (final(self)@, packets_outcome(r)) == state::set_configuration(
                old(self)@,
                acp_seid,
                int_seid,
                models::seq_views(capabilities@),
            ),
            state::well_formed(final(self)@),
    {
        let current = match self.get_local_endpoint_by_seid(int_seid) {
            Some(endpoint) => endpoint.state,
            None => {
                return Err(unknown_seid(int_seid));
            },
        };
        if current != StreamState::Idle {
            return Err(bad_local_state(int_seid, current));
        }
        let copy = capability::copy_capabilities(&capabilities);
        self.send_command(
            Pending::SetConfiguration { acp_seid, int_seid, capabilities: copy },
            Message::SetConfigurationCommand { acp_seid, int_seid, capabilities },
        )
    }

    /// Asks for the configuration of remote endpoint `seid`.
    pub fn get_configuration(&mut self, seid: u8) -> (r: Result<Vec<Vec<u8>>, SimbleError>)
        requires
            state::well_formed(old(self)@),
        ensures
            (final(self)@, packets_outcome(r)) == state::sent(
                old(self)@,
                PendingModel::GetConfiguration { seid },
                MessageModel::GetConfigurationCommand {
                    acp_seid: seid,
                },
            ),
            state::well_formed(final(self)@),
    {
        self.send_command(
            Pending::GetConfiguration { seid },
            Message::GetConfigurationCommand { acp_seid: seid },
        )
    }

    /// Changes the configuration of the stream with remote endpoint
    /// `acp_seid`; the local side must be open.
    pub fn reconfigure(&mut self, acp_seid: u8, capabilities: Vec<ServiceCapability>) -> (r: Result<
        Vec<Vec<u8>>,
        SimbleError,
    >)
        requires
            state::well_formed(old(self)@),
        ensures
            (final(self)@, packets_outcome(r)) == state::reconfigure(
                old(self)@,
                acp_seid,
                models::seq_views(capabilities@),
            ),
            state::well_formed(final(self)@),
    {
        let int_seid: u8 = match self.require_stream_in(acp_seid, StreamState::Open) {
            Ok(int_seid) => int_seid,
            Err(why) => {
                return Err(why);
            },
        };
        let copy = capability::copy_capabilities(&capabilities);
        self.send_command(
            Pending::Reconfigure { int_seid, capabilities: copy },
            Message::ReconfigureCommand { acp_seid, capabilities },
        )
    }

    /// Opens the stream with remote endpoint `acp_seid`; the local side must
    /// be configured.
    pub fn open(&mut self, acp_seid: u8) -> (r: Result<Vec<Vec<u8>>, SimbleError>)
        requires
            state::well_formed(old(self)@),
        ensures
            (final(self)@, packets_outcome(r)) == state::open_stream(old(self)@, acp_seid),
            state::well_formed(final(self)@),
    {
        match self.require_stream_in(acp_seid, StreamState::Configured) {
            Ok(int_seid) => self.send_command(
                Pending::Open { int_seid },
                Message::OpenCommand { acp_seid },
            ),
            Err(why) => Err(why),
        }
    }

    /// Starts the streams with remote endpoints; the local sides must be open.
    pub fn start(&mut self, acp_seids: &[u8]) -> (r: Result<Vec<Vec<u8>>, SimbleError>)
        requires
            state::well_formed(old(self)@),
        ensures
            (final(self)@, packets_outcome(r)) == state::start(old(self)@, acp_seids@),
            state::well_formed(final(self)@),
    {
        match self.require_streams_in(acp_seids, StreamState::Open) {
            Ok(int_seids) => self.send_command(
                Pending::Start { int_seids },
                Message::StartCommand { acp_seids: bytes::copy(acp_seids) },
            ),
            Err(why) => Err(why),
        }
    }

    /// Suspends the streams with remote endpoints; the local sides must be
    /// streaming.
    pub fn suspend(&mut self, acp_seids: &[u8]) -> (r: Result<Vec<Vec<u8>>, SimbleError>)
        requires
            state::well_formed(old(self)@),
        ensures
            (final(self)@, packets_outcome(r)) == state::suspend(old(self)@, acp_seids@),
            state::well_formed(final(self)@),
    {
        match self.require_streams_in(acp_seids, StreamState::Streaming) {
            Ok(int_seids) => self.send_command(
                Pending::Suspend { int_seids },
                Message::SuspendCommand { acp_seids: bytes::copy(acp_seids) },
            ),
            Err(why) => Err(why),
        }
    }

    /// Closes the stream with remote endpoint `acp_seid`; the local side must
    /// be open or streaming.
    pub fn close(&mut self, acp_seid: u8) -> (r: Result<Vec<Vec<u8>>, SimbleError>)
        requires
            state::well_formed(old(self)@),
        ensures
            (final(self)@, packets_outcome(r)) == state::close(old(self)@, acp_seid),
            state::well_formed(final(self)@),
    {
        let states: Vec<StreamState> = vec![StreamState::Open, StreamState::Streaming];
        assert(states@ =~= seq![StreamState::Open, StreamState::Streaming]);
        match self.require_stream(acp_seid, &states) {
            Ok(int_seid) => self.send_command(
                Pending::Close { int_seid },
                Message::CloseCommand { acp_seid },
            ),
            Err(why) => Err(why),
        }
    }

    /// Aborts the stream with remote endpoint `acp_seid`; the local side must
    /// not be idle.
    pub fn abort(&mut self, acp_seid: u8) -> (r: Result<Vec<Vec<u8>>, SimbleError>)
        requires
            state::well_formed(old(self)@),
        ensures
            (final(self)@, packets_outcome(r)) == state::abort(old(self)@, acp_seid),
            state::well_formed(final(self)@),
    {
        let states: Vec<StreamState> = vec![
            StreamState::Configured,
            StreamState::Open,
            StreamState::Streaming,
        ];
        assert(states@ =~= seq![
            StreamState::Configured,
            StreamState::Open,
            StreamState::Streaming,
        ]);
        match self.require_stream(acp_seid, &states) {
            Ok(int_seid) => self.send_command(
                Pending::Abort { int_seid },
                Message::AbortCommand { acp_seid },
            ),
            Err(why) => Err(why),
        }
    }

    /// Finds the local endpoint that streams with `remote_seid`, checks its
    /// state, and returns its SEID.
    fn require_stream(&self, remote_seid: u8, states: &[StreamState]) -> (r: Result<
        u8,
        SimbleError,
    >)
        ensures
            seid_outcome(r) == state::required_stream(self@, remote_seid, states@),
    {
        match self.local_endpoint_by_remote_seid(remote_seid) {
            None => Err(no_stream(remote_seid)),
            Some(endpoint) => {
                if contains_state(states, endpoint.state) {
                    Ok(endpoint.seid)
                } else {
                    Err(bad_local_state(endpoint.seid, endpoint.state))
                }
            },
        }
    }

    fn require_stream_in(&self, remote_seid: u8, state: StreamState) -> (r: Result<u8, SimbleError>)
        ensures
            seid_outcome(r) == state::required_stream(self@, remote_seid, seq![state]),
    {
        let states: Vec<StreamState> = vec![state];
        assert(states@ =~= seq![state]);
        self.require_stream(remote_seid, &states)
    }

    fn require_streams_in(&self, remote_seids: &[u8], state: StreamState) -> (r: Result<
        Vec<u8>,
        SimbleError,
    >)
        ensures
            seids_outcome(r) == state::required_streams(self@, remote_seids@, seq![state]),
    {
        let ghost p = self@;
        let ghost states = seq![state];
        let mut seids: Vec<u8> = Vec::new();
        let mut i: usize = 0;
        assert(seids@ =~= seq![]);
        assert(remote_seids@.take(0) =~= seq![]);
        while i < remote_seids.len()
            invariant
                i <= remote_seids@.len(),
                state::required_streams(p, remote_seids@.take(i as int), states) == Ok::<
                    Seq<u8>,
                    SimbleErrorModel,
                >(seids@),
            decreases remote_seids@.len() - i,
        {
            assert(remote_seids@.take(i + 1).drop_last() =~= remote_seids@.take(i as int));
            match self.require_stream_in(remote_seids[i], state) {
                Ok(seid) => {
                    seids.push(seid);
                },
                Err(why) => {
                    proof {
                        lemma_required_streams_fail(p, remote_seids@, states, i + 1);
                    }
                    return Err(why);
                },
            }
            i = i + 1;
        }
        assert(remote_seids@.take(i as int) =~= remote_seids@);
        Ok(seids)
    }

    // -- Receiving --------------------------------------------------------------

    /// Processes one incoming packet, returning the packets to send and any
    /// events. Malformed packets are dropped without an answer.
    pub fn receive(&mut self, pdu: &[u8]) -> (r: (Vec<Vec<u8>>, Vec<AvdtpEvent>))
        requires
            state::well_formed(old(self)@),
        ensures
            step_view(final(self)@, r) == state::on_packet(old(self)@, pdu@),
            state::well_formed(final(self)@),
    {
        match self.assembler.on_pdu(pdu) {
            None => (no_packets(), no_events()),
            Some(assembled) => {
                if assembled.message_type == MessageType::Command {
                    self.on_command(&assembled)
                } else {
                    let events = self.on_response(&assembled);
                    (no_packets(), events)
                }
            },
        }
    }

    fn on_command(&mut self, assembled: &AssembledMessage) -> (r: (
        Vec<Vec<u8>>,
        Vec<AvdtpEvent>,
    ))
        ensures
            step_view(final(self)@, r) == state::on_command(old(self)@, assembled@),
            final(self)@.next_transaction == old(self)@.next_transaction,
    {
        if assembled.signal_identifier == 0 {
            return (no_packets(), no_events());
        }
        if assembled.signal_identifier > signal_identifier::DELAYREPORT {
            let reject = Message::GeneralReject {
                signal_identifier: assembled.signal_identifier,
            };
            return (
                write_message(assembled.transaction_label, &reject, self.peer_mtu),
                no_events(),
            );
        }
        match Message::parse(
            assembled.signal_identifier,
            MessageType::Command,
            &assembled.payload,
        ) {
            None => (no_packets(), no_events()),
            Some(message) => match self.handle(message) {
                None => (no_packets(), no_events()),
                Some((response, events)) => (
                    write_message(assembled.transaction_label, &response, self.peer_mtu),
                    events,
                ),
            },
        }
    }

    /// Carries out a command: the answer and the events, if it is one.
    fn handle(&mut self, message: Message) -> (r: Option<(Message, Vec<AvdtpEvent>)>)
        ensures
            handled_as(old(self)@, final(self)@, r, state::handled(old(self)@.local, message@)),
    {
        match message {
            Message::DiscoverCommand => Some(self.on_discover()),
            Message::GetCapabilitiesCommand { acp_seid } => match self.get_local_endpoint_by_seid(
                acp_seid,
            ) {
                None => Some(
                    rejection(signal_identifier::GET_CAPABILITIES, error_code::BAD_ACP_SEID),
                ),
                Some(endpoint) => {
                    let list = capability::copy_capabilities(&endpoint.capabilities);
                    Some((Message::GetCapabilitiesResponse(list), no_events()))
                },
            },
            Message::GetAllCapabilitiesCommand { acp_seid } =>
            match self.get_local_endpoint_by_seid(acp_seid) {
                None => Some(
                    rejection(signal_identifier::GET_ALL_CAPABILITIES, error_code::BAD_ACP_SEID),
                ),
                Some(endpoint) => {
                    let list = capability::copy_capabilities(&endpoint.capabilities);
                    Some((Message::GetAllCapabilitiesResponse(list), no_events()))
                },
            },
            Message::SetConfigurationCommand { acp_seid, int_seid, capabilities } => Some(
                self.on_set_configuration(acp_seid, int_seid, capabilities),
            ),
            Message::GetConfigurationCommand { acp_seid } => Some(
                self.on_get_configuration(acp_seid),
            ),
            Message::ReconfigureCommand { acp_seid, capabilities } => Some(
                self.on_reconfigure(acp_seid, &capabilities),
            ),
            Message::OpenCommand { acp_seid } => Some(self.on_open(acp_seid)),
            Message::StartCommand { acp_seids } => Some(self.on_start(&acp_seids)),
            Message::SuspendCommand { acp_seids } => Some(self.on_suspend(&acp_seids)),
            Message::CloseCommand { acp_seid } => Some(self.on_close(acp_seid)),
            Message::AbortCommand { acp_seid } => Some(self.on_abort(acp_seid)),
            Message::SecurityControlCommand { acp_seid, data } => {
                if self.get_local_endpoint_by_seid(acp_seid).is_none() {
                    return Some(
                        rejection(signal_identifier::SECURITY_CONTROL, error_code::BAD_ACP_SEID),
                    );
                }
                Some(
                    (
                        Message::SecurityControlResponse,
                        one_event(AvdtpEvent::SecurityControl { seid: acp_seid, data }),
                    ),
                )
            },
            Message::DelayReportCommand { acp_seid, delay } => {
                if self.get_local_endpoint_by_seid(acp_seid).is_none() {
                    return Some(
                        rejection(signal_identifier::DELAYREPORT, error_code::BAD_ACP_SEID),
                    );
                }
                Some(
                    (
                        Message::DelayReportResponse,
                        one_event(AvdtpEvent::DelayReport { seid: acp_seid, delay }),
                    ),
                )
            },
            _ => None,
        }
    }

    fn on_discover(&self) -> (r: (Message, Vec<AvdtpEvent>))
        ensures
            handled_view(self@.local, r) == state::answered(
                self@.local,
                MessageModel::DiscoverResponse(
                    state::sep_infos(self@.local),
                ),
            ),
    {
        let mut list: Vec<SepInfo> = Vec::new();
        let mut i: usize = 0;
        while i < self.local_endpoints.len()
            invariant
                i <= self.local_endpoints@.len(),
                list@.len() == i,
                forall|j: int|
                    0 <= j < i ==> #[trigger] list@[j] == state::sep_infos(self@.local)[j],
            decreases self.local_endpoints@.len() - i,
        {
            list.push(self.local_endpoints[i].sep_info());
            i = i + 1;
        }
        assert(list@ =~= state::sep_infos(self@.local));
        (Message::DiscoverResponse(list), no_events())
    }

    fn on_set_configuration(
        &mut self,
        acp_seid: u8,
        int_seid: u8,
        capabilities: Vec<ServiceCapability>,
    ) -> (r: (Message, Vec<AvdtpEvent>))
        ensures
            handled_view(final(self)@.local, r) == state::on_set_configuration(
                old(self)@.local,
                acp_seid,
                int_seid,
                models::seq_views(capabilities@),
            ),
            final(self)@ == (ProtocolModel { local: final(self)@.local, ..old(self)@ }),
    {
        let in_use = match self.get_local_endpoint_by_seid(acp_seid) {
            None => {
                return (
                    Message::SetConfigurationReject {
                        service_category: 0,
                        error_code: error_code::BAD_ACP_SEID,
                    },
                    no_events(),
                );
            },
            Some(endpoint) => endpoint.in_use(),
        };
        if in_use {
            return (
                Message::SetConfigurationReject {
                    service_category: 0,
                    error_code: error_code::SEP_IN_USE,
                },
                no_events(),
            );
        }
        self.configure(acp_seid, int_seid, capabilities);
        (
            Message::SetConfigurationResponse,
            one_event(AvdtpEvent::StreamConfigured { seid: acp_seid }),
        )
    }

    fn on_get_configuration(&self, acp_seid: u8) -> (r: (Message, Vec<AvdtpEvent>))
        ensures
            handled_view(self@.local, r) == state::on_get_configuration(self@.local, acp_seid),
    {
        match self.get_local_endpoint_by_seid(acp_seid) {
            None => rejection(signal_identifier::GET_CONFIGURATION, error_code::BAD_ACP_SEID),
            Some(endpoint) => {
                if endpoint.state == StreamState::Configured || endpoint.state == StreamState::Open
                    || endpoint.state == StreamState::Streaming {
                    let list = capability::copy_capabilities(&endpoint.configuration);
                    (Message::GetConfigurationResponse(list), no_events())
                } else {
                    rejection(signal_identifier::GET_CONFIGURATION, error_code::BAD_STATE)
                }
            },
        }
    }

    fn on_reconfigure(&mut self, acp_seid: u8, capabilities: &[ServiceCapability]) -> (r: (
        Message,
        Vec<AvdtpEvent>,
    ))
        ensures
            handled_view(final(self)@.local, r) == state::on_reconfigure(
                old(self)@.local,
                acp_seid,
                models::seq_views(capabilities@),
            ),
            final(self)@ == (ProtocolModel { local: final(self)@.local, ..old(self)@ }),
    {
        let current = match self.get_local_endpoint_by_seid(acp_seid) {
            None => {
                return (
                    Message::ReconfigureReject {
                        service_category: 0,
                        error_code: error_code::BAD_ACP_SEID,
                    },
                    no_events(),
                );
            },
            Some(endpoint) => endpoint.state,
        };
        if current != StreamState::Open {
            return (
                Message::ReconfigureReject {
                    service_category: 0,
                    error_code: error_code::BAD_STATE,
                },
                no_events(),
            );
        }
        self.change_configuration(acp_seid, capabilities);
        (
            Message::ReconfigureResponse,
            one_event(AvdtpEvent::StreamReconfigured { seid: acp_seid }),
        )
    }

    fn on_open(&mut self, acp_seid: u8) -> (r: (Message, Vec<AvdtpEvent>))
        ensures
            handled_view(final(self)@.local, r) == state::on_open(old(self)@.local, acp_seid),
            final(self)@ == (ProtocolModel { local: final(self)@.local, ..old(self)@ }),
    {
        let current = match self.get_local_endpoint_by_seid(acp_seid) {
            None => {
                return rejection(signal_identifier::OPEN, error_code::BAD_ACP_SEID);
            },
            Some(endpoint) => endpoint.state,
        };
        if current != StreamState::Configured {
            return rejection(signal_identifier::OPEN, error_code::BAD_STATE);
        }
        self.set_state(acp_seid, StreamState::Open);
        (Message::OpenResponse, one_event(AvdtpEvent::StreamOpened { seid: acp_seid }))
    }

    fn on_close(&mut self, acp_seid: u8) -> (r: (Message, Vec<AvdtpEvent>))
        ensures
            handled_view(final(self)@.local, r) == state::on_close(old(self)@.local, acp_seid),
            final(self)@ == (ProtocolModel { local: final(self)@.local, ..old(self)@ }),
    {
        let current = match self.get_local_endpoint_by_seid(acp_seid) {
            None => {
                return rejection(signal_identifier::CLOSE, error_code::BAD_ACP_SEID);
            },
            Some(endpoint) => endpoint.state,
        };
        if current != StreamState::Open && current != StreamState::Streaming {
            return rejection(signal_identifier::CLOSE, error_code::BAD_STATE);
        }
        self.release(acp_seid);
        (Message::CloseResponse, one_event(AvdtpEvent::StreamClosed { seid: acp_seid }))
    }

    fn on_abort(&mut self, acp_seid: u8) -> (r: (Message, Vec<AvdtpEvent>))
        ensures
            handled_view(final(self)@.local, r) == state::on_abort(old(self)@.local, acp_seid),
            final(self)@ == (ProtocolModel { local: final(self)@.local, ..old(self)@ }),
    {
        let in_use = match self.get_local_endpoint_by_seid(acp_seid) {
            None => false,
            Some(endpoint) => endpoint.in_use(),
        };
        if !in_use {
            return (Message::AbortResponse, no_events());
        }
        self.release(acp_seid);
        (Message::AbortResponse, one_event(AvdtpEvent::StreamAborted { seid: acp_seid }))
    }

    /// The first SEID that names no endpoint in a state, with the error.
    fn find_refused(&self, seids: &[u8], expected: StreamState) -> (r: Option<(u8, u8)>)
        ensures
            r == state::first_refused(self@.local, seids@, expected, 0),
    {
        let ghost local = self@.local;
        let mut i: usize = 0;
        while i < seids.len()
            invariant
                i <= seids@.len(),
                state::first_refused(local, seids@, expected, i as int) == state::first_refused(
                    local,
                    seids@,
                    expected,
                    0,
                ),
            decreases seids@.len() - i,
        {
            match self.get_local_endpoint_by_seid(seids[i]) {
                None => {
                    return Some((seids[i], error_code::BAD_ACP_SEID));
                },
                Some(endpoint) => {
                    if endpoint.state != expected {
                        return Some((seids[i], error_code::BAD_STATE));
                    }
                },
            }
            i = i + 1;
        }
        None
    }

    fn on_start(&mut self, seids: &[u8]) -> (r: (Message, Vec<AvdtpEvent>))
        ensures
            handled_view(final(self)@.local, r) == state::on_start(old(self)@.local, seids@),
            final(self)@ == (ProtocolModel { local: final(self)@.local, ..old(self)@ }),
    {
        match self.find_refused(seids, StreamState::Open) {
            Some((acp_seid, error_code)) => (
                Message::StartReject { acp_seid, error_code },
                no_events(),
            ),
            None => {
                self.set_states(seids, StreamState::Streaming);
                (Message::StartResponse, start_events(seids))
            },
        }
    }

    fn on_suspend(&mut self, seids: &[u8]) -> (r: (Message, Vec<AvdtpEvent>))
        ensures
            handled_view(final(self)@.local, r) == state::on_suspend(old(self)@.local, seids@),
            final(self)@ == (ProtocolModel { local: final(self)@.local, ..old(self)@ }),
    {
        match self.find_refused(seids, StreamState::Streaming) {
            Some((acp_seid, error_code)) => (
                Message::SuspendReject { acp_seid, error_code },
                no_events(),
            ),
            None => {
                self.set_states(seids, StreamState::Open);
                (Message::SuspendResponse, suspend_events(seids))
            },
        }
    }

    fn on_response(&mut self, assembled: &AssembledMessage) -> (r: Vec<AvdtpEvent>)
        ensures
            (final(self)@, models::seq_views(r@)) == state::on_response(
                old(self)@,
                assembled@,
            ),
            final(self)@.next_transaction == old(self)@.next_transaction,
    {
        let ghost p = self@;
        let pending = match self.pending.remove(&assembled.transaction_label) {
            None => {
                assert(self@.pending =~= p.pending);
                return no_events();
            },
            Some(pending) => pending,
        };
        assert(self@.pending =~= p.pending.remove(assembled.transaction_label));
        let signal: u8 = pending.signal_identifier(self.version);
        if assembled.signal_identifier != signal && assembled.message_type
            != MessageType::GeneralReject {
            return no_events();
        }
        if assembled.message_type != MessageType::ResponseAccept {
            return one_event(
                AvdtpEvent::CommandRejected {
                    signal_identifier: signal,
                    error_code: rejection_code(assembled),
                },
            );
        }
        match Message::parse(
            assembled.signal_identifier,
            MessageType::ResponseAccept,
            &assembled.payload,
        ) {
            Some(message) => self.on_accept(pending, message),
            None => no_events(),
        }
    }

    /// Carries out what an accepted command is to bring about.
    fn on_accept(&mut self, pending: Pending, message: Message) -> (r: Vec<AvdtpEvent>)
        ensures
            (final(self)@, models::seq_views(r@)) == state::accepted(
                old(self)@,
                pending@,
                message@,
            ),
            final(self)@.next_transaction == old(self)@.next_transaction,
    {
        match (pending, message) {
            (Pending::Discover, Message::DiscoverResponse(endpoints)) => {
                self.remote_endpoints = discovered_endpoints(&endpoints);
                one_event(AvdtpEvent::EndpointsDiscovered(endpoints))
            },
            (
                Pending::GetCapabilities { seid },
                Message::GetCapabilitiesResponse(capabilities),
            ) => self.on_capabilities(seid, capabilities),
            (
                Pending::GetCapabilities { seid },
                Message::GetAllCapabilitiesResponse(capabilities),
            ) => self.on_capabilities(seid, capabilities),
            (
                Pending::SetConfiguration { acp_seid, int_seid, capabilities },
                Message::SetConfigurationResponse,
            ) => {
                self.configure(int_seid, acp_seid, capabilities);
                one_event(AvdtpEvent::StreamConfigured { seid: int_seid })
            },
            (
                Pending::GetConfiguration { seid },
                Message::GetConfigurationResponse(capabilities),
            ) => one_event(AvdtpEvent::ConfigurationReceived { seid, capabilities }),
            (Pending::Reconfigure { int_seid, capabilities }, Message::ReconfigureResponse) => {
                self.change_configuration(int_seid, &capabilities);
                one_event(AvdtpEvent::StreamReconfigured { seid: int_seid })
            },
            (Pending::Open { int_seid }, Message::OpenResponse) => {
                self.set_state(int_seid, StreamState::Open);
                one_event(AvdtpEvent::StreamOpened { seid: int_seid })
            },
            (Pending::Start { int_seids }, Message::StartResponse) => {
                self.set_states(&int_seids, StreamState::Streaming);
                start_events(&int_seids)
            },
            (Pending::Suspend { int_seids }, Message::SuspendResponse) => {
                self.set_states(&int_seids, StreamState::Open);
                suspend_events(&int_seids)
            },
            (Pending::Close { int_seid }, Message::CloseResponse) => {
                self.release(int_seid);
                one_event(AvdtpEvent::StreamClosed { seid: int_seid })
            },
            (Pending::Abort { int_seid }, Message::AbortResponse) => {
                self.release(int_seid);
                one_event(AvdtpEvent::StreamAborted { seid: int_seid })
            },
            _ => no_events(),
        }
    }

    fn on_capabilities(&mut self, seid: u8, capabilities: Vec<ServiceCapability>) -> (r: Vec<
        AvdtpEvent,
    >)
        ensures
            final(self)@ == (ProtocolModel {
                remote: state::with_capabilities(
                    old(self)@.remote,
                    seid,
                    models::seq_views(capabilities@),
                ),
                ..old(self)@
            }),
            models::seq_views(r@) == seq![
                EventModel::CapabilitiesReceived {
                    seid,
                    capabilities: models::seq_views(capabilities@),
                },
            ],
    {
        let ghost before = self@.remote;
        if let Some(mut endpoint) = self.remote_endpoints.remove(&seid) {
            endpoint.capabilities = capability::copy_capabilities(&capabilities);
            self.remote_endpoints.insert(seid, endpoint);
        }
        assert(self@.remote =~= state::with_capabilities(
            before,
            seid,
            models::seq_views(capabilities@),
        ));
        one_event(AvdtpEvent::CapabilitiesReceived { seid, capabilities })
    }
}

/// The capabilities of a source.
pub open spec fn source_capabilities(
    codec: CodecModel,
    delay_reporting: bool,
) -> Seq<CapabilityModel> {
    if delay_reporting {
        sink_capabilities(codec).push(
            capability::plain_capability(service_category::DELAY_REPORTING),
        )
    } else {
        sink_capabilities(codec)
    }
}

/// The capabilities of a sink.
pub open spec fn sink_capabilities(codec: CodecModel) -> Seq<
    CapabilityModel,
> {
    seq![
        capability::plain_capability(service_category::MEDIA_TRANSPORT),
        codec.capability(),
    ]
}

/// The model of how a command was handled.
pub open spec fn handled_view(local: Seq<LocalModel>, r: (Message, Vec<AvdtpEvent>)) -> Handled {
    Handled { local, response: r.0@, events: models::seq_views(r.1@) }
}

/// Whether a command was handled as it should be: only the local endpoints
/// change.
pub open spec fn handled_as(
    before: ProtocolModel,
    after: ProtocolModel,
    r: Option<(Message, Vec<AvdtpEvent>)>,
    expected: Option<Handled>,
) -> bool {
    match (r, expected) {
        (Some(r), Some(h)) => handled_view(after.local, r) == h && after == (ProtocolModel {
            local: h.local,
            ..before
        }),
        (None, None) => after == before,
        _ => false,
    }
}

fn rejection(signal_identifier: u8, error_code: u8) -> (r: (Message, Vec<AvdtpEvent>))
    ensures
        r.0@ == (MessageModel::Reject {
            signal_identifier,
            error_code,
        }),
        models::seq_views(r.1@) == Seq::<EventModel>::empty(),
{
    (Message::Reject { signal_identifier, error_code }, no_events())
}

fn rejection_code(assembled: &AssembledMessage) -> (r: u8)
    ensures
        r == state::rejection(assembled@),
{
    match Message::parse(
        assembled.signal_identifier,
        assembled.message_type,
        &assembled.payload,
    ) {
        Some(Message::Reject { error_code, .. }) => error_code,
        Some(Message::SetConfigurationReject { error_code, .. }) => error_code,
        Some(Message::ReconfigureReject { error_code, .. }) => error_code,
        Some(Message::StartReject { error_code, .. }) => error_code,
        Some(Message::SuspendReject { error_code, .. }) => error_code,
        _ => 0,
    }
}

fn start_events(seids: &[u8]) -> (r: Vec<AvdtpEvent>)
    ensures
        models::seq_views(r@) == state::starts(seids@),
{
    let mut events: Vec<AvdtpEvent> = Vec::new();
    let mut i: usize = 0;
    while i < seids.len()
        invariant
            i <= seids@.len(),
            events@.len() == i,
            forall|j: int| 0 <= j < i ==> (#[trigger] events@[j])@ == state::starts(seids@)[j],
        decreases seids@.len() - i,
    {
        events.push(AvdtpEvent::StreamStarted { seid: seids[i] });
        i = i + 1;
    }
    assert(models::seq_views(events@) =~= state::starts(seids@));
    events
}

fn suspend_events(seids: &[u8]) -> (r: Vec<AvdtpEvent>)
    ensures
        models::seq_views(r@) == state::suspensions(seids@),
{
    let mut events: Vec<AvdtpEvent> = Vec::new();
    let mut i: usize = 0;
    while i < seids.len()
        invariant
            i <= seids@.len(),
            events@.len() == i,
            forall|j: int| 0 <= j < i ==> (#[trigger] events@[j])@ == state::suspensions(seids@)[j],
        decreases seids@.len() - i,
    {
        events.push(AvdtpEvent::StreamSuspended { seid: seids[i] });
        i = i + 1;
    }
    assert(models::seq_views(events@) =~= state::suspensions(seids@));
    events
}

fn discovered_endpoints(endpoints: &[SepInfo]) -> (r: HashMap<u8, DiscoveredStreamEndPoint>)
    ensures
        models::map_views(r@) == state::discovered(endpoints@),
{
    let mut remote: HashMap<u8, DiscoveredStreamEndPoint> = HashMap::new();
    let mut i: usize = 0;
    assert(endpoints@.take(0) =~= seq![]);
    assert(models::map_views(remote@) =~= Map::empty());
    while i < endpoints.len()
        invariant
            i <= endpoints@.len(),
            models::map_views(remote@) == state::discovered(endpoints@.take(i as int)),
        decreases endpoints@.len() - i,
    {
        assert(endpoints@.take(i + 1).drop_last() =~= endpoints@.take(i as int));
        let info = endpoints[i];
        let endpoint = DiscoveredStreamEndPoint {
            seid: info.seid,
            media_type: info.media_type,
            tsep: info.tsep,
            in_use: info.in_use,
            capabilities: Vec::new(),
        };
        assert(endpoint@.capabilities =~= seq![]);
        proof {
            models::lemma_map_views_insert(remote@, info.seid, endpoint);
        }
        remote.insert(info.seid, endpoint);
        i = i + 1;
    }
    assert(endpoints@.take(i as int) =~= endpoints@);
    remote
}

/// Where some of the streams are refused, all of them are.
proof fn lemma_required_streams_fail(
    p: ProtocolModel,
    remote_seids: Seq<u8>,
    states: Seq<StreamState>,
    n: int,
)
    requires
        0 <= n <= remote_seids.len(),
        state::required_streams(p, remote_seids.take(n), states) is Err,
    ensures
        state::required_streams(p, remote_seids, states) == state::required_streams(
            p,
            remote_seids.take(n),
            states,
        ),
    decreases remote_seids.len(),
{
    if n == remote_seids.len() {
        assert(remote_seids.take(n) =~= remote_seids);
    } else {
        assert(remote_seids.drop_last().take(n) =~= remote_seids.take(n));
        lemma_required_streams_fail(p, remote_seids.drop_last(), states, n);
    }
}

} // verus!
