//! The state machine of one connection.

use std::collections::{HashMap, VecDeque};
use vstd::prelude::*;
use crate::bytes;
use crate::classic::avc;
use crate::classic::avc::{
    CommandFrame,
    CommandType,
    Frame,
    PassThrough,
    ResponseCode,
    ResponseFrame,
};
use crate::classic::avctp;
use crate::classic::avctp::AvctpEvent;
use crate::classic::avrcp::assembler;
use crate::classic::avrcp::assembler::{PduAssembler, PduAssemblerModel};
use crate::classic::avrcp::capability_id;
use crate::classic::avrcp::command::{Command, CommandModel};
use crate::classic::avrcp::event::{Event, EventModel};
use crate::classic::avrcp::event_id;
use crate::classic::avrcp::items;
use crate::classic::avrcp::items::{
    ApplicationSetting,
    CapabilityList,
    MediaAttribute,
};
use crate::classic::avrcp::media_attribute_id;
use crate::classic::avrcp::pdu_id;
use crate::classic::avrcp::play_status;
use crate::classic::avrcp::response;
use crate::classic::avrcp::response::Response;
use crate::classic::avrcp::state;
use crate::classic::avrcp::state::{
    AvrcpEventModel,
    ConnectionModel,
    ContinuationModel,
    Pending,
    Step,
};
use crate::classic::avrcp::status_code;
use crate::classic::avrcp::{
    AVRCP_PID,
    BLUETOOTH_SIG_COMPANY_ID,
    MAXIMUM_VOLUME,
    NO_TRACK_UID,
    PLAYBACK_POSITION_UNAVAILABLE,
};
use crate::models;
use crate::text;
use crate::types::{SimbleError, SimbleErrorModel};

verus! {

broadcast use vstd::std_specs::hash::group_hash_axioms;

/// Result of feeding one incoming packet into [`Protocol::receive`].
#[derive(Debug, Clone, PartialEq, Eq)]
pub enum AvrcpEvent {
    /// The controller pressed or released a key.
    KeyEvent { operation_id: u8, pressed: bool, data: Vec<u8> },
    /// The controller set our absolute volume (already stored).
    VolumeSet { volume: u8 },
    /// The controller changed player application settings (already stored).
    PlayerAppSettingsSet { settings: Vec<ApplicationSetting> },
    /// The controller asked us to play an item.
    PlayItemRequested { scope: u8, uid: u64, uid_counter: u16 },
    /// The controller registered for a notification; a `notify_*` call for
    /// this event will now produce a CHANGED response.
    NotificationRegistered { event_id: u8 },
    /// The target answered a key event.
    PassThroughResponse { response: ResponseCode, operation_id: u8, pressed: bool },
    /// The supported events of the target.
    SupportedEventsReceived(Vec<u8>),
    /// The supported company IDs of the target.
    SupportedCompanyIdsReceived(Vec<u32>),
    PlayStatusReceived { song_length: u32, song_position: u32, play_status: u8 },
    ElementAttributesReceived(Vec<MediaAttribute>),
    AppSettingAttributesReceived(Vec<u8>),
    AppSettingValuesReceived { attribute_id: u8, value_ids: Vec<u8> },
    CurrentAppSettingsReceived(Vec<ApplicationSetting>),
    /// New settings were accepted.
    AppSettingsAccepted,
    /// The effective volume that the target applied.
    VolumeAccepted { volume: u8 },
    PlayItemCompleted { status: u8 },
    /// A notification arrived: the INTERIM snapshot at registration, or the
    /// CHANGED response that consumed the registration.
    NotificationReceived { event: Event, interim: bool },
    /// A response PDU without a dedicated event above.
    ResponseReceived { response: Response },
    /// The target rejected our command PDU.
    CommandRejected { pdu_id: u8, status_code: u8 },
    /// The target does not implement our command PDU.
    CommandNotImplemented { pdu_id: u8 },
    /// The peer does not support the profile PID at the transport level.
    InvalidPid { pid: u16 },
}

impl View for AvrcpEvent {
    type V = AvrcpEventModel;

    open spec fn view(&self) -> AvrcpEventModel {
        match *self {
            AvrcpEvent::KeyEvent { operation_id, pressed, data } => {
                AvrcpEventModel::KeyEvent { operation_id, pressed, data: data@ }
            },
            AvrcpEvent::VolumeSet { volume } => AvrcpEventModel::VolumeSet { volume },
            AvrcpEvent::PlayerAppSettingsSet { settings } => {
                AvrcpEventModel::PlayerAppSettingsSet { settings: settings@ }
            },
            AvrcpEvent::PlayItemRequested { scope, uid, uid_counter } => {
                AvrcpEventModel::PlayItemRequested { scope, uid, uid_counter }
            },
            AvrcpEvent::NotificationRegistered { event_id } => {
                AvrcpEventModel::NotificationRegistered { event_id }
            },
            AvrcpEvent::PassThroughResponse { response, operation_id, pressed } => {
                AvrcpEventModel::PassThroughResponse { response, operation_id, pressed }
            },
            AvrcpEvent::SupportedEventsReceived(ids) => {
                AvrcpEventModel::SupportedEventsReceived(ids@)
            },
            AvrcpEvent::SupportedCompanyIdsReceived(ids) => {
                AvrcpEventModel::SupportedCompanyIdsReceived(ids@)
            },
            AvrcpEvent::PlayStatusReceived { song_length, song_position, play_status } => {
                AvrcpEventModel::PlayStatusReceived { song_length, song_position, play_status }
            },
            AvrcpEvent::ElementAttributesReceived(attributes) => {
                AvrcpEventModel::ElementAttributesReceived(models::seq_views(attributes@))
            },
            AvrcpEvent::AppSettingAttributesReceived(ids) => {
                AvrcpEventModel::AppSettingAttributesReceived(ids@)
            },
            AvrcpEvent::AppSettingValuesReceived { attribute_id, value_ids } => {
                AvrcpEventModel::AppSettingValuesReceived { attribute_id, value_ids: value_ids@ }
            },
            AvrcpEvent::CurrentAppSettingsReceived(settings) => {
                AvrcpEventModel::CurrentAppSettingsReceived(settings@)
            },
            AvrcpEvent::AppSettingsAccepted => AvrcpEventModel::AppSettingsAccepted,
            AvrcpEvent::VolumeAccepted { volume } => AvrcpEventModel::VolumeAccepted { volume },
            AvrcpEvent::PlayItemCompleted { status } => {
                AvrcpEventModel::PlayItemCompleted { status }
            },
            AvrcpEvent::NotificationReceived { event, interim } => {
                AvrcpEventModel::NotificationReceived { event: event@, interim }
            },
            AvrcpEvent::ResponseReceived { response } => {
                AvrcpEventModel::ResponseReceived { response: response@ }
            },
            AvrcpEvent::CommandRejected { pdu_id, status_code } => {
                AvrcpEventModel::CommandRejected { pdu_id, status_code }
            },
            AvrcpEvent::CommandNotImplemented { pdu_id } => {
                AvrcpEventModel::CommandNotImplemented { pdu_id }
            },
            AvrcpEvent::InvalidPid { pid } => AvrcpEventModel::InvalidPid { pid },
        }
    }
}

/// The tail of a response that is too big for one frame, held until the
/// controller asks for it. A target that sent every packet unprompted would
/// overrun a controller that is permitted one outstanding transaction per
/// label; one that kept nothing would leave the controller waiting.
#[derive(Debug)]
pub struct Continuation {
    /// The PDU ID of the response that was cut: that of the original command.
    pub pdu_id: u8,
    /// The response code that every packet carries, fixed by the first.
    pub response_code: ResponseCode,
    /// Packets that were not sent yet, in order.
    pub remaining: VecDeque<Vec<u8>>,
}

impl View for Continuation {
    type V = ContinuationModel;

    open spec fn view(&self) -> ContinuationModel {
        ContinuationModel {
            pdu_id: self.pdu_id,
            response_code: self.response_code,
            remaining: models::seq_views(self.remaining@),
        }
    }
}

/// The state machine of one connection, for both roles. The target is driven
/// by the media-player state fields, the controller by the command builder
/// methods. [`Protocol::receive`] takes one incoming transport packet and
/// returns the packets to send back and events for the caller.
#[derive(Debug)]
pub struct Protocol {
    /// Event IDs answered in GetCapabilities and accepted for notification
    /// registration.
    pub supported_events: Vec<u8>,
    /// Company IDs answered in GetCapabilities.
    pub supported_company_ids: Vec<u32>,
    /// Supported player application settings: attribute ID and value IDs.
    pub supported_player_app_settings: Vec<(u8, Vec<u8>)>,
    /// Current player application settings.
    pub player_app_settings: Vec<ApplicationSetting>,
    /// Current absolute volume (0 to [`MAXIMUM_VOLUME`]).
    pub volume: u8,
    /// Current playback status (see `play_status`).
    pub playback_status: u8,
    /// Current track length in milliseconds.
    pub song_length: u32,
    /// Current playback position in milliseconds.
    pub song_position: u32,
    /// UID counter reported to the browsing channel.
    pub uid_counter: u16,
    /// Currently addressed player ID.
    pub addressed_player_id: u16,
    /// UID of the current track, served in TrackChanged notifications.
    pub current_track_uid: u64,
    /// Current track metadata, served in GetElementAttributes responses. Once
    /// `song_length` is known, it is the value of PLAYING_TIME.
    pub element_attributes: Vec<MediaAttribute>,
    /// The response code sent for incoming key events.
    pub key_event_response: ResponseCode,
    /// The transport.
    pub avctp: avctp::Protocol,
    /// The negotiated MTU: it decides where a response is cut.
    pub peer_mtu: u16,
    /// Part-assembled commands by transaction label, with the command type
    /// that the first packet carried. Transactions interleave, so each has an
    /// assembler of its own.
    pub command_assemblers: HashMap<u8, (CommandType, PduAssembler)>,
    /// Part-assembled responses by transaction label.
    pub response_assemblers: HashMap<u8, (ResponseCode, PduAssembler)>,
    /// What the transaction labels in flight stand for.
    pub pending: HashMap<u8, Pending>,
    /// The label to try first.
    pub next_transaction: u8,
    /// Registered notification listeners: event ID and transaction label.
    pub notification_listeners: HashMap<u8, u8>,
    /// The unsent tail of a response. At most one is held: a request for the
    /// next packet names it by its PDU ID alone.
    pub continuation: Option<Continuation>,
    /// How many packets of cut responses this end asked for.
    pub continuations_requested: u32,
}

/// The models of assemblers with their kinds.
pub open spec fn assembler_views<C>(m: Map<u8, (C, PduAssembler)>) -> Map<
    u8,
    (C, PduAssemblerModel),
> {
    Map::new(|k: u8| m.contains_key(k), |k: u8| (m[k].0, m[k].1@))
}

/// The models of supported settings.
pub open spec fn supported_views(s: Seq<(u8, Vec<u8>)>) -> Seq<(u8, Seq<u8>)> {
    Seq::new(s.len(), |i: int| (s[i].0, s[i].1@))
}

impl View for Protocol {
    type V = ConnectionModel;

    open spec fn view(&self) -> ConnectionModel {
        ConnectionModel {
            supported_events: self.supported_events@,
            supported_company_ids: self.supported_company_ids@,
            supported_player_app_settings: supported_views(self.supported_player_app_settings@),
            player_app_settings: self.player_app_settings@,
            volume: self.volume,
            playback_status: self.playback_status,
            song_length: self.song_length,
            song_position: self.song_position,
            uid_counter: self.uid_counter,
            addressed_player_id: self.addressed_player_id,
            current_track_uid: self.current_track_uid,
            element_attributes: models::seq_views(self.element_attributes@),
            key_event_response: self.key_event_response,
            avctp: self.avctp@,
            peer_mtu: self.peer_mtu,
            command_assemblers: assembler_views(self.command_assemblers@),
            response_assemblers: assembler_views(self.response_assemblers@),
            pending: self.pending@,
            next_transaction: self.next_transaction,
            notification_listeners: self.notification_listeners@,
            continuation: models::opt_view(self.continuation),
            continuations_requested: self.continuations_requested,
        }
    }
}

/// A new connection.
pub open spec fn new_connection(peer_mtu: u16) -> ConnectionModel {
    ConnectionModel {
        supported_events: seq![],
        supported_company_ids: seq![BLUETOOTH_SIG_COMPANY_ID],
        supported_player_app_settings: seq![],
        player_app_settings: seq![],
        volume: 0,
        playback_status: play_status::STOPPED,
        song_length: PLAYBACK_POSITION_UNAVAILABLE,
        song_position: PLAYBACK_POSITION_UNAVAILABLE,
        uid_counter: 0,
        addressed_player_id: 0,
        current_track_uid: NO_TRACK_UID,
        element_attributes: seq![],
        key_event_response: ResponseCode::Accepted,
        avctp: avctp::ProtocolModel {
            peer_mtu,
            assembler: avctp::idle_assembler(),
            registered_pids: seq![AVRCP_PID],
        },
        peer_mtu,
        command_assemblers: Map::empty(),
        response_assemblers: Map::empty(),
        pending: Map::empty(),
        next_transaction: 0,
        notification_listeners: Map::empty(),
        continuation: None,
        continuations_requested: 0,
    }
}

/// The model of the packets to send, or of the error.
pub open spec fn packets_outcome(r: Result<Vec<Vec<u8>>, SimbleError>) -> Result<
    Seq<Seq<u8>>,
    SimbleErrorModel,
> {
    match r {
        Ok(packets) => Ok(models::seq_views(packets@)),
        Err(why) => Err(why@),
    }
}

/// The model of a step.
pub open spec fn step_view(after: ConnectionModel, r: (Vec<Vec<u8>>, Vec<AvrcpEvent>)) -> Step {
    Step {
        state: after,
        outgoing: models::seq_views(r.0@),
        events: models::seq_views(r.1@),
    }
}

fn no_packets() -> (r: Vec<Vec<u8>>)
    ensures
        models::seq_views(r@) == Seq::<Seq<u8>>::empty(),
{
    let r: Vec<Vec<u8>> = Vec::new();
    assert(models::seq_views(r@) =~= Seq::<Seq<u8>>::empty());
    r
}

fn no_events() -> (r: Vec<AvrcpEvent>)
    ensures
        models::seq_views(r@) == Seq::<AvrcpEventModel>::empty(),
{
    let r: Vec<AvrcpEvent> = Vec::new();
    assert(models::seq_views(r@) =~= Seq::<AvrcpEventModel>::empty());
    r
}

fn one_event(event: AvrcpEvent) -> (r: Vec<AvrcpEvent>)
    ensures
        models::seq_views(r@) == seq![event@],
{
    let mut r: Vec<AvrcpEvent> = Vec::new();
    r.push(event);
    assert(models::seq_views(r@) =~= seq![event@]);
    r
}

/// The attributes of a track as they are served.
fn serve_attributes(list: &Vec<MediaAttribute>, song_length: u32) -> (r: Vec<MediaAttribute>)
    ensures
        models::seq_views(r@) == state::served_attributes(models::seq_views(list@), song_length),
{
    let ghost all = state::served_attributes(models::seq_views(list@), song_length);
    let mut out: Vec<MediaAttribute> = Vec::new();
    let mut i: usize = 0;
    while i < list.len()
        invariant
            i <= list@.len(),
            models::seq_views(out@) =~= all.take(i as int),
        decreases list@.len() - i,
    {
        let mut attribute = list[i].clone();
        if attribute.attribute_id == media_attribute_id::PLAYING_TIME && song_length
            != PLAYBACK_POSITION_UNAVAILABLE {
            attribute.value = text::decimal_text(song_length as u64);
        }
        assert(attribute@ == all[i as int]);
        out.push(attribute);
        i = i + 1;
    }
    assert(all.take(list@.len() as int) =~= all);
    out
}

/// The attributes with one of the IDs; all of them when no ID is given.
fn select_attributes(list: &Vec<MediaAttribute>, ids: &[u32]) -> (r: Vec<MediaAttribute>)
    ensures
        models::seq_views(r@) == state::selected_attributes(models::seq_views(list@), ids@),
{
    if ids.len() == 0 {
        return items::copy_attributes(list);
    }
    let ghost all = models::seq_views(list@);
    let mut out: Vec<MediaAttribute> = Vec::new();
    let mut i: usize = 0;
    assert(models::seq_views(out@) =~= state::selected_attributes(all.take(0), ids@));
    while i < list.len()
        invariant
            i <= list@.len(),
            models::seq_views(out@) == state::selected_attributes(all.take(i as int), ids@),
        decreases list@.len() - i,
    {
        assert(all.take(i + 1).drop_last() =~= all.take(i as int));
        assert(all.take(i + 1).last() == list@[i as int]@);
        let mut found = false;
        let mut j: usize = 0;
        while j < ids.len()
            invariant
                j <= ids@.len(),
                found == ids@.take(j as int).contains(list@[i as int].attribute_id),
            decreases ids@.len() - j,
        {
            let ghost seen = ids@.take(j as int);
            let ghost more = ids@.take(j + 1);
            assert(more =~= seen.push(ids@[j as int]));
            proof {
                let id = list@[i as int].attribute_id;
                if seen.contains(id) {
                    let k = choose|k: int| 0 <= k < seen.len() && seen[k] == id;
                    assert(more[k] == id);
                }
                if more.contains(id) && ids@[j as int] != id {
                    let k = choose|k: int| 0 <= k < more.len() && more[k] == id;
                    assert(seen[k] == id);
                }
                assert(more[j as int] == ids@[j as int]);
            }
            if ids[j] == list[i].attribute_id {
                found = true;
            }
            j = j + 1;
        }
        assert(ids@.take(j as int) =~= ids@);
        if found {
            let copy = list[i].clone();
            proof {
                models::lemma_seq_views_push(out@, copy);
            }
            out.push(copy);
        }
        i = i + 1;
    }
    assert(all.take(i as int) =~= all);
    out
}

fn list_setting_ids(supported: &Vec<(u8, Vec<u8>)>) -> (r: Vec<u8>)
    ensures
        r@ == state::setting_ids(supported_views(supported@)),
{
    let mut out: Vec<u8> = Vec::new();
    let mut i: usize = 0;
    while i < supported.len()
        invariant
            i <= supported@.len(),
            out@.len() == i,
            forall|j: int| 0 <= j < i ==> #[trigger] out@[j] == supported@[j].0,
        decreases supported@.len() - i,
    {
        out.push(supported[i].0);
        i = i + 1;
    }
    assert(out@ =~= state::setting_ids(supported_views(supported@)));
    out
}

fn list_setting_values(supported: &Vec<(u8, Vec<u8>)>, id: u8) -> (r: Vec<u8>)
    ensures
        r@ == state::setting_values(supported_views(supported@), id),
{
    let ghost all = supported_views(supported@);
    let mut i: usize = 0;
    assert(all.skip(0) =~= all);
    while i < supported.len()
        invariant
            i <= supported@.len(),
            state::setting_values(all, id) == state::setting_values(all.skip(i as int), id),
        decreases supported@.len() - i,
    {
        assert(all.skip(i as int)[0] == (supported@[i as int].0, supported@[i as int].1@));
        if supported[i].0 == id {
            return bytes::copy(&supported[i].1);
        }
        assert(all.skip(i as int).skip(1) =~= all.skip(i + 1));
        i = i + 1;
    }
    let nothing: Vec<u8> = Vec::new();
    assert(nothing@ =~= seq![]);
    nothing
}

/// Where the first setting of an attribute stands.
fn find_setting(settings: &Vec<ApplicationSetting>, id: u8) -> (r: Option<usize>)
    ensures
        match r {
            Some(i) => state::setting_index(settings@, id) == Some(i as int) && i < settings@.len()
                && settings@[i as int].attribute_id == id,
            None => state::setting_index(settings@, id) is None,
        },
{
    let mut i: usize = 0;
    assert(settings@.skip(0) =~= settings@);
    while i < settings.len()
        invariant
            i <= settings@.len(),
            state::setting_index(settings@, id) == match state::setting_index(
                settings@.skip(i as int),
                id,
            ) {
                Some(j) => Some(i + j),
                None => None,
            },
        decreases settings@.len() - i,
    {
        assert(settings@.skip(i as int)[0] == settings@[i as int]);
        if settings[i].attribute_id == id {
            return Some(i);
        }
        assert(settings@.skip(i as int).skip(1) =~= settings@.skip(i + 1));
        i = i + 1;
    }
    None
}

/// When one attribute has no setting, a longer list has none either.
proof fn lemma_current_settings_fail(settings: Seq<ApplicationSetting>, ids: Seq<u8>, n: int)
    requires
        0 <= n <= ids.len(),
        state::current_settings(settings, ids.take(n)) is None,
    ensures
        state::current_settings(settings, ids) is None,
    decreases ids.len() - n,
{
    if n < ids.len() {
        assert(ids.take(n + 1).drop_last() =~= ids.take(n));
        lemma_current_settings_fail(settings, ids, n + 1);
    } else {
        assert(ids.take(n) =~= ids);
    }
}

fn list_current_settings(settings: &Vec<ApplicationSetting>, ids: &[u8]) -> (r: Option<
    Vec<ApplicationSetting>,
>)
    ensures
        match r {
            Some(list) => state::current_settings(settings@, ids@) == Some(list@),
            None => state::current_settings(settings@, ids@) is None,
        },
{
    let mut out: Vec<ApplicationSetting> = Vec::new();
    let mut i: usize = 0;
    assert(out@ =~= seq![]);
    while i < ids.len()
        invariant
            i <= ids@.len(),
            state::current_settings(settings@, ids@.take(i as int)) == Some(out@),
        decreases ids@.len() - i,
    {
        assert(ids@.take(i + 1).drop_last() =~= ids@.take(i as int));
        assert(ids@.take(i + 1).last() == ids@[i as int]);
        match find_setting(settings, ids[i]) {
            None => {
                proof {
                    lemma_current_settings_fail(settings@, ids@, i + 1);
                }
                return None;
            },
            Some(at) => {
                out.push(settings[at]);
            },
        }
        i = i + 1;
    }
    assert(ids@.take(i as int) =~= ids@);
    Some(out)
}

fn apply_settings(settings: &mut Vec<ApplicationSetting>, changes: &[ApplicationSetting])
    ensures
        final(settings)@ == state::with_settings(old(settings)@, changes@),
{
    let ghost before = settings@;
    let mut i: usize = 0;
    while i < changes.len()
        invariant
            i <= changes@.len(),
            settings@ == state::with_settings(before, changes@.take(i as int)),
        decreases changes@.len() - i,
    {
        assert(changes@.take(i + 1).drop_last() =~= changes@.take(i as int));
        assert(changes@.take(i + 1).last() == changes@[i as int]);
        let change = changes[i];
        let ghost current = settings@;
        match find_setting(settings, change.attribute_id) {
            Some(at) => {
                settings.set(at, change);
            },
            None => {
                settings.push(change);
            },
        }
        assert(settings@ =~= state::with_setting(current, change));
        i = i + 1;
    }
    assert(changes@.take(i as int) =~= changes@);
}

impl Protocol {
    /// A connection (for both roles) that cuts outgoing messages to
    /// `peer_mtu`.
    pub fn new(peer_mtu: u16) -> (r: Self)
        ensures
            r@ == new_connection(peer_mtu),
    {
        let mut avctp = avctp::Protocol::new(peer_mtu);
        avctp.register_pid(AVRCP_PID);
        let r = Protocol {
            supported_events: Vec::new(),
            supported_company_ids: vec![BLUETOOTH_SIG_COMPANY_ID],
            supported_player_app_settings: Vec::new(),
            player_app_settings: Vec::new(),
            volume: 0,
            playback_status: play_status::STOPPED,
            song_length: PLAYBACK_POSITION_UNAVAILABLE,
            song_position: PLAYBACK_POSITION_UNAVAILABLE,
            uid_counter: 0,
            addressed_player_id: 0,
            current_track_uid: NO_TRACK_UID,
            element_attributes: Vec::new(),
            key_event_response: ResponseCode::Accepted,
            avctp,
            peer_mtu,
            command_assemblers: HashMap::new(),
            response_assemblers: HashMap::new(),
            pending: HashMap::new(),
            next_transaction: 0,
            notification_listeners: HashMap::new(),
            continuation: None,
            continuations_requested: 0,
        };
        assert(r@.avctp.registered_pids =~= seq![AVRCP_PID]);
        assert(r@.command_assemblers =~= Map::empty());
        assert(r@.response_assemblers =~= Map::empty());
        assert(r@ =~= new_connection(peer_mtu));
        r
    }

    /// Sets the current track's length in milliseconds, served in GetPlayStatus
    /// and in the PLAYING_TIME media attribute.
    pub fn set_song_length(&mut self, milliseconds: u32)
        ensures
            final(self)@ == (ConnectionModel { song_length: milliseconds, ..old(self)@ }),
    {
        self.song_length = milliseconds;
    }

    /// The current track's length in milliseconds.
    pub fn song_length(&self) -> (r: u32)
        ensures
            r == self@.song_length,
    {
        self.song_length
    }

    /// Sets how far into the track playback has got, in milliseconds.
    pub fn set_song_position(&mut self, milliseconds: u32)
        ensures
            final(self)@ == (ConnectionModel { song_position: milliseconds, ..old(self)@ }),
    {
        self.song_position = milliseconds;
    }

    /// How far into the track playback has got, in milliseconds.
    pub fn song_position(&self) -> (r: u32)
        ensures
            r == self@.song_position,
    {
        self.song_position
    }

    /// Sets the UID served in TrackChanged notifications; [`NO_TRACK_UID`]
    /// means that nothing is selected.
    pub fn set_current_track_uid(&mut self, uid: u64)
        ensures
            final(self)@ == (ConnectionModel { current_track_uid: uid, ..old(self)@ }),
    {
        self.current_track_uid = uid;
    }

    /// The UID of the track being played.
    pub fn current_track_uid(&self) -> (r: u64)
        ensures
            r == self@.current_track_uid,
    {
        self.current_track_uid
    }

    /// Adopts the MTU that the control channel negotiated.
    pub fn set_peer_mtu(&mut self, peer_mtu: u16)
        ensures
            final(self)@ == (ConnectionModel {
                peer_mtu,
                avctp: avctp::ProtocolModel { peer_mtu, ..old(self)@.avctp },
                ..old(self)@
            }),
    {
        self.peer_mtu = peer_mtu;
        self.avctp.set_peer_mtu(peer_mtu);
    }

    /// The largest block of parameters that fits in one frame on this
    /// connection. Anything longer is cut, and the peer asks for the rest.
    pub fn maximum_parameter_size(&self) -> (r: usize)
        ensures
            r == state::parameter_size(self@),
    {
        let frame: usize = if self.peer_mtu < 512 {
            self.peer_mtu as usize
        } else {
            512
        };
        if frame <= 13 {
            1
        } else {
            frame - 13
        }
    }

    /// How many packets of cut responses this end has asked for.
    pub fn continuations_requested(&self) -> (r: u32)
        ensures
            r == self@.continuations_requested,
    {
        self.continuations_requested
    }

    /// Whether the target role is holding back the tail of a response.
    pub fn has_pending_continuation(&self) -> (r: bool)
        ensures
            r == (self@.continuation is Some),
    {
        self.continuation.is_some()
    }

    // -- Controller: command builders ----------------------------------------

    fn allocate_label(&mut self, pending: Pending) -> (r: Result<u8, SimbleError>)
        ensures
            match r {
                Ok(label) => state::free_label(
                    old(self)@.pending,
                    old(self)@.next_transaction,
                    0,
                ) == Some(label) && final(self)@ == (ConnectionModel {
                    pending: old(self)@.pending.insert(label, pending),
                    next_transaction: ((label + 1) % 16) as u8,
                    ..old(self)@
                }),
                Err(why) => state::free_label(
                    old(self)@.pending,
                    old(self)@.next_transaction,
                    0,
                ) is None && why@ == state::labels_exhausted() && final(self)@ == old(self)@,
            },
    {
        let mut offset: u8 = 0;
        while offset < 16
            invariant
                offset <= 16,
                *self == *old(self),
                state::free_label(self@.pending, self@.next_transaction, 0) == state::free_label(
                    self@.pending,
                    self@.next_transaction,
                    offset as int,
                ),
            decreases 16 - offset,
        {
            let label: u8 = (self.next_transaction % 16 + offset) % 16;
            if !self.pending.contains_key(&label) {
                self.pending.insert(label, pending);
                self.next_transaction = (label + 1) % 16;
                return Ok(label);
            }
            offset = offset + 1;
        }
        Err(
            SimbleError::DeviceError(
                text::owned("AVRCP: all 16 transaction labels are in flight"),
            ),
        )
    }

    /// Sends a key press or release to the target.
    pub fn send_key_event(&mut self, operation_id: u8, pressed: bool) -> (r: Result<
        Vec<Vec<u8>>,
        SimbleError,
    >)
        ensures
            (final(self)@, packets_outcome(r)) == state::send_frame(
                old(self)@,
                Pending::PassThrough { operation_id, pressed },
                state::key_frame(operation_id, pressed),
            ),
    {
        match self.allocate_label(Pending::PassThrough { operation_id, pressed }) {
            Err(why) => Err(why),
            Ok(label) => {
                let key = PassThrough { pressed, operation_id, operation_data: Vec::new() };
                assert(key@.operation_data =~= seq![]);
                let frame = CommandFrame::pass_through(
                    CommandType::Control,
                    avc::subunit_type::PANEL,
                    0,
                    &key,
                );
                Ok(self.avctp.send_command(label, AVRCP_PID, &frame.to_bytes()))
            },
        }
    }

    /// The frame of a command PDU.
    fn frame_of_command(ctype: CommandType, command: &Command) -> (r: Vec<u8>)
        ensures
            r@ == state::command_frame(ctype, command@),
    {
        let parameters = command.to_parameters();
        let mut pdus = assembler::write_pdu(command.pdu_id(), &parameters, usize::MAX);
        assert(parameters@.len() == parameters.len() <= usize::MAX);
        let ghost views = models::seq_views(pdus@);
        let pdu = pdus.remove(0);
        assert(pdu@ == views[0]);
        CommandFrame::vendor_dependent(
            ctype,
            avc::subunit_type::PANEL,
            0,
            BLUETOOTH_SIG_COMPANY_ID,
            pdu,
        ).to_bytes()
    }

    /// Sends any command PDU with the given command type. The named builders
    /// cover the commands that a controller sends in normal operation.
    pub fn send_avrcp_command(&mut self, ctype: CommandType, command: &Command) -> (r: Result<
        Vec<Vec<u8>>,
        SimbleError,
    >)
        ensures
            (final(self)@, packets_outcome(r)) == state::send_command(
                old(self)@,
                ctype,
                command@,
            ),
    {
        let attribute_id = match command {
            Command::ListPlayerApplicationSettingValues { attribute_id } => Some(*attribute_id),
            _ => None,
        };
        match self.allocate_label(Pending::Vendor { pdu_id: command.pdu_id(), attribute_id }) {
            Err(why) => Err(why),
            Ok(label) => {
                let frame = Self::frame_of_command(ctype, command);
                Ok(self.avctp.send_command(label, AVRCP_PID, &frame))
            },
        }
    }

    /// Asks the target which notification events it supports.
    pub fn get_supported_events(&mut self) -> (r: Result<Vec<Vec<u8>>, SimbleError>)
        ensures
            (final(self)@, packets_outcome(r)) == state::send_command(
                old(self)@,
                CommandType::Status,
                CommandModel::GetCapabilities { capability_id: capability_id::EVENTS_SUPPORTED },
            ),
    {
        self.send_avrcp_command(
            CommandType::Status,
            &Command::GetCapabilities { capability_id: capability_id::EVENTS_SUPPORTED },
        )
    }

    /// Asks the target which company IDs it supports.
    pub fn get_supported_company_ids(&mut self) -> (r: Result<Vec<Vec<u8>>, SimbleError>)
        ensures
            (final(self)@, packets_outcome(r)) == state::send_command(
                old(self)@,
                CommandType::Status,
                CommandModel::GetCapabilities { capability_id: capability_id::COMPANY_ID },
            ),
    {
        self.send_avrcp_command(
            CommandType::Status,
            &Command::GetCapabilities { capability_id: capability_id::COMPANY_ID },
        )
    }

    /// Asks the target for its play status.
    pub fn get_play_status(&mut self) -> (r: Result<Vec<Vec<u8>>, SimbleError>)
        ensures
            (final(self)@, packets_outcome(r)) == state::send_command(
                old(self)@,
                CommandType::Status,
                CommandModel::GetPlayStatus,
            ),
    {
        self.send_avrcp_command(CommandType::Status, &Command::GetPlayStatus)
    }

    /// Asks the target for track metadata; no IDs ask for all attributes.
    pub fn get_element_attributes(&mut self, identifier: u64, attribute_ids: &[u32]) -> (r: Result<
        Vec<Vec<u8>>,
        SimbleError,
    >)
        ensures
            (final(self)@, packets_outcome(r)) == state::send_command(
                old(self)@,
                CommandType::Status,
                CommandModel::GetElementAttributes { identifier, attribute_ids: attribute_ids@ },
            ),
    {
        self.send_avrcp_command(
            CommandType::Status,
            &Command::GetElementAttributes {
                identifier,
                attribute_ids: vstd::slice::slice_to_vec(attribute_ids),
            },
        )
    }

    /// Asks the target which player application setting attributes it has.
    pub fn list_player_app_setting_attributes(&mut self) -> (r: Result<Vec<Vec<u8>>, SimbleError>)
        ensures
            (final(self)@, packets_outcome(r)) == state::send_command(
                old(self)@,
                CommandType::Status,
                CommandModel::ListPlayerApplicationSettingAttributes,
            ),
    {
        self.send_avrcp_command(
            CommandType::Status,
            &Command::ListPlayerApplicationSettingAttributes,
        )
    }

    /// Asks the target which values one setting attribute supports.
    pub fn list_player_app_setting_values(&mut self, attribute_id: u8) -> (r: Result<
        Vec<Vec<u8>>,
        SimbleError,
    >)
        ensures
            (final(self)@, packets_outcome(r)) == state::send_command(
                old(self)@,
                CommandType::Status,
                CommandModel::ListPlayerApplicationSettingValues { attribute_id },
            ),
    {
        self.send_avrcp_command(
            CommandType::Status,
            &Command::ListPlayerApplicationSettingValues { attribute_id },
        )
    }

    /// Asks the target for the current values of setting attributes.
    pub fn get_current_player_app_settings(&mut self, attribute_ids: &[u8]) -> (r: Result<
        Vec<Vec<u8>>,
        SimbleError,
    >)
        ensures
            (final(self)@, packets_outcome(r)) == state::send_command(
                old(self)@,
                CommandType::Status,
                CommandModel::GetCurrentPlayerApplicationSettingValue {
                    attribute_ids: attribute_ids@,
                },
            ),
    {
        self.send_avrcp_command(
            CommandType::Status,
            &Command::GetCurrentPlayerApplicationSettingValue {
                attribute_ids: bytes::copy(attribute_ids),
            },
        )
    }

    /// Changes player application settings on the target.
    pub fn set_player_app_settings(&mut self, settings: &[ApplicationSetting]) -> (r: Result<
        Vec<Vec<u8>>,
        SimbleError,
    >)
        ensures
            (final(self)@, packets_outcome(r)) == state::send_command(
                old(self)@,
                CommandType::Control,
                CommandModel::SetPlayerApplicationSettingValue { settings: settings@ },
            ),
    {
        self.send_avrcp_command(
            CommandType::Control,
            &Command::SetPlayerApplicationSettingValue {
                settings: vstd::slice::slice_to_vec(settings),
            },
        )
    }

    /// Sets the target's absolute volume (0 to [`MAXIMUM_VOLUME`]).
    pub fn set_absolute_volume(&mut self, volume: u8) -> (r: Result<Vec<Vec<u8>>, SimbleError>)
        ensures
            (final(self)@, packets_outcome(r)) == state::send_command(
                old(self)@,
                CommandType::Control,
                CommandModel::SetAbsoluteVolume { volume },
            ),
    {
        self.send_avrcp_command(CommandType::Control, &Command::SetAbsoluteVolume { volume })
    }

    /// Asks the target to play an item.
    pub fn play_item(&mut self, scope: u8, uid: u64, uid_counter: u16) -> (r: Result<
        Vec<Vec<u8>>,
        SimbleError,
    >)
        ensures
            (final(self)@, packets_outcome(r)) == state::send_command(
                old(self)@,
                CommandType::Control,
                CommandModel::PlayItem { scope, uid, uid_counter },
            ),
    {
        self.send_avrcp_command(
            CommandType::Control,
            &Command::PlayItem { scope, uid, uid_counter },
        )
    }

    /// Registers for one notification event. The target answers with an
    /// INTERIM snapshot, and with a single CHANGED response when the event
    /// fires; to go on monitoring, register again.
    pub fn register_notification(&mut self, event_id: u8, playback_interval: u32) -> (r: Result<
        Vec<Vec<u8>>,
        SimbleError,
    >)
        ensures
            (final(self)@, packets_outcome(r)) == state::send_command(
                old(self)@,
                CommandType::Notify,
                CommandModel::RegisterNotification { event_id, playback_interval },
            ),
    {
        self.send_avrcp_command(
            CommandType::Notify,
            &Command::RegisterNotification { event_id, playback_interval },
        )
    }

    // -- Target: notifications -------------------------------------------------

    /// Sends a CHANGED response for `event` to its registered listener, if
    /// any, consuming the registration.
    pub fn notify_event(&mut self, event: &Event) -> (r: Vec<Vec<u8>>)
        ensures
            (final(self)@, models::seq_views(r@)) == state::notify(old(self)@, event@),
    {
        let id: u8 = event.event_id();
        match self.notification_listeners.remove(&id) {
            None => {
                assert(self@ =~= old(self)@);
                no_packets()
            },
            Some(label) => {
                let parameters = event.to_bytes();
                self.avrcp_response(
                    label,
                    ResponseCode::Changed,
                    pdu_id::REGISTER_NOTIFICATION,
                    &parameters,
                )
            },
        }
    }

    /// Notifies of a new playback status.
    pub fn notify_playback_status_changed(&mut self, play_status: u8) -> (r: Vec<Vec<u8>>)
        ensures
            (final(self)@, models::seq_views(r@)) == state::notify(
                old(self)@,
                EventModel::PlaybackStatusChanged { play_status },
            ),
    {
        self.notify_event(&Event::PlaybackStatusChanged { play_status })
    }

    /// Notifies of a new track.
    pub fn notify_track_changed(&mut self, uid: u64) -> (r: Vec<Vec<u8>>)
        ensures
            (final(self)@, models::seq_views(r@)) == state::notify(
                old(self)@,
                EventModel::TrackChanged { uid },
            ),
    {
        self.notify_event(&Event::TrackChanged { uid })
    }

    /// Notifies of a new playback position.
    pub fn notify_playback_position_changed(&mut self, playback_position: u32) -> (r: Vec<Vec<u8>>)
        ensures
            (final(self)@, models::seq_views(r@)) == state::notify(
                old(self)@,
                EventModel::PlaybackPosChanged { playback_position },
            ),
    {
        self.notify_event(&Event::PlaybackPosChanged { playback_position })
    }

    /// Notifies of new player application settings.
    pub fn notify_player_app_settings_changed(&mut self, settings: &[ApplicationSetting]) -> (r:
        Vec<Vec<u8>>)
        ensures
            (final(self)@, models::seq_views(r@)) == state::notify(
                old(self)@,
                EventModel::PlayerApplicationSettingChanged { settings: settings@ },
            ),
    {
        self.notify_event(
            &Event::PlayerApplicationSettingChanged {
                settings: vstd::slice::slice_to_vec(settings),
            },
        )
    }

    /// Notifies of new content in the list of what is playing.
    pub fn notify_now_playing_content_changed(&mut self) -> (r: Vec<Vec<u8>>)
        ensures
            (final(self)@, models::seq_views(r@)) == state::notify(
                old(self)@,
                EventModel::NowPlayingContentChanged,
            ),
    {
        self.notify_event(&Event::NowPlayingContentChanged)
    }

    /// Notifies of a new list of players.
    pub fn notify_available_players_changed(&mut self) -> (r: Vec<Vec<u8>>)
        ensures
            (final(self)@, models::seq_views(r@)) == state::notify(
                old(self)@,
                EventModel::AvailablePlayersChanged,
            ),
    {
        self.notify_event(&Event::AvailablePlayersChanged)
    }

    /// Notifies of a new addressed player.
    pub fn notify_addressed_player_changed(&mut self, player_id: u16, uid_counter: u16) -> (r: Vec<
        Vec<u8>,
    >)
        ensures
            (final(self)@, models::seq_views(r@)) == state::notify(
                old(self)@,
                EventModel::AddressedPlayerChanged { player_id, uid_counter },
            ),
    {
        self.notify_event(&Event::AddressedPlayerChanged { player_id, uid_counter })
    }

    /// Notifies of new UIDs.
    pub fn notify_uids_changed(&mut self, uid_counter: u16) -> (r: Vec<Vec<u8>>)
        ensures
            (final(self)@, models::seq_views(r@)) == state::notify(
                old(self)@,
                EventModel::UidsChanged { uid_counter },
            ),
    {
        self.notify_event(&Event::UidsChanged { uid_counter })
    }

    /// Notifies of a new volume.
    pub fn notify_volume_changed(&mut self, volume: u8) -> (r: Vec<Vec<u8>>)
        ensures
            (final(self)@, models::seq_views(r@)) == state::notify(
                old(self)@,
                EventModel::VolumeChanged { volume },
            ),
    {
        self.notify_event(&Event::VolumeChanged { volume })
    }

    // -- Responses ---------------------------------------------------------------

    /// Sends one response, cutting it when the parameters do not fit in a
    /// frame, and holding back the tail.
    fn avrcp_response(
        &mut self,
        transaction_label: u8,
        response_code: ResponseCode,
        pdu_id: u8,
        parameters: &[u8],
    ) -> (r: Vec<Vec<u8>>)
        ensures
            (final(self)@, models::seq_views(r@)) == state::respond(
                old(self)@,
                transaction_label,
                response_code,
                pdu_id,
                parameters@,
            ),
    {
        reveal(state::respond);
        let mut fragments = assembler::write_pdu(
            pdu_id,
            parameters,
            self.maximum_parameter_size(),
        );
        let ghost packets = models::seq_views(fragments@);
        let first = fragments.remove(0);
        assert(first@ == packets[0]);
        assert(models::seq_views(fragments@) =~= packets.skip(1));
        if fragments.len() > 0 {
            let mut remaining: VecDeque<Vec<u8>> = VecDeque::new();
            let ghost tail = fragments@;
            assert(tail.skip(0) =~= tail);
            assert(remaining@ + tail =~= tail);
            while fragments.len() > 0
                invariant
                    remaining@ + fragments@ == tail,
                decreases fragments@.len(),
            {
                let ghost before = fragments@;
                let ghost done = remaining@;
                let fragment = fragments.remove(0);
                remaining.push_back(fragment);
                assert(remaining@ + fragments@ =~= done + before);
            }
            assert(remaining@ =~= tail);
            self.continuation = Some(Continuation { pdu_id, response_code, remaining });
        } else {
            // A new answer to the same PDU supersedes a tail that the peer
            // never collected, and only that: a notification that lands
            // between two packets must not throw the rest away.
            let superseded = match &self.continuation {
                Some(c) => c.pdu_id == pdu_id,
                None => false,
            };
            if superseded {
                self.continuation = None;
            }
        }
        self.wrap_response_pdu(transaction_label, response_code, first)
    }

    /// Wraps one PDU packet in a vendor-dependent response frame and hands it
    /// to the transport.
    fn wrap_response_pdu(
        &self,
        transaction_label: u8,
        response_code: ResponseCode,
        pdu: Vec<u8>,
    ) -> (r: Vec<Vec<u8>>)
        ensures
            models::seq_views(r@) == state::wrapped(
                self@,
                transaction_label,
                response_code,
                pdu@,
            ),
    {
        let frame = ResponseFrame::vendor_dependent(
            response_code,
            avc::subunit_type::PANEL,
            0,
            BLUETOOTH_SIG_COMPANY_ID,
            pdu,
        );
        self.avctp.send_response(transaction_label, AVRCP_PID, &frame.to_bytes())
    }

    fn rejected_response(&mut self, transaction_label: u8, pdu_id: u8, status: u8) -> (r: Vec<
        Vec<u8>,
    >)
        ensures
            (final(self)@, models::seq_views(r@)) == state::reject(
                old(self)@,
                transaction_label,
                pdu_id,
                status,
            ),
    {
        let parameters: Vec<u8> = vec![status];
        assert(parameters@ =~= seq![status]);
        self.avrcp_response(transaction_label, ResponseCode::Rejected, pdu_id, &parameters)
    }

    fn not_implemented_response(&mut self, transaction_label: u8, pdu_id: u8) -> (r: Vec<Vec<u8>>)
        ensures
            (final(self)@, models::seq_views(r@)) == state::decline(
                old(self)@,
                transaction_label,
                pdu_id,
            ),
    {
        let parameters: Vec<u8> = Vec::new();
        assert(parameters@ =~= seq![]);
        self.avrcp_response(transaction_label, ResponseCode::NotImplemented, pdu_id, &parameters)
    }

    fn stable_response(&mut self, transaction_label: u8, response: &Response) -> (r: Vec<Vec<u8>>)
        ensures
            (final(self)@, models::seq_views(r@)) == state::answer(
                old(self)@,
                transaction_label,
                response@,
            ),
    {
        let parameters = response.to_parameters();
        self.avrcp_response(
            transaction_label,
            ResponseCode::ImplementedOrStable,
            response.pdu_id(),
            &parameters,
        )
    }

    /// Echoes an unsupported command back with the code that says that it is
    /// not implemented.
    fn not_implemented_echo(&self, transaction_label: u8, command: &CommandFrame) -> (r: Vec<
        Vec<u8>,
    >)
        ensures
            models::seq_views(r@) == state::echo(self@, transaction_label, command@),
    {
        let response = ResponseFrame {
            response: ResponseCode::NotImplemented,
            subunit_type: command.subunit_type,
            subunit_id: command.subunit_id,
            opcode: command.opcode,
            operands: bytes::copy(&command.operands),
        };
        self.avctp.send_response(transaction_label, AVRCP_PID, &response.to_bytes())
    }

    // -- Target: commands ----------------------------------------------------------

    /// Answers a request for the next packet of a response that was cut.
    fn continue_response(&mut self, transaction_label: u8, continuing_pdu_id: u8) -> (r: Vec<
        Vec<u8>,
    >)
        ensures
            (final(self)@, models::seq_views(r@)) == state::continue_with(
                old(self)@,
                transaction_label,
                continuing_pdu_id,
            ),
    {
        reveal(state::continue_with);
        let held = match &self.continuation {
            Some(c) => c.pdu_id == continuing_pdu_id,
            None => false,
        };
        if !held {
            return self.rejected_response(
                transaction_label,
                pdu_id::REQUEST_CONTINUING_RESPONSE,
                status_code::INVALID_PARAMETER,
            );
        }
        let ghost m = self@;
        match self.continuation.take() {
            None => no_packets(),
            Some(c) => {
                let pdu_id: u8 = c.pdu_id;
                let response_code = c.response_code;
                let mut remaining = c.remaining;
                let ghost before = remaining@;
                let ghost views = models::seq_views(before);
                match remaining.pop_front() {
                    None => {
                        assert(self@ =~= (ConnectionModel { continuation: None, ..m }));
                        self.rejected_response(
                            transaction_label,
                            pdu_id::REQUEST_CONTINUING_RESPONSE,
                            status_code::INVALID_PARAMETER,
                        )
                    },
                    Some(fragment) => {
                        assert(fragment@ == views[0]);
                        assert(models::seq_views(remaining@) =~= views.skip(1));
                        if remaining.len() > 0 {
                            self.continuation = Some(
                                Continuation { pdu_id, response_code, remaining },
                            );
                        }
                        self.wrap_response_pdu(transaction_label, response_code, fragment)
                    },
                }
            },
        }
    }

    fn abort_response(&mut self, transaction_label: u8, continuing_pdu_id: u8) -> (r: Vec<Vec<u8>>)
        ensures
            (final(self)@, models::seq_views(r@)) == state::abort_continuation(
                old(self)@,
                transaction_label,
                continuing_pdu_id,
            ),
    {
        let held = match &self.continuation {
            Some(c) => c.pdu_id == continuing_pdu_id,
            None => false,
        };
        if held {
            self.continuation = None;
            let nothing: Vec<u8> = Vec::new();
            assert(nothing@ =~= seq![]);
            self.avrcp_response(
                transaction_label,
                ResponseCode::Accepted,
                pdu_id::ABORT_CONTINUING_RESPONSE,
                &nothing,
            )
        } else {
            // A controller that aborts what was never held has lost track of
            // the conversation and needs to know.
            self.rejected_response(
                transaction_label,
                pdu_id::ABORT_CONTINUING_RESPONSE,
                status_code::INVALID_PARAMETER,
            )
        }
    }

    fn get_capabilities(&mut self, transaction_label: u8, pdu_id: u8, capability_id: u8) -> (r: Vec<
        Vec<u8>,
    >)
        ensures
            state::sending((final(self)@, models::seq_views(r@))) == state::run_command(
                old(self)@,
                transaction_label,
                pdu_id,
                CommandModel::GetCapabilities { capability_id },
            ),
    {
        reveal(state::run_command);
        match capability_id {
            capability_id::EVENTS_SUPPORTED => {
                let response = Response::GetCapabilities {
                    capabilities: CapabilityList::EventIds(bytes::copy(&self.supported_events)),
                };
                self.stable_response(transaction_label, &response)
            },
            capability_id::COMPANY_ID => {
                let response = Response::GetCapabilities {
                    capabilities: CapabilityList::CompanyIds(
                        vstd::slice::slice_to_vec(self.supported_company_ids.as_slice()),
                    ),
                };
                self.stable_response(transaction_label, &response)
            },
            _ => self.rejected_response(transaction_label, pdu_id, status_code::INVALID_PARAMETER),
        }
    }

    /// The event that says how things stand, for events that are modeled.
    fn current_event(&self, event_id: u8) -> (r: Option<Event>)
        ensures
            models::opt_view(r) == state::snapshot(self@, event_id),
    {
        match event_id {
            event_id::VOLUME_CHANGED => Some(Event::VolumeChanged { volume: self.volume }),
            event_id::PLAYBACK_STATUS_CHANGED => Some(
                Event::PlaybackStatusChanged { play_status: self.playback_status },
            ),
            event_id::NOW_PLAYING_CONTENT_CHANGED => Some(Event::NowPlayingContentChanged),
            event_id::PLAYER_APPLICATION_SETTING_CHANGED => Some(
                Event::PlayerApplicationSettingChanged {
                    settings: vstd::slice::slice_to_vec(self.player_app_settings.as_slice()),
                },
            ),
            event_id::AVAILABLE_PLAYERS_CHANGED => Some(Event::AvailablePlayersChanged),
            event_id::ADDRESSED_PLAYER_CHANGED => Some(
                Event::AddressedPlayerChanged {
                    player_id: self.addressed_player_id,
                    uid_counter: self.uid_counter,
                },
            ),
            event_id::UIDS_CHANGED => Some(Event::UidsChanged { uid_counter: self.uid_counter }),
            event_id::TRACK_CHANGED => Some(Event::TrackChanged { uid: self.current_track_uid }),
            _ => None,
        }
    }

    fn on_register_notification(&mut self, transaction_label: u8, event_id: u8) -> (r: (
        Vec<Vec<u8>>,
        Vec<AvrcpEvent>,
    ))
        ensures
            step_view(final(self)@, r) == state::register(
                old(self)@,
                transaction_label,
                event_id,
            ),
    {
        reveal(state::register);
        if !bytes::contains_byte(&self.supported_events, event_id) {
            let outgoing = self.not_implemented_response(
                transaction_label,
                pdu_id::REGISTER_NOTIFICATION,
            );
            return (outgoing, no_events());
        }
        match self.current_event(event_id) {
            None => (no_packets(), no_events()),
            Some(event) => {
                let parameters = event.to_bytes();
                let outgoing = self.avrcp_response(
                    transaction_label,
                    ResponseCode::Interim,
                    pdu_id::REGISTER_NOTIFICATION,
                    &parameters,
                );
                self.notification_listeners.insert(event_id, transaction_label);
                (outgoing, one_event(AvrcpEvent::NotificationRegistered { event_id }))
            },
        }
    }

    /// What a parsed command makes the target do.
    fn run_command(&mut self, transaction_label: u8, pdu_id: u8, command: Command) -> (r: (
        Vec<Vec<u8>>,
        Vec<AvrcpEvent>,
    ))
        ensures
            step_view(final(self)@, r) == state::run_command(
                old(self)@,
                transaction_label,
                pdu_id,
                command@,
            ),
    {
        reveal(state::run_command);
        match command {
            Command::RequestContinuingResponse { continuing_pdu_id } => (
                self.continue_response(transaction_label, continuing_pdu_id),
                no_events(),
            ),
            Command::AbortContinuingResponse { continuing_pdu_id } => (
                self.abort_response(transaction_label, continuing_pdu_id),
                no_events(),
            ),
            Command::GetCapabilities { capability_id } => (
                self.get_capabilities(transaction_label, pdu_id, capability_id),
                no_events(),
            ),
            Command::SetAbsoluteVolume { volume } => {
                let volume: u8 = volume % (MAXIMUM_VOLUME + 1);
                self.volume = volume;
                let parameters = Response::SetAbsoluteVolume { volume }.to_parameters();
                let outgoing = self.avrcp_response(
                    transaction_label,
                    ResponseCode::Accepted,
                    pdu_id,
                    &parameters,
                );
                (outgoing, one_event(AvrcpEvent::VolumeSet { volume }))
            },
            Command::RegisterNotification { event_id, .. } => {
                self.on_register_notification(transaction_label, event_id)
            },
            Command::GetPlayStatus => {
                let response = Response::GetPlayStatus {
                    song_length: self.song_length,
                    song_position: self.song_position,
                    play_status: self.playback_status,
                };
                (self.stable_response(transaction_label, &response), no_events())
            },
            Command::GetElementAttributes { attribute_ids, .. } => {
                let served = serve_attributes(&self.element_attributes, self.song_length);
                let attributes = select_attributes(&served, &attribute_ids);
                let response = Response::GetElementAttributes { attributes };
                (self.stable_response(transaction_label, &response), no_events())
            },
            Command::ListPlayerApplicationSettingAttributes => {
                let attribute_ids = list_setting_ids(&self.supported_player_app_settings);
                let response = Response::ListPlayerApplicationSettingAttributes { attribute_ids };
                (self.stable_response(transaction_label, &response), no_events())
            },
            Command::ListPlayerApplicationSettingValues { attribute_id } => {
                let value_ids = list_setting_values(
                    &self.supported_player_app_settings,
                    attribute_id,
                );
                let response = Response::ListPlayerApplicationSettingValues { value_ids };
                (self.stable_response(transaction_label, &response), no_events())
            },
            Command::GetCurrentPlayerApplicationSettingValue { attribute_ids } => {
                match list_current_settings(&self.player_app_settings, &attribute_ids) {
                    Some(settings) => {
                        let response = Response::GetCurrentPlayerApplicationSettingValue {
                            settings,
                        };
                        (self.stable_response(transaction_label, &response), no_events())
                    },
                    None => (
                        self.not_implemented_response(transaction_label, pdu_id),
                        no_events(),
                    ),
                }
            },
            Command::SetPlayerApplicationSettingValue { settings } => {
                apply_settings(&mut self.player_app_settings, &settings);
                let outgoing = self.stable_response(
                    transaction_label,
                    &Response::SetPlayerApplicationSettingValue,
                );
                (outgoing, one_event(AvrcpEvent::PlayerAppSettingsSet { settings }))
            },
            Command::PlayItem { scope, uid, uid_counter } => {
                let outgoing = self.stable_response(
                    transaction_label,
                    &Response::PlayItem { status: status_code::OPERATION_COMPLETED },
                );
                (
                    outgoing,
                    one_event(AvrcpEvent::PlayItemRequested { scope, uid, uid_counter }),
                )
            },
            _ => {
                // Parsed but not supported by this target.
                let outgoing = self.rejected_response(
                    transaction_label,
                    pdu_id,
                    status_code::INVALID_PARAMETER,
                );
                (outgoing, no_events())
            },
        }
    }

    fn dispatch_command(
        &mut self,
        transaction_label: u8,
        ctype: CommandType,
        pdu_id: u8,
        parameters: &[u8],
    ) -> (r: (Vec<Vec<u8>>, Vec<AvrcpEvent>))
        ensures
            step_view(final(self)@, r) == state::dispatch_command(
                old(self)@,
                transaction_label,
                ctype,
                pdu_id,
                parameters@,
            ),
    {
        reveal(state::dispatch_command);
        if !(ctype == CommandType::Control || ctype == CommandType::Status || ctype
            == CommandType::Notify) {
            let outgoing = self.rejected_response(
                transaction_label,
                pdu_id,
                status_code::INVALID_COMMAND,
            );
            return (outgoing, no_events());
        }
        match Command::parse(pdu_id, parameters) {
            // What cannot be parsed is dropped; the controller's timeout
            // recovers.
            None => (no_packets(), no_events()),
            Some(command) => self.run_command(transaction_label, pdu_id, command),
        }
    }

    fn on_vendor_command(&mut self, transaction_label: u8, command: &CommandFrame) -> (r: (
        Vec<Vec<u8>>,
        Vec<AvrcpEvent>,
    ))
        requires
            command.opcode == avc::opcode::VENDOR_DEPENDENT,
        ensures
            step_view(final(self)@, r) == state::vendor_command(
                old(self)@,
                transaction_label,
                command@,
            ),
    {
        reveal(state::vendor_command);
        let vendor = match command.as_vendor_dependent() {
            None => {
                return (no_packets(), no_events());
            },
            Some(vendor) => vendor,
        };
        if vendor.company_id != BLUETOOTH_SIG_COMPANY_ID || command.subunit_type
            != avc::subunit_type::PANEL {
            return (no_packets(), no_events());
        }
        let ghost m = self@;
        let (kind, mut assembler) = match self.command_assemblers.remove(&transaction_label) {
            Some(entry) => entry,
            None => (command.ctype, PduAssembler::new()),
        };
        assert((kind, assembler@) == state::assembly(
            m.command_assemblers,
            transaction_label,
            command.ctype,
        ));
        assert(self@.command_assemblers =~= m.command_assemblers.remove(transaction_label));
        if kind != command.ctype {
            // A transaction that changes its command type in the middle has
            // lost track of itself: what was assembled is dropped.
            return (no_packets(), no_events());
        }
        let complete = assembler.on_pdu(&vendor.data);
        let ghost a = assembler@;
        if assembler.in_progress() {
            self.command_assemblers.insert(transaction_label, (kind, assembler));
        }
        assert(self@.command_assemblers =~= state::keep_assembly(
            m.command_assemblers,
            transaction_label,
            kind,
            a,
        ));
        match complete {
            None => (no_packets(), no_events()),
            Some((pdu_id, parameters)) => {
                self.dispatch_command(transaction_label, kind, pdu_id, &parameters)
            },
        }
    }

    fn on_key_command(&mut self, transaction_label: u8, command: &CommandFrame) -> (r: (
        Vec<Vec<u8>>,
        Vec<AvrcpEvent>,
    ))
        requires
            command.opcode == avc::opcode::PASS_THROUGH,
        ensures
            step_view(final(self)@, r) == state::key_command(
                old(self)@,
                transaction_label,
                command@,
            ),
    {
        reveal(state::key_command);
        match command.as_pass_through() {
            None => (no_packets(), no_events()),
            Some(pass_through) => {
                let frame = ResponseFrame::pass_through(
                    self.key_event_response,
                    avc::subunit_type::PANEL,
                    0,
                    &pass_through,
                );
                let outgoing = self.avctp.send_response(
                    transaction_label,
                    AVRCP_PID,
                    &frame.to_bytes(),
                );
                let event = AvrcpEvent::KeyEvent {
                    operation_id: pass_through.operation_id,
                    pressed: pass_through.pressed,
                    data: pass_through.operation_data,
                };
                (outgoing, one_event(event))
            },
        }
    }

    fn on_command(&mut self, transaction_label: u8, payload: &[u8]) -> (r: (
        Vec<Vec<u8>>,
        Vec<AvrcpEvent>,
    ))
        ensures
            step_view(final(self)@, r) == state::on_command(
                old(self)@,
                transaction_label,
                payload@,
            ),
    {
        reveal(state::on_command);
        let command = match Frame::parse(payload) {
            Some(Frame::Command(command)) => command,
            _ => {
                return (no_packets(), no_events());
            },
        };
        let addressed = (command.subunit_type == avc::subunit_type::UNIT && command.subunit_id
            == 7) || (command.subunit_type == avc::subunit_type::PANEL && command.subunit_id == 0);
        if addressed && command.opcode == avc::opcode::VENDOR_DEPENDENT {
            self.on_vendor_command(transaction_label, &command)
        } else if addressed && command.opcode == avc::opcode::PASS_THROUGH {
            self.on_key_command(transaction_label, &command)
        } else {
            (self.not_implemented_echo(transaction_label, &command), no_events())
        }
    }

    // -- Controller: responses --------------------------------------------------------

    fn event_of_response(response: Response, attribute_id: Option<u8>) -> (r: AvrcpEvent)
        ensures
            r@ == state::response_event(response@, attribute_id),
    {
        match response {
            Response::GetCapabilities { capabilities } => match capabilities {
                CapabilityList::EventIds(ids) => AvrcpEvent::SupportedEventsReceived(ids),
                CapabilityList::CompanyIds(ids) => AvrcpEvent::SupportedCompanyIdsReceived(ids),
            },
            Response::GetPlayStatus { song_length, song_position, play_status } => {
                AvrcpEvent::PlayStatusReceived { song_length, song_position, play_status }
            },
            Response::GetElementAttributes { attributes } => {
                AvrcpEvent::ElementAttributesReceived(attributes)
            },
            Response::ListPlayerApplicationSettingAttributes { attribute_ids } => {
                AvrcpEvent::AppSettingAttributesReceived(attribute_ids)
            },
            Response::ListPlayerApplicationSettingValues { value_ids } => {
                let attribute_id: u8 = match attribute_id {
                    Some(id) => id,
                    None => 0,
                };
                AvrcpEvent::AppSettingValuesReceived { attribute_id, value_ids }
            },
            Response::GetCurrentPlayerApplicationSettingValue { settings } => {
                AvrcpEvent::CurrentAppSettingsReceived(settings)
            },
            Response::SetPlayerApplicationSettingValue => AvrcpEvent::AppSettingsAccepted,
            Response::SetAbsoluteVolume { volume } => AvrcpEvent::VolumeAccepted { volume },
            Response::PlayItem { status } => AvrcpEvent::PlayItemCompleted { status },
            other => AvrcpEvent::ResponseReceived { response: other },
        }
    }

    fn notification_events(pdu_id: u8, parameters: &[u8], interim: bool) -> (r: Vec<AvrcpEvent>)
        ensures
            models::seq_views(r@) == state::notification_events(pdu_id, parameters@, interim),
    {
        if pdu_id != pdu_id::REGISTER_NOTIFICATION {
            return no_events();
        }
        match Response::parse(pdu_id, parameters) {
            Some(Response::RegisterNotification { event }) => {
                one_event(AvrcpEvent::NotificationReceived { event, interim })
            },
            _ => no_events(),
        }
    }

    fn response_events(
        response_code: ResponseCode,
        pdu_id: u8,
        parameters: &[u8],
        attribute_id: Option<u8>,
    ) -> (r: Vec<AvrcpEvent>)
        ensures
            models::seq_views(r@) == state::response_events(
                response_code,
                pdu_id,
                parameters@,
                attribute_id,
            ),
    {
        reveal(state::response_events);
        match response_code {
            ResponseCode::Rejected => {
                let status_code: u8 = if parameters.len() > 0 {
                    parameters[0]
                } else {
                    0
                };
                one_event(AvrcpEvent::CommandRejected { pdu_id, status_code })
            },
            ResponseCode::NotImplemented => {
                one_event(AvrcpEvent::CommandNotImplemented { pdu_id })
            },
            ResponseCode::Interim => Self::notification_events(pdu_id, parameters, true),
            ResponseCode::Changed => Self::notification_events(pdu_id, parameters, false),
            ResponseCode::ImplementedOrStable | ResponseCode::Accepted => match Response::parse(
                pdu_id,
                parameters,
            ) {
                None => no_events(),
                Some(response) => one_event(Self::event_of_response(response, attribute_id)),
            },
            ResponseCode::InTransition => no_events(),
        }
    }

    fn dispatch_response(
        &mut self,
        transaction_label: u8,
        response_code: ResponseCode,
        pdu_id: u8,
        parameters: &[u8],
    ) -> (r: Vec<AvrcpEvent>)
        ensures
            (Step {
                state: final(self)@,
                outgoing: seq![],
                events: models::seq_views(r@),
            }) == state::dispatch_response(
                old(self)@,
                transaction_label,
                response_code,
                pdu_id,
                parameters@,
            ),
    {
        reveal(state::dispatch_response);
        let ghost m = self@;
        let pending = self.pending.remove(&transaction_label);
        match pending {
            Some(Pending::Vendor { pdu_id: expected, attribute_id }) => {
                if pdu_id != expected {
                    return no_events();
                }
                if response_code == ResponseCode::Interim {
                    // The label stays in flight until the CHANGED response
                    // consumes the registration.
                    self.pending.insert(
                        transaction_label,
                        Pending::Vendor { pdu_id: expected, attribute_id },
                    );
                    assert(self@.pending =~= m.pending);
                }
                Self::response_events(response_code, pdu_id, parameters, attribute_id)
            },
            _ => {
                assert(self@.pending =~= m.pending.remove(transaction_label));
                no_events()
            },
        }
    }

    /// The packets of a command on a label that is in flight.
    fn send_command_on_label(
        &self,
        transaction_label: u8,
        ctype: CommandType,
        command: &Command,
    ) -> (r: Vec<Vec<u8>>)
        ensures
            models::seq_views(r@) == avctp::command_packets(
                self@.avctp,
                transaction_label,
                AVRCP_PID,
                state::command_frame(ctype, command@),
            ),
    {
        let frame = Self::frame_of_command(ctype, command);
        self.avctp.send_command(transaction_label, AVRCP_PID, &frame)
    }

    fn on_vendor_response(&mut self, transaction_label: u8, response: &ResponseFrame) -> (r: (
        Vec<Vec<u8>>,
        Vec<AvrcpEvent>,
    ))
        requires
            response.opcode == avc::opcode::VENDOR_DEPENDENT,
            old(self).continuations_requested < u32::MAX,
        ensures
            step_view(final(self)@, r) == state::vendor_response(
                old(self)@,
                transaction_label,
                response@,
            ),
    {
        reveal(state::vendor_response);
        let vendor = match response.as_vendor_dependent() {
            None => {
                return (no_packets(), no_events());
            },
            Some(vendor) => vendor,
        };
        if vendor.company_id != BLUETOOTH_SIG_COMPANY_ID || response.subunit_type
            != avc::subunit_type::PANEL || response.subunit_id != 0 {
            return (no_packets(), no_events());
        }
        let ghost m = self@;
        let (kind, mut assembler) = match self.response_assemblers.remove(&transaction_label) {
            Some(entry) => entry,
            None => (response.response, PduAssembler::new()),
        };
        assert((kind, assembler@) == state::assembly(
            m.response_assemblers,
            transaction_label,
            response.response,
        ));
        assert(self@.response_assemblers =~= m.response_assemblers.remove(transaction_label));
        if kind != response.response {
            return (no_packets(), no_events());
        }
        let complete = assembler.on_pdu(&vendor.data);
        let still_assembling = assembler.in_progress();
        let ghost a = assembler@;
        if still_assembling {
            self.response_assemblers.insert(transaction_label, (kind, assembler));
        }
        assert(self@.response_assemblers =~= state::keep_assembly(
            m.response_assemblers,
            transaction_label,
            kind,
            a,
        ));
        if let Some((pdu_id, parameters)) = complete {
            let events = self.dispatch_response(transaction_label, kind, pdu_id, &parameters);
            return (no_packets(), events);
        }
        // The assembler kept the packet and wants more: it is the controller
        // that has to ask for it.
        let more = vendor.data.len() >= 2 && (vendor.data[1] & 3 == assembler::PDU_START
            || vendor.data[1] & 3 == assembler::PDU_CONTINUE);
        if more && still_assembling {
            self.continuations_requested = self.continuations_requested + 1;
            let request = Command::RequestContinuingResponse {
                continuing_pdu_id: vendor.data[0],
            };
            let outgoing = self.send_command_on_label(
                transaction_label,
                CommandType::Control,
                &request,
            );
            return (outgoing, no_events());
        }
        (no_packets(), no_events())
    }

    fn on_response(&mut self, transaction_label: u8, payload: &[u8]) -> (r: (
        Vec<Vec<u8>>,
        Vec<AvrcpEvent>,
    ))
        requires
            old(self).continuations_requested < u32::MAX,
        ensures
            step_view(final(self)@, r) == state::on_response(
                old(self)@,
                transaction_label,
                payload@,
            ),
    {
        reveal(state::on_response);
        reveal(state::key_response);
        let response = match Frame::parse(payload) {
            Some(Frame::Response(response)) => response,
            _ => {
                return (no_packets(), no_events());
            },
        };
        if !self.pending.contains_key(&transaction_label) {
            return (no_packets(), no_events());
        }
        if response.opcode == avc::opcode::PASS_THROUGH {
            let events = match self.pending.remove(&transaction_label) {
                Some(Pending::PassThrough { operation_id, pressed }) => one_event(
                    AvrcpEvent::PassThroughResponse {
                        response: response.response,
                        operation_id,
                        pressed,
                    },
                ),
                _ => no_events(),
            };
            (no_packets(), events)
        } else if response.opcode == avc::opcode::VENDOR_DEPENDENT {
            self.on_vendor_response(transaction_label, &response)
        } else {
            (no_packets(), no_events())
        }
    }

    // -- Receiving ----------------------------------------------------------------------

    /// Processes one incoming transport packet, returning outgoing packets and
    /// any events. Malformed packets are dropped without a response.
    pub fn receive(&mut self, pdu: &[u8]) -> (r: (Vec<Vec<u8>>, Vec<AvrcpEvent>))
        requires
            old(self).continuations_requested < u32::MAX,
        ensures
            step_view(final(self)@, r) == state::receive(old(self)@, pdu@),
    {
        reveal(state::on_transport_event);
        let ghost m = self@;
        let (mut outgoing, mut transport_events) = self.avctp.receive(pdu);
        let ghost sent = models::seq_views(outgoing@);
        let ghost reported = models::seq_views(transport_events@);
        match transport_events.pop() {
            None => (outgoing, no_events()),
            Some(transport_event) => {
                assert(transport_event@ == reported[0]);
                let (mut more, events) = match transport_event {
                    AvctpEvent::Command { transaction_label, pid: _, payload } => {
                        self.on_command(transaction_label, &payload)
                    },
                    AvctpEvent::Response { transaction_label, pid: _, payload } => {
                        self.on_response(transaction_label, &payload)
                    },
                    AvctpEvent::InvalidPid { transaction_label, pid } => {
                        let ghost before = self@;
                        match self.pending.remove(&transaction_label) {
                            Some(_) => {
                                (no_packets(), one_event(AvrcpEvent::InvalidPid { pid }))
                            },
                            None => {
                                assert(self@ =~= before);
                                (no_packets(), no_events())
                            },
                        }
                    },
                };
                let ghost answered = models::seq_views(more@);
                outgoing.append(&mut more);
                assert(models::seq_views(outgoing@) =~= sent + answered);
                (outgoing, events)
            },
        }
    }
}

} // verus!
