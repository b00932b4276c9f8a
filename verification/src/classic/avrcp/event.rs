//! Notification events.

use vstd::prelude::*;
use crate::bytes;
use crate::classic::avrcp::event_id;
use crate::classic::avrcp::items;
use crate::classic::avrcp::items::ApplicationSetting;
use crate::classic::avrcp::wire::Reader;
use crate::models;

verus! {

/// A notification event as carried in RegisterNotification responses: the
/// event ID byte followed by event-specific data. Event IDs without structured
/// parameters here (battery and system status, and the track boundary events)
/// are kept as [`Event::Generic`].
#[derive(Debug, Clone, PartialEq, Eq)]
pub enum Event {
    PlaybackStatusChanged { play_status: u8 },
    TrackChanged { uid: u64 },
    PlaybackPosChanged { playback_position: u32 },
    PlayerApplicationSettingChanged { settings: Vec<ApplicationSetting> },
    NowPlayingContentChanged,
    AvailablePlayersChanged,
    AddressedPlayerChanged { player_id: u16, uid_counter: u16 },
    UidsChanged { uid_counter: u16 },
    VolumeChanged { volume: u8 },
    Generic { event_id: u8, data: Vec<u8> },
}

/// The model of an [`Event`].
#[verifier::ext_equal]
pub enum EventModel {
    PlaybackStatusChanged { play_status: u8 },
    TrackChanged { uid: u64 },
    PlaybackPosChanged { playback_position: u32 },
    PlayerApplicationSettingChanged { settings: Seq<ApplicationSetting> },
    NowPlayingContentChanged,
    AvailablePlayersChanged,
    AddressedPlayerChanged { player_id: u16, uid_counter: u16 },
    UidsChanged { uid_counter: u16 },
    VolumeChanged { volume: u8 },
    Generic { event_id: u8, data: Seq<u8> },
}

impl View for Event {
    type V = EventModel;

    open spec fn view(&self) -> EventModel {
        match *self {
            Event::PlaybackStatusChanged { play_status } => {
                EventModel::PlaybackStatusChanged { play_status }
            },
            Event::TrackChanged { uid } => EventModel::TrackChanged { uid },
            Event::PlaybackPosChanged { playback_position } => {
                EventModel::PlaybackPosChanged { playback_position }
            },
            Event::PlayerApplicationSettingChanged { settings } => {
                EventModel::PlayerApplicationSettingChanged { settings: settings@ }
            },
            Event::NowPlayingContentChanged => EventModel::NowPlayingContentChanged,
            Event::AvailablePlayersChanged => EventModel::AvailablePlayersChanged,
            Event::AddressedPlayerChanged { player_id, uid_counter } => {
                EventModel::AddressedPlayerChanged { player_id, uid_counter }
            },
            Event::UidsChanged { uid_counter } => EventModel::UidsChanged { uid_counter },
            Event::VolumeChanged { volume } => EventModel::VolumeChanged { volume },
            Event::Generic { event_id, data } => EventModel::Generic { event_id, data: data@ },
        }
    }
}

impl EventModel {
    /// The ID of this event.
    pub open spec fn id(self) -> u8 {
        match self {
            EventModel::PlaybackStatusChanged { .. } => event_id::PLAYBACK_STATUS_CHANGED,
            EventModel::TrackChanged { .. } => event_id::TRACK_CHANGED,
            EventModel::PlaybackPosChanged { .. } => event_id::PLAYBACK_POS_CHANGED,
            EventModel::PlayerApplicationSettingChanged { .. } => {
                event_id::PLAYER_APPLICATION_SETTING_CHANGED
            },
            EventModel::NowPlayingContentChanged => event_id::NOW_PLAYING_CONTENT_CHANGED,
            EventModel::AvailablePlayersChanged => event_id::AVAILABLE_PLAYERS_CHANGED,
            EventModel::AddressedPlayerChanged { .. } => event_id::ADDRESSED_PLAYER_CHANGED,
            EventModel::UidsChanged { .. } => event_id::UIDS_CHANGED,
            EventModel::VolumeChanged { .. } => event_id::VOLUME_CHANGED,
            EventModel::Generic { event_id, .. } => event_id,
        }
    }

    /// The wire form of the data of this event.
    pub open spec fn payload(self) -> Seq<u8> {
        match self {
            EventModel::PlaybackStatusChanged { play_status } => seq![play_status],
            EventModel::TrackChanged { uid } => bytes::be64_bytes(uid),
            EventModel::PlaybackPosChanged { playback_position } => {
                bytes::be32_bytes(playback_position)
            },
            EventModel::PlayerApplicationSettingChanged { settings } => {
                items::setting_list_bytes(settings)
            },
            EventModel::NowPlayingContentChanged => seq![],
            EventModel::AvailablePlayersChanged => seq![],
            EventModel::AddressedPlayerChanged { player_id, uid_counter } => bytes::be16_bytes(
                player_id,
            ) + bytes::be16_bytes(uid_counter),
            EventModel::UidsChanged { uid_counter } => bytes::be16_bytes(uid_counter),
            EventModel::VolumeChanged { volume } => seq![volume],
            EventModel::Generic { data, .. } => data,
        }
    }

    /// The wire form of this event.
    pub open spec fn bytes(self) -> Seq<u8> {
        seq![self.id()] + self.payload()
    }
}

/// The event that bytes encode.
pub open spec fn event_of(d: Seq<u8>) -> Option<EventModel> {
    if d.len() == 0 {
        None
    } else {
        let id = d[0];
        if id == event_id::PLAYBACK_STATUS_CHANGED {
            if d.len() >= 2 {
                Some(EventModel::PlaybackStatusChanged { play_status: d[1] })
            } else {
                None
            }
        } else if id == event_id::TRACK_CHANGED {
            if d.len() >= 9 {
                Some(EventModel::TrackChanged { uid: bytes::be64(d, 1) })
            } else {
                None
            }
        } else if id == event_id::PLAYBACK_POS_CHANGED {
            if d.len() >= 5 {
                Some(EventModel::PlaybackPosChanged { playback_position: bytes::be32(d, 1) })
            } else {
                None
            }
        } else if id == event_id::PLAYER_APPLICATION_SETTING_CHANGED {
            match items::setting_list_at(d, 1) {
                Some((settings, _)) => Some(
                    EventModel::PlayerApplicationSettingChanged { settings },
                ),
                None => None,
            }
        } else if id == event_id::NOW_PLAYING_CONTENT_CHANGED {
            Some(EventModel::NowPlayingContentChanged)
        } else if id == event_id::AVAILABLE_PLAYERS_CHANGED {
            Some(EventModel::AvailablePlayersChanged)
        } else if id == event_id::ADDRESSED_PLAYER_CHANGED {
            if d.len() >= 5 {
                Some(
                    EventModel::AddressedPlayerChanged {
                        player_id: bytes::be16(d, 1),
                        uid_counter: bytes::be16(d, 3),
                    },
                )
            } else {
                None
            }
        } else if id == event_id::UIDS_CHANGED {
            if d.len() >= 3 {
                Some(EventModel::UidsChanged { uid_counter: bytes::be16(d, 1) })
            } else {
                None
            }
        } else if id == event_id::VOLUME_CHANGED {
            if d.len() >= 2 {
                Some(EventModel::VolumeChanged { volume: d[1] })
            } else {
                None
            }
        } else {
            Some(EventModel::Generic { event_id: id, data: d.skip(1) })
        }
    }
}

impl Event {
    /// The ID of this event.
    pub fn event_id(&self) -> (r: u8)
        ensures
            r == self@.id(),
    {
        match self {
            Event::PlaybackStatusChanged { .. } => event_id::PLAYBACK_STATUS_CHANGED,
            Event::TrackChanged { .. } => event_id::TRACK_CHANGED,
            Event::PlaybackPosChanged { .. } => event_id::PLAYBACK_POS_CHANGED,
            Event::PlayerApplicationSettingChanged { .. } => {
                event_id::PLAYER_APPLICATION_SETTING_CHANGED
            },
            Event::NowPlayingContentChanged => event_id::NOW_PLAYING_CONTENT_CHANGED,
            Event::AvailablePlayersChanged => event_id::AVAILABLE_PLAYERS_CHANGED,
            Event::AddressedPlayerChanged { .. } => event_id::ADDRESSED_PLAYER_CHANGED,
            Event::UidsChanged { .. } => event_id::UIDS_CHANGED,
            Event::VolumeChanged { .. } => event_id::VOLUME_CHANGED,
            Event::Generic { event_id, .. } => *event_id,
        }
    }

    /// Serializes this event: its ID followed by its data.
    pub fn to_bytes(&self) -> (r: Vec<u8>)
        ensures
            r@ == self@.bytes(),
    {
        let mut out: Vec<u8> = vec![self.event_id()];
        match self {
            Event::NowPlayingContentChanged => {},
            Event::AvailablePlayersChanged => {},
            Event::PlaybackStatusChanged { play_status } => {
                out.push(*play_status);
            },
            Event::TrackChanged { uid } => {
                bytes::push_be64(&mut out, *uid);
            },
            Event::PlaybackPosChanged { playback_position } => {
                bytes::push_be32(&mut out, *playback_position);
            },
            Event::PlayerApplicationSettingChanged { settings } => {
                items::write_setting_list(&mut out, settings);
            },
            Event::AddressedPlayerChanged { player_id, uid_counter } => {
                bytes::push_be16(&mut out, *player_id);
                bytes::push_be16(&mut out, *uid_counter);
            },
            Event::UidsChanged { uid_counter } => {
                bytes::push_be16(&mut out, *uid_counter);
            },
            Event::VolumeChanged { volume } => {
                out.push(*volume);
            },
            Event::Generic { data, .. } => {
                bytes::push_bytes(&mut out, data);
            },
        }
        assert(out@ =~= self@.bytes());
        out
    }

    /// Parses an event; an unknown ID is kept as [`Event::Generic`].
    pub fn parse(data: &[u8]) -> (r: Option<Event>)
        ensures
            models::opt_view(r) == event_of(data@),
    {
        let mut r = Reader::new(data);
        let event_id: u8 = r.u8()?;
        match event_id {
            event_id::PLAYBACK_STATUS_CHANGED => {
                let play_status: u8 = r.u8()?;
                Some(Event::PlaybackStatusChanged { play_status })
            },
            event_id::TRACK_CHANGED => {
                let uid: u64 = r.u64()?;
                Some(Event::TrackChanged { uid })
            },
            event_id::PLAYBACK_POS_CHANGED => {
                let playback_position: u32 = r.u32()?;
                Some(Event::PlaybackPosChanged { playback_position })
            },
            event_id::PLAYER_APPLICATION_SETTING_CHANGED => {
                let settings = items::read_setting_list(&mut r)?;
                Some(Event::PlayerApplicationSettingChanged { settings })
            },
            event_id::NOW_PLAYING_CONTENT_CHANGED => Some(Event::NowPlayingContentChanged),
            event_id::AVAILABLE_PLAYERS_CHANGED => Some(Event::AvailablePlayersChanged),
            event_id::ADDRESSED_PLAYER_CHANGED => {
                let player_id: u16 = r.u16()?;
                let uid_counter: u16 = r.u16()?;
                Some(Event::AddressedPlayerChanged { player_id, uid_counter })
            },
            event_id::UIDS_CHANGED => {
                let uid_counter: u16 = r.u16()?;
                Some(Event::UidsChanged { uid_counter })
            },
            event_id::VOLUME_CHANGED => {
                let volume: u8 = r.u8()?;
                Some(Event::VolumeChanged { volume })
            },
            _ => Some(Event::Generic { event_id, data: bytes::copy(r.rest()) }),
        }
    }
}

} // verus!
