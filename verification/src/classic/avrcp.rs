//! AVRCP (Audio/Video Remote Control Profile): media remote control over AV/C
//! frames carried by AVCTP with PID [`AVRCP_PID`].
//!
//! The PDU layer lives in [`Command`], [`Response`] and [`Event`]:
//! vendor-dependent AV/C frames whose data is a small header (PDU ID, packet
//! type, parameter length) followed by the parameters of the PDU, reassembled
//! across frames by [`PduAssembler`]. The PDUs of the browsing channel are
//! modeled at the same level, with [`BrowseableItem`] payloads.
//!
//! [`Protocol`] is the state machine of one connection and covers both roles:
//! as a controller it builds command frames and turns responses into
//! [`AvrcpEvent`]s; as a target it answers commands from its media-player
//! state and emits notifications through the `notify_*` methods.

pub mod application_setting_attribute;
pub mod assembler;
pub mod battery_status;
pub mod capability_id;
pub mod character_set_id;
pub mod codec_laws;
pub mod command;
pub mod controller_features;
pub mod direction;
pub mod equalizer_status;
pub mod event;
pub mod event_id;
pub mod exchange_laws;
pub mod finder_laws;
pub mod folder_type;
pub mod item_type;
pub mod items;
pub mod major_player_type;
pub mod media_attribute_id;
pub mod media_element_type;
pub mod packet_laws;
pub mod pdu_id;
pub mod play_status;
pub mod player_feature;
pub mod player_sub_type;
pub mod protocol;
pub mod protocol_laws;
pub mod repeat_mode_status;
pub mod response;
pub mod scan_status;
pub mod scope;
pub mod service;
pub mod shuffle_status;
pub mod state;
pub mod status_code;
pub mod target_features;
pub mod truncation_laws;
pub mod format_laws;
pub mod wire;

pub use assembler::{write_pdu, PduAssembler};
pub use command::Command;
pub use event::Event;
pub use items::{
    ApplicationSetting,
    BrowseableItem,
    CapabilityList,
    FolderItem,
    MediaAttribute,
    MediaElementItem,
    MediaPlayerItem,
    SettingText,
};
pub use protocol::{AvrcpEvent, Protocol};
pub use response::Response;
pub use service::{
    find_controller_services,
    find_target_services,
    ControllerServiceRecord,
    TargetServiceRecord,
};

use vstd::prelude::*;

verus! {

/// AVCTP profile ID of AVRCP: the value of the A/V Remote Control service
/// class UUID.
pub const AVRCP_PID: u16 = 0x110E;

/// Company ID carried in every AVRCP vendor-dependent frame.
pub const BLUETOOTH_SIG_COMPANY_ID: u32 = crate::classic::avc::BLUETOOTH_SIG_COMPANY_ID;

/// Highest absolute volume value: the field is 7 bits, 0x7F is 100%.
pub const MAXIMUM_VOLUME: u8 = 0x7F;

/// UID in TrackChanged that means that no track is selected.
pub const NO_TRACK_UID: u64 = 0xFFFF_FFFF_FFFF_FFFF;

/// Song length or position in GetPlayStatus when the target does not support
/// them.
pub const PLAYBACK_POSITION_UNAVAILABLE: u32 = 0xFFFF_FFFF;

} // verus!
