//! Command PDUs.

use vstd::prelude::*;
use crate::bytes;
use crate::classic::avrcp::items;
use crate::classic::avrcp::items::ApplicationSetting;
use crate::classic::avrcp::pdu_id;
use crate::classic::avrcp::wire;
use crate::classic::avrcp::wire::Reader;
use crate::models;

verus! {

/// The parameters of one command PDU.
#[derive(Debug, Clone, PartialEq, Eq)]
pub enum Command {
    GetCapabilities { capability_id: u8 },
    ListPlayerApplicationSettingAttributes,
    ListPlayerApplicationSettingValues { attribute_id: u8 },
    GetCurrentPlayerApplicationSettingValue { attribute_ids: Vec<u8> },
    SetPlayerApplicationSettingValue { settings: Vec<ApplicationSetting> },
    GetPlayerApplicationSettingAttributeText { attribute_ids: Vec<u8> },
    GetPlayerApplicationSettingValueText { attribute_id: u8, value_ids: Vec<u8> },
    InformDisplayableCharacterSet { character_set_ids: Vec<u16> },
    InformBatteryStatusOfCt { battery_status: u8 },
    /// An empty list of IDs asks for all attributes.
    GetElementAttributes { identifier: u64, attribute_ids: Vec<u32> },
    GetPlayStatus,
    /// Asks for the next fragment of the response to `continuing_pdu_id`: the
    /// PDU ID of the original command, not of this one.
    RequestContinuingResponse { continuing_pdu_id: u8 },
    /// Says that the rest of the response to `continuing_pdu_id` is not wanted.
    AbortContinuingResponse { continuing_pdu_id: u8 },
    /// The interval, in seconds, matters for the playback position alone.
    RegisterNotification { event_id: u8, playback_interval: u32 },
    SetAbsoluteVolume { volume: u8 },
    SetAddressedPlayer { player_id: u16 },
    SetBrowsedPlayer { player_id: u16 },
    GetFolderItems { scope: u8, start_item: u32, end_item: u32, attribute_ids: Vec<u32> },
    ChangePath { uid_counter: u16, direction: u8, folder_uid: u64 },
    GetItemAttributes { scope: u8, uid: u64, uid_counter: u16, attribute_ids: Vec<u32> },
    GetTotalNumberOfItems { scope: u8 },
    Search { character_set_id: u16, search_string: String },
    PlayItem { scope: u8, uid: u64, uid_counter: u16 },
    AddToNowPlaying { scope: u8, uid: u64, uid_counter: u16 },
}

/// The model of a [`Command`].
#[verifier::ext_equal]
pub enum CommandModel {
    GetCapabilities { capability_id: u8 },
    ListPlayerApplicationSettingAttributes,
    ListPlayerApplicationSettingValues { attribute_id: u8 },
    GetCurrentPlayerApplicationSettingValue { attribute_ids: Seq<u8> },
    SetPlayerApplicationSettingValue { settings: Seq<ApplicationSetting> },
    GetPlayerApplicationSettingAttributeText { attribute_ids: Seq<u8> },
    GetPlayerApplicationSettingValueText { attribute_id: u8, value_ids: Seq<u8> },
    InformDisplayableCharacterSet { character_set_ids: Seq<u16> },
    InformBatteryStatusOfCt { battery_status: u8 },
    GetElementAttributes { identifier: u64, attribute_ids: Seq<u32> },
    GetPlayStatus,
    RequestContinuingResponse { continuing_pdu_id: u8 },
    AbortContinuingResponse { continuing_pdu_id: u8 },
    RegisterNotification { event_id: u8, playback_interval: u32 },
    SetAbsoluteVolume { volume: u8 },
    SetAddressedPlayer { player_id: u16 },
    SetBrowsedPlayer { player_id: u16 },
    GetFolderItems { scope: u8, start_item: u32, end_item: u32, attribute_ids: Seq<u32> },
    ChangePath { uid_counter: u16, direction: u8, folder_uid: u64 },
    GetItemAttributes { scope: u8, uid: u64, uid_counter: u16, attribute_ids: Seq<u32> },
    GetTotalNumberOfItems { scope: u8 },
    Search { character_set_id: u16, search_string: Seq<char> },
    PlayItem { scope: u8, uid: u64, uid_counter: u16 },
    AddToNowPlaying { scope: u8, uid: u64, uid_counter: u16 },
}

impl View for Command {
    type V = CommandModel;

    open spec fn view(&self) -> CommandModel {
        match *self {
            Command::GetCapabilities { capability_id } => {
                CommandModel::GetCapabilities { capability_id }
            },
            Command::ListPlayerApplicationSettingAttributes => {
                CommandModel::ListPlayerApplicationSettingAttributes
            },
            Command::ListPlayerApplicationSettingValues { attribute_id } => {
                CommandModel::ListPlayerApplicationSettingValues { attribute_id }
            },
            Command::GetCurrentPlayerApplicationSettingValue { attribute_ids } => {
                CommandModel::GetCurrentPlayerApplicationSettingValue {
                    attribute_ids: attribute_ids@,
                }
            },
            Command::SetPlayerApplicationSettingValue { settings } => {
                CommandModel::SetPlayerApplicationSettingValue { settings: settings@ }
            },
            Command::GetPlayerApplicationSettingAttributeText { attribute_ids } => {
                CommandModel::GetPlayerApplicationSettingAttributeText {
                    attribute_ids: attribute_ids@,
                }
            },
            Command::GetPlayerApplicationSettingValueText { attribute_id, value_ids } => {
                CommandModel::GetPlayerApplicationSettingValueText {
                    attribute_id,
                    value_ids: value_ids@,
                }
            },
            Command::InformDisplayableCharacterSet { character_set_ids } => {
                CommandModel::InformDisplayableCharacterSet {
                    character_set_ids: character_set_ids@,
                }
            },
            Command::InformBatteryStatusOfCt { battery_status } => {
                CommandModel::InformBatteryStatusOfCt { battery_status }
            },
            Command::GetElementAttributes { identifier, attribute_ids } => {
                CommandModel::GetElementAttributes { identifier, attribute_ids: attribute_ids@ }
            },
            Command::GetPlayStatus => CommandModel::GetPlayStatus,
            Command::RequestContinuingResponse { continuing_pdu_id } => {
                CommandModel::RequestContinuingResponse { continuing_pdu_id }
            },
            Command::AbortContinuingResponse { continuing_pdu_id } => {
                CommandModel::AbortContinuingResponse { continuing_pdu_id }
            },
            Command::RegisterNotification { event_id, playback_interval } => {
                CommandModel::RegisterNotification { event_id, playback_interval }
            },
            Command::SetAbsoluteVolume { volume } => CommandModel::SetAbsoluteVolume { volume },
            Command::SetAddressedPlayer { player_id } => {
                CommandModel::SetAddressedPlayer { player_id }
            },
            Command::SetBrowsedPlayer { player_id } => CommandModel::SetBrowsedPlayer { player_id },
            Command::GetFolderItems { scope, start_item, end_item, attribute_ids } => {
                CommandModel::GetFolderItems {
                    scope,
                    start_item,
                    end_item,
                    attribute_ids: attribute_ids@,
                }
            },
            Command::ChangePath { uid_counter, direction, folder_uid } => {
                CommandModel::ChangePath { uid_counter, direction, folder_uid }
            },
            Command::GetItemAttributes { scope, uid, uid_counter, attribute_ids } => {
                CommandModel::GetItemAttributes {
                    scope,
                    uid,
                    uid_counter,
                    attribute_ids: attribute_ids@,
                }
            },
            Command::GetTotalNumberOfItems { scope } => {
                CommandModel::GetTotalNumberOfItems { scope }
            },
            Command::Search { character_set_id, search_string } => {
                CommandModel::Search { character_set_id, search_string: search_string@ }
            },
            Command::PlayItem { scope, uid, uid_counter } => {
                CommandModel::PlayItem { scope, uid, uid_counter }
            },
            Command::AddToNowPlaying { scope, uid, uid_counter } => {
                CommandModel::AddToNowPlaying { scope, uid, uid_counter }
            },
        }
    }
}

impl CommandModel {
    /// The PDU ID of this command.
    pub open spec fn id(self) -> u8 {
        match self {
            CommandModel::GetCapabilities { .. } => pdu_id::GET_CAPABILITIES,
            CommandModel::ListPlayerApplicationSettingAttributes => {
                pdu_id::LIST_PLAYER_APPLICATION_SETTING_ATTRIBUTES
            },
            CommandModel::ListPlayerApplicationSettingValues { .. } => {
                pdu_id::LIST_PLAYER_APPLICATION_SETTING_VALUES
            },
            CommandModel::GetCurrentPlayerApplicationSettingValue { .. } => {
                pdu_id::GET_CURRENT_PLAYER_APPLICATION_SETTING_VALUE
            },
            CommandModel::SetPlayerApplicationSettingValue { .. } => {
                pdu_id::SET_PLAYER_APPLICATION_SETTING_VALUE
            },
            CommandModel::GetPlayerApplicationSettingAttributeText { .. } => {
                pdu_id::GET_PLAYER_APPLICATION_SETTING_ATTRIBUTE_TEXT
            },
            CommandModel::GetPlayerApplicationSettingValueText { .. } => {
                pdu_id::GET_PLAYER_APPLICATION_SETTING_VALUE_TEXT
            },
            CommandModel::InformDisplayableCharacterSet { .. } => {
                pdu_id::INFORM_DISPLAYABLE_CHARACTER_SET
            },
            CommandModel::InformBatteryStatusOfCt { .. } => pdu_id::INFORM_BATTERY_STATUS_OF_CT,
            CommandModel::GetElementAttributes { .. } => pdu_id::GET_ELEMENT_ATTRIBUTES,
            CommandModel::GetPlayStatus => pdu_id::GET_PLAY_STATUS,
            CommandModel::RequestContinuingResponse { .. } => pdu_id::REQUEST_CONTINUING_RESPONSE,
            CommandModel::AbortContinuingResponse { .. } => pdu_id::ABORT_CONTINUING_RESPONSE,
            CommandModel::RegisterNotification { .. } => pdu_id::REGISTER_NOTIFICATION,
            CommandModel::SetAbsoluteVolume { .. } => pdu_id::SET_ABSOLUTE_VOLUME,
            CommandModel::SetAddressedPlayer { .. } => pdu_id::SET_ADDRESSED_PLAYER,
            CommandModel::SetBrowsedPlayer { .. } => pdu_id::SET_BROWSED_PLAYER,
            CommandModel::GetFolderItems { .. } => pdu_id::GET_FOLDER_ITEMS,
            CommandModel::ChangePath { .. } => pdu_id::CHANGE_PATH,
            CommandModel::GetItemAttributes { .. } => pdu_id::GET_ITEM_ATTRIBUTES,
            CommandModel::GetTotalNumberOfItems { .. } => pdu_id::GET_TOTAL_NUMBER_OF_ITEMS,
            CommandModel::Search { .. } => pdu_id::SEARCH,
            CommandModel::PlayItem { .. } => pdu_id::PLAY_ITEM,
            CommandModel::AddToNowPlaying { .. } => pdu_id::ADD_TO_NOW_PLAYING,
        }
    }

    /// The wire form of the parameters of this command.
    pub open spec fn parameters(self) -> Seq<u8> {
        match self {
            CommandModel::GetCapabilities { capability_id } => seq![capability_id],
            CommandModel::ListPlayerApplicationSettingAttributes => seq![],
            CommandModel::ListPlayerApplicationSettingValues { attribute_id } => seq![attribute_id],
            CommandModel::GetCurrentPlayerApplicationSettingValue { attribute_ids } => {
                wire::u8_list_bytes(attribute_ids)
            },
            CommandModel::SetPlayerApplicationSettingValue { settings } => {
                items::setting_list_bytes(settings)
            },
            CommandModel::GetPlayerApplicationSettingAttributeText { attribute_ids } => {
                wire::u8_list_bytes(attribute_ids)
            },
            CommandModel::GetPlayerApplicationSettingValueText { attribute_id, value_ids } => {
                seq![attribute_id] + wire::u8_list_bytes(value_ids)
            },
            CommandModel::InformDisplayableCharacterSet { character_set_ids } => {
                wire::u16_list_bytes(character_set_ids)
            },
            CommandModel::InformBatteryStatusOfCt { battery_status } => seq![battery_status],
            CommandModel::GetElementAttributes { identifier, attribute_ids } => {
                bytes::be64_bytes(identifier) + wire::u32_list_bytes(attribute_ids)
            },
            CommandModel::GetPlayStatus => seq![],
            CommandModel::RequestContinuingResponse { continuing_pdu_id } => {
                seq![continuing_pdu_id]
            },
            CommandModel::AbortContinuingResponse { continuing_pdu_id } => seq![continuing_pdu_id],
            CommandModel::RegisterNotification { event_id, playback_interval } => {
                seq![event_id] + bytes::be32_bytes(playback_interval)
            },
            CommandModel::SetAbsoluteVolume { volume } => seq![volume],
            CommandModel::SetAddressedPlayer { player_id } => bytes::be16_bytes(player_id),
            CommandModel::SetBrowsedPlayer { player_id } => bytes::be16_bytes(player_id),
            CommandModel::GetFolderItems { scope, start_item, end_item, attribute_ids } => {
                seq![scope] + bytes::be32_bytes(start_item) + bytes::be32_bytes(end_item)
                    + wire::u32_list_bytes(attribute_ids)
            },
            CommandModel::ChangePath { uid_counter, direction, folder_uid } => {
                bytes::be16_bytes(uid_counter) + seq![direction] + bytes::be64_bytes(folder_uid)
            },
            CommandModel::GetItemAttributes { scope, uid, uid_counter, attribute_ids } => {
                seq![scope] + bytes::be64_bytes(uid) + bytes::be16_bytes(uid_counter)
                    + wire::u32_list_bytes(attribute_ids)
            },
            CommandModel::GetTotalNumberOfItems { scope } => seq![scope],
            CommandModel::Search { character_set_id, search_string } => {
                bytes::be16_bytes(character_set_id) + wire::text16_bytes(search_string)
            },
            CommandModel::PlayItem { scope, uid, uid_counter } => {
                seq![scope] + bytes::be64_bytes(uid) + bytes::be16_bytes(uid_counter)
            },
            CommandModel::AddToNowPlaying { scope, uid, uid_counter } => {
                seq![scope] + bytes::be64_bytes(uid) + bytes::be16_bytes(uid_counter)
            },
        }
    }
}

/// The command that parameters encode.
#[verifier::opaque]
pub open spec fn command_of(id: u8, d: Seq<u8>) -> Option<CommandModel> {
    match id {
        pdu_id::GET_CAPABILITIES => if d.len() < 1 {
            None
        } else {
            Some(CommandModel::GetCapabilities { capability_id: d[0] })
        },
        pdu_id::LIST_PLAYER_APPLICATION_SETTING_ATTRIBUTES => {
            Some(CommandModel::ListPlayerApplicationSettingAttributes)
        },
        pdu_id::LIST_PLAYER_APPLICATION_SETTING_VALUES => if d.len() < 1 {
            None
        } else {
            Some(CommandModel::ListPlayerApplicationSettingValues { attribute_id: d[0] })
        },
        pdu_id::GET_CURRENT_PLAYER_APPLICATION_SETTING_VALUE => match wire::u8_list_at(d, 0) {
            None => None,
            Some((attribute_ids, _)) => {
                Some(CommandModel::GetCurrentPlayerApplicationSettingValue { attribute_ids })
            },
        },
        pdu_id::SET_PLAYER_APPLICATION_SETTING_VALUE => match items::setting_list_at(d, 0) {
            None => None,
            Some((settings, _)) => {
                Some(CommandModel::SetPlayerApplicationSettingValue { settings })
            },
        },
        pdu_id::GET_PLAYER_APPLICATION_SETTING_ATTRIBUTE_TEXT => match wire::u8_list_at(d, 0) {
            None => None,
            Some((attribute_ids, _)) => {
                Some(CommandModel::GetPlayerApplicationSettingAttributeText { attribute_ids })
            },
        },
        pdu_id::GET_PLAYER_APPLICATION_SETTING_VALUE_TEXT => if d.len() < 1 {
            None
        } else {
            match wire::u8_list_at(d, 1) {
                None => None,
                Some((value_ids, _)) => {
                    Some(
                        CommandModel::GetPlayerApplicationSettingValueText {
                            attribute_id: d[0],
                            value_ids,
                        },
                    )
                },
            }
        },
        pdu_id::INFORM_DISPLAYABLE_CHARACTER_SET => match wire::u16_list_at(d, 0) {
            None => None,
            Some((character_set_ids, _)) => {
                Some(CommandModel::InformDisplayableCharacterSet { character_set_ids })
            },
        },
        pdu_id::INFORM_BATTERY_STATUS_OF_CT => if d.len() < 1 {
            None
        } else {
            Some(CommandModel::InformBatteryStatusOfCt { battery_status: d[0] })
        },
        pdu_id::GET_ELEMENT_ATTRIBUTES => if d.len() < 8 {
            None
        } else {
            match wire::u32_list_at(d, 8) {
                None => None,
                Some((attribute_ids, _)) => {
                    Some(
                        CommandModel::GetElementAttributes {
                            identifier: bytes::be64(d, 0),
                            attribute_ids,
                        },
                    )
                },
            }
        },
        pdu_id::GET_PLAY_STATUS => Some(CommandModel::GetPlayStatus),
        pdu_id::REQUEST_CONTINUING_RESPONSE => if d.len() < 1 {
            None
        } else {
            Some(CommandModel::RequestContinuingResponse { continuing_pdu_id: d[0] })
        },
        pdu_id::ABORT_CONTINUING_RESPONSE => if d.len() < 1 {
            None
        } else {
            Some(CommandModel::AbortContinuingResponse { continuing_pdu_id: d[0] })
        },
        pdu_id::REGISTER_NOTIFICATION => if d.len() < 5 {
            None
        } else {
            Some(
                CommandModel::RegisterNotification {
                    event_id: d[0],
                    playback_interval: bytes::be32(d, 1),
                },
            )
        },
        pdu_id::SET_ABSOLUTE_VOLUME => if d.len() < 1 {
            None
        } else {
            Some(CommandModel::SetAbsoluteVolume { volume: d[0] })
        },
        pdu_id::SET_ADDRESSED_PLAYER => if d.len() < 2 {
            None
        } else {
            Some(CommandModel::SetAddressedPlayer { player_id: bytes::be16(d, 0) })
        },
        pdu_id::SET_BROWSED_PLAYER => if d.len() < 2 {
            None
        } else {
            Some(CommandModel::SetBrowsedPlayer { player_id: bytes::be16(d, 0) })
        },
        pdu_id::GET_FOLDER_ITEMS => if d.len() < 9 {
            None
        } else {
            match wire::u32_list_at(d, 9) {
                None => None,
                Some((attribute_ids, _)) => {
                    Some(
                        CommandModel::GetFolderItems {
                            scope: d[0],
                            start_item: bytes::be32(d, 1),
                            end_item: bytes::be32(d, 5),
                            attribute_ids,
                        },
                    )
                },
            }
        },
        pdu_id::CHANGE_PATH => if d.len() < 11 {
            None
        } else {
            Some(
                CommandModel::ChangePath {
                    uid_counter: bytes::be16(d, 0),
                    direction: d[2],
                    folder_uid: bytes::be64(d, 3),
                },
            )
        },
        pdu_id::GET_ITEM_ATTRIBUTES => if d.len() < 11 {
            None
        } else {
            match wire::u32_list_at(d, 11) {
                None => None,
                Some((attribute_ids, _)) => {
                    Some(
                        CommandModel::GetItemAttributes {
                            scope: d[0],
                            uid: bytes::be64(d, 1),
                            uid_counter: bytes::be16(d, 9),
                            attribute_ids,
                        },
                    )
                },
            }
        },
        pdu_id::GET_TOTAL_NUMBER_OF_ITEMS => if d.len() < 1 {
            None
        } else {
            Some(CommandModel::GetTotalNumberOfItems { scope: d[0] })
        },
        pdu_id::SEARCH => if d.len() < 2 {
            None
        } else {
            match wire::text16_at(d, 2) {
                None => None,
                Some((search_string, _)) => {
                    Some(
                        CommandModel::Search { character_set_id: bytes::be16(d, 0), search_string },
                    )
                },
            }
        },
        pdu_id::PLAY_ITEM => if d.len() < 11 {
            None
        } else {
            Some(
                CommandModel::PlayItem {
                    scope: d[0],
                    uid: bytes::be64(d, 1),
                    uid_counter: bytes::be16(d, 9),
                },
            )
        },
        pdu_id::ADD_TO_NOW_PLAYING => if d.len() < 11 {
            None
        } else {
            Some(
                CommandModel::AddToNowPlaying {
                    scope: d[0],
                    uid: bytes::be64(d, 1),
                    uid_counter: bytes::be16(d, 9),
                },
            )
        },
        _ => None,
    }
}

impl Command {
    /// The PDU ID of this command.
    pub fn pdu_id(&self) -> (r: u8)
        ensures
            r == self@.id(),
    {
        match self {
            Command::GetCapabilities { .. } => pdu_id::GET_CAPABILITIES,
            Command::ListPlayerApplicationSettingAttributes => {
                pdu_id::LIST_PLAYER_APPLICATION_SETTING_ATTRIBUTES
            },
            Command::ListPlayerApplicationSettingValues { .. } => {
                pdu_id::LIST_PLAYER_APPLICATION_SETTING_VALUES
            },
            Command::GetCurrentPlayerApplicationSettingValue { .. } => {
                pdu_id::GET_CURRENT_PLAYER_APPLICATION_SETTING_VALUE
            },
            Command::SetPlayerApplicationSettingValue { .. } => {
                pdu_id::SET_PLAYER_APPLICATION_SETTING_VALUE
            },
            Command::GetPlayerApplicationSettingAttributeText { .. } => {
                pdu_id::GET_PLAYER_APPLICATION_SETTING_ATTRIBUTE_TEXT
            },
            Command::GetPlayerApplicationSettingValueText { .. } => {
                pdu_id::GET_PLAYER_APPLICATION_SETTING_VALUE_TEXT
            },
            Command::InformDisplayableCharacterSet { .. } => {
                pdu_id::INFORM_DISPLAYABLE_CHARACTER_SET
            },
            Command::InformBatteryStatusOfCt { .. } => pdu_id::INFORM_BATTERY_STATUS_OF_CT,
            Command::GetElementAttributes { .. } => pdu_id::GET_ELEMENT_ATTRIBUTES,
            Command::GetPlayStatus => pdu_id::GET_PLAY_STATUS,
            Command::RequestContinuingResponse { .. } => pdu_id::REQUEST_CONTINUING_RESPONSE,
            Command::AbortContinuingResponse { .. } => pdu_id::ABORT_CONTINUING_RESPONSE,
            Command::RegisterNotification { .. } => pdu_id::REGISTER_NOTIFICATION,
            Command::SetAbsoluteVolume { .. } => pdu_id::SET_ABSOLUTE_VOLUME,
            Command::SetAddressedPlayer { .. } => pdu_id::SET_ADDRESSED_PLAYER,
            Command::SetBrowsedPlayer { .. } => pdu_id::SET_BROWSED_PLAYER,
            Command::GetFolderItems { .. } => pdu_id::GET_FOLDER_ITEMS,
            Command::ChangePath { .. } => pdu_id::CHANGE_PATH,
            Command::GetItemAttributes { .. } => pdu_id::GET_ITEM_ATTRIBUTES,
            Command::GetTotalNumberOfItems { .. } => pdu_id::GET_TOTAL_NUMBER_OF_ITEMS,
            Command::Search { .. } => pdu_id::SEARCH,
            Command::PlayItem { .. } => pdu_id::PLAY_ITEM,
            Command::AddToNowPlaying { .. } => pdu_id::ADD_TO_NOW_PLAYING,
        }
    }

    /// Serializes the parameters (without the PDU header).
    pub fn to_parameters(&self) -> (r: Vec<u8>)
        ensures
            r@ == self@.parameters(),
    {
        let mut out: Vec<u8> = Vec::new();
        match self {
            Command::GetCapabilities { capability_id } => {
                out.push(*capability_id);
            },
            Command::ListPlayerApplicationSettingAttributes => {},
            Command::ListPlayerApplicationSettingValues { attribute_id } => {
                out.push(*attribute_id);
            },
            Command::GetCurrentPlayerApplicationSettingValue { attribute_ids } => {
                wire::write_u8_list(&mut out, attribute_ids);
            },
            Command::SetPlayerApplicationSettingValue { settings } => {
                items::write_setting_list(&mut out, settings);
            },
            Command::GetPlayerApplicationSettingAttributeText { attribute_ids } => {
                wire::write_u8_list(&mut out, attribute_ids);
            },
            Command::GetPlayerApplicationSettingValueText { attribute_id, value_ids } => {
                out.push(*attribute_id);
                wire::write_u8_list(&mut out, value_ids);
            },
            Command::InformDisplayableCharacterSet { character_set_ids } => {
                wire::write_u16_list(&mut out, character_set_ids);
            },
            Command::InformBatteryStatusOfCt { battery_status } => {
                out.push(*battery_status);
            },
            Command::GetElementAttributes { identifier, attribute_ids } => {
                bytes::push_be64(&mut out, *identifier);
                wire::write_u32_list(&mut out, attribute_ids);
            },
            Command::GetPlayStatus => {},
            Command::RequestContinuingResponse { continuing_pdu_id } => {
                out.push(*continuing_pdu_id);
            },
            Command::AbortContinuingResponse { continuing_pdu_id } => {
                out.push(*continuing_pdu_id);
            },
            Command::RegisterNotification { event_id, playback_interval } => {
                out.push(*event_id);
                bytes::push_be32(&mut out, *playback_interval);
            },
            Command::SetAbsoluteVolume { volume } => {
                out.push(*volume);
            },
            Command::SetAddressedPlayer { player_id } => {
                bytes::push_be16(&mut out, *player_id);
            },
            Command::SetBrowsedPlayer { player_id } => {
                bytes::push_be16(&mut out, *player_id);
            },
            Command::GetFolderItems { scope, start_item, end_item, attribute_ids } => {
                out.push(*scope);
                bytes::push_be32(&mut out, *start_item);
                bytes::push_be32(&mut out, *end_item);
                wire::write_u32_list(&mut out, attribute_ids);
            },
            Command::ChangePath { uid_counter, direction, folder_uid } => {
                bytes::push_be16(&mut out, *uid_counter);
                out.push(*direction);
                bytes::push_be64(&mut out, *folder_uid);
            },
            Command::GetItemAttributes { scope, uid, uid_counter, attribute_ids } => {
                out.push(*scope);
                bytes::push_be64(&mut out, *uid);
                bytes::push_be16(&mut out, *uid_counter);
                wire::write_u32_list(&mut out, attribute_ids);
            },
            Command::GetTotalNumberOfItems { scope } => {
                out.push(*scope);
            },
            Command::Search { character_set_id, search_string } => {
                bytes::push_be16(&mut out, *character_set_id);
                wire::put_string16(&mut out, search_string.as_str());
            },
            Command::PlayItem { scope, uid, uid_counter } => {
                out.push(*scope);
                bytes::push_be64(&mut out, *uid);
                bytes::push_be16(&mut out, *uid_counter);
            },
            Command::AddToNowPlaying { scope, uid, uid_counter } => {
                out.push(*scope);
                bytes::push_be64(&mut out, *uid);
                bytes::push_be16(&mut out, *uid_counter);
            },
        }
        assert(out@ =~= self@.parameters());
        out
    }

    /// Parses the parameters of the PDU with ID `pdu_id`.
    pub fn parse(pdu_id: u8, parameters: &[u8]) -> (r: Option<Command>)
        ensures
            models::opt_view(r) == command_of(pdu_id, parameters@),
    {
        reveal(command_of);
        let mut r = Reader::new(parameters);
        match pdu_id {
            pdu_id::GET_CAPABILITIES => {
                let capability_id: u8 = r.u8()?;
                Some(Command::GetCapabilities { capability_id })
            },
            pdu_id::LIST_PLAYER_APPLICATION_SETTING_ATTRIBUTES => {
                Some(Command::ListPlayerApplicationSettingAttributes)
            },
            pdu_id::LIST_PLAYER_APPLICATION_SETTING_VALUES => {
                let attribute_id: u8 = r.u8()?;
                Some(Command::ListPlayerApplicationSettingValues { attribute_id })
            },
            pdu_id::GET_CURRENT_PLAYER_APPLICATION_SETTING_VALUE => {
                let attribute_ids = wire::read_u8_list(&mut r)?;
                Some(Command::GetCurrentPlayerApplicationSettingValue { attribute_ids })
            },
            pdu_id::SET_PLAYER_APPLICATION_SETTING_VALUE => {
                let settings = items::read_setting_list(&mut r)?;
                Some(Command::SetPlayerApplicationSettingValue { settings })
            },
            pdu_id::GET_PLAYER_APPLICATION_SETTING_ATTRIBUTE_TEXT => {
                let attribute_ids = wire::read_u8_list(&mut r)?;
                Some(Command::GetPlayerApplicationSettingAttributeText { attribute_ids })
            },
            pdu_id::GET_PLAYER_APPLICATION_SETTING_VALUE_TEXT => {
                let attribute_id: u8 = r.u8()?;
                let value_ids = wire::read_u8_list(&mut r)?;
                Some(Command::GetPlayerApplicationSettingValueText { attribute_id, value_ids })
            },
            pdu_id::INFORM_DISPLAYABLE_CHARACTER_SET => {
                let character_set_ids = wire::read_u16_list(&mut r)?;
                Some(Command::InformDisplayableCharacterSet { character_set_ids })
            },
            pdu_id::INFORM_BATTERY_STATUS_OF_CT => {
                let battery_status: u8 = r.u8()?;
                Some(Command::InformBatteryStatusOfCt { battery_status })
            },
            pdu_id::GET_ELEMENT_ATTRIBUTES => {
                let identifier: u64 = r.u64()?;
                let attribute_ids = wire::read_u32_list(&mut r)?;
                Some(Command::GetElementAttributes { identifier, attribute_ids })
            },
            pdu_id::GET_PLAY_STATUS => Some(Command::GetPlayStatus),
            pdu_id::REQUEST_CONTINUING_RESPONSE => {
                let continuing_pdu_id: u8 = r.u8()?;
                Some(Command::RequestContinuingResponse { continuing_pdu_id })
            },
            pdu_id::ABORT_CONTINUING_RESPONSE => {
                let continuing_pdu_id: u8 = r.u8()?;
                Some(Command::AbortContinuingResponse { continuing_pdu_id })
            },
            pdu_id::REGISTER_NOTIFICATION => {
                let event_id: u8 = r.u8()?;
                let playback_interval: u32 = r.u32()?;
                Some(Command::RegisterNotification { event_id, playback_interval })
            },
            pdu_id::SET_ABSOLUTE_VOLUME => {
                let volume: u8 = r.u8()?;
                Some(Command::SetAbsoluteVolume { volume })
            },
            pdu_id::SET_ADDRESSED_PLAYER => {
                let player_id: u16 = r.u16()?;
                Some(Command::SetAddressedPlayer { player_id })
            },
            pdu_id::SET_BROWSED_PLAYER => {
                let player_id: u16 = r.u16()?;
                Some(Command::SetBrowsedPlayer { player_id })
            },
            pdu_id::GET_FOLDER_ITEMS => {
                let scope: u8 = r.u8()?;
                let start_item: u32 = r.u32()?;
                let end_item: u32 = r.u32()?;
                let attribute_ids = wire::read_u32_list(&mut r)?;
                Some(Command::GetFolderItems { scope, start_item, end_item, attribute_ids })
            },
            pdu_id::CHANGE_PATH => {
                let uid_counter: u16 = r.u16()?;
                let direction: u8 = r.u8()?;
                let folder_uid: u64 = r.u64()?;
                Some(Command::ChangePath { uid_counter, direction, folder_uid })
            },
            pdu_id::GET_ITEM_ATTRIBUTES => {
                let scope: u8 = r.u8()?;
                let uid: u64 = r.u64()?;
                let uid_counter: u16 = r.u16()?;
                let attribute_ids = wire::read_u32_list(&mut r)?;
                Some(Command::GetItemAttributes { scope, uid, uid_counter, attribute_ids })
            },
            pdu_id::GET_TOTAL_NUMBER_OF_ITEMS => {
                let scope: u8 = r.u8()?;
                Some(Command::GetTotalNumberOfItems { scope })
            },
            pdu_id::SEARCH => {
                let character_set_id: u16 = r.u16()?;
                let search_string = r.string16()?;
                Some(Command::Search { character_set_id, search_string })
            },
            pdu_id::PLAY_ITEM => {
                let scope: u8 = r.u8()?;
                let uid: u64 = r.u64()?;
                let uid_counter: u16 = r.u16()?;
                Some(Command::PlayItem { scope, uid, uid_counter })
            },
            pdu_id::ADD_TO_NOW_PLAYING => {
                let scope: u8 = r.u8()?;
                let uid: u64 = r.u64()?;
                let uid_counter: u16 = r.u16()?;
                Some(Command::AddToNowPlaying { scope, uid, uid_counter })
            },
            _ => None,
        }
    }
}

} // verus!
