//! Response PDUs.

use vstd::prelude::*;
use crate::bytes;
use crate::classic::avrcp::capability_id;
use crate::classic::avrcp::event;
use crate::classic::avrcp::event::{Event, EventModel};
use crate::classic::avrcp::items;
use crate::classic::avrcp::items::{
    ApplicationSetting,
    BrowseableItem,
    BrowseableModel,
    CapabilityList,
    CapabilityModel,
    MediaAttribute,
    MediaAttributeModel,
    SettingText,
    SettingTextModel,
};
use crate::classic::avrcp::pdu_id;
use crate::classic::avrcp::wire;
use crate::classic::avrcp::wire::Reader;
use crate::models;

verus! {

/// The capabilities that parameters encode: a capability ID, and a counted
/// list whose entries it decides on.
pub open spec fn capabilities_of(d: Seq<u8>) -> Option<CapabilityModel> {
    if d.len() < 2 {
        None
    } else if d[0] == capability_id::COMPANY_ID {
        match wire::u24_list_at(d, 1) {
            Some((ids, _)) => Some(CapabilityModel::CompanyIds(ids)),
            None => None,
        }
    } else if d[0] == capability_id::EVENTS_SUPPORTED {
        match wire::u8_list_at(d, 1) {
            Some((ids, _)) => Some(CapabilityModel::EventIds(ids)),
            None => None,
        }
    } else {
        None
    }
}

fn read_capabilities(reader: &mut Reader) -> (r: Option<CapabilityList>)
    requires
        old(reader).pos == 0,
    ensures
        models::opt_view(r) == capabilities_of(old(reader).data@),
{
    let capability_id: u8 = reader.u8()?;
    match capability_id {
        capability_id::COMPANY_ID => {
            let ids = wire::read_u24_list(reader)?;
            Some(CapabilityList::CompanyIds(ids))
        },
        capability_id::EVENTS_SUPPORTED => {
            let ids = wire::read_u8_list(reader)?;
            Some(CapabilityList::EventIds(ids))
        },
        _ => None,
    }
}

/// The parameters of one response PDU, in the shapes of accepted and stable
/// responses. That a command was rejected or is not implemented is told by
/// the AV/C response code.
#[derive(Debug, Clone, PartialEq, Eq)]
pub enum Response {
    GetCapabilities { capabilities: CapabilityList },
    ListPlayerApplicationSettingAttributes { attribute_ids: Vec<u8> },
    ListPlayerApplicationSettingValues { value_ids: Vec<u8> },
    GetCurrentPlayerApplicationSettingValue { settings: Vec<ApplicationSetting> },
    SetPlayerApplicationSettingValue,
    GetPlayerApplicationSettingAttributeText { entries: Vec<SettingText> },
    GetPlayerApplicationSettingValueText { entries: Vec<SettingText> },
    InformDisplayableCharacterSet,
    InformBatteryStatusOfCt,
    GetElementAttributes { attributes: Vec<MediaAttribute> },
    GetPlayStatus { song_length: u32, song_position: u32, play_status: u8 },
    /// The target confirms that it has dropped the rest of a fragmented
    /// response.
    AbortContinuingResponse,
    RegisterNotification { event: Event },
    SetAbsoluteVolume { volume: u8 },
    SetAddressedPlayer { status: u8 },
    SetBrowsedPlayer {
        status: u8,
        uid_counter: u16,
        number_of_items: u32,
        character_set_id: u16,
        folder_names: Vec<String>,
    },
    GetFolderItems { status: u8, uid_counter: u16, items: Vec<BrowseableItem> },
    ChangePath { status: u8, number_of_items: u32 },
    GetItemAttributes { status: u8, attributes: Vec<MediaAttribute> },
    GetTotalNumberOfItems { status: u8, uid_counter: u16, number_of_items: u32 },
    Search { status: u8, uid_counter: u16, number_of_items: u32 },
    PlayItem { status: u8 },
    AddToNowPlaying { status: u8 },
}

/// The model of a [`Response`].
#[verifier::ext_equal]
pub enum ResponseModel {
    GetCapabilities { capabilities: CapabilityModel },
    ListPlayerApplicationSettingAttributes { attribute_ids: Seq<u8> },
    ListPlayerApplicationSettingValues { value_ids: Seq<u8> },
    GetCurrentPlayerApplicationSettingValue { settings: Seq<ApplicationSetting> },
    SetPlayerApplicationSettingValue,
    GetPlayerApplicationSettingAttributeText { entries: Seq<SettingTextModel> },
    GetPlayerApplicationSettingValueText { entries: Seq<SettingTextModel> },
    InformDisplayableCharacterSet,
    InformBatteryStatusOfCt,
    GetElementAttributes { attributes: Seq<MediaAttributeModel> },
    GetPlayStatus { song_length: u32, song_position: u32, play_status: u8 },
    AbortContinuingResponse,
    RegisterNotification { event: EventModel },
    SetAbsoluteVolume { volume: u8 },
    SetAddressedPlayer { status: u8 },
    SetBrowsedPlayer {
        status: u8,
        uid_counter: u16,
        number_of_items: u32,
        character_set_id: u16,
        folder_names: Seq<Seq<char>>,
    },
    GetFolderItems { status: u8, uid_counter: u16, items: Seq<BrowseableModel> },
    ChangePath { status: u8, number_of_items: u32 },
    GetItemAttributes { status: u8, attributes: Seq<MediaAttributeModel> },
    GetTotalNumberOfItems { status: u8, uid_counter: u16, number_of_items: u32 },
    Search { status: u8, uid_counter: u16, number_of_items: u32 },
    PlayItem { status: u8 },
    AddToNowPlaying { status: u8 },
}

impl View for Response {
    type V = ResponseModel;

    open spec fn view(&self) -> ResponseModel {
        match *self {
            Response::GetCapabilities { capabilities } => {
                ResponseModel::GetCapabilities { capabilities: capabilities@ }
            },
            Response::ListPlayerApplicationSettingAttributes { attribute_ids } => {
                ResponseModel::ListPlayerApplicationSettingAttributes {
                    attribute_ids: attribute_ids@,
                }
            },
            Response::ListPlayerApplicationSettingValues { value_ids } => {
                ResponseModel::ListPlayerApplicationSettingValues { value_ids: value_ids@ }
            },
            Response::GetCurrentPlayerApplicationSettingValue { settings } => {
                ResponseModel::GetCurrentPlayerApplicationSettingValue { settings: settings@ }
            },
            Response::SetPlayerApplicationSettingValue => {
                ResponseModel::SetPlayerApplicationSettingValue
            },
            Response::GetPlayerApplicationSettingAttributeText { entries } => {
                ResponseModel::GetPlayerApplicationSettingAttributeText {
                    entries: models::seq_views(entries@),
                }
            },
            Response::GetPlayerApplicationSettingValueText { entries } => {
                ResponseModel::GetPlayerApplicationSettingValueText {
                    entries: models::seq_views(entries@),
                }
            },
            Response::InformDisplayableCharacterSet => ResponseModel::InformDisplayableCharacterSet,
            Response::InformBatteryStatusOfCt => ResponseModel::InformBatteryStatusOfCt,
            Response::GetElementAttributes { attributes } => {
                ResponseModel::GetElementAttributes { attributes: models::seq_views(attributes@) }
            },
            Response::GetPlayStatus { song_length, song_position, play_status } => {
                ResponseModel::GetPlayStatus { song_length, song_position, play_status }
            },
            Response::AbortContinuingResponse => ResponseModel::AbortContinuingResponse,
            Response::RegisterNotification { event } => {
                ResponseModel::RegisterNotification { event: event@ }
            },
            Response::SetAbsoluteVolume { volume } => ResponseModel::SetAbsoluteVolume { volume },
            Response::SetAddressedPlayer { status } => ResponseModel::SetAddressedPlayer { status },
            Response::SetBrowsedPlayer {
                status,
                uid_counter,
                number_of_items,
                character_set_id,
                folder_names,
            } => {
                ResponseModel::SetBrowsedPlayer {
                    status,
                    uid_counter,
                    number_of_items,
                    character_set_id,
                    folder_names: models::seq_views(folder_names@),
                }
            },
            Response::GetFolderItems { status, uid_counter, items } => {
                ResponseModel::GetFolderItems {
                    status,
                    uid_counter,
                    items: models::seq_views(items@),
                }
            },
            Response::ChangePath { status, number_of_items } => {
                ResponseModel::ChangePath { status, number_of_items }
            },
            Response::GetItemAttributes { status, attributes } => {
                ResponseModel::GetItemAttributes {
                    status,
                    attributes: models::seq_views(attributes@),
                }
            },
            Response::GetTotalNumberOfItems { status, uid_counter, number_of_items } => {
                ResponseModel::GetTotalNumberOfItems { status, uid_counter, number_of_items }
            },
            Response::Search { status, uid_counter, number_of_items } => {
                ResponseModel::Search { status, uid_counter, number_of_items }
            },
            Response::PlayItem { status } => ResponseModel::PlayItem { status },
            Response::AddToNowPlaying { status } => ResponseModel::AddToNowPlaying { status },
        }
    }
}

impl ResponseModel {
    /// The PDU ID of this response.
    pub open spec fn id(self) -> u8 {
        match self {
            ResponseModel::GetCapabilities { .. } => pdu_id::GET_CAPABILITIES,
            ResponseModel::ListPlayerApplicationSettingAttributes { .. } => {
                pdu_id::LIST_PLAYER_APPLICATION_SETTING_ATTRIBUTES
            },
            ResponseModel::ListPlayerApplicationSettingValues { .. } => {
                pdu_id::LIST_PLAYER_APPLICATION_SETTING_VALUES
            },
            ResponseModel::GetCurrentPlayerApplicationSettingValue { .. } => {
                pdu_id::GET_CURRENT_PLAYER_APPLICATION_SETTING_VALUE
            },
            ResponseModel::SetPlayerApplicationSettingValue => {
                pdu_id::SET_PLAYER_APPLICATION_SETTING_VALUE
            },
            ResponseModel::GetPlayerApplicationSettingAttributeText { .. } => {
                pdu_id::GET_PLAYER_APPLICATION_SETTING_ATTRIBUTE_TEXT
            },
            ResponseModel::GetPlayerApplicationSettingValueText { .. } => {
                pdu_id::GET_PLAYER_APPLICATION_SETTING_VALUE_TEXT
            },
            ResponseModel::InformDisplayableCharacterSet => {
                pdu_id::INFORM_DISPLAYABLE_CHARACTER_SET
            },
            ResponseModel::InformBatteryStatusOfCt => pdu_id::INFORM_BATTERY_STATUS_OF_CT,
            ResponseModel::GetElementAttributes { .. } => pdu_id::GET_ELEMENT_ATTRIBUTES,
            ResponseModel::GetPlayStatus { .. } => pdu_id::GET_PLAY_STATUS,
            ResponseModel::AbortContinuingResponse => pdu_id::ABORT_CONTINUING_RESPONSE,
            ResponseModel::RegisterNotification { .. } => pdu_id::REGISTER_NOTIFICATION,
            ResponseModel::SetAbsoluteVolume { .. } => pdu_id::SET_ABSOLUTE_VOLUME,
            ResponseModel::SetAddressedPlayer { .. } => pdu_id::SET_ADDRESSED_PLAYER,
            ResponseModel::SetBrowsedPlayer { .. } => pdu_id::SET_BROWSED_PLAYER,
            ResponseModel::GetFolderItems { .. } => pdu_id::GET_FOLDER_ITEMS,
            ResponseModel::ChangePath { .. } => pdu_id::CHANGE_PATH,
            ResponseModel::GetItemAttributes { .. } => pdu_id::GET_ITEM_ATTRIBUTES,
            ResponseModel::GetTotalNumberOfItems { .. } => pdu_id::GET_TOTAL_NUMBER_OF_ITEMS,
            ResponseModel::Search { .. } => pdu_id::SEARCH,
            ResponseModel::PlayItem { .. } => pdu_id::PLAY_ITEM,
            ResponseModel::AddToNowPlaying { .. } => pdu_id::ADD_TO_NOW_PLAYING,
        }
    }

    /// The wire form of the parameters of this response.
    pub open spec fn parameters(self) -> Seq<u8> {
        match self {
            ResponseModel::GetCapabilities { capabilities } => capabilities.bytes(),
            ResponseModel::ListPlayerApplicationSettingAttributes { attribute_ids } => {
                wire::u8_list_bytes(attribute_ids)
            },
            ResponseModel::ListPlayerApplicationSettingValues { value_ids } => {
                wire::u8_list_bytes(value_ids)
            },
            ResponseModel::GetCurrentPlayerApplicationSettingValue { settings } => {
                items::setting_list_bytes(settings)
            },
            ResponseModel::SetPlayerApplicationSettingValue => seq![],
            ResponseModel::GetPlayerApplicationSettingAttributeText { entries } => {
                items::setting_text_list_bytes(entries)
            },
            ResponseModel::GetPlayerApplicationSettingValueText { entries } => {
                items::setting_text_list_bytes(entries)
            },
            ResponseModel::InformDisplayableCharacterSet => seq![],
            ResponseModel::InformBatteryStatusOfCt => seq![],
            ResponseModel::GetElementAttributes { attributes } => {
                items::media_attribute_list_bytes(attributes)
            },
            ResponseModel::GetPlayStatus { song_length, song_position, play_status } => {
                bytes::be32_bytes(song_length) + bytes::be32_bytes(song_position)
                    + seq![play_status]
            },
            ResponseModel::AbortContinuingResponse => seq![],
            ResponseModel::RegisterNotification { event } => event.bytes(),
            ResponseModel::SetAbsoluteVolume { volume } => seq![volume],
            ResponseModel::SetAddressedPlayer { status } => seq![status],
            ResponseModel::SetBrowsedPlayer {
                status,
                uid_counter,
                number_of_items,
                character_set_id,
                folder_names,
            } => {
                seq![status] + bytes::be16_bytes(uid_counter) + bytes::be32_bytes(number_of_items)
                    + bytes::be16_bytes(character_set_id) + seq![folder_names.len() as u8]
                    + wire::texts_bytes(folder_names)
            },
            ResponseModel::GetFolderItems { status, uid_counter, items } => {
                seq![status] + bytes::be16_bytes(uid_counter)
                    + bytes::be16_bytes(items.len() as u16) + items::browseables_bytes(items)
            },
            ResponseModel::ChangePath { status, number_of_items } => {
                seq![status] + bytes::be32_bytes(number_of_items)
            },
            ResponseModel::GetItemAttributes { status, attributes } => {
                seq![status] + items::media_attribute_list_bytes(attributes)
            },
            ResponseModel::GetTotalNumberOfItems { status, uid_counter, number_of_items } => {
                seq![status] + bytes::be16_bytes(uid_counter) + bytes::be32_bytes(number_of_items)
            },
            ResponseModel::Search { status, uid_counter, number_of_items } => {
                seq![status] + bytes::be16_bytes(uid_counter) + bytes::be32_bytes(number_of_items)
            },
            ResponseModel::PlayItem { status } => seq![status],
            ResponseModel::AddToNowPlaying { status } => seq![status],
        }
    }
}

/// The response that parameters encode.
#[verifier::opaque]
pub open spec fn response_of(id: u8, d: Seq<u8>) -> Option<ResponseModel> {
    match id {
        pdu_id::GET_CAPABILITIES => match capabilities_of(d) {
            None => None,
            Some(capabilities) => Some(ResponseModel::GetCapabilities { capabilities }),
        },
        pdu_id::LIST_PLAYER_APPLICATION_SETTING_ATTRIBUTES => match wire::u8_list_at(d, 0) {
            None => None,
            Some((attribute_ids, _)) => {
                Some(ResponseModel::ListPlayerApplicationSettingAttributes { attribute_ids })
            },
        },
        pdu_id::LIST_PLAYER_APPLICATION_SETTING_VALUES => match wire::u8_list_at(d, 0) {
            None => None,
            Some((value_ids, _)) => {
                Some(ResponseModel::ListPlayerApplicationSettingValues { value_ids })
            },
        },
        pdu_id::GET_CURRENT_PLAYER_APPLICATION_SETTING_VALUE => match items::setting_list_at(d, 0) {
            None => None,
            Some((settings, _)) => {
                Some(ResponseModel::GetCurrentPlayerApplicationSettingValue { settings })
            },
        },
        pdu_id::SET_PLAYER_APPLICATION_SETTING_VALUE => {
            Some(ResponseModel::SetPlayerApplicationSettingValue)
        },
        pdu_id::GET_PLAYER_APPLICATION_SETTING_ATTRIBUTE_TEXT => match items::setting_text_list_at(
            d,
            0,
        ) {
            None => None,
            Some((entries, _)) => {
                Some(ResponseModel::GetPlayerApplicationSettingAttributeText { entries })
            },
        },
        pdu_id::GET_PLAYER_APPLICATION_SETTING_VALUE_TEXT => match items::setting_text_list_at(
            d,
            0,
        ) {
            None => None,
            Some((entries, _)) => {
                Some(ResponseModel::GetPlayerApplicationSettingValueText { entries })
            },
        },
        pdu_id::INFORM_DISPLAYABLE_CHARACTER_SET => {
            Some(ResponseModel::InformDisplayableCharacterSet)
        },
        pdu_id::INFORM_BATTERY_STATUS_OF_CT => Some(ResponseModel::InformBatteryStatusOfCt),
        pdu_id::GET_ELEMENT_ATTRIBUTES => match items::media_attribute_list_at(d, 0) {
            None => None,
            Some((attributes, _)) => Some(ResponseModel::GetElementAttributes { attributes }),
        },
        pdu_id::GET_PLAY_STATUS => if d.len() < 9 {
            None
        } else {
            Some(
                ResponseModel::GetPlayStatus {
                    song_length: bytes::be32(d, 0),
                    song_position: bytes::be32(d, 4),
                    play_status: d[8],
                },
            )
        },
        pdu_id::ABORT_CONTINUING_RESPONSE => Some(ResponseModel::AbortContinuingResponse),
        pdu_id::REGISTER_NOTIFICATION => match event::event_of(d) {
            None => None,
            Some(event) => Some(ResponseModel::RegisterNotification { event }),
        },
        pdu_id::SET_ABSOLUTE_VOLUME => if d.len() < 1 {
            None
        } else {
            Some(ResponseModel::SetAbsoluteVolume { volume: d[0] })
        },
        pdu_id::SET_ADDRESSED_PLAYER => if d.len() < 1 {
            None
        } else {
            Some(ResponseModel::SetAddressedPlayer { status: d[0] })
        },
        pdu_id::SET_BROWSED_PLAYER => if d.len() < 10 {
            None
        } else {
            match wire::texts_at(d, 10, d[9] as nat) {
                None => None,
                Some((folder_names, _)) => {
                    Some(
                        ResponseModel::SetBrowsedPlayer {
                            status: d[0],
                            uid_counter: bytes::be16(d, 1),
                            number_of_items: bytes::be32(d, 3),
                            character_set_id: bytes::be16(d, 7),
                            folder_names,
                        },
                    )
                },
            }
        },
        pdu_id::GET_FOLDER_ITEMS => if d.len() < 5 {
            None
        } else {
            match items::browseables_at(d, 5, bytes::be16(d, 3) as nat) {
                None => None,
                Some((items, _)) => {
                    Some(
                        ResponseModel::GetFolderItems {
                            status: d[0],
                            uid_counter: bytes::be16(d, 1),
                            items,
                        },
                    )
                },
            }
        },
        pdu_id::CHANGE_PATH => if d.len() < 5 {
            None
        } else {
            Some(ResponseModel::ChangePath { status: d[0], number_of_items: bytes::be32(d, 1) })
        },
        pdu_id::GET_ITEM_ATTRIBUTES => if d.len() < 1 {
            None
        } else {
            match items::media_attribute_list_at(d, 1) {
                None => None,
                Some((attributes, _)) => {
                    Some(ResponseModel::GetItemAttributes { status: d[0], attributes })
                },
            }
        },
        pdu_id::GET_TOTAL_NUMBER_OF_ITEMS => if d.len() < 7 {
            None
        } else {
            Some(
                ResponseModel::GetTotalNumberOfItems {
                    status: d[0],
                    uid_counter: bytes::be16(d, 1),
                    number_of_items: bytes::be32(d, 3),
                },
            )
        },
        pdu_id::SEARCH => if d.len() < 7 {
            None
        } else {
            Some(
                ResponseModel::Search {
                    status: d[0],
                    uid_counter: bytes::be16(d, 1),
                    number_of_items: bytes::be32(d, 3),
                },
            )
        },
        pdu_id::PLAY_ITEM => if d.len() < 1 {
            None
        } else {
            Some(ResponseModel::PlayItem { status: d[0] })
        },
        pdu_id::ADD_TO_NOW_PLAYING => if d.len() < 1 {
            None
        } else {
            Some(ResponseModel::AddToNowPlaying { status: d[0] })
        },
        _ => None,
    }
}

impl Response {
    /// The PDU ID of this response.
    pub fn pdu_id(&self) -> (r: u8)
        ensures
            r == self@.id(),
    {
        match self {
            Response::GetCapabilities { .. } => pdu_id::GET_CAPABILITIES,
            Response::ListPlayerApplicationSettingAttributes { .. } => {
                pdu_id::LIST_PLAYER_APPLICATION_SETTING_ATTRIBUTES
            },
            Response::ListPlayerApplicationSettingValues { .. } => {
                pdu_id::LIST_PLAYER_APPLICATION_SETTING_VALUES
            },
            Response::GetCurrentPlayerApplicationSettingValue { .. } => {
                pdu_id::GET_CURRENT_PLAYER_APPLICATION_SETTING_VALUE
            },
            Response::SetPlayerApplicationSettingValue => {
                pdu_id::SET_PLAYER_APPLICATION_SETTING_VALUE
            },
            Response::GetPlayerApplicationSettingAttributeText { .. } => {
                pdu_id::GET_PLAYER_APPLICATION_SETTING_ATTRIBUTE_TEXT
            },
            Response::GetPlayerApplicationSettingValueText { .. } => {
                pdu_id::GET_PLAYER_APPLICATION_SETTING_VALUE_TEXT
            },
            Response::InformDisplayableCharacterSet => pdu_id::INFORM_DISPLAYABLE_CHARACTER_SET,
            Response::InformBatteryStatusOfCt => pdu_id::INFORM_BATTERY_STATUS_OF_CT,
            Response::GetElementAttributes { .. } => pdu_id::GET_ELEMENT_ATTRIBUTES,
            Response::GetPlayStatus { .. } => pdu_id::GET_PLAY_STATUS,
            Response::AbortContinuingResponse => pdu_id::ABORT_CONTINUING_RESPONSE,
            Response::RegisterNotification { .. } => pdu_id::REGISTER_NOTIFICATION,
            Response::SetAbsoluteVolume { .. } => pdu_id::SET_ABSOLUTE_VOLUME,
            Response::SetAddressedPlayer { .. } => pdu_id::SET_ADDRESSED_PLAYER,
            Response::SetBrowsedPlayer { .. } => pdu_id::SET_BROWSED_PLAYER,
            Response::GetFolderItems { .. } => pdu_id::GET_FOLDER_ITEMS,
            Response::ChangePath { .. } => pdu_id::CHANGE_PATH,
            Response::GetItemAttributes { .. } => pdu_id::GET_ITEM_ATTRIBUTES,
            Response::GetTotalNumberOfItems { .. } => pdu_id::GET_TOTAL_NUMBER_OF_ITEMS,
            Response::Search { .. } => pdu_id::SEARCH,
            Response::PlayItem { .. } => pdu_id::PLAY_ITEM,
            Response::AddToNowPlaying { .. } => pdu_id::ADD_TO_NOW_PLAYING,
        }
    }

    /// Serializes the parameters (without the PDU header).
    pub fn to_parameters(&self) -> (r: Vec<u8>)
        ensures
            r@ == self@.parameters(),
    {
        let mut out: Vec<u8> = Vec::new();
        match self {
            Response::GetCapabilities { capabilities } => {
                capabilities.write(&mut out);
            },
            Response::ListPlayerApplicationSettingAttributes { attribute_ids } => {
                wire::write_u8_list(&mut out, attribute_ids);
            },
            Response::ListPlayerApplicationSettingValues { value_ids } => {
                wire::write_u8_list(&mut out, value_ids);
            },
            Response::GetCurrentPlayerApplicationSettingValue { settings } => {
                items::write_setting_list(&mut out, settings);
            },
            Response::SetPlayerApplicationSettingValue => {},
            Response::GetPlayerApplicationSettingAttributeText { entries } => {
                items::write_setting_text_list(&mut out, entries);
            },
            Response::GetPlayerApplicationSettingValueText { entries } => {
                items::write_setting_text_list(&mut out, entries);
            },
            Response::InformDisplayableCharacterSet => {},
            Response::InformBatteryStatusOfCt => {},
            Response::GetElementAttributes { attributes } => {
                items::write_media_attribute_list(&mut out, attributes);
            },
            Response::GetPlayStatus { song_length, song_position, play_status } => {
                bytes::push_be32(&mut out, *song_length);
                bytes::push_be32(&mut out, *song_position);
                out.push(*play_status);
            },
            Response::AbortContinuingResponse => {},
            Response::RegisterNotification { event } => {
                bytes::push_bytes(&mut out, &event.to_bytes());
            },
            Response::SetAbsoluteVolume { volume } => {
                out.push(*volume);
            },
            Response::SetAddressedPlayer { status } => {
                out.push(*status);
            },
            Response::SetBrowsedPlayer {
                status,
                uid_counter,
                number_of_items,
                character_set_id,
                folder_names,
            } => {
                out.push(*status);
                bytes::push_be16(&mut out, *uid_counter);
                bytes::push_be32(&mut out, *number_of_items);
                bytes::push_be16(&mut out, *character_set_id);
                out.push(folder_names.len() as u8);
                wire::write_texts(&mut out, folder_names);
            },
            Response::GetFolderItems { status, uid_counter, items } => {
                out.push(*status);
                bytes::push_be16(&mut out, *uid_counter);
                bytes::push_be16(&mut out, items.len() as u16);
                items::write_browseables(&mut out, items);
            },
            Response::ChangePath { status, number_of_items } => {
                out.push(*status);
                bytes::push_be32(&mut out, *number_of_items);
            },
            Response::GetItemAttributes { status, attributes } => {
                out.push(*status);
                items::write_media_attribute_list(&mut out, attributes);
            },
            Response::GetTotalNumberOfItems { status, uid_counter, number_of_items } => {
                out.push(*status);
                bytes::push_be16(&mut out, *uid_counter);
                bytes::push_be32(&mut out, *number_of_items);
            },
            Response::Search { status, uid_counter, number_of_items } => {
                out.push(*status);
                bytes::push_be16(&mut out, *uid_counter);
                bytes::push_be32(&mut out, *number_of_items);
            },
            Response::PlayItem { status } => {
                out.push(*status);
            },
            Response::AddToNowPlaying { status } => {
                out.push(*status);
            },
        }
        assert(out@ =~= self@.parameters());
        out
    }

    /// Parses the parameters of the PDU with ID `pdu_id`.
    pub fn parse(pdu_id: u8, parameters: &[u8]) -> (r: Option<Response>)
        ensures
            models::opt_view(r) == response_of(pdu_id, parameters@),
    {
        reveal(response_of);
        let mut r = Reader::new(parameters);
        match pdu_id {
            pdu_id::GET_CAPABILITIES => {
                let capabilities = read_capabilities(&mut r)?;
                Some(Response::GetCapabilities { capabilities })
            },
            pdu_id::LIST_PLAYER_APPLICATION_SETTING_ATTRIBUTES => {
                let attribute_ids = wire::read_u8_list(&mut r)?;
                Some(Response::ListPlayerApplicationSettingAttributes { attribute_ids })
            },
            pdu_id::LIST_PLAYER_APPLICATION_SETTING_VALUES => {
                let value_ids = wire::read_u8_list(&mut r)?;
                Some(Response::ListPlayerApplicationSettingValues { value_ids })
            },
            pdu_id::GET_CURRENT_PLAYER_APPLICATION_SETTING_VALUE => {
                let settings = items::read_setting_list(&mut r)?;
                Some(Response::GetCurrentPlayerApplicationSettingValue { settings })
            },
            pdu_id::SET_PLAYER_APPLICATION_SETTING_VALUE => {
                Some(Response::SetPlayerApplicationSettingValue)
            },
            pdu_id::GET_PLAYER_APPLICATION_SETTING_ATTRIBUTE_TEXT => {
                let entries = items::read_setting_text_list(&mut r)?;
                Some(Response::GetPlayerApplicationSettingAttributeText { entries })
            },
            pdu_id::GET_PLAYER_APPLICATION_SETTING_VALUE_TEXT => {
                let entries = items::read_setting_text_list(&mut r)?;
                Some(Response::GetPlayerApplicationSettingValueText { entries })
            },
            pdu_id::INFORM_DISPLAYABLE_CHARACTER_SET => {
                Some(Response::InformDisplayableCharacterSet)
            },
            pdu_id::INFORM_BATTERY_STATUS_OF_CT => Some(Response::InformBatteryStatusOfCt),
            pdu_id::GET_ELEMENT_ATTRIBUTES => {
                let attributes = items::read_media_attribute_list(&mut r)?;
                Some(Response::GetElementAttributes { attributes })
            },
            pdu_id::GET_PLAY_STATUS => {
                let song_length: u32 = r.u32()?;
                let song_position: u32 = r.u32()?;
                let play_status: u8 = r.u8()?;
                Some(Response::GetPlayStatus { song_length, song_position, play_status })
            },
            pdu_id::ABORT_CONTINUING_RESPONSE => Some(Response::AbortContinuingResponse),
            pdu_id::REGISTER_NOTIFICATION => {
                assert(parameters@.skip(0) =~= parameters@);
                let event = Event::parse(r.rest())?;
                Some(Response::RegisterNotification { event })
            },
            pdu_id::SET_ABSOLUTE_VOLUME => {
                let volume: u8 = r.u8()?;
                Some(Response::SetAbsoluteVolume { volume })
            },
            pdu_id::SET_ADDRESSED_PLAYER => {
                let status: u8 = r.u8()?;
                Some(Response::SetAddressedPlayer { status })
            },
            pdu_id::SET_BROWSED_PLAYER => {
                let status: u8 = r.u8()?;
                let uid_counter: u16 = r.u16()?;
                let number_of_items: u32 = r.u32()?;
                let character_set_id: u16 = r.u16()?;
                let folder_depth: u8 = r.u8()?;
                let folder_names = wire::read_texts(&mut r, folder_depth)?;
                Some(
                    Response::SetBrowsedPlayer {
                        status,
                        uid_counter,
                        number_of_items,
                        character_set_id,
                        folder_names,
                    },
                )
            },
            pdu_id::GET_FOLDER_ITEMS => {
                let status: u8 = r.u8()?;
                let uid_counter: u16 = r.u16()?;
                let count: u16 = r.u16()?;
                let items = items::read_browseables(&mut r, count)?;
                Some(Response::GetFolderItems { status, uid_counter, items })
            },
            pdu_id::CHANGE_PATH => {
                let status: u8 = r.u8()?;
                let number_of_items: u32 = r.u32()?;
                Some(Response::ChangePath { status, number_of_items })
            },
            pdu_id::GET_ITEM_ATTRIBUTES => {
                let status: u8 = r.u8()?;
                let attributes = items::read_media_attribute_list(&mut r)?;
                Some(Response::GetItemAttributes { status, attributes })
            },
            pdu_id::GET_TOTAL_NUMBER_OF_ITEMS => {
                let status: u8 = r.u8()?;
                let uid_counter: u16 = r.u16()?;
                let number_of_items: u32 = r.u32()?;
                Some(Response::GetTotalNumberOfItems { status, uid_counter, number_of_items })
            },
            pdu_id::SEARCH => {
                let status: u8 = r.u8()?;
                let uid_counter: u16 = r.u16()?;
                let number_of_items: u32 = r.u32()?;
                Some(Response::Search { status, uid_counter, number_of_items })
            },
            pdu_id::PLAY_ITEM => {
                let status: u8 = r.u8()?;
                Some(Response::PlayItem { status })
            },
            pdu_id::ADD_TO_NOW_PLAYING => {
                let status: u8 = r.u8()?;
                Some(Response::AddToNowPlaying { status })
            },
            _ => None,
        }
    }
}

} // verus!
