//! What is written is read back: parameters of commands, responses and events.

use vstd::prelude::*;
use vstd::utf8;
use crate::bytes;
use crate::classic::avrcp::command;
use crate::classic::avrcp::command::CommandModel;
use crate::classic::avrcp::event;
use crate::classic::avrcp::event::EventModel;
use crate::classic::avrcp::event_id;
use crate::classic::avrcp::items;
use crate::classic::avrcp::items::{
    ApplicationSetting,
    BrowseableModel,
    CapabilityModel,
    FolderModel,
    MediaAttributeModel,
    MediaElementModel,
    MediaPlayerModel,
    SettingTextModel,
};
use crate::classic::avrcp::response;
use crate::classic::avrcp::response::ResponseModel;
use crate::classic::avrcp::wire;
use crate::text;

verus! {

// ---------------------------------------------------------------------------
// What fits the length and count fields
// ---------------------------------------------------------------------------

/// Whether the length of a text fits 8 bits.
pub open spec fn fits_text8(s: Seq<char>) -> bool {
    utf8::encode_utf8(s).len() <= 0xFF
}

/// Whether the length of a text fits 16 bits.
pub open spec fn fits_text16(s: Seq<char>) -> bool {
    utf8::encode_utf8(s).len() <= 0xFFFF
}

/// Whether a list of texts fits an 8-bit count and 16-bit lengths.
pub open spec fn fit_texts(list: Seq<Seq<char>>) -> bool {
    &&& list.len() <= 0xFF
    &&& forall|i: int| 0 <= i < list.len() ==> fits_text16(#[trigger] list[i])
}

/// Whether a list of media attributes fits its count and lengths.
pub open spec fn fit_attributes(list: Seq<MediaAttributeModel>) -> bool {
    &&& list.len() <= 0xFF
    &&& forall|i: int| 0 <= i < list.len() ==> fits_text16((#[trigger] list[i]).value)
}

/// Whether a list of setting texts fits its count and lengths.
pub open spec fn fit_setting_texts(list: Seq<SettingTextModel>) -> bool {
    &&& list.len() <= 0xFF
    &&& forall|i: int| 0 <= i < list.len() ==> fits_text8((#[trigger] list[i]).text)
}

/// Whether a browseable item fits its lengths.
pub open spec fn fits_item(item: BrowseableModel) -> bool {
    &&& item.body().len() <= 0xFFFF
    &&& match item {
        BrowseableModel::MediaPlayer(m) => fits_text16(m.displayable_name),
        BrowseableModel::Folder(m) => fits_text16(m.displayable_name),
        BrowseableModel::MediaElement(m) => fits_text16(m.displayable_name) && fit_attributes(
            m.attributes,
        ),
    }
}

/// Whether a list of browseable items fits its count and lengths.
pub open spec fn fit_items(list: Seq<BrowseableModel>) -> bool {
    &&& list.len() <= 0xFFFF
    &&& forall|i: int| 0 <= i < list.len() ==> fits_item(#[trigger] list[i])
}

/// Whether capabilities fit their count, and company IDs 24 bits.
pub open spec fn fits_capabilities(c: CapabilityModel) -> bool {
    match c {
        CapabilityModel::CompanyIds(ids) => ids.len() <= 0xFF && forall|i: int|
            0 <= i < ids.len() ==> #[trigger] ids[i] < 0x100_0000,
        CapabilityModel::EventIds(ids) => ids.len() <= 0xFF,
    }
}

/// Whether an ID has a structured event.
pub open spec fn structured_event(id: u8) -> bool {
    ||| id == event_id::PLAYBACK_STATUS_CHANGED
    ||| id == event_id::TRACK_CHANGED
    ||| id == event_id::PLAYBACK_POS_CHANGED
    ||| id == event_id::PLAYER_APPLICATION_SETTING_CHANGED
    ||| id == event_id::NOW_PLAYING_CONTENT_CHANGED
    ||| id == event_id::AVAILABLE_PLAYERS_CHANGED
    ||| id == event_id::ADDRESSED_PLAYER_CHANGED
    ||| id == event_id::UIDS_CHANGED
    ||| id == event_id::VOLUME_CHANGED
}

/// Whether an event fits its count, and a generic one does not use the ID of
/// a structured one.
pub open spec fn fits_event(e: EventModel) -> bool {
    match e {
        EventModel::PlayerApplicationSettingChanged { settings } => settings.len() <= 0xFF,
        EventModel::Generic { event_id, .. } => !structured_event(event_id),
        _ => true,
    }
}

/// Whether a command fits its counts and lengths.
pub open spec fn fits_command(c: CommandModel) -> bool {
    match c {
        CommandModel::GetCurrentPlayerApplicationSettingValue { attribute_ids } => {
            attribute_ids.len() <= 0xFF
        },
        CommandModel::SetPlayerApplicationSettingValue { settings } => settings.len() <= 0xFF,
        CommandModel::GetPlayerApplicationSettingAttributeText { attribute_ids } => {
            attribute_ids.len() <= 0xFF
        },
        CommandModel::GetPlayerApplicationSettingValueText { value_ids, .. } => value_ids.len()
            <= 0xFF,
        CommandModel::InformDisplayableCharacterSet { character_set_ids } => {
            character_set_ids.len() <= 0xFF
        },
        CommandModel::GetElementAttributes { attribute_ids, .. } => attribute_ids.len() <= 0xFF,
        CommandModel::GetFolderItems { attribute_ids, .. } => attribute_ids.len() <= 0xFF,
        CommandModel::GetItemAttributes { attribute_ids, .. } => attribute_ids.len() <= 0xFF,
        CommandModel::Search { search_string, .. } => fits_text16(search_string),
        _ => true,
    }
}

/// Whether a response fits its counts and lengths.
pub open spec fn fits_response(r: ResponseModel) -> bool {
    match r {
        ResponseModel::GetCapabilities { capabilities } => fits_capabilities(capabilities),
        ResponseModel::ListPlayerApplicationSettingAttributes { attribute_ids } => {
            attribute_ids.len() <= 0xFF
        },
        ResponseModel::ListPlayerApplicationSettingValues { value_ids } => value_ids.len() <= 0xFF,
        ResponseModel::GetCurrentPlayerApplicationSettingValue { settings } => settings.len()
            <= 0xFF,
        ResponseModel::GetPlayerApplicationSettingAttributeText { entries } => fit_setting_texts(
            entries,
        ),
        ResponseModel::GetPlayerApplicationSettingValueText { entries } => fit_setting_texts(
            entries,
        ),
        ResponseModel::GetElementAttributes { attributes } => fit_attributes(attributes),
        ResponseModel::RegisterNotification { event } => fits_event(event),
        ResponseModel::SetBrowsedPlayer { folder_names, .. } => fit_texts(folder_names),
        ResponseModel::GetFolderItems { items, .. } => fit_items(items),
        ResponseModel::GetItemAttributes { attributes, .. } => fit_attributes(attributes),
        _ => true,
    }
}

// ---------------------------------------------------------------------------
// Parts
// ---------------------------------------------------------------------------

broadcast proof fn lemma_stands_two(s: Seq<u8>, p: int, w: Seq<u8>)
    requires
        #[trigger] bytes::stands_at(s, p, w),
        w.len() == 2,
    ensures
        s[p] == w[0],
        s[p + 1] == w[1],
{
    bytes::lemma_stands_index(s, p, w, 0);
    bytes::lemma_stands_index(s, p, w, 1);
}

broadcast proof fn lemma_text8(d: Seq<u8>, p: int, s: Seq<char>)
    requires
        #[trigger] bytes::stands_at(d, p, wire::text8_bytes(s)),
        fits_text8(s),
    ensures
        wire::text8_at(d, p) == Some((s, p + wire::text8_bytes(s).len())),
{
    broadcast use bytes::group_stands;

    text::lemma_text_round_trip(s);
    bytes::lemma_stands_range(d, p + 1, utf8::encode_utf8(s));
}

broadcast proof fn lemma_text16(d: Seq<u8>, p: int, s: Seq<char>)
    requires
        #[trigger] bytes::stands_at(d, p, wire::text16_bytes(s)),
        fits_text16(s),
    ensures
        wire::text16_at(d, p) == Some((s, p + wire::text16_bytes(s).len())),
{
    broadcast use bytes::group_stands;

    text::lemma_text_round_trip(s);
    bytes::lemma_stands_range(d, p + 2, utf8::encode_utf8(s));
}

broadcast proof fn lemma_u8_list(d: Seq<u8>, p: int, list: Seq<u8>)
    requires
        #[trigger] bytes::stands_at(d, p, wire::u8_list_bytes(list)),
        list.len() <= 0xFF,
    ensures
        wire::u8_list_at(d, p) == Some((list, p + 1 + list.len())),
{
    broadcast use bytes::group_stands;

    bytes::lemma_stands_range(d, p + 1, list);
}

proof fn lemma_u16s(d: Seq<u8>, p: int, list: Seq<u16>)
    requires
        bytes::stands_at(d, p, wire::u16s_bytes(list)),
    ensures
        wire::u16s_bytes(list).len() == 2 * list.len(),
        forall|i: int| 0 <= i < list.len() ==> bytes::be16(d, p + 2 * i) == #[trigger] list[i],
    decreases list.len(),
{
    broadcast use bytes::group_stands;

    if list.len() > 0 {
        lemma_u16s(d, p, list.drop_last());
        assert forall|i: int| 0 <= i < list.len() implies bytes::be16(d, p + 2 * i)
            == #[trigger] list[i] by {
            if i < list.len() - 1 {
                assert(list.drop_last()[i] == list[i]);
            }
        }
    }
}

broadcast proof fn lemma_u16_list(d: Seq<u8>, p: int, list: Seq<u16>)
    requires
        #[trigger] bytes::stands_at(d, p, wire::u16_list_bytes(list)),
        list.len() <= 0xFF,
    ensures
        wire::u16_list_at(d, p) == Some((list, p + 1 + 2 * list.len())),
{
    broadcast use bytes::group_stands;

    lemma_u16s(d, p + 1, list);
    assert(Seq::new(d[p] as nat, |i: int| bytes::be16(d, p + 1 + 2 * i)) =~= list);
}

proof fn lemma_u24s(d: Seq<u8>, p: int, list: Seq<u32>)
    requires
        bytes::stands_at(d, p, wire::u24s_bytes(list)),
        forall|i: int| 0 <= i < list.len() ==> #[trigger] list[i] < 0x100_0000,
    ensures
        wire::u24s_bytes(list).len() == 3 * list.len(),
        forall|i: int| 0 <= i < list.len() ==> bytes::be24(d, p + 3 * i) == #[trigger] list[i],
    decreases list.len(),
{
    broadcast use bytes::group_stands;

    if list.len() > 0 {
        assert forall|i: int| 0 <= i < list.len() - 1 implies #[trigger] list.drop_last()[i]
            < 0x100_0000 by {
            assert(list.drop_last()[i] == list[i]);
        }
        lemma_u24s(d, p, list.drop_last());
        assert forall|i: int| 0 <= i < list.len() implies bytes::be24(d, p + 3 * i)
            == #[trigger] list[i] by {
            if i < list.len() - 1 {
                assert(list.drop_last()[i] == list[i]);
            }
        }
    }
}

proof fn lemma_u32s(d: Seq<u8>, p: int, list: Seq<u32>)
    requires
        bytes::stands_at(d, p, wire::u32s_bytes(list)),
    ensures
        wire::u32s_bytes(list).len() == 4 * list.len(),
        forall|i: int| 0 <= i < list.len() ==> bytes::be32(d, p + 4 * i) == #[trigger] list[i],
    decreases list.len(),
{
    broadcast use bytes::group_stands;

    if list.len() > 0 {
        lemma_u32s(d, p, list.drop_last());
        assert forall|i: int| 0 <= i < list.len() implies bytes::be32(d, p + 4 * i)
            == #[trigger] list[i] by {
            if i < list.len() - 1 {
                assert(list.drop_last()[i] == list[i]);
            }
        }
    }
}

broadcast proof fn lemma_u32_list(d: Seq<u8>, p: int, list: Seq<u32>)
    requires
        #[trigger] bytes::stands_at(d, p, wire::u32_list_bytes(list)),
        list.len() <= 0xFF,
    ensures
        wire::u32_list_at(d, p) == Some((list, p + 1 + 4 * list.len())),
{
    broadcast use bytes::group_stands;

    lemma_u32s(d, p + 1, list);
    assert(Seq::new(d[p] as nat, |i: int| bytes::be32(d, p + 1 + 4 * i)) =~= list);
}

proof fn lemma_settings(d: Seq<u8>, p: int, list: Seq<ApplicationSetting>)
    requires
        bytes::stands_at(d, p, items::settings_bytes(list)),
    ensures
        items::settings_bytes(list).len() == 2 * list.len(),
        forall|i: int|
            0 <= i < list.len() ==> (#[trigger] list[i]).attribute_id == d[p + 2 * i]
                && list[i].value_id == d[p + 1 + 2 * i],
    decreases list.len(),
{
    broadcast use bytes::group_stands;
    broadcast use lemma_stands_two;

    if list.len() > 0 {
        lemma_settings(d, p, list.drop_last());
        assert forall|i: int| 0 <= i < list.len() implies (#[trigger] list[i]).attribute_id == d[p
            + 2 * i] && list[i].value_id == d[p + 1 + 2 * i] by {
            if i < list.len() - 1 {
                assert(list.drop_last()[i] == list[i]);
            }
        }
    }
}

broadcast proof fn lemma_setting_list(d: Seq<u8>, p: int, list: Seq<ApplicationSetting>)
    requires
        #[trigger] bytes::stands_at(d, p, items::setting_list_bytes(list)),
        list.len() <= 0xFF,
    ensures
        items::setting_list_at(d, p) == Some((list, p + 1 + 2 * list.len())),
{
    broadcast use bytes::group_stands;

    lemma_settings(d, p + 1, list);
    bytes::lemma_stands_range(d, p + 1, items::settings_bytes(list));
    assert(Seq::new(
        d[p] as nat,
        |i: int|
            ApplicationSetting { attribute_id: d[p + 1 + 2 * i], value_id: d[p + 2 + 2 * i] },
    ) =~= list);
}

/// Texts are read back where they stand, up to where they end.
pub proof fn lemma_texts(d: Seq<u8>, p: int, list: Seq<Seq<char>>)
    requires
        bytes::stands_at(d, p, wire::texts_bytes(list)),
        forall|i: int| 0 <= i < list.len() ==> fits_text16(#[trigger] list[i]),
    ensures
        wire::texts_at(d, p, list.len()) == Some((list, p + wire::texts_bytes(list).len())),
    decreases list.len(),
{
    broadcast use bytes::group_stands;
    broadcast use lemma_text16;

    if list.len() > 0 {
        assert forall|i: int| 0 <= i < list.len() - 1 implies fits_text16(
            #[trigger] list.drop_last()[i],
        ) by {
            assert(list.drop_last()[i] == list[i]);
        }
        lemma_texts(d, p, list.drop_last());
        assert(list.drop_last().push(list.last()) =~= list);
    } else {
        assert(list =~= seq![]);
    }
}

proof fn lemma_media_attributes(d: Seq<u8>, p: int, list: Seq<MediaAttributeModel>)
    requires
        bytes::stands_at(d, p, items::media_attributes_bytes(list)),
        forall|i: int| 0 <= i < list.len() ==> fits_text16((#[trigger] list[i]).value),
    ensures
        items::media_attributes_at(d, p, list.len()) == Some(
            (list, p + items::media_attributes_bytes(list).len()),
        ),
    decreases list.len(),
{
    broadcast use bytes::group_stands;
    broadcast use lemma_text16;

    if list.len() > 0 {
        assert forall|i: int| 0 <= i < list.len() - 1 implies fits_text16(
            (#[trigger] list.drop_last()[i]).value,
        ) by {
            assert(list.drop_last()[i] == list[i]);
        }
        lemma_media_attributes(d, p, list.drop_last());
        assert(list.drop_last().push(list.last()) =~= list);
    } else {
        assert(list =~= seq![]);
    }
}

/// A counted list of media attributes is read back where it stands.
pub broadcast proof fn lemma_media_attribute_list(d: Seq<u8>, p: int, list: Seq<MediaAttributeModel>)
    requires
        #[trigger] bytes::stands_at(d, p, items::media_attribute_list_bytes(list)),
        fit_attributes(list),
    ensures
        items::media_attribute_list_at(d, p) == Some(
            (list, p + items::media_attribute_list_bytes(list).len()),
        ),
{
    broadcast use bytes::group_stands;

    lemma_media_attributes(d, p + 1, list);
}

proof fn lemma_setting_texts(d: Seq<u8>, p: int, list: Seq<SettingTextModel>)
    requires
        bytes::stands_at(d, p, items::setting_texts_bytes(list)),
        forall|i: int| 0 <= i < list.len() ==> fits_text8((#[trigger] list[i]).text),
    ensures
        items::setting_texts_at(d, p, list.len()) == Some(
            (list, p + items::setting_texts_bytes(list).len()),
        ),
    decreases list.len(),
{
    broadcast use bytes::group_stands;
    broadcast use lemma_text8;

    if list.len() > 0 {
        assert forall|i: int| 0 <= i < list.len() - 1 implies fits_text8(
            (#[trigger] list.drop_last()[i]).text,
        ) by {
            assert(list.drop_last()[i] == list[i]);
        }
        lemma_setting_texts(d, p, list.drop_last());
        assert(list.drop_last().push(list.last()) =~= list);
    } else {
        assert(list =~= seq![]);
    }
}

/// A counted list of setting texts is read back where it stands.
pub broadcast proof fn lemma_setting_text_list(d: Seq<u8>, p: int, list: Seq<SettingTextModel>)
    requires
        #[trigger] bytes::stands_at(d, p, items::setting_text_list_bytes(list)),
        fit_setting_texts(list),
    ensures
        items::setting_text_list_at(d, p) == Some(
            (list, p + items::setting_text_list_bytes(list).len()),
        ),
{
    broadcast use bytes::group_stands;

    lemma_setting_texts(d, p + 1, list);
}

#[verifier::rlimit(60)]
#[verifier::spinoff_prover]
proof fn lemma_media_player(m: MediaPlayerModel)
    requires
        fits_text16(m.displayable_name),
    ensures
        items::media_player_of(m.bytes()) == Some(m),
{
    let d = m.bytes();
    let w1 = bytes::be16_bytes(m.player_id);
    let w2 = w1 + seq![m.major_player_type];
    let w3 = w2 + bytes::le32_bytes(m.player_sub_type);
    let w4 = w3 + seq![m.play_status];
    let w5 = w4 + bytes::le128_bytes(m.features);
    let w6 = w5 + bytes::be16_bytes(m.character_set_id);
    bytes::lemma_stands_whole(d);
    bytes::lemma_stands_split(d, 0, w6, wire::text16_bytes(m.displayable_name));
    bytes::lemma_stands_split(d, 0, w5, bytes::be16_bytes(m.character_set_id));
    bytes::lemma_stands_split(d, 0, w4, bytes::le128_bytes(m.features));
    bytes::lemma_stands_split(d, 0, w3, seq![m.play_status]);
    bytes::lemma_stands_split(d, 0, w2, bytes::le32_bytes(m.player_sub_type));
    bytes::lemma_stands_split(d, 0, w1, seq![m.major_player_type]);
    bytes::lemma_stands_be16(d, 0, m.player_id);
    bytes::lemma_stands_byte(d, 2, m.major_player_type);
    bytes::lemma_stands_le32(d, 3, m.player_sub_type);
    bytes::lemma_stands_byte(d, 7, m.play_status);
    bytes::lemma_stands_le128(d, 8, m.features);
    bytes::lemma_stands_be16(d, 24, m.character_set_id);
    lemma_text16(d, 26, m.displayable_name);
}

proof fn lemma_folder(m: FolderModel)
    requires
        fits_text16(m.displayable_name),
    ensures
        items::folder_of(m.bytes()) == Some(m),
{
    let d = m.bytes();
    let flags = seq![m.folder_type, if m.is_playable { 1u8 } else { 0u8 }];
    let w1 = bytes::be64_bytes(m.folder_uid);
    let w2 = w1 + flags;
    let w3 = w2 + bytes::be16_bytes(m.character_set_id);
    bytes::lemma_stands_whole(d);
    bytes::lemma_stands_split(d, 0, w3, wire::text16_bytes(m.displayable_name));
    bytes::lemma_stands_split(d, 0, w2, bytes::be16_bytes(m.character_set_id));
    bytes::lemma_stands_split(d, 0, w1, flags);
    bytes::lemma_stands_be64(d, 0, m.folder_uid);
    lemma_stands_two(d, 8, flags);
    bytes::lemma_stands_be16(d, 10, m.character_set_id);
    lemma_text16(d, 12, m.displayable_name);
}

proof fn lemma_media_element(m: MediaElementModel)
    requires
        fits_text16(m.displayable_name),
        fit_attributes(m.attributes),
    ensures
        items::media_element_of(m.bytes()) == Some(m),
{
    let d = m.bytes();
    let name = wire::text16_bytes(m.displayable_name);
    let w1 = bytes::be64_bytes(m.media_element_uid);
    let w2 = w1 + seq![m.media_type];
    let w3 = w2 + bytes::be16_bytes(m.character_set_id);
    let w4 = w3 + name;
    bytes::lemma_stands_whole(d);
    bytes::lemma_stands_split(d, 0, w4, items::media_attribute_list_bytes(m.attributes));
    bytes::lemma_stands_split(d, 0, w3, name);
    bytes::lemma_stands_split(d, 0, w2, bytes::be16_bytes(m.character_set_id));
    bytes::lemma_stands_split(d, 0, w1, seq![m.media_type]);
    bytes::lemma_stands_be64(d, 0, m.media_element_uid);
    bytes::lemma_stands_byte(d, 8, m.media_type);
    bytes::lemma_stands_be16(d, 9, m.character_set_id);
    lemma_text16(d, 11, m.displayable_name);
    lemma_media_attribute_list(d, 11 + name.len() as int, m.attributes);
}

/// The body of a browseable item is read back.
proof fn lemma_browseable_body(item: BrowseableModel)
    requires
        fits_item(item),
    ensures
        items::browseable_of(item.kind(), item.body()) == Some(item),
{
    match item {
        BrowseableModel::MediaPlayer(m) => {
            lemma_media_player(m);
        },
        BrowseableModel::Folder(m) => {
            lemma_folder(m);
        },
        BrowseableModel::MediaElement(m) => {
            lemma_media_element(m);
        },
    }
}

/// A browseable item is read back where it stands.
proof fn lemma_browseable(d: Seq<u8>, p: int, item: BrowseableModel)
    requires
        fits_item(item),
        bytes::stands_at(d, p, item.bytes()),
    ensures
        items::browseable_at(d, p) == Some((item, p + item.bytes().len())),
{
    let length = bytes::be16_bytes(item.body().len() as u16);
    bytes::lemma_stands_split(d, p, seq![item.kind()] + length, item.body());
    bytes::lemma_stands_split(d, p, seq![item.kind()], length);
    bytes::lemma_stands_byte(d, p, item.kind());
    bytes::lemma_stands_be16(d, p + 1, item.body().len() as u16);
    bytes::lemma_stands_range(d, p + 3, item.body());
    lemma_browseable_body(item);
}

/// Browseable items are read back where they stand, up to where they end.
pub proof fn lemma_browseables(d: Seq<u8>, p: int, list: Seq<BrowseableModel>)
    requires
        bytes::stands_at(d, p, items::browseables_bytes(list)),
        forall|i: int| 0 <= i < list.len() ==> fits_item(#[trigger] list[i]),
    ensures
        items::browseables_at(d, p, list.len()) == Some(
            (list, p + items::browseables_bytes(list).len()),
        ),
    decreases list.len(),
{
    if list.len() > 0 {
        assert forall|i: int| 0 <= i < list.len() - 1 implies fits_item(
            #[trigger] list.drop_last()[i],
        ) by {
            assert(list.drop_last()[i] == list[i]);
        }
        let before = items::browseables_bytes(list.drop_last());
        bytes::lemma_stands_split(d, p, before, list.last().bytes());
        lemma_browseables(d, p, list.drop_last());
        lemma_browseable(d, p + before.len(), list.last());
        assert(list.drop_last().push(list.last()) =~= list);
    } else {
        assert(list =~= seq![]);
    }
}

broadcast group group_parts {
    lemma_stands_two,
    lemma_text16,
    lemma_u8_list,
    lemma_u16_list,
    lemma_u32_list,
    lemma_setting_list,
    lemma_media_attribute_list,
    lemma_setting_text_list,
}

// ---------------------------------------------------------------------------
// Laws
// ---------------------------------------------------------------------------

/// Whether a command is read back from its PDU ID and parameters.
pub open spec fn command_reads_back(c: CommandModel) -> bool {
    command::command_of(c.id(), c.parameters()) == Some(c)
}

proof fn lemma_get_current_player_application_setting_value_command(attribute_ids: Seq<u8>)
    requires
        fits_command(CommandModel::GetCurrentPlayerApplicationSettingValue { attribute_ids }),
    ensures
        command_reads_back(CommandModel::GetCurrentPlayerApplicationSettingValue { attribute_ids }),
{
    reveal(command::command_of);
    let d = CommandModel::GetCurrentPlayerApplicationSettingValue { attribute_ids }.parameters();
    bytes::lemma_stands_whole(d);
    lemma_u8_list(d, 0, attribute_ids);
}

proof fn lemma_set_player_application_setting_value_command(settings: Seq<ApplicationSetting>)
    requires
        fits_command(CommandModel::SetPlayerApplicationSettingValue { settings }),
    ensures
        command_reads_back(CommandModel::SetPlayerApplicationSettingValue { settings }),
{
    reveal(command::command_of);
    let d = CommandModel::SetPlayerApplicationSettingValue { settings }.parameters();
    bytes::lemma_stands_whole(d);
    lemma_setting_list(d, 0, settings);
}

proof fn lemma_get_player_application_setting_attribute_text_command(attribute_ids: Seq<u8>)
    requires
        fits_command(CommandModel::GetPlayerApplicationSettingAttributeText { attribute_ids }),
    ensures
        command_reads_back(
            CommandModel::GetPlayerApplicationSettingAttributeText { attribute_ids },
        ),
{
    reveal(command::command_of);
    let d = CommandModel::GetPlayerApplicationSettingAttributeText { attribute_ids }.parameters();
    bytes::lemma_stands_whole(d);
    lemma_u8_list(d, 0, attribute_ids);
}

proof fn lemma_get_player_application_setting_value_text_command(
    attribute_id: u8,
    value_ids: Seq<u8>,
)
    requires
        fits_command(
            CommandModel::GetPlayerApplicationSettingValueText { attribute_id, value_ids },
        ),
    ensures
        command_reads_back(
            CommandModel::GetPlayerApplicationSettingValueText { attribute_id, value_ids },
        ),
{
    reveal(command::command_of);
    let m = CommandModel::GetPlayerApplicationSettingValueText { attribute_id, value_ids };
    let d = m.parameters();
    bytes::lemma_stands_whole(d);
    bytes::lemma_stands_split(d, 0, seq![attribute_id], wire::u8_list_bytes(value_ids));
    bytes::lemma_stands_byte(d, 0, attribute_id);
    lemma_u8_list(d, 1, value_ids);
}

proof fn lemma_inform_displayable_character_set_command(character_set_ids: Seq<u16>)
    requires
        fits_command(CommandModel::InformDisplayableCharacterSet { character_set_ids }),
    ensures
        command_reads_back(CommandModel::InformDisplayableCharacterSet { character_set_ids }),
{
    reveal(command::command_of);
    let d = CommandModel::InformDisplayableCharacterSet { character_set_ids }.parameters();
    bytes::lemma_stands_whole(d);
    lemma_u16_list(d, 0, character_set_ids);
}

proof fn lemma_get_element_attributes_command(identifier: u64, attribute_ids: Seq<u32>)
    requires
        fits_command(CommandModel::GetElementAttributes { identifier, attribute_ids }),
    ensures
        command_reads_back(CommandModel::GetElementAttributes { identifier, attribute_ids }),
{
    reveal(command::command_of);
    let d = CommandModel::GetElementAttributes { identifier, attribute_ids }.parameters();
    bytes::lemma_stands_whole(d);
    bytes::lemma_stands_split(
        d,
        0,
        bytes::be64_bytes(identifier),
        wire::u32_list_bytes(attribute_ids),
    );
    bytes::lemma_stands_be64(d, 0, identifier);
    lemma_u32_list(d, 8, attribute_ids);
}

proof fn lemma_register_notification_command(event_id: u8, playback_interval: u32)
    requires
        fits_command(CommandModel::RegisterNotification { event_id, playback_interval }),
    ensures
        command_reads_back(CommandModel::RegisterNotification { event_id, playback_interval }),
{
    reveal(command::command_of);
    let d = CommandModel::RegisterNotification { event_id, playback_interval }.parameters();
    bytes::lemma_stands_whole(d);
    bytes::lemma_stands_split(d, 0, seq![event_id], bytes::be32_bytes(playback_interval));
    bytes::lemma_stands_byte(d, 0, event_id);
    bytes::lemma_stands_be32(d, 1, playback_interval);
}

proof fn lemma_get_folder_items_command(
    scope: u8,
    start_item: u32,
    end_item: u32,
    attribute_ids: Seq<u32>,
)
    requires
        fits_command(CommandModel::GetFolderItems { scope, start_item, end_item, attribute_ids }),
    ensures
        command_reads_back(
            CommandModel::GetFolderItems { scope, start_item, end_item, attribute_ids },
        ),
{
    reveal(command::command_of);
    let m = CommandModel::GetFolderItems { scope, start_item, end_item, attribute_ids };
    let d = m.parameters();
    bytes::lemma_stands_whole(d);
    bytes::lemma_stands_split(
        d,
        0,
        seq![scope] + bytes::be32_bytes(start_item) + bytes::be32_bytes(end_item),
        wire::u32_list_bytes(attribute_ids),
    );
    bytes::lemma_stands_split(
        d,
        0,
        seq![scope] + bytes::be32_bytes(start_item),
        bytes::be32_bytes(end_item),
    );
    bytes::lemma_stands_split(d, 0, seq![scope], bytes::be32_bytes(start_item));
    bytes::lemma_stands_byte(d, 0, scope);
    bytes::lemma_stands_be32(d, 1, start_item);
    bytes::lemma_stands_be32(d, 5, end_item);
    lemma_u32_list(d, 9, attribute_ids);
}

proof fn lemma_change_path_command(uid_counter: u16, direction: u8, folder_uid: u64)
    requires
        fits_command(CommandModel::ChangePath { uid_counter, direction, folder_uid }),
    ensures
        command_reads_back(CommandModel::ChangePath { uid_counter, direction, folder_uid }),
{
    reveal(command::command_of);
    let d = CommandModel::ChangePath { uid_counter, direction, folder_uid }.parameters();
    bytes::lemma_stands_whole(d);
    bytes::lemma_stands_split(
        d,
        0,
        bytes::be16_bytes(uid_counter) + seq![direction],
        bytes::be64_bytes(folder_uid),
    );
    bytes::lemma_stands_split(d, 0, bytes::be16_bytes(uid_counter), seq![direction]);
    bytes::lemma_stands_be16(d, 0, uid_counter);
    bytes::lemma_stands_byte(d, 2, direction);
    bytes::lemma_stands_be64(d, 3, folder_uid);
}

proof fn lemma_get_item_attributes_command(
    scope: u8,
    uid: u64,
    uid_counter: u16,
    attribute_ids: Seq<u32>,
)
    requires
        fits_command(CommandModel::GetItemAttributes { scope, uid, uid_counter, attribute_ids }),
    ensures
        command_reads_back(
            CommandModel::GetItemAttributes { scope, uid, uid_counter, attribute_ids },
        ),
{
    reveal(command::command_of);
    let d = CommandModel::GetItemAttributes { scope, uid, uid_counter, attribute_ids }.parameters();
    bytes::lemma_stands_whole(d);
    bytes::lemma_stands_split(
        d,
        0,
        seq![scope] + bytes::be64_bytes(uid) + bytes::be16_bytes(uid_counter),
        wire::u32_list_bytes(attribute_ids),
    );
    bytes::lemma_stands_split(
        d,
        0,
        seq![scope] + bytes::be64_bytes(uid),
        bytes::be16_bytes(uid_counter),
    );
    bytes::lemma_stands_split(d, 0, seq![scope], bytes::be64_bytes(uid));
    bytes::lemma_stands_byte(d, 0, scope);
    bytes::lemma_stands_be64(d, 1, uid);
    bytes::lemma_stands_be16(d, 9, uid_counter);
    lemma_u32_list(d, 11, attribute_ids);
}

proof fn lemma_search_command(character_set_id: u16, search_string: Seq<char>)
    requires
        fits_command(CommandModel::Search { character_set_id, search_string }),
    ensures
        command_reads_back(CommandModel::Search { character_set_id, search_string }),
{
    reveal(command::command_of);
    let d = CommandModel::Search { character_set_id, search_string }.parameters();
    bytes::lemma_stands_whole(d);
    bytes::lemma_stands_split(
        d,
        0,
        bytes::be16_bytes(character_set_id),
        wire::text16_bytes(search_string),
    );
    bytes::lemma_stands_be16(d, 0, character_set_id);
    lemma_text16(d, 2, search_string);
}

proof fn lemma_play_item_command(scope: u8, uid: u64, uid_counter: u16)
    requires
        fits_command(CommandModel::PlayItem { scope, uid, uid_counter }),
    ensures
        command_reads_back(CommandModel::PlayItem { scope, uid, uid_counter }),
{
    reveal(command::command_of);
    let d = CommandModel::PlayItem { scope, uid, uid_counter }.parameters();
    bytes::lemma_stands_whole(d);
    bytes::lemma_stands_split(
        d,
        0,
        seq![scope] + bytes::be64_bytes(uid),
        bytes::be16_bytes(uid_counter),
    );
    bytes::lemma_stands_split(d, 0, seq![scope], bytes::be64_bytes(uid));
    bytes::lemma_stands_byte(d, 0, scope);
    bytes::lemma_stands_be64(d, 1, uid);
    bytes::lemma_stands_be16(d, 9, uid_counter);
}

proof fn lemma_add_to_now_playing_command(scope: u8, uid: u64, uid_counter: u16)
    requires
        fits_command(CommandModel::AddToNowPlaying { scope, uid, uid_counter }),
    ensures
        command_reads_back(CommandModel::AddToNowPlaying { scope, uid, uid_counter }),
{
    reveal(command::command_of);
    let d = CommandModel::AddToNowPlaying { scope, uid, uid_counter }.parameters();
    bytes::lemma_stands_whole(d);
    bytes::lemma_stands_split(
        d,
        0,
        seq![scope] + bytes::be64_bytes(uid),
        bytes::be16_bytes(uid_counter),
    );
    bytes::lemma_stands_split(d, 0, seq![scope], bytes::be64_bytes(uid));
    bytes::lemma_stands_byte(d, 0, scope);
    bytes::lemma_stands_be64(d, 1, uid);
    bytes::lemma_stands_be16(d, 9, uid_counter);
}

/// A command whose counts and lengths fit their fields is read back from its
/// PDU ID and parameters.
pub proof fn law_command_round_trip(c: CommandModel)
    requires
        fits_command(c),
    ensures
        command::command_of(c.id(), c.parameters()) == Some(c),
{
    reveal(command::command_of);
    match c {
        CommandModel::GetCurrentPlayerApplicationSettingValue { attribute_ids } => {
            lemma_get_current_player_application_setting_value_command(attribute_ids);
        },
        CommandModel::SetPlayerApplicationSettingValue { settings } => {
            lemma_set_player_application_setting_value_command(settings);
        },
        CommandModel::GetPlayerApplicationSettingAttributeText { attribute_ids } => {
            lemma_get_player_application_setting_attribute_text_command(attribute_ids);
        },
        CommandModel::GetPlayerApplicationSettingValueText { attribute_id, value_ids } => {
            lemma_get_player_application_setting_value_text_command(attribute_id, value_ids);
        },
        CommandModel::InformDisplayableCharacterSet { character_set_ids } => {
            lemma_inform_displayable_character_set_command(character_set_ids);
        },
        CommandModel::GetElementAttributes { identifier, attribute_ids } => {
            lemma_get_element_attributes_command(identifier, attribute_ids);
        },
        CommandModel::RegisterNotification { event_id, playback_interval } => {
            lemma_register_notification_command(event_id, playback_interval);
        },
        CommandModel::SetAddressedPlayer { player_id } => {
            bytes::lemma_be16_round_trip(player_id);
        },
        CommandModel::SetBrowsedPlayer { player_id } => {
            bytes::lemma_be16_round_trip(player_id);
        },
        CommandModel::GetFolderItems { scope, start_item, end_item, attribute_ids } => {
            lemma_get_folder_items_command(scope, start_item, end_item, attribute_ids);
        },
        CommandModel::ChangePath { uid_counter, direction, folder_uid } => {
            lemma_change_path_command(uid_counter, direction, folder_uid);
        },
        CommandModel::GetItemAttributes { scope, uid, uid_counter, attribute_ids } => {
            lemma_get_item_attributes_command(scope, uid, uid_counter, attribute_ids);
        },
        CommandModel::Search { character_set_id, search_string } => {
            lemma_search_command(character_set_id, search_string);
        },
        CommandModel::PlayItem { scope, uid, uid_counter } => {
            lemma_play_item_command(scope, uid, uid_counter);
        },
        CommandModel::AddToNowPlaying { scope, uid, uid_counter } => {
            lemma_add_to_now_playing_command(scope, uid, uid_counter);
        },
        _ => {},
    }
}

/// An event whose count fits its field is read back from its bytes. A generic
/// event must not use the ID of a structured one.
pub proof fn law_event_round_trip(e: EventModel)
    requires
        fits_event(e),
    ensures
        event::event_of(e.bytes()) == Some(e),
{
    broadcast use bytes::group_stands;
    broadcast use group_parts;

    let d = e.bytes();
    bytes::lemma_stands_whole(d);
    if let EventModel::Generic { data, .. } = e {
        assert(d.skip(1) =~= data);
    }
}

proof fn lemma_capabilities(c: CapabilityModel)
    requires
        fits_capabilities(c),
    ensures
        response::capabilities_of(c.bytes()) == Some(c),
{
    broadcast use bytes::group_stands;
    broadcast use group_parts;

    let d = c.bytes();
    bytes::lemma_stands_whole(d);
    if let CapabilityModel::CompanyIds(ids) = c {
        lemma_u24s(d, 2, ids);
        assert(Seq::new(d[1] as nat, |i: int| bytes::be24(d, 2 + 3 * i)) =~= ids);
    }
}

/// Whether a response is read back from its PDU ID and parameters.
pub open spec fn response_reads_back(r: ResponseModel) -> bool {
    response::response_of(r.id(), r.parameters()) == Some(r)
}

proof fn lemma_list_player_application_setting_attributes_response(attribute_ids: Seq<u8>)
    requires
        fits_response(ResponseModel::ListPlayerApplicationSettingAttributes { attribute_ids }),
    ensures
        response_reads_back(
            ResponseModel::ListPlayerApplicationSettingAttributes { attribute_ids },
        ),
{
    reveal(response::response_of);
    let d = ResponseModel::ListPlayerApplicationSettingAttributes { attribute_ids }.parameters();
    bytes::lemma_stands_whole(d);
    lemma_u8_list(d, 0, attribute_ids);
}

proof fn lemma_list_player_application_setting_values_response(value_ids: Seq<u8>)
    requires
        fits_response(ResponseModel::ListPlayerApplicationSettingValues { value_ids }),
    ensures
        response_reads_back(ResponseModel::ListPlayerApplicationSettingValues { value_ids }),
{
    reveal(response::response_of);
    let d = ResponseModel::ListPlayerApplicationSettingValues { value_ids }.parameters();
    bytes::lemma_stands_whole(d);
    lemma_u8_list(d, 0, value_ids);
}

proof fn lemma_get_current_player_application_setting_value_response(
    settings: Seq<ApplicationSetting>,
)
    requires
        fits_response(ResponseModel::GetCurrentPlayerApplicationSettingValue { settings }),
    ensures
        response_reads_back(ResponseModel::GetCurrentPlayerApplicationSettingValue { settings }),
{
    reveal(response::response_of);
    let d = ResponseModel::GetCurrentPlayerApplicationSettingValue { settings }.parameters();
    bytes::lemma_stands_whole(d);
    lemma_setting_list(d, 0, settings);
}

proof fn lemma_get_player_application_setting_attribute_text_response(
    entries: Seq<SettingTextModel>,
)
    requires
        fits_response(ResponseModel::GetPlayerApplicationSettingAttributeText { entries }),
    ensures
        response_reads_back(ResponseModel::GetPlayerApplicationSettingAttributeText { entries }),
{
    reveal(response::response_of);
    let d = ResponseModel::GetPlayerApplicationSettingAttributeText { entries }.parameters();
    bytes::lemma_stands_whole(d);
    lemma_setting_text_list(d, 0, entries);
}

proof fn lemma_get_player_application_setting_value_text_response(entries: Seq<SettingTextModel>)
    requires
        fits_response(ResponseModel::GetPlayerApplicationSettingValueText { entries }),
    ensures
        response_reads_back(ResponseModel::GetPlayerApplicationSettingValueText { entries }),
{
    reveal(response::response_of);
    let d = ResponseModel::GetPlayerApplicationSettingValueText { entries }.parameters();
    bytes::lemma_stands_whole(d);
    lemma_setting_text_list(d, 0, entries);
}

proof fn lemma_get_element_attributes_response(attributes: Seq<MediaAttributeModel>)
    requires
        fits_response(ResponseModel::GetElementAttributes { attributes }),
    ensures
        response_reads_back(ResponseModel::GetElementAttributes { attributes }),
{
    reveal(response::response_of);
    let d = ResponseModel::GetElementAttributes { attributes }.parameters();
    bytes::lemma_stands_whole(d);
    lemma_media_attribute_list(d, 0, attributes);
}

proof fn lemma_get_play_status_response(song_length: u32, song_position: u32, play_status: u8)
    requires
        fits_response(ResponseModel::GetPlayStatus { song_length, song_position, play_status }),
    ensures
        response_reads_back(
            ResponseModel::GetPlayStatus { song_length, song_position, play_status },
        ),
{
    reveal(response::response_of);
    let d = ResponseModel::GetPlayStatus { song_length, song_position, play_status }.parameters();
    bytes::lemma_stands_whole(d);
    bytes::lemma_stands_split(
        d,
        0,
        bytes::be32_bytes(song_length) + bytes::be32_bytes(song_position),
        seq![play_status],
    );
    bytes::lemma_stands_split(
        d,
        0,
        bytes::be32_bytes(song_length),
        bytes::be32_bytes(song_position),
    );
    bytes::lemma_stands_be32(d, 0, song_length);
    bytes::lemma_stands_be32(d, 4, song_position);
    bytes::lemma_stands_byte(d, 8, play_status);
}

proof fn lemma_set_browsed_player_response(
    status: u8,
    uid_counter: u16,
    number_of_items: u32,
    character_set_id: u16,
    folder_names: Seq<Seq<char>>,
)
    requires
        fits_response(
            ResponseModel::SetBrowsedPlayer {
                status,
                uid_counter,
                number_of_items,
                character_set_id,
                folder_names,
            },
        ),
    ensures
        response_reads_back(
            ResponseModel::SetBrowsedPlayer {
                status,
                uid_counter,
                number_of_items,
                character_set_id,
                folder_names,
            },
        ),
{
    reveal(response::response_of);
    let m = ResponseModel::SetBrowsedPlayer {
        status,
        uid_counter,
        number_of_items,
        character_set_id,
        folder_names,
    };
    let d = m.parameters();
    bytes::lemma_stands_whole(d);
    bytes::lemma_stands_split(
        d,
        0,
        seq![status] + bytes::be16_bytes(uid_counter) + bytes::be32_bytes(number_of_items)
            + bytes::be16_bytes(character_set_id) + seq![folder_names.len() as u8],
        wire::texts_bytes(folder_names),
    );
    bytes::lemma_stands_split(
        d,
        0,
        seq![status] + bytes::be16_bytes(uid_counter) + bytes::be32_bytes(number_of_items)
            + bytes::be16_bytes(character_set_id),
        seq![folder_names.len() as u8],
    );
    bytes::lemma_stands_split(
        d,
        0,
        seq![status] + bytes::be16_bytes(uid_counter) + bytes::be32_bytes(number_of_items),
        bytes::be16_bytes(character_set_id),
    );
    bytes::lemma_stands_split(
        d,
        0,
        seq![status] + bytes::be16_bytes(uid_counter),
        bytes::be32_bytes(number_of_items),
    );
    bytes::lemma_stands_split(d, 0, seq![status], bytes::be16_bytes(uid_counter));
    bytes::lemma_stands_byte(d, 0, status);
    bytes::lemma_stands_be16(d, 1, uid_counter);
    bytes::lemma_stands_be32(d, 3, number_of_items);
    bytes::lemma_stands_be16(d, 7, character_set_id);
    bytes::lemma_stands_byte(d, 9, folder_names.len() as u8);
    lemma_texts(d, 10, folder_names);
}

proof fn lemma_get_folder_items_response(
    status: u8,
    uid_counter: u16,
    items: Seq<BrowseableModel>,
)
    requires
        fits_response(ResponseModel::GetFolderItems { status, uid_counter, items }),
    ensures
        response_reads_back(ResponseModel::GetFolderItems { status, uid_counter, items }),
{
    reveal(response::response_of);
    let d = ResponseModel::GetFolderItems { status, uid_counter, items }.parameters();
    bytes::lemma_stands_whole(d);
    bytes::lemma_stands_split(
        d,
        0,
        seq![status] + bytes::be16_bytes(uid_counter) + bytes::be16_bytes(items.len() as u16),
        items::browseables_bytes(items),
    );
    bytes::lemma_stands_split(
        d,
        0,
        seq![status] + bytes::be16_bytes(uid_counter),
        bytes::be16_bytes(items.len() as u16),
    );
    bytes::lemma_stands_split(d, 0, seq![status], bytes::be16_bytes(uid_counter));
    bytes::lemma_stands_byte(d, 0, status);
    bytes::lemma_stands_be16(d, 1, uid_counter);
    bytes::lemma_stands_be16(d, 3, items.len() as u16);
    lemma_browseables(d, 5, items);
}

proof fn lemma_change_path_response(status: u8, number_of_items: u32)
    requires
        fits_response(ResponseModel::ChangePath { status, number_of_items }),
    ensures
        response_reads_back(ResponseModel::ChangePath { status, number_of_items }),
{
    reveal(response::response_of);
    let d = ResponseModel::ChangePath { status, number_of_items }.parameters();
    bytes::lemma_stands_whole(d);
    bytes::lemma_stands_split(d, 0, seq![status], bytes::be32_bytes(number_of_items));
    bytes::lemma_stands_byte(d, 0, status);
    bytes::lemma_stands_be32(d, 1, number_of_items);
}

proof fn lemma_get_item_attributes_response(status: u8, attributes: Seq<MediaAttributeModel>)
    requires
        fits_response(ResponseModel::GetItemAttributes { status, attributes }),
    ensures
        response_reads_back(ResponseModel::GetItemAttributes { status, attributes }),
{
    reveal(response::response_of);
    let d = ResponseModel::GetItemAttributes { status, attributes }.parameters();
    bytes::lemma_stands_whole(d);
    bytes::lemma_stands_split(d, 0, seq![status], items::media_attribute_list_bytes(attributes));
    bytes::lemma_stands_byte(d, 0, status);
    lemma_media_attribute_list(d, 1, attributes);
}

proof fn lemma_get_total_number_of_items_response(
    status: u8,
    uid_counter: u16,
    number_of_items: u32,
)
    requires
        fits_response(
            ResponseModel::GetTotalNumberOfItems { status, uid_counter, number_of_items },
        ),
    ensures
        response_reads_back(
            ResponseModel::GetTotalNumberOfItems { status, uid_counter, number_of_items },
        ),
{
    reveal(response::response_of);
    let m = ResponseModel::GetTotalNumberOfItems { status, uid_counter, number_of_items };
    let d = m.parameters();
    bytes::lemma_stands_whole(d);
    bytes::lemma_stands_split(
        d,
        0,
        seq![status] + bytes::be16_bytes(uid_counter),
        bytes::be32_bytes(number_of_items),
    );
    bytes::lemma_stands_split(d, 0, seq![status], bytes::be16_bytes(uid_counter));
    bytes::lemma_stands_byte(d, 0, status);
    bytes::lemma_stands_be16(d, 1, uid_counter);
    bytes::lemma_stands_be32(d, 3, number_of_items);
}

proof fn lemma_search_response(status: u8, uid_counter: u16, number_of_items: u32)
    requires
        fits_response(ResponseModel::Search { status, uid_counter, number_of_items }),
    ensures
        response_reads_back(ResponseModel::Search { status, uid_counter, number_of_items }),
{
    reveal(response::response_of);
    let d = ResponseModel::Search { status, uid_counter, number_of_items }.parameters();
    bytes::lemma_stands_whole(d);
    bytes::lemma_stands_split(
        d,
        0,
        seq![status] + bytes::be16_bytes(uid_counter),
        bytes::be32_bytes(number_of_items),
    );
    bytes::lemma_stands_split(d, 0, seq![status], bytes::be16_bytes(uid_counter));
    bytes::lemma_stands_byte(d, 0, status);
    bytes::lemma_stands_be16(d, 1, uid_counter);
    bytes::lemma_stands_be32(d, 3, number_of_items);
}

/// A response whose counts and lengths fit their fields is read back from its
/// PDU ID and parameters.
pub proof fn law_response_round_trip(r: ResponseModel)
    requires
        fits_response(r),
    ensures
        response::response_of(r.id(), r.parameters()) == Some(r),
{
    reveal(response::response_of);
    match r {
        ResponseModel::GetCapabilities { capabilities } => {
            lemma_capabilities(capabilities);
        },
        ResponseModel::RegisterNotification { event } => {
            law_event_round_trip(event);
        },
        ResponseModel::ListPlayerApplicationSettingAttributes { attribute_ids } => {
            lemma_list_player_application_setting_attributes_response(attribute_ids);
        },
        ResponseModel::ListPlayerApplicationSettingValues { value_ids } => {
            lemma_list_player_application_setting_values_response(value_ids);
        },
        ResponseModel::GetCurrentPlayerApplicationSettingValue { settings } => {
            lemma_get_current_player_application_setting_value_response(settings);
        },
        ResponseModel::GetPlayerApplicationSettingAttributeText { entries } => {
            lemma_get_player_application_setting_attribute_text_response(entries);
        },
        ResponseModel::GetPlayerApplicationSettingValueText { entries } => {
            lemma_get_player_application_setting_value_text_response(entries);
        },
        ResponseModel::GetElementAttributes { attributes } => {
            lemma_get_element_attributes_response(attributes);
        },
        ResponseModel::GetPlayStatus { song_length, song_position, play_status } => {
            lemma_get_play_status_response(song_length, song_position, play_status);
        },
        ResponseModel::SetBrowsedPlayer {
            status,
            uid_counter,
            number_of_items,
            character_set_id,
            folder_names,
        } => {
            lemma_set_browsed_player_response(
                status,
                uid_counter,
                number_of_items,
                character_set_id,
                folder_names,
            );
        },
        ResponseModel::GetFolderItems { status, uid_counter, items } => {
            lemma_get_folder_items_response(status, uid_counter, items);
        },
        ResponseModel::ChangePath { status, number_of_items } => {
            lemma_change_path_response(status, number_of_items);
        },
        ResponseModel::GetItemAttributes { status, attributes } => {
            lemma_get_item_attributes_response(status, attributes);
        },
        ResponseModel::GetTotalNumberOfItems { status, uid_counter, number_of_items } => {
            lemma_get_total_number_of_items_response(status, uid_counter, number_of_items);
        },
        ResponseModel::Search { status, uid_counter, number_of_items } => {
            lemma_search_response(status, uid_counter, number_of_items);
        },
        _ => {},
    }
}

} // verus!
