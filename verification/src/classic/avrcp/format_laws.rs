//! Where the fields of commands, answers and items stand on the wire.

use vstd::prelude::*;
use vstd::utf8;
use crate::bytes;
use crate::classic::avrcp::command::CommandModel;
use crate::classic::avrcp::items;
use crate::classic::avrcp::items::{
    ApplicationSetting,
    BrowseableModel,
    FolderModel,
    MediaAttributeModel,
    MediaElementModel,
    MediaPlayerModel,
    SettingTextModel,
};
use crate::classic::avrcp::response::ResponseModel;
use crate::classic::avrcp::wire;

verus! {

/// A text behind its length in two bytes.
pub open spec fn text(s: Seq<char>) -> Seq<u8> {
    bytes::be16_bytes(utf8::encode_utf8(s).len() as u16) + utf8::encode_utf8(s)
}

/// The numbers of the commands; those of the answers to them are the same.
pub proof fn law_pdu_numbers(c: CommandModel)
    ensures
        c.id() == match c {
            CommandModel::GetCapabilities { .. } => 0x10u8,
            CommandModel::ListPlayerApplicationSettingAttributes => 0x11,
            CommandModel::ListPlayerApplicationSettingValues { .. } => 0x12,
            CommandModel::GetCurrentPlayerApplicationSettingValue { .. } => 0x13,
            CommandModel::SetPlayerApplicationSettingValue { .. } => 0x14,
            CommandModel::GetPlayerApplicationSettingAttributeText { .. } => 0x15,
            CommandModel::GetPlayerApplicationSettingValueText { .. } => 0x16,
            CommandModel::InformDisplayableCharacterSet { .. } => 0x17,
            CommandModel::InformBatteryStatusOfCt { .. } => 0x18,
            CommandModel::GetElementAttributes { .. } => 0x20,
            CommandModel::GetPlayStatus => 0x30,
            CommandModel::RegisterNotification { .. } => 0x31,
            CommandModel::RequestContinuingResponse { .. } => 0x40,
            CommandModel::AbortContinuingResponse { .. } => 0x41,
            CommandModel::SetAbsoluteVolume { .. } => 0x50,
            CommandModel::SetAddressedPlayer { .. } => 0x60,
            CommandModel::SetBrowsedPlayer { .. } => 0x70,
            CommandModel::GetFolderItems { .. } => 0x71,
            CommandModel::ChangePath { .. } => 0x72,
            CommandModel::GetItemAttributes { .. } => 0x73,
            CommandModel::PlayItem { .. } => 0x74,
            CommandModel::GetTotalNumberOfItems { .. } => 0x75,
            CommandModel::Search { .. } => 0x80,
            CommandModel::AddToNowPlaying { .. } => 0x90,
        },
{
}

/// The numbers of the answers.
pub proof fn law_answer_numbers(r: ResponseModel)
    ensures
        r.id() == match r {
            ResponseModel::GetCapabilities { .. } => 0x10u8,
            ResponseModel::ListPlayerApplicationSettingAttributes { .. } => 0x11,
            ResponseModel::ListPlayerApplicationSettingValues { .. } => 0x12,
            ResponseModel::GetCurrentPlayerApplicationSettingValue { .. } => 0x13,
            ResponseModel::SetPlayerApplicationSettingValue => 0x14,
            ResponseModel::GetPlayerApplicationSettingAttributeText { .. } => 0x15,
            ResponseModel::GetPlayerApplicationSettingValueText { .. } => 0x16,
            ResponseModel::InformDisplayableCharacterSet => 0x17,
            ResponseModel::InformBatteryStatusOfCt => 0x18,
            ResponseModel::GetElementAttributes { .. } => 0x20,
            ResponseModel::GetPlayStatus { .. } => 0x30,
            ResponseModel::RegisterNotification { .. } => 0x31,
            ResponseModel::AbortContinuingResponse => 0x41,
            ResponseModel::SetAbsoluteVolume { .. } => 0x50,
            ResponseModel::SetAddressedPlayer { .. } => 0x60,
            ResponseModel::SetBrowsedPlayer { .. } => 0x70,
            ResponseModel::GetFolderItems { .. } => 0x71,
            ResponseModel::ChangePath { .. } => 0x72,
            ResponseModel::GetItemAttributes { .. } => 0x73,
            ResponseModel::PlayItem { .. } => 0x74,
            ResponseModel::GetTotalNumberOfItems { .. } => 0x75,
            ResponseModel::Search { .. } => 0x80,
            ResponseModel::AddToNowPlaying { .. } => 0x90,
        },
{
}

/// A list of IDs stands behind its count, each ID in as many bytes as its kind
/// has.
pub proof fn law_id_lists(narrow: Seq<u8>, medium: Seq<u16>, wide: Seq<u32>, i: int)
    ensures
        wire::u8_list_bytes(narrow) == seq![narrow.len() as u8] + narrow,
        wire::u16_list_bytes(medium).len() == 1 + 2 * medium.len(),
        wire::u16_list_bytes(medium)[0] == medium.len() as u8,
        0 <= i < medium.len() ==> wire::u16_list_bytes(medium).subrange(1 + 2 * i, 3 + 2 * i)
            == bytes::be16_bytes(medium[i]),
        wire::u32_list_bytes(wide).len() == 1 + 4 * wide.len(),
        wire::u32_list_bytes(wide)[0] == wide.len() as u8,
        0 <= i < wide.len() ==> wire::u32_list_bytes(wide).subrange(1 + 4 * i, 5 + 4 * i)
            == bytes::be32_bytes(wide[i]),
{
    lemma_u16s(medium, i);
    lemma_u32s(wide, i);
    if 0 <= i < medium.len() {
        assert(wire::u16_list_bytes(medium).subrange(1 + 2 * i, 3 + 2 * i) =~= wire::u16s_bytes(
            medium,
        ).subrange(2 * i, 2 * i + 2));
    }
    if 0 <= i < wide.len() {
        assert(wire::u32_list_bytes(wide).subrange(1 + 4 * i, 5 + 4 * i) =~= wire::u32s_bytes(
            wide,
        ).subrange(4 * i, 4 * i + 4));
    }
}

proof fn lemma_u16s(list: Seq<u16>, i: int)
    ensures
        wire::u16s_bytes(list).len() == 2 * list.len(),
        0 <= i < list.len() ==> wire::u16s_bytes(list).subrange(2 * i, 2 * i + 2)
            == bytes::be16_bytes(list[i]),
    decreases list.len(),
{
    if list.len() > 0 {
        let front = list.drop_last();
        lemma_u16s(front, i);
        if 0 <= i < front.len() {
            assert(wire::u16s_bytes(list).subrange(2 * i, 2 * i + 2) =~= wire::u16s_bytes(
                front,
            ).subrange(2 * i, 2 * i + 2));
        } else if i == front.len() {
            assert(wire::u16s_bytes(list).subrange(2 * i, 2 * i + 2) =~= bytes::be16_bytes(
                list[i],
            ));
        }
    }
}

proof fn lemma_u32s(list: Seq<u32>, i: int)
    ensures
        wire::u32s_bytes(list).len() == 4 * list.len(),
        0 <= i < list.len() ==> wire::u32s_bytes(list).subrange(4 * i, 4 * i + 4)
            == bytes::be32_bytes(list[i]),
    decreases list.len(),
{
    if list.len() > 0 {
        let front = list.drop_last();
        lemma_u32s(front, i);
        if 0 <= i < front.len() {
            assert(wire::u32s_bytes(list).subrange(4 * i, 4 * i + 4) =~= wire::u32s_bytes(
                front,
            ).subrange(4 * i, 4 * i + 4));
        } else if i == front.len() {
            assert(wire::u32s_bytes(list).subrange(4 * i, 4 * i + 4) =~= bytes::be32_bytes(
                list[i],
            ));
        }
    }
}

/// The parameters of commands for browsing and playing: the scope or the
/// counter first, then the item, then what is asked of it.
pub proof fn law_command_fields(
    scope: u8,
    direction: u8,
    first: u32,
    last: u32,
    uid: u64,
    counter: u16,
    ids: Seq<u32>,
    words: Seq<char>,
)
    ensures
        (CommandModel::GetFolderItems {
            scope,
            start_item: first,
            end_item: last,
            attribute_ids: ids,
        }).parameters() == seq![scope] + bytes::be32_bytes(first) + bytes::be32_bytes(last)
            + wire::u32_list_bytes(ids),
        (CommandModel::ChangePath { uid_counter: counter, direction, folder_uid: uid }).parameters()
            == bytes::be16_bytes(counter) + seq![direction] + bytes::be64_bytes(uid),
        (CommandModel::GetItemAttributes {
            scope,
            uid,
            uid_counter: counter,
            attribute_ids: ids,
        }).parameters() == seq![scope] + bytes::be64_bytes(uid) + bytes::be16_bytes(counter)
            + wire::u32_list_bytes(ids),
        (CommandModel::PlayItem { scope, uid, uid_counter: counter }).parameters() == seq![scope]
            + bytes::be64_bytes(uid) + bytes::be16_bytes(counter),
        (CommandModel::AddToNowPlaying { scope, uid, uid_counter: counter }).parameters() == seq![
            scope,
        ] + bytes::be64_bytes(uid) + bytes::be16_bytes(counter),
        (CommandModel::Search { character_set_id: counter, search_string: words }).parameters()
            == bytes::be16_bytes(counter) + text(words),
        (CommandModel::GetElementAttributes { identifier: uid, attribute_ids: ids }).parameters()
            == bytes::be64_bytes(uid) + wire::u32_list_bytes(ids),
        (CommandModel::RegisterNotification {
            event_id: scope,
            playback_interval: first,
        }).parameters() == seq![scope] + bytes::be32_bytes(first),
        (CommandModel::SetAddressedPlayer { player_id: counter }).parameters()
            == bytes::be16_bytes(counter),
        (CommandModel::SetBrowsedPlayer { player_id: counter }).parameters() == bytes::be16_bytes(
            counter,
        ),
        (CommandModel::GetTotalNumberOfItems { scope }).parameters() == seq![scope],
        (CommandModel::InformBatteryStatusOfCt { battery_status: scope }).parameters() == seq![
            scope,
        ],
{
}

/// The parameters of answers for browsing: the status first, then the counter
/// and how many items there are, then what was asked for.
pub proof fn law_answer_fields(
    status: u8,
    counter: u16,
    count: u32,
    set: u16,
    names: Seq<Seq<char>>,
    list: Seq<BrowseableModel>,
    attributes: Seq<MediaAttributeModel>,
)
    ensures
        (ResponseModel::SetBrowsedPlayer {
            status,
            uid_counter: counter,
            number_of_items: count,
            character_set_id: set,
            folder_names: names,
        }).parameters() == seq![status] + bytes::be16_bytes(counter) + bytes::be32_bytes(count)
            + bytes::be16_bytes(set) + seq![names.len() as u8] + wire::texts_bytes(names),
        (ResponseModel::GetFolderItems {
            status,
            uid_counter: counter,
            items: list,
        }).parameters() == seq![status] + bytes::be16_bytes(counter) + bytes::be16_bytes(
            list.len() as u16,
        ) + items::browseables_bytes(list),
        (ResponseModel::ChangePath { status, number_of_items: count }).parameters() == seq![
            status,
        ] + bytes::be32_bytes(count),
        (ResponseModel::GetItemAttributes { status, attributes }).parameters() == seq![status]
            + items::media_attribute_list_bytes(attributes),
        (ResponseModel::GetTotalNumberOfItems {
            status,
            uid_counter: counter,
            number_of_items: count,
        }).parameters() == seq![status] + bytes::be16_bytes(counter) + bytes::be32_bytes(count),
        (ResponseModel::Search {
            status,
            uid_counter: counter,
            number_of_items: count,
        }).parameters() == seq![status] + bytes::be16_bytes(counter) + bytes::be32_bytes(count),
        (ResponseModel::PlayItem { status }).parameters() == seq![status],
        (ResponseModel::AddToNowPlaying { status }).parameters() == seq![status],
        (ResponseModel::SetAddressedPlayer { status }).parameters() == seq![status],
{
}

/// The fields of items. Each item says what it is, one for a player, two for a
/// folder and three for an element, and how long it is.
pub proof fn law_item_fields(p: MediaPlayerModel, f: FolderModel, e: MediaElementModel)
    ensures
        p.bytes() == bytes::be16_bytes(p.player_id) + seq![p.major_player_type]
            + bytes::le32_bytes(p.player_sub_type) + seq![p.play_status] + bytes::le128_bytes(
            p.features,
        ) + bytes::be16_bytes(p.character_set_id) + text(p.displayable_name),
        f.bytes() == bytes::be64_bytes(f.folder_uid) + seq![
            f.folder_type,
            if f.is_playable {
                1u8
            } else {
                0
            },
        ] + bytes::be16_bytes(f.character_set_id) + text(f.displayable_name),
        e.bytes() == bytes::be64_bytes(e.media_element_uid) + seq![e.media_type]
            + bytes::be16_bytes(e.character_set_id) + text(e.displayable_name)
            + items::media_attribute_list_bytes(e.attributes),
        BrowseableModel::MediaPlayer(p).bytes() == seq![0x01u8] + bytes::be16_bytes(
            p.bytes().len() as u16,
        ) + p.bytes(),
        BrowseableModel::Folder(f).bytes() == seq![0x02u8] + bytes::be16_bytes(
            f.bytes().len() as u16,
        ) + f.bytes(),
        BrowseableModel::MediaElement(e).bytes() == seq![0x03u8] + bytes::be16_bytes(
            e.bytes().len() as u16,
        ) + e.bytes(),
{
}

/// The fields of attributes, of texts about settings and of settings, one
/// behind the other after their count.
pub proof fn law_list_fields(
    attributes: Seq<MediaAttributeModel>,
    a: MediaAttributeModel,
    texts: Seq<SettingTextModel>,
    t: SettingTextModel,
    settings: Seq<ApplicationSetting>,
    s: ApplicationSetting,
    names: Seq<Seq<char>>,
    name: Seq<char>,
    list: Seq<BrowseableModel>,
    item: BrowseableModel,
)
    ensures
        items::media_attribute_list_bytes(attributes.push(a)) == seq![
            (attributes.len() + 1) as u8,
        ] + items::media_attributes_bytes(attributes) + (bytes::be32_bytes(a.attribute_id)
            + bytes::be16_bytes(a.character_set_id) + text(a.value)),
        items::setting_text_list_bytes(texts.push(t)) == seq![(texts.len() + 1) as u8]
            + items::setting_texts_bytes(texts) + (seq![t.id] + bytes::be16_bytes(
            t.character_set_id,
        ) + (seq![utf8::encode_utf8(t.text).len() as u8] + utf8::encode_utf8(t.text))),
        items::setting_list_bytes(settings.push(s)) == seq![(settings.len() + 1) as u8]
            + items::settings_bytes(settings) + seq![s.attribute_id, s.value_id],
        wire::texts_bytes(names.push(name)) == wire::texts_bytes(names) + text(name),
        items::browseables_bytes(list.push(item)) == items::browseables_bytes(list) + item.bytes(),
{
    assert(attributes.push(a).drop_last() =~= attributes);
    assert(texts.push(t).drop_last() =~= texts);
    assert(settings.push(s).drop_last() =~= settings);
    assert(names.push(name).drop_last() =~= names);
    assert(list.push(item).drop_last() =~= list);
    assert(items::media_attribute_list_bytes(attributes.push(a)) =~= seq![
        (attributes.len() + 1) as u8,
    ] + items::media_attributes_bytes(attributes) + a.bytes());
    assert(items::setting_text_list_bytes(texts.push(t)) =~= seq![(texts.len() + 1) as u8]
        + items::setting_texts_bytes(texts) + t.bytes());
    assert(items::setting_list_bytes(settings.push(s)) =~= seq![(settings.len() + 1) as u8]
        + items::settings_bytes(settings) + seq![s.attribute_id, s.value_id]);
}

} // verus!
