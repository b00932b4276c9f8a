//! Parameters that are cut short are refused.

use vstd::prelude::*;
use vstd::utf8;
use crate::bytes;
use crate::classic::avrcp::codec_laws;
use crate::classic::avrcp::command;
use crate::classic::avrcp::command::CommandModel;
use crate::classic::avrcp::event::EventModel;
use crate::classic::avrcp::items;
use crate::classic::avrcp::items::{
    ApplicationSetting,
    BrowseableModel,
    CapabilityModel,
    MediaAttributeModel,
    SettingTextModel,
};
use crate::classic::avrcp::response;
use crate::classic::avrcp::response::ResponseModel;
use crate::classic::avrcp::wire;

verus! {

// ---------------------------------------------------------------------------
// Sizes
// ---------------------------------------------------------------------------

/// Two bytes to a 16-bit integer.
proof fn lemma_u16s_size(list: Seq<u16>)
    ensures
        wire::u16s_bytes(list).len() == 2 * list.len(),
    decreases list.len(),
{
    if list.len() > 0 {
        lemma_u16s_size(list.drop_last());
    }
}

/// Four bytes to a 32-bit integer.
proof fn lemma_u32s_size(list: Seq<u32>)
    ensures
        wire::u32s_bytes(list).len() == 4 * list.len(),
    decreases list.len(),
{
    if list.len() > 0 {
        lemma_u32s_size(list.drop_last());
    }
}

/// Two bytes to a setting.
proof fn lemma_settings_size(list: Seq<ApplicationSetting>)
    ensures
        items::settings_bytes(list).len() == 2 * list.len(),
    decreases list.len(),
{
    if list.len() > 0 {
        lemma_settings_size(list.drop_last());
    }
}

// ---------------------------------------------------------------------------
// Parts
// ---------------------------------------------------------------------------

/// A counted list of bytes that is cut short.
proof fn lemma_u8_list_cut(before: Seq<u8>, list: Seq<u8>, kept: int)
    requires
        list.len() <= 0xFF,
        0 <= kept < before.len() + wire::u8_list_bytes(list).len(),
    ensures
        wire::u8_list_at(
            (before + wire::u8_list_bytes(list)).take(kept),
            before.len() as int,
        ) is None,
{
    let d = before + wire::u8_list_bytes(list);
    assert(d[before.len() as int] == list.len());
}

/// A counted list of 16-bit integers that is cut short.
proof fn lemma_u16_list_cut(before: Seq<u8>, list: Seq<u16>, kept: int)
    requires
        list.len() <= 0xFF,
        0 <= kept < before.len() + wire::u16_list_bytes(list).len(),
    ensures
        wire::u16_list_at(
            (before + wire::u16_list_bytes(list)).take(kept),
            before.len() as int,
        ) is None,
{
    let d = before + wire::u16_list_bytes(list);
    lemma_u16s_size(list);
    assert(d[before.len() as int] == list.len());
}

/// A counted list of 32-bit integers that is cut short.
proof fn lemma_u32_list_cut(before: Seq<u8>, list: Seq<u32>, kept: int)
    requires
        list.len() <= 0xFF,
        0 <= kept < before.len() + wire::u32_list_bytes(list).len(),
    ensures
        wire::u32_list_at(
            (before + wire::u32_list_bytes(list)).take(kept),
            before.len() as int,
        ) is None,
{
    let d = before + wire::u32_list_bytes(list);
    lemma_u32s_size(list);
    assert(d[before.len() as int] == list.len());
}

/// A counted list of settings that is cut short.
proof fn lemma_setting_list_cut(before: Seq<u8>, list: Seq<ApplicationSetting>, kept: int)
    requires
        list.len() <= 0xFF,
        0 <= kept < before.len() + items::setting_list_bytes(list).len(),
    ensures
        items::setting_list_at(
            (before + items::setting_list_bytes(list)).take(kept),
            before.len() as int,
        ) is None,
{
    let d = before + items::setting_list_bytes(list);
    lemma_settings_size(list);
    assert(d[before.len() as int] == list.len());
}

/// A text with a 16-bit length that is cut short.
proof fn lemma_text16_cut(before: Seq<u8>, s: Seq<char>, kept: int)
    requires
        codec_laws::fits_text16(s),
        0 <= kept < before.len() + wire::text16_bytes(s).len(),
    ensures
        wire::text16_at(
            (before + wire::text16_bytes(s)).take(kept),
            before.len() as int,
        ) is None,
{
    let d = before + wire::text16_bytes(s);
    let n = utf8::encode_utf8(s).len() as u16;
    let at = before.len() as int;
    bytes::lemma_be16_round_trip(n);
    assert(d[at] == bytes::be16_bytes(n)[0]);
    assert(d[at + 1] == bytes::be16_bytes(n)[1]);
}

// ---------------------------------------------------------------------------
// Commands
// ---------------------------------------------------------------------------

/// Whether a command is refused when only the first bytes of its parameters
/// are there.
pub open spec fn refused_at(c: CommandModel, kept: int) -> bool {
    command::command_of(c.id(), c.parameters().take(kept)) is None
}

proof fn lemma_get_current_setting_cut(c: CommandModel, kept: int)
    requires
        c is GetCurrentPlayerApplicationSettingValue,
        codec_laws::fits_command(c),
        0 <= kept < c.parameters().len(),
    ensures
        refused_at(c, kept),
{
    reveal(command::command_of);
    if let CommandModel::GetCurrentPlayerApplicationSettingValue { attribute_ids } = c {
        let before = Seq::<u8>::empty();
        assert(before + wire::u8_list_bytes(attribute_ids) =~= c.parameters());
        lemma_u8_list_cut(before, attribute_ids, kept);
    }
}

proof fn lemma_set_setting_cut(c: CommandModel, kept: int)
    requires
        c is SetPlayerApplicationSettingValue,
        codec_laws::fits_command(c),
        0 <= kept < c.parameters().len(),
    ensures
        refused_at(c, kept),
{
    reveal(command::command_of);
    if let CommandModel::SetPlayerApplicationSettingValue { settings } = c {
        let before = Seq::<u8>::empty();
        assert(before + items::setting_list_bytes(settings) =~= c.parameters());
        lemma_setting_list_cut(before, settings, kept);
    }
}

proof fn lemma_attribute_text_cut(c: CommandModel, kept: int)
    requires
        c is GetPlayerApplicationSettingAttributeText,
        codec_laws::fits_command(c),
        0 <= kept < c.parameters().len(),
    ensures
        refused_at(c, kept),
{
    reveal(command::command_of);
    if let CommandModel::GetPlayerApplicationSettingAttributeText { attribute_ids } = c {
        let before = Seq::<u8>::empty();
        assert(before + wire::u8_list_bytes(attribute_ids) =~= c.parameters());
        lemma_u8_list_cut(before, attribute_ids, kept);
    }
}

proof fn lemma_value_text_cut(c: CommandModel, kept: int)
    requires
        c is GetPlayerApplicationSettingValueText,
        codec_laws::fits_command(c),
        0 <= kept < c.parameters().len(),
    ensures
        refused_at(c, kept),
{
    reveal(command::command_of);
    if let CommandModel::GetPlayerApplicationSettingValueText { attribute_id, value_ids } = c {
        let before = seq![attribute_id];
        assert(before + wire::u8_list_bytes(value_ids) =~= c.parameters());
        lemma_u8_list_cut(before, value_ids, kept);
    }
}

proof fn lemma_character_set_cut(c: CommandModel, kept: int)
    requires
        c is InformDisplayableCharacterSet,
        codec_laws::fits_command(c),
        0 <= kept < c.parameters().len(),
    ensures
        refused_at(c, kept),
{
    reveal(command::command_of);
    if let CommandModel::InformDisplayableCharacterSet { character_set_ids } = c {
        let before = Seq::<u8>::empty();
        assert(before + wire::u16_list_bytes(character_set_ids) =~= c.parameters());
        lemma_u16_list_cut(before, character_set_ids, kept);
    }
}

proof fn lemma_element_attributes_cut(c: CommandModel, kept: int)
    requires
        c is GetElementAttributes,
        codec_laws::fits_command(c),
        0 <= kept < c.parameters().len(),
    ensures
        refused_at(c, kept),
{
    reveal(command::command_of);
    if let CommandModel::GetElementAttributes { identifier, attribute_ids } = c {
        let before = bytes::be64_bytes(identifier);
        assert(before + wire::u32_list_bytes(attribute_ids) =~= c.parameters());
        lemma_u32_list_cut(before, attribute_ids, kept);
    }
}

proof fn lemma_folder_items_cut(c: CommandModel, kept: int)
    requires
        c is GetFolderItems,
        codec_laws::fits_command(c),
        0 <= kept < c.parameters().len(),
    ensures
        refused_at(c, kept),
{
    reveal(command::command_of);
    if let CommandModel::GetFolderItems { scope, start_item, end_item, attribute_ids } = c {
        let before = seq![scope] + bytes::be32_bytes(start_item) + bytes::be32_bytes(end_item);
        assert(before + wire::u32_list_bytes(attribute_ids) =~= c.parameters());
        lemma_u32_list_cut(before, attribute_ids, kept);
    }
}

proof fn lemma_item_attributes_cut(c: CommandModel, kept: int)
    requires
        c is GetItemAttributes,
        codec_laws::fits_command(c),
        0 <= kept < c.parameters().len(),
    ensures
        refused_at(c, kept),
{
    reveal(command::command_of);
    if let CommandModel::GetItemAttributes { scope, uid, uid_counter, attribute_ids } = c {
        let before = seq![scope] + bytes::be64_bytes(uid) + bytes::be16_bytes(uid_counter);
        assert(before + wire::u32_list_bytes(attribute_ids) =~= c.parameters());
        lemma_u32_list_cut(before, attribute_ids, kept);
    }
}

proof fn lemma_search_cut(c: CommandModel, kept: int)
    requires
        c is Search,
        codec_laws::fits_command(c),
        0 <= kept < c.parameters().len(),
    ensures
        refused_at(c, kept),
{
    reveal(command::command_of);
    if let CommandModel::Search { character_set_id, search_string } = c {
        let before = bytes::be16_bytes(character_set_id);
        assert(before + wire::text16_bytes(search_string) =~= c.parameters());
        lemma_text16_cut(before, search_string, kept);
    }
}

/// Commands without a list are refused where a byte is missing.
proof fn lemma_plain_cut(c: CommandModel, kept: int)
    requires
        0 <= kept < c.parameters().len(),
        c is GetCapabilities || c is ListPlayerApplicationSettingValues
            || c is InformBatteryStatusOfCt || c is RequestContinuingResponse
            || c is AbortContinuingResponse || c is RegisterNotification || c is SetAbsoluteVolume
            || c is SetAddressedPlayer || c is SetBrowsedPlayer || c is ChangePath
            || c is GetTotalNumberOfItems || c is PlayItem || c is AddToNowPlaying,
    ensures
        refused_at(c, kept),
{
    reveal(command::command_of);
    let d = c.parameters().take(kept);
    assert(d.len() == kept);
}

/// A command whose parameters are cut short is refused, wherever they are cut.
/// The command fits its counts and lengths.
pub proof fn law_truncated_command_is_refused(c: CommandModel, kept: int)
    requires
        codec_laws::fits_command(c),
        0 <= kept < c.parameters().len(),
    ensures
        command::command_of(c.id(), c.parameters().take(kept)) is None,
{
    match c {
        CommandModel::GetCurrentPlayerApplicationSettingValue { .. } => {
            lemma_get_current_setting_cut(c, kept);
        },
        CommandModel::SetPlayerApplicationSettingValue { .. } => {
            lemma_set_setting_cut(c, kept);
        },
        CommandModel::GetPlayerApplicationSettingAttributeText { .. } => {
            lemma_attribute_text_cut(c, kept);
        },
        CommandModel::GetPlayerApplicationSettingValueText { .. } => {
            lemma_value_text_cut(c, kept);
        },
        CommandModel::InformDisplayableCharacterSet { .. } => {
            lemma_character_set_cut(c, kept);
        },
        CommandModel::GetElementAttributes { .. } => {
            lemma_element_attributes_cut(c, kept);
        },
        CommandModel::GetFolderItems { .. } => {
            lemma_folder_items_cut(c, kept);
        },
        CommandModel::GetItemAttributes { .. } => {
            lemma_item_attributes_cut(c, kept);
        },
        CommandModel::Search { .. } => {
            lemma_search_cut(c, kept);
        },
        CommandModel::ListPlayerApplicationSettingAttributes => {},
        CommandModel::GetPlayStatus => {},
        _ => {
            lemma_plain_cut(c, kept);
        },
    }
}

// ---------------------------------------------------------------------------
// What is read from the first bytes
// ---------------------------------------------------------------------------

/// Whether what is read from the first bytes, if anything, ends among them,
/// and where it ends when all bytes are there.
spec fn whole_or_none<T>(
    first: Option<(T, int)>,
    all: Option<(T, int)>,
    p: int,
    kept: int,
) -> bool {
    match (first, all) {
        (None, _) => true,
        (Some((_, end)), Some((_, whole_end))) => end == whole_end && p <= end <= kept,
        (Some(_), None) => false,
    }
}

/// A text that is read from the first bytes ends among them.
proof fn lemma_text16_kept(d: Seq<u8>, kept: int, p: int)
    requires
        0 <= p,
        0 <= kept <= d.len(),
    ensures
        whole_or_none(wire::text16_at(d.take(kept), p), wire::text16_at(d, p), p, kept),
{
    if p + 2 <= kept {
        assert(d.take(kept)[p] == d[p] && d.take(kept)[p + 1] == d[p + 1]);
    }
}

/// The same of a text with an 8-bit length.
proof fn lemma_text8_kept(d: Seq<u8>, kept: int, p: int)
    requires
        0 <= p,
        0 <= kept <= d.len(),
    ensures
        whole_or_none(wire::text8_at(d.take(kept), p), wire::text8_at(d, p), p, kept),
{
    if p + 1 <= kept {
        assert(d.take(kept)[p] == d[p]);
    }
}

/// The same of a media attribute.
proof fn lemma_media_attribute_kept(d: Seq<u8>, kept: int, p: int)
    requires
        0 <= p,
        0 <= kept <= d.len(),
    ensures
        whole_or_none(
            items::media_attribute_at(d.take(kept), p),
            items::media_attribute_at(d, p),
            p,
            kept,
        ),
{
    lemma_text16_kept(d, kept, p + 6);
}

/// The same of a setting text.
proof fn lemma_setting_text_kept(d: Seq<u8>, kept: int, p: int)
    requires
        0 <= p,
        0 <= kept <= d.len(),
    ensures
        whole_or_none(
            items::setting_text_at(d.take(kept), p),
            items::setting_text_at(d, p),
            p,
            kept,
        ),
{
    lemma_text8_kept(d, kept, p + 3);
}

/// The same of a browseable item.
proof fn lemma_browseable_kept(d: Seq<u8>, kept: int, p: int)
    requires
        0 <= p,
        0 <= kept <= d.len(),
    ensures
        whole_or_none(items::browseable_at(d.take(kept), p), items::browseable_at(d, p), p, kept),
{
    let t = d.take(kept);
    if p + 3 <= kept {
        assert(t[p] == d[p] && t[p + 1] == d[p + 1] && t[p + 2] == d[p + 2]);
        let end = p + 3 + bytes::be16(d, p + 1);
        if end <= kept {
            assert(t.subrange(p + 3, end) =~= d.subrange(p + 3, end));
        }
    }
}

/// Texts that are read from the first bytes end among them.
proof fn lemma_texts_kept(d: Seq<u8>, kept: int, p: int, n: nat)
    requires
        0 <= p,
        0 <= kept <= d.len(),
        p <= kept,
    ensures
        whole_or_none(wire::texts_at(d.take(kept), p, n), wire::texts_at(d, p, n), p, kept),
    decreases n,
{
    if n > 0 {
        lemma_texts_kept(d, kept, p, (n - 1) as nat);
        if let Some((_, q)) = wire::texts_at(d.take(kept), p, (n - 1) as nat) {
            lemma_text16_kept(d, kept, q);
        }
    }
}

/// The same of media attributes.
proof fn lemma_media_attributes_kept(d: Seq<u8>, kept: int, p: int, n: nat)
    requires
        0 <= p,
        0 <= kept <= d.len(),
        p <= kept,
    ensures
        whole_or_none(
            items::media_attributes_at(d.take(kept), p, n),
            items::media_attributes_at(d, p, n),
            p,
            kept,
        ),
    decreases n,
{
    if n > 0 {
        lemma_media_attributes_kept(d, kept, p, (n - 1) as nat);
        if let Some((_, q)) = items::media_attributes_at(d.take(kept), p, (n - 1) as nat) {
            lemma_media_attribute_kept(d, kept, q);
        }
    }
}

/// The same of setting texts.
proof fn lemma_setting_texts_kept(d: Seq<u8>, kept: int, p: int, n: nat)
    requires
        0 <= p,
        0 <= kept <= d.len(),
        p <= kept,
    ensures
        whole_or_none(
            items::setting_texts_at(d.take(kept), p, n),
            items::setting_texts_at(d, p, n),
            p,
            kept,
        ),
    decreases n,
{
    if n > 0 {
        lemma_setting_texts_kept(d, kept, p, (n - 1) as nat);
        if let Some((_, q)) = items::setting_texts_at(d.take(kept), p, (n - 1) as nat) {
            lemma_setting_text_kept(d, kept, q);
        }
    }
}

/// The same of browseable items.
proof fn lemma_browseables_kept(d: Seq<u8>, kept: int, p: int, n: nat)
    requires
        0 <= p,
        0 <= kept <= d.len(),
        p <= kept,
    ensures
        whole_or_none(
            items::browseables_at(d.take(kept), p, n),
            items::browseables_at(d, p, n),
            p,
            kept,
        ),
    decreases n,
{
    if n > 0 {
        lemma_browseables_kept(d, kept, p, (n - 1) as nat);
        if let Some((_, q)) = items::browseables_at(d.take(kept), p, (n - 1) as nat) {
            lemma_browseable_kept(d, kept, q);
        }
    }
}

// ---------------------------------------------------------------------------
// Responses
// ---------------------------------------------------------------------------

/// Whether a response is refused when only the first bytes of its parameters
/// are there.
pub open spec fn response_refused_at(r: ResponseModel, kept: int) -> bool {
    response::response_of(r.id(), r.parameters().take(kept)) is None
}

/// Three bytes to a 24-bit integer.
proof fn lemma_u24s_size(list: Seq<u32>)
    ensures
        wire::u24s_bytes(list).len() == 3 * list.len(),
    decreases list.len(),
{
    if list.len() > 0 {
        lemma_u24s_size(list.drop_last());
    }
}

proof fn lemma_capabilities_cut(capabilities: CapabilityModel, kept: int)
    requires
        codec_laws::fits_capabilities(capabilities),
        0 <= kept < capabilities.bytes().len(),
    ensures
        response_refused_at((ResponseModel::GetCapabilities { capabilities }), kept),
{
    reveal(response::response_of);
    let d = capabilities.bytes();
    let t = d.take(kept);
    match capabilities {
        CapabilityModel::CompanyIds(ids) => {
            lemma_u24s_size(ids);
            assert(d[1] == ids.len());
        },
        CapabilityModel::EventIds(ids) => {
            assert(d[1] == ids.len());
        },
    }
    assert(kept >= 2 ==> t[0] == d[0] && t[1] == d[1]);
}

proof fn lemma_setting_attributes_cut(attribute_ids: Seq<u8>, kept: int)
    requires
        attribute_ids.len() <= 0xFF,
        0 <= kept < wire::u8_list_bytes(attribute_ids).len(),
    ensures
        response_refused_at(
            (ResponseModel::ListPlayerApplicationSettingAttributes { attribute_ids }),
            kept,
        ),
{
    reveal(response::response_of);
    let none = Seq::<u8>::empty();
    lemma_u8_list_cut(none, attribute_ids, kept);
    assert(none + wire::u8_list_bytes(attribute_ids) =~= wire::u8_list_bytes(attribute_ids));
}

proof fn lemma_setting_values_cut(value_ids: Seq<u8>, kept: int)
    requires
        value_ids.len() <= 0xFF,
        0 <= kept < wire::u8_list_bytes(value_ids).len(),
    ensures
        response_refused_at(
            (ResponseModel::ListPlayerApplicationSettingValues { value_ids }),
            kept,
        ),
{
    reveal(response::response_of);
    let none = Seq::<u8>::empty();
    lemma_u8_list_cut(none, value_ids, kept);
    assert(none + wire::u8_list_bytes(value_ids) =~= wire::u8_list_bytes(value_ids));
}

proof fn lemma_current_settings_cut(settings: Seq<ApplicationSetting>, kept: int)
    requires
        settings.len() <= 0xFF,
        0 <= kept < items::setting_list_bytes(settings).len(),
    ensures
        response_refused_at(
            (ResponseModel::GetCurrentPlayerApplicationSettingValue { settings }),
            kept,
        ),
{
    reveal(response::response_of);
    let none = Seq::<u8>::empty();
    lemma_setting_list_cut(none, settings, kept);
    assert(none + items::setting_list_bytes(settings) =~= items::setting_list_bytes(settings));
}

/// A counted list of setting texts that is cut short.
proof fn lemma_setting_text_list_cut(entries: Seq<SettingTextModel>, kept: int)
    requires
        codec_laws::fit_setting_texts(entries),
        0 <= kept < items::setting_text_list_bytes(entries).len(),
    ensures
        items::setting_text_list_at(items::setting_text_list_bytes(entries).take(kept), 0) is None,
{
    let d = items::setting_text_list_bytes(entries);
    let t = d.take(kept);
    bytes::lemma_stands_whole(d);
    codec_laws::lemma_setting_text_list(d, 0, entries);
    if kept > 0 {
        assert(t[0] == d[0]);
        if items::setting_texts_at(t, 1, t[0] as nat) is Some {
            lemma_setting_texts_kept(d, kept, 1, d[0] as nat);
        }
    }
}

proof fn lemma_attribute_texts_cut(entries: Seq<SettingTextModel>, kept: int)
    requires
        codec_laws::fit_setting_texts(entries),
        0 <= kept < items::setting_text_list_bytes(entries).len(),
    ensures
        response_refused_at(
            (ResponseModel::GetPlayerApplicationSettingAttributeText { entries }),
            kept,
        ),
        response_refused_at(
            (ResponseModel::GetPlayerApplicationSettingValueText { entries }),
            kept,
        ),
{
    reveal(response::response_of);
    lemma_setting_text_list_cut(entries, kept);
}

/// A counted list of media attributes that is cut short.
proof fn lemma_media_attribute_list_cut(
    before: Seq<u8>,
    list: Seq<MediaAttributeModel>,
    kept: int,
)
    requires
        codec_laws::fit_attributes(list),
        0 <= kept < before.len() + items::media_attribute_list_bytes(list).len(),
    ensures
        items::media_attribute_list_at(
            (before + items::media_attribute_list_bytes(list)).take(kept),
            before.len() as int,
        ) is None,
{
    let d = before + items::media_attribute_list_bytes(list);
    let t = d.take(kept);
    let at = before.len() as int;
    bytes::lemma_stands_whole(d);
    bytes::lemma_stands_split(d, 0, before, items::media_attribute_list_bytes(list));
    codec_laws::lemma_media_attribute_list(d, at, list);
    if kept > at {
        assert(t[at] == d[at]);
        if items::media_attributes_at(t, at + 1, t[at] as nat) is Some {
            lemma_media_attributes_kept(d, kept, at + 1, d[at] as nat);
        }
    }
}

proof fn lemma_element_attributes_response_cut(attributes: Seq<MediaAttributeModel>, kept: int)
    requires
        codec_laws::fit_attributes(attributes),
        0 <= kept < items::media_attribute_list_bytes(attributes).len(),
    ensures
        response_refused_at((ResponseModel::GetElementAttributes { attributes }), kept),
{
    reveal(response::response_of);
    let none = Seq::<u8>::empty();
    lemma_media_attribute_list_cut(none, attributes, kept);
    assert(none + items::media_attribute_list_bytes(attributes)
        =~= items::media_attribute_list_bytes(attributes));
}

proof fn lemma_item_attributes_response_cut(
    status: u8,
    attributes: Seq<MediaAttributeModel>,
    kept: int,
)
    requires
        codec_laws::fit_attributes(attributes),
        0 <= kept < 1 + items::media_attribute_list_bytes(attributes).len(),
    ensures
        response_refused_at((ResponseModel::GetItemAttributes { status, attributes }), kept),
{
    reveal(response::response_of);
    lemma_media_attribute_list_cut(seq![status], attributes, kept);
}

proof fn lemma_browsed_player_cut(
    status: u8,
    uid_counter: u16,
    number_of_items: u32,
    character_set_id: u16,
    folder_names: Seq<Seq<char>>,
    kept: int,
)
    requires
        codec_laws::fit_texts(folder_names),
        0 <= kept < 10 + wire::texts_bytes(folder_names).len(),
    ensures
        response_refused_at(
            (ResponseModel::SetBrowsedPlayer {
                status,
                uid_counter,
                number_of_items,
                character_set_id,
                folder_names,
            }),
            kept,
        ),
{
    reveal(response::response_of);
    let before = seq![status] + bytes::be16_bytes(uid_counter) + bytes::be32_bytes(
        number_of_items,
    ) + bytes::be16_bytes(character_set_id) + seq![folder_names.len() as u8];
    let d = before + wire::texts_bytes(folder_names);
    let t = d.take(kept);
    bytes::lemma_stands_whole(d);
    bytes::lemma_stands_split(d, 0, before, wire::texts_bytes(folder_names));
    codec_laws::lemma_texts(d, 10, folder_names);
    assert(d[9] == folder_names.len());
    if kept >= 10 {
        assert(t[9] == d[9]);
        if wire::texts_at(t, 10, t[9] as nat) is Some {
            lemma_texts_kept(d, kept, 10, d[9] as nat);
        }
    }
}

proof fn lemma_folder_items_response_cut(
    status: u8,
    uid_counter: u16,
    list: Seq<BrowseableModel>,
    kept: int,
)
    requires
        codec_laws::fit_items(list),
        0 <= kept < 5 + items::browseables_bytes(list).len(),
    ensures
        response_refused_at(
            (ResponseModel::GetFolderItems { status, uid_counter, items: list }),
            kept,
        ),
{
    reveal(response::response_of);
    let count = bytes::be16_bytes(list.len() as u16);
    let before = seq![status] + bytes::be16_bytes(uid_counter) + count;
    let d = before + items::browseables_bytes(list);
    let t = d.take(kept);
    bytes::lemma_stands_whole(d);
    bytes::lemma_stands_split(d, 0, before, items::browseables_bytes(list));
    codec_laws::lemma_browseables(d, 5, list);
    bytes::lemma_be16_round_trip(list.len() as u16);
    assert(d[3] == count[0] && d[4] == count[1]);
    if kept >= 5 {
        assert(t[3] == d[3] && t[4] == d[4]);
        if items::browseables_at(t, 5, bytes::be16(t, 3) as nat) is Some {
            lemma_browseables_kept(d, kept, 5, list.len());
        }
    }
}

proof fn lemma_notification_cut(event: EventModel, kept: int)
    requires
        codec_laws::fits_event(event),
        !(event is Generic),
        0 <= kept < event.bytes().len(),
    ensures
        response_refused_at((ResponseModel::RegisterNotification { event }), kept),
{
    reveal(response::response_of);
    let d = event.bytes();
    let t = d.take(kept);
    if kept > 0 {
        assert(t[0] == d[0]);
        if let EventModel::PlayerApplicationSettingChanged { settings } = event {
            lemma_setting_list_cut(seq![event.id()], settings, kept);
            assert(seq![event.id()] + items::setting_list_bytes(settings) =~= d);
        }
    }
}

/// Responses without a list are refused where a byte is missing.
proof fn lemma_plain_response_cut(r: ResponseModel, kept: int)
    requires
        0 <= kept < r.parameters().len(),
        r is GetPlayStatus || r is SetAbsoluteVolume || r is SetAddressedPlayer || r is ChangePath
            || r is GetTotalNumberOfItems || r is Search || r is PlayItem || r is AddToNowPlaying,
    ensures
        response_refused_at(r, kept),
{
    reveal(response::response_of);
    assert(r.parameters().take(kept).len() == kept);
}

/// A response whose parameters are cut short is refused, wherever they are
/// cut. The response fits its counts and lengths. A notification of an event
/// without a structure is left out: its data is whatever bytes there are.
pub proof fn law_truncated_response_is_refused(r: ResponseModel, kept: int)
    requires
        codec_laws::fits_response(r),
        0 <= kept < r.parameters().len(),
        r matches ResponseModel::RegisterNotification { event } ==> !(event is Generic),
    ensures
        response::response_of(r.id(), r.parameters().take(kept)) is None,
{
    match r {
        ResponseModel::GetCapabilities { capabilities } => {
            lemma_capabilities_cut(capabilities, kept);
        },
        ResponseModel::ListPlayerApplicationSettingAttributes { attribute_ids } => {
            lemma_setting_attributes_cut(attribute_ids, kept);
        },
        ResponseModel::ListPlayerApplicationSettingValues { value_ids } => {
            lemma_setting_values_cut(value_ids, kept);
        },
        ResponseModel::GetCurrentPlayerApplicationSettingValue { settings } => {
            lemma_current_settings_cut(settings, kept);
        },
        ResponseModel::GetPlayerApplicationSettingAttributeText { entries } => {
            lemma_attribute_texts_cut(entries, kept);
        },
        ResponseModel::GetPlayerApplicationSettingValueText { entries } => {
            lemma_attribute_texts_cut(entries, kept);
        },
        ResponseModel::GetElementAttributes { attributes } => {
            lemma_element_attributes_response_cut(attributes, kept);
        },
        ResponseModel::RegisterNotification { event } => {
            lemma_notification_cut(event, kept);
        },
        ResponseModel::SetBrowsedPlayer {
            status,
            uid_counter,
            number_of_items,
            character_set_id,
            folder_names,
        } => {
            lemma_browsed_player_cut(
                status,
                uid_counter,
                number_of_items,
                character_set_id,
                folder_names,
                kept,
            );
        },
        ResponseModel::GetFolderItems { status, uid_counter, items } => {
            lemma_folder_items_response_cut(status, uid_counter, items, kept);
        },
        ResponseModel::GetItemAttributes { status, attributes } => {
            lemma_item_attributes_response_cut(status, attributes, kept);
        },
        ResponseModel::SetPlayerApplicationSettingValue => {},
        ResponseModel::InformDisplayableCharacterSet => {},
        ResponseModel::InformBatteryStatusOfCt => {},
        ResponseModel::AbortContinuingResponse => {},
        _ => {
            lemma_plain_response_cut(r, kept);
        },
    }
}

} // verus!
