//! Media metadata, player application settings and browseable items.

use vstd::prelude::*;
use crate::bytes;
use crate::classic::avrcp::capability_id;
use crate::classic::avrcp::item_type;
use crate::classic::avrcp::wire;
use crate::classic::avrcp::wire::Reader;
use crate::models;

verus! {

// ---------------------------------------------------------------------------
// Media attributes
// ---------------------------------------------------------------------------

/// One media (track) attribute: ID, character set, and text value.
#[derive(Debug, PartialEq, Eq)]
pub struct MediaAttribute {
    /// Media attribute ID (see `media_attribute_id`).
    pub attribute_id: u32,
    /// Character set of `value`.
    pub character_set_id: u16,
    /// The attribute's text value.
    pub value: String,
}

/// The model of a [`MediaAttribute`].
#[verifier::ext_equal]
pub struct MediaAttributeModel {
    pub attribute_id: u32,
    pub character_set_id: u16,
    pub value: Seq<char>,
}

impl View for MediaAttribute {
    type V = MediaAttributeModel;

    open spec fn view(&self) -> MediaAttributeModel {
        MediaAttributeModel {
            attribute_id: self.attribute_id,
            character_set_id: self.character_set_id,
            value: self.value@,
        }
    }
}

impl Clone for MediaAttribute {
    fn clone(&self) -> (r: Self)
        ensures
            r@ == self@,
    {
        MediaAttribute {
            attribute_id: self.attribute_id,
            character_set_id: self.character_set_id,
            value: self.value.clone(),
        }
    }
}

/// The media attribute at `p`, and where it ends.
pub open spec fn media_attribute_at(d: Seq<u8>, p: int) -> Option<(MediaAttributeModel, int)> {
    if p + 6 <= d.len() {
        match wire::text16_at(d, p + 6) {
            None => None,
            Some((value, end)) => Some(
                (
                    MediaAttributeModel {
                        attribute_id: bytes::be32(d, p),
                        character_set_id: bytes::be16(d, p + 4),
                        value,
                    },
                    end,
                ),
            ),
        }
    } else {
        None
    }
}

/// The `n` media attributes from `p` on, and where they end.
pub open spec fn media_attributes_at(d: Seq<u8>, p: int, n: nat) -> Option<
    (Seq<MediaAttributeModel>, int),
>
    decreases n,
{
    if n == 0 {
        Some((seq![], p))
    } else {
        match media_attributes_at(d, p, (n - 1) as nat) {
            None => None,
            Some((before, q)) => match media_attribute_at(d, q) {
                None => None,
                Some((a, end)) => Some((before.push(a), end)),
            },
        }
    }
}

/// The counted list of media attributes at `p`, and where it ends.
pub open spec fn media_attribute_list_at(d: Seq<u8>, p: int) -> Option<
    (Seq<MediaAttributeModel>, int),
> {
    if p + 1 <= d.len() {
        media_attributes_at(d, p + 1, d[p] as nat)
    } else {
        None
    }
}

impl MediaAttributeModel {
    /// The wire form of this attribute.
    pub open spec fn bytes(self) -> Seq<u8> {
        bytes::be32_bytes(self.attribute_id) + bytes::be16_bytes(self.character_set_id)
            + wire::text16_bytes(self.value)
    }
}

/// Media attributes, one behind the other.
pub open spec fn media_attributes_bytes(list: Seq<MediaAttributeModel>) -> Seq<u8>
    decreases list.len(),
{
    if list.len() == 0 {
        seq![]
    } else {
        media_attributes_bytes(list.drop_last()) + list.last().bytes()
    }
}

/// A list of media attributes behind its count.
pub open spec fn media_attribute_list_bytes(list: Seq<MediaAttributeModel>) -> Seq<u8> {
    seq![list.len() as u8] + media_attributes_bytes(list)
}

/// When one of the attributes cannot be read, neither can a longer list.
pub proof fn lemma_media_attributes_at_fails(d: Seq<u8>, p: int, n: nat, more: nat)
    requires
        n <= more,
        media_attributes_at(d, p, n) is None,
    ensures
        media_attributes_at(d, p, more) is None,
    decreases more,
{
    if n < more {
        lemma_media_attributes_at_fails(d, p, n, (more - 1) as nat);
    }
}

impl MediaAttribute {
    pub(crate) fn read(reader: &mut Reader) -> (r: Option<Self>)
        requires
            old(reader).pos <= old(reader).data.len(),
        ensures
            final(reader).data == old(reader).data,
            final(reader).pos <= final(reader).data.len(),
            match r {
                Some(a) => media_attribute_at(old(reader).data@, old(reader).pos as int) == Some(
                    (a@, final(reader).pos as int),
                ),
                None => media_attribute_at(old(reader).data@, old(reader).pos as int) is None,
            },
    {
        let attribute_id: u32 = reader.u32()?;
        let character_set_id: u16 = reader.u16()?;
        let value = reader.string16()?;
        Some(MediaAttribute { attribute_id, character_set_id, value })
    }

    pub(crate) fn write(&self, out: &mut Vec<u8>)
        ensures
            final(out)@ == old(out)@ + self@.bytes(),
    {
        let ghost before = out@;
        bytes::push_be32(out, self.attribute_id);
        bytes::push_be16(out, self.character_set_id);
        wire::put_string16(out, self.value.as_str());
        assert(out@ =~= before + self@.bytes());
    }
}

pub(crate) fn read_media_attribute_list(reader: &mut Reader) -> (r: Option<Vec<MediaAttribute>>)
    requires
        old(reader).pos <= old(reader).data.len(),
    ensures
        final(reader).data == old(reader).data,
        final(reader).pos <= final(reader).data.len(),
        match r {
            Some(list) => media_attribute_list_at(old(reader).data@, old(reader).pos as int)
                == Some((models::seq_views(list@), final(reader).pos as int)),
            None => media_attribute_list_at(old(reader).data@, old(reader).pos as int) is None,
        },
{
    let ghost d = reader.data@;
    let ghost p = reader.pos as int;
    let count: u8 = reader.u8()?;
    let mut list: Vec<MediaAttribute> = Vec::new();
    let mut i: u8 = 0;
    assert(models::seq_views(list@) =~= seq![]);
    while i < count
        invariant
            i <= count,
            reader.data@ == d,
            reader.data == old(reader).data,
            reader.pos <= d.len(),
            media_attributes_at(d, p + 1, i as nat) == Some(
                (models::seq_views(list@), reader.pos as int),
            ),
        decreases count - i,
    {
        match MediaAttribute::read(reader) {
            None => {
                proof {
                    lemma_media_attributes_at_fails(d, p + 1, (i + 1) as nat, count as nat);
                }
                return None;
            },
            Some(a) => {
                proof {
                    models::lemma_seq_views_push(list@, a);
                }
                list.push(a);
            },
        }
        i = i + 1;
    }
    Some(list)
}

pub(crate) fn write_media_attribute_list(out: &mut Vec<u8>, attributes: &[MediaAttribute])
    ensures
        final(out)@ == old(out)@ + media_attribute_list_bytes(models::seq_views(attributes@)),
{
    let ghost start = out@;
    let ghost all = models::seq_views(attributes@);
    out.push(attributes.len() as u8);
    let ghost before = out@;
    let mut i: usize = 0;
    assert(out@ =~= before + media_attributes_bytes(all.take(0)));
    while i < attributes.len()
        invariant
            i <= attributes@.len(),
            out@ == before + media_attributes_bytes(all.take(i as int)),
        decreases attributes@.len() - i,
    {
        assert(all.take(i + 1).drop_last() =~= all.take(i as int));
        attributes[i].write(out);
        i = i + 1;
        assert(out@ =~= before + media_attributes_bytes(all.take(i as int)));
    }
    assert(all.take(i as int) =~= all);
    assert(out@ =~= start + media_attribute_list_bytes(all));
}

// ---------------------------------------------------------------------------
// Player application settings
// ---------------------------------------------------------------------------

/// One player application setting: attribute ID paired with its value ID.
#[derive(Debug, Clone, Copy, PartialEq, Eq, Structural)]
pub struct ApplicationSetting {
    /// Setting attribute ID (see `application_setting_attribute`).
    pub attribute_id: u8,
    /// Selected value ID for that attribute.
    pub value_id: u8,
}

/// The counted list of settings at `p`, and where it ends.
pub open spec fn setting_list_at(d: Seq<u8>, p: int) -> Option<(Seq<ApplicationSetting>, int)> {
    if p + 1 <= d.len() && p + 1 + 2 * d[p] <= d.len() {
        Some(
            (
                Seq::new(
                    d[p] as nat,
                    |i: int|
                        ApplicationSetting {
                            attribute_id: d[p + 1 + 2 * i],
                            value_id: d[p + 2 + 2 * i],
                        },
                ),
                p + 1 + 2 * d[p],
            ),
        )
    } else {
        None
    }
}

/// Settings, one behind the other.
pub open spec fn settings_bytes(list: Seq<ApplicationSetting>) -> Seq<u8>
    decreases list.len(),
{
    if list.len() == 0 {
        seq![]
    } else {
        settings_bytes(list.drop_last()) + seq![list.last().attribute_id, list.last().value_id]
    }
}

/// A list of settings behind its count.
pub open spec fn setting_list_bytes(list: Seq<ApplicationSetting>) -> Seq<u8> {
    seq![list.len() as u8] + settings_bytes(list)
}

pub(crate) fn read_setting_list(reader: &mut Reader) -> (r: Option<Vec<ApplicationSetting>>)
    requires
        old(reader).pos <= old(reader).data.len(),
    ensures
        final(reader).data == old(reader).data,
        final(reader).pos <= final(reader).data.len(),
        match r {
            Some(list) => setting_list_at(old(reader).data@, old(reader).pos as int) == Some(
                (list@, final(reader).pos as int),
            ),
            None => setting_list_at(old(reader).data@, old(reader).pos as int) is None,
        },
{
    let ghost d = reader.data@;
    let ghost p = reader.pos as int;
    let count: u8 = reader.u8()?;
    let mut list: Vec<ApplicationSetting> = Vec::new();
    let mut i: u8 = 0;
    while i < count
        invariant
            i <= count,
            reader.data@ == d,
            reader.data == old(reader).data,
            reader.pos == p + 1 + 2 * i,
            reader.pos <= d.len(),
            list@ == Seq::new(
                i as nat,
                |j: int|
                    ApplicationSetting {
                        attribute_id: d[p + 1 + 2 * j],
                        value_id: d[p + 2 + 2 * j],
                    },
            ),
        decreases count - i,
    {
        let attribute_id: u8 = reader.u8()?;
        let value_id: u8 = reader.u8()?;
        list.push(ApplicationSetting { attribute_id, value_id });
        i = i + 1;
        assert(list@ =~= Seq::new(
            i as nat,
            |j: int|
                ApplicationSetting { attribute_id: d[p + 1 + 2 * j], value_id: d[p + 2 + 2 * j] },
        ));
    }
    Some(list)
}

pub(crate) fn write_setting_list(out: &mut Vec<u8>, settings: &[ApplicationSetting])
    ensures
        final(out)@ == old(out)@ + setting_list_bytes(settings@),
{
    let ghost start = out@;
    out.push(settings.len() as u8);
    let ghost before = out@;
    let mut i: usize = 0;
    assert(out@ =~= before + settings_bytes(settings@.take(0)));
    while i < settings.len()
        invariant
            i <= settings@.len(),
            out@ == before + settings_bytes(settings@.take(i as int)),
        decreases settings@.len() - i,
    {
        assert(settings@.take(i + 1).drop_last() =~= settings@.take(i as int));
        out.push(settings[i].attribute_id);
        out.push(settings[i].value_id);
        i = i + 1;
        assert(out@ =~= before + settings_bytes(settings@.take(i as int)));
    }
    assert(settings@.take(i as int) =~= settings@);
    assert(out@ =~= start + setting_list_bytes(settings@));
}

/// Displayable text for one setting attribute or value ID.
#[derive(Debug, PartialEq, Eq)]
pub struct SettingText {
    /// Attribute ID or value ID, depending on the PDU.
    pub id: u8,
    /// Character set of `text`.
    pub character_set_id: u16,
    /// The displayable text for this attribute or value.
    pub text: String,
}

/// The model of a [`SettingText`].
#[verifier::ext_equal]
pub struct SettingTextModel {
    pub id: u8,
    pub character_set_id: u16,
    pub text: Seq<char>,
}

impl View for SettingText {
    type V = SettingTextModel;

    open spec fn view(&self) -> SettingTextModel {
        SettingTextModel {
            id: self.id,
            character_set_id: self.character_set_id,
            text: self.text@,
        }
    }
}

impl Clone for SettingText {
    fn clone(&self) -> (r: Self)
        ensures
            r@ == self@,
    {
        SettingText {
            id: self.id,
            character_set_id: self.character_set_id,
            text: self.text.clone(),
        }
    }
}

/// The setting text at `p`, and where it ends.
pub open spec fn setting_text_at(d: Seq<u8>, p: int) -> Option<(SettingTextModel, int)> {
    if p + 3 <= d.len() {
        match wire::text8_at(d, p + 3) {
            None => None,
            Some((text, end)) => Some(
                (
                    SettingTextModel { id: d[p], character_set_id: bytes::be16(d, p + 1), text },
                    end,
                ),
            ),
        }
    } else {
        None
    }
}

/// The `n` setting texts from `p` on, and where they end.
pub open spec fn setting_texts_at(d: Seq<u8>, p: int, n: nat) -> Option<
    (Seq<SettingTextModel>, int),
>
    decreases n,
{
    if n == 0 {
        Some((seq![], p))
    } else {
        match setting_texts_at(d, p, (n - 1) as nat) {
            None => None,
            Some((before, q)) => match setting_text_at(d, q) {
                None => None,
                Some((t, end)) => Some((before.push(t), end)),
            },
        }
    }
}

/// The counted list of setting texts at `p`, and where it ends.
pub open spec fn setting_text_list_at(d: Seq<u8>, p: int) -> Option<
    (Seq<SettingTextModel>, int),
> {
    if p + 1 <= d.len() {
        setting_texts_at(d, p + 1, d[p] as nat)
    } else {
        None
    }
}

impl SettingTextModel {
    /// The wire form of this text.
    pub open spec fn bytes(self) -> Seq<u8> {
        seq![self.id] + bytes::be16_bytes(self.character_set_id) + wire::text8_bytes(self.text)
    }
}

/// Setting texts, one behind the other.
pub open spec fn setting_texts_bytes(list: Seq<SettingTextModel>) -> Seq<u8>
    decreases list.len(),
{
    if list.len() == 0 {
        seq![]
    } else {
        setting_texts_bytes(list.drop_last()) + list.last().bytes()
    }
}

/// A list of setting texts behind its count.
pub open spec fn setting_text_list_bytes(list: Seq<SettingTextModel>) -> Seq<u8> {
    seq![list.len() as u8] + setting_texts_bytes(list)
}

/// When one of the texts cannot be read, neither can a longer list.
pub proof fn lemma_setting_texts_at_fails(d: Seq<u8>, p: int, n: nat, more: nat)
    requires
        n <= more,
        setting_texts_at(d, p, n) is None,
    ensures
        setting_texts_at(d, p, more) is None,
    decreases more,
{
    if n < more {
        lemma_setting_texts_at_fails(d, p, n, (more - 1) as nat);
    }
}

impl SettingText {
    fn read(reader: &mut Reader) -> (r: Option<Self>)
        requires
            old(reader).pos <= old(reader).data.len(),
        ensures
            final(reader).data == old(reader).data,
            final(reader).pos <= final(reader).data.len(),
            match r {
                Some(t) => setting_text_at(old(reader).data@, old(reader).pos as int) == Some(
                    (t@, final(reader).pos as int),
                ),
                None => setting_text_at(old(reader).data@, old(reader).pos as int) is None,
            },
    {
        let id: u8 = reader.u8()?;
        let character_set_id: u16 = reader.u16()?;
        let text = reader.string8()?;
        Some(SettingText { id, character_set_id, text })
    }
}

pub(crate) fn read_setting_text_list(reader: &mut Reader) -> (r: Option<Vec<SettingText>>)
    requires
        old(reader).pos <= old(reader).data.len(),
    ensures
        final(reader).data == old(reader).data,
        final(reader).pos <= final(reader).data.len(),
        match r {
            Some(list) => setting_text_list_at(old(reader).data@, old(reader).pos as int) == Some(
                (models::seq_views(list@), final(reader).pos as int),
            ),
            None => setting_text_list_at(old(reader).data@, old(reader).pos as int) is None,
        },
{
    let ghost d = reader.data@;
    let ghost p = reader.pos as int;
    let count: u8 = reader.u8()?;
    let mut list: Vec<SettingText> = Vec::new();
    let mut i: u8 = 0;
    assert(models::seq_views(list@) =~= seq![]);
    while i < count
        invariant
            i <= count,
            reader.data@ == d,
            reader.data == old(reader).data,
            reader.pos <= d.len(),
            setting_texts_at(d, p + 1, i as nat) == Some(
                (models::seq_views(list@), reader.pos as int),
            ),
        decreases count - i,
    {
        match SettingText::read(reader) {
            None => {
                proof {
                    lemma_setting_texts_at_fails(d, p + 1, (i + 1) as nat, count as nat);
                }
                return None;
            },
            Some(t) => {
                proof {
                    models::lemma_seq_views_push(list@, t);
                }
                list.push(t);
            },
        }
        i = i + 1;
    }
    Some(list)
}

pub(crate) fn write_setting_text_list(out: &mut Vec<u8>, entries: &[SettingText])
    ensures
        final(out)@ == old(out)@ + setting_text_list_bytes(models::seq_views(entries@)),
{
    let ghost start = out@;
    let ghost all = models::seq_views(entries@);
    out.push(entries.len() as u8);
    let ghost before = out@;
    let mut i: usize = 0;
    assert(out@ =~= before + setting_texts_bytes(all.take(0)));
    while i < entries.len()
        invariant
            i <= entries@.len(),
            out@ == before + setting_texts_bytes(all.take(i as int)),
        decreases entries@.len() - i,
    {
        assert(all.take(i + 1).drop_last() =~= all.take(i as int));
        out.push(entries[i].id);
        bytes::push_be16(out, entries[i].character_set_id);
        wire::put_string8(out, entries[i].text.as_str());
        i = i + 1;
        assert(out@ =~= before + setting_texts_bytes(all.take(i as int)));
    }
    assert(all.take(i as int) =~= all);
    assert(out@ =~= start + setting_text_list_bytes(all));
}

/// GetCapabilities payload: which list is present is determined by the
/// capability ID.
#[derive(Debug, PartialEq, Eq)]
pub enum CapabilityList {
    /// 24-bit company IDs.
    CompanyIds(Vec<u32>),
    /// Notification event IDs.
    EventIds(Vec<u8>),
}

/// The model of a [`CapabilityList`].
#[verifier::ext_equal]
pub enum CapabilityModel {
    CompanyIds(Seq<u32>),
    EventIds(Seq<u8>),
}

impl View for CapabilityList {
    type V = CapabilityModel;

    open spec fn view(&self) -> CapabilityModel {
        match self {
            CapabilityList::CompanyIds(ids) => CapabilityModel::CompanyIds(ids@),
            CapabilityList::EventIds(ids) => CapabilityModel::EventIds(ids@),
        }
    }
}

impl Clone for CapabilityList {
    fn clone(&self) -> (r: Self)
        ensures
            r@ == self@,
    {
        match self {
            CapabilityList::CompanyIds(ids) => {
                CapabilityList::CompanyIds(vstd::slice::slice_to_vec(ids.as_slice()))
            },
            CapabilityList::EventIds(ids) => CapabilityList::EventIds(bytes::copy(ids)),
        }
    }
}

impl CapabilityModel {
    /// The capability ID of this list.
    pub open spec fn capability_id(self) -> u8 {
        match self {
            CapabilityModel::CompanyIds(_) => capability_id::COMPANY_ID,
            CapabilityModel::EventIds(_) => capability_id::EVENTS_SUPPORTED,
        }
    }

    /// The wire form of this list.
    pub open spec fn bytes(self) -> Seq<u8> {
        match self {
            CapabilityModel::CompanyIds(ids) => seq![self.capability_id(), ids.len() as u8]
                + wire::u24s_bytes(ids),
            CapabilityModel::EventIds(ids) => seq![self.capability_id()] + wire::u8_list_bytes(ids),
        }
    }
}

impl CapabilityList {
    /// The capability ID that this list corresponds to.
    pub(crate) fn capability_id(&self) -> (r: u8)
        ensures
            r == self@.capability_id(),
    {
        match self {
            CapabilityList::CompanyIds(_) => capability_id::COMPANY_ID,
            CapabilityList::EventIds(_) => capability_id::EVENTS_SUPPORTED,
        }
    }

    pub(crate) fn write(&self, out: &mut Vec<u8>)
        ensures
            final(out)@ == old(out)@ + self@.bytes(),
    {
        let ghost before = out@;
        out.push(self.capability_id());
        match self {
            CapabilityList::CompanyIds(ids) => {
                out.push(ids.len() as u8);
                wire::write_u24s(out, ids);
            },
            CapabilityList::EventIds(ids) => {
                wire::write_u8_list(out, ids);
            },
        }
        assert(out@ =~= before + self@.bytes());
    }
}

// ---------------------------------------------------------------------------
// Browseable items
// ---------------------------------------------------------------------------

/// A media player entry in the player list scope. `player_sub_type` and
/// `features` hold bit 0 in their first octet: they are little-endian.
#[derive(Debug, PartialEq, Eq)]
pub struct MediaPlayerItem {
    /// Unique player ID within the target.
    pub player_id: u16,
    /// Major player type bitmask (see `major_player_type`).
    pub major_player_type: u8,
    /// Player sub-type bitmask (see `player_sub_type`).
    pub player_sub_type: u32,
    /// Current play status of the player (see `play_status`).
    pub play_status: u8,
    /// 128-bit feature bitmask (see `player_feature`).
    pub features: u128,
    /// Character set of `displayable_name`.
    pub character_set_id: u16,
    /// Human-readable player name.
    pub displayable_name: String,
}

/// The model of a [`MediaPlayerItem`].
#[verifier::ext_equal]
pub struct MediaPlayerModel {
    pub player_id: u16,
    pub major_player_type: u8,
    pub player_sub_type: u32,
    pub play_status: u8,
    pub features: u128,
    pub character_set_id: u16,
    pub displayable_name: Seq<char>,
}

impl View for MediaPlayerItem {
    type V = MediaPlayerModel;

    open spec fn view(&self) -> MediaPlayerModel {
        MediaPlayerModel {
            player_id: self.player_id,
            major_player_type: self.major_player_type,
            player_sub_type: self.player_sub_type,
            play_status: self.play_status,
            features: self.features,
            character_set_id: self.character_set_id,
            displayable_name: self.displayable_name@,
        }
    }
}

impl Clone for MediaPlayerItem {
    fn clone(&self) -> (r: Self)
        ensures
            r@ == self@,
    {
        MediaPlayerItem {
            player_id: self.player_id,
            major_player_type: self.major_player_type,
            player_sub_type: self.player_sub_type,
            play_status: self.play_status,
            features: self.features,
            character_set_id: self.character_set_id,
            displayable_name: self.displayable_name.clone(),
        }
    }
}

/// The media player item that bytes start with.
pub open spec fn media_player_of(d: Seq<u8>) -> Option<MediaPlayerModel> {
    if d.len() < 26 {
        None
    } else {
        match wire::text16_at(d, 26) {
            None => None,
            Some((displayable_name, _)) => Some(
                MediaPlayerModel {
                    player_id: bytes::be16(d, 0),
                    major_player_type: d[2],
                    player_sub_type: bytes::le32(d, 3),
                    play_status: d[7],
                    features: bytes::le128(d, 8),
                    character_set_id: bytes::be16(d, 24),
                    displayable_name,
                },
            ),
        }
    }
}

impl MediaPlayerModel {
    /// The wire form of this item.
    pub open spec fn bytes(self) -> Seq<u8> {
        bytes::be16_bytes(self.player_id) + seq![self.major_player_type] + bytes::le32_bytes(
            self.player_sub_type,
        ) + seq![self.play_status] + bytes::le128_bytes(self.features) + bytes::be16_bytes(
            self.character_set_id,
        ) + wire::text16_bytes(self.displayable_name)
    }
}

impl MediaPlayerItem {
    fn read(reader: &mut Reader) -> (r: Option<Self>)
        requires
            old(reader).pos == 0,
        ensures
            models::opt_view(r) == media_player_of(old(reader).data@),
    {
        let ghost d = reader.data@;
        let player_id: u16 = reader.u16()?;
        let major_player_type: u8 = reader.u8()?;
        let sub_type = reader.take(4)?;
        let player_sub_type: u32 = bytes::read_le32(sub_type, 0);
        assert(player_sub_type == bytes::le32(d, 3)) by {
            assert(sub_type@ == d.subrange(3, 7));
        }
        let play_status: u8 = reader.u8()?;
        let feature_bytes = reader.take(16)?;
        let features: u128 = bytes::read_le128(feature_bytes, 0);
        assert(features == bytes::le128(d, 8)) by {
            assert(feature_bytes@ == d.subrange(8, 24));
        }
        let character_set_id: u16 = reader.u16()?;
        let displayable_name = reader.string16()?;
        Some(
            MediaPlayerItem {
                player_id,
                major_player_type,
                player_sub_type,
                play_status,
                features,
                character_set_id,
                displayable_name,
            },
        )
    }

    fn write(&self, out: &mut Vec<u8>)
        ensures
            final(out)@ == old(out)@ + self@.bytes(),
    {
        let ghost before = out@;
        bytes::push_be16(out, self.player_id);
        out.push(self.major_player_type);
        bytes::push_le32(out, self.player_sub_type);
        out.push(self.play_status);
        bytes::push_le128(out, self.features);
        bytes::push_be16(out, self.character_set_id);
        wire::put_string16(out, self.displayable_name.as_str());
        assert(out@ =~= before + self@.bytes());
    }
}

/// A folder entry in the virtual filesystem scope.
#[derive(Debug, PartialEq, Eq)]
pub struct FolderItem {
    /// Unique folder UID within the browsed player.
    pub folder_uid: u64,
    /// Folder type (see `folder_type`).
    pub folder_type: u8,
    /// Whether the folder can be played directly.
    pub is_playable: bool,
    /// Character set of `displayable_name`.
    pub character_set_id: u16,
    /// Human-readable folder name.
    pub displayable_name: String,
}

/// The model of a [`FolderItem`].
#[verifier::ext_equal]
pub struct FolderModel {
    pub folder_uid: u64,
    pub folder_type: u8,
    pub is_playable: bool,
    pub character_set_id: u16,
    pub displayable_name: Seq<char>,
}

impl View for FolderItem {
    type V = FolderModel;

    open spec fn view(&self) -> FolderModel {
        FolderModel {
            folder_uid: self.folder_uid,
            folder_type: self.folder_type,
            is_playable: self.is_playable,
            character_set_id: self.character_set_id,
            displayable_name: self.displayable_name@,
        }
    }
}

impl Clone for FolderItem {
    fn clone(&self) -> (r: Self)
        ensures
            r@ == self@,
    {
        FolderItem {
            folder_uid: self.folder_uid,
            folder_type: self.folder_type,
            is_playable: self.is_playable,
            character_set_id: self.character_set_id,
            displayable_name: self.displayable_name.clone(),
        }
    }
}

/// The folder item that bytes start with. Any playable flag but zero means
/// yes.
pub open spec fn folder_of(d: Seq<u8>) -> Option<FolderModel> {
    if d.len() < 12 {
        None
    } else {
        match wire::text16_at(d, 12) {
            None => None,
            Some((displayable_name, _)) => Some(
                FolderModel {
                    folder_uid: bytes::be64(d, 0),
                    folder_type: d[8],
                    is_playable: d[9] != 0,
                    character_set_id: bytes::be16(d, 10),
                    displayable_name,
                },
            ),
        }
    }
}

impl FolderModel {
    /// The wire form of this item.
    pub open spec fn bytes(self) -> Seq<u8> {
        bytes::be64_bytes(self.folder_uid) + seq![
            self.folder_type,
            if self.is_playable { 1u8 } else { 0u8 },
        ] + bytes::be16_bytes(self.character_set_id) + wire::text16_bytes(self.displayable_name)
    }
}

impl FolderItem {
    fn read(reader: &mut Reader) -> (r: Option<Self>)
        requires
            old(reader).pos == 0,
        ensures
            models::opt_view(r) == folder_of(old(reader).data@),
    {
        let folder_uid: u64 = reader.u64()?;
        let folder_type: u8 = reader.u8()?;
        let is_playable = reader.u8()? != 0;
        let character_set_id: u16 = reader.u16()?;
        let displayable_name = reader.string16()?;
        Some(
            FolderItem { folder_uid, folder_type, is_playable, character_set_id, displayable_name },
        )
    }

    fn write(&self, out: &mut Vec<u8>)
        ensures
            final(out)@ == old(out)@ + self@.bytes(),
    {
        let ghost before = out@;
        bytes::push_be64(out, self.folder_uid);
        out.push(self.folder_type);
        out.push(if self.is_playable { 1 } else { 0 });
        bytes::push_be16(out, self.character_set_id);
        wire::put_string16(out, self.displayable_name.as_str());
        assert(out@ =~= before + self@.bytes());
    }
}

/// A media element (track) entry.
#[derive(Debug, PartialEq, Eq)]
pub struct MediaElementItem {
    /// Unique media element (track) UID.
    pub media_element_uid: u64,
    /// Media type (see `media_element_type`).
    pub media_type: u8,
    /// Character set of `displayable_name`.
    pub character_set_id: u16,
    /// Human-readable element name.
    pub displayable_name: String,
    /// Media attributes attached to this element.
    pub attributes: Vec<MediaAttribute>,
}

/// The model of a [`MediaElementItem`].
#[verifier::ext_equal]
pub struct MediaElementModel {
    pub media_element_uid: u64,
    pub media_type: u8,
    pub character_set_id: u16,
    pub displayable_name: Seq<char>,
    pub attributes: Seq<MediaAttributeModel>,
}

impl View for MediaElementItem {
    type V = MediaElementModel;

    open spec fn view(&self) -> MediaElementModel {
        MediaElementModel {
            media_element_uid: self.media_element_uid,
            media_type: self.media_type,
            character_set_id: self.character_set_id,
            displayable_name: self.displayable_name@,
            attributes: models::seq_views(self.attributes@),
        }
    }
}

/// A copy of a list of media attributes.
pub(crate) fn copy_attributes(list: &Vec<MediaAttribute>) -> (r: Vec<MediaAttribute>)
    ensures
        models::seq_views(r@) == models::seq_views(list@),
{
    let mut out: Vec<MediaAttribute> = Vec::new();
    let mut i: usize = 0;
    while i < list.len()
        invariant
            i <= list@.len(),
            out@.len() == i,
            forall|j: int| 0 <= j < i ==> (#[trigger] out@[j])@ == list@[j]@,
        decreases list@.len() - i,
    {
        out.push(list[i].clone());
        i = i + 1;
    }
    assert(models::seq_views(out@) =~= models::seq_views(list@));
    out
}

impl Clone for MediaElementItem {
    fn clone(&self) -> (r: Self)
        ensures
            r@ == self@,
    {
        MediaElementItem {
            media_element_uid: self.media_element_uid,
            media_type: self.media_type,
            character_set_id: self.character_set_id,
            displayable_name: self.displayable_name.clone(),
            attributes: copy_attributes(&self.attributes),
        }
    }
}

/// The media element that bytes start with.
pub open spec fn media_element_of(d: Seq<u8>) -> Option<MediaElementModel> {
    if d.len() < 11 {
        None
    } else {
        match wire::text16_at(d, 11) {
            None => None,
            Some((displayable_name, p)) => match media_attribute_list_at(d, p) {
                None => None,
                Some((attributes, _)) => Some(
                    MediaElementModel {
                        media_element_uid: bytes::be64(d, 0),
                        media_type: d[8],
                        character_set_id: bytes::be16(d, 9),
                        displayable_name,
                        attributes,
                    },
                ),
            },
        }
    }
}

impl MediaElementModel {
    /// The wire form of this item.
    pub open spec fn bytes(self) -> Seq<u8> {
        bytes::be64_bytes(self.media_element_uid) + seq![self.media_type] + bytes::be16_bytes(
            self.character_set_id,
        ) + wire::text16_bytes(self.displayable_name) + media_attribute_list_bytes(self.attributes)
    }
}

impl MediaElementItem {
    fn read(reader: &mut Reader) -> (r: Option<Self>)
        requires
            old(reader).pos == 0,
        ensures
            models::opt_view(r) == media_element_of(old(reader).data@),
    {
        let media_element_uid: u64 = reader.u64()?;
        let media_type: u8 = reader.u8()?;
        let character_set_id: u16 = reader.u16()?;
        let displayable_name = reader.string16()?;
        let attributes = read_media_attribute_list(reader)?;
        Some(
            MediaElementItem {
                media_element_uid,
                media_type,
                character_set_id,
                displayable_name,
                attributes,
            },
        )
    }

    fn write(&self, out: &mut Vec<u8>)
        ensures
            final(out)@ == old(out)@ + self@.bytes(),
    {
        let ghost before = out@;
        bytes::push_be64(out, self.media_element_uid);
        out.push(self.media_type);
        bytes::push_be16(out, self.character_set_id);
        wire::put_string16(out, self.displayable_name.as_str());
        write_media_attribute_list(out, &self.attributes);
        assert(out@ =~= before + self@.bytes());
    }
}

/// One entry of a GetFolderItems response, with its type and length in front
/// on the wire.
#[derive(Debug, Clone, PartialEq, Eq)]
pub enum BrowseableItem {
    /// A media player entry (player list scope).
    MediaPlayer(MediaPlayerItem),
    /// A folder entry (virtual filesystem scope).
    Folder(FolderItem),
    /// A media element (track) entry.
    MediaElement(MediaElementItem),
}

/// The model of a [`BrowseableItem`].
#[verifier::ext_equal]
pub enum BrowseableModel {
    MediaPlayer(MediaPlayerModel),
    Folder(FolderModel),
    MediaElement(MediaElementModel),
}

impl View for BrowseableItem {
    type V = BrowseableModel;

    open spec fn view(&self) -> BrowseableModel {
        match self {
            BrowseableItem::MediaPlayer(item) => BrowseableModel::MediaPlayer(item@),
            BrowseableItem::Folder(item) => BrowseableModel::Folder(item@),
            BrowseableItem::MediaElement(item) => BrowseableModel::MediaElement(item@),
        }
    }
}

/// The browseable item in the body of an entry of some type.
pub open spec fn browseable_of(kind: u8, body: Seq<u8>) -> Option<BrowseableModel> {
    if kind == item_type::MEDIA_PLAYER {
        match media_player_of(body) {
            Some(item) => Some(BrowseableModel::MediaPlayer(item)),
            None => None,
        }
    } else if kind == item_type::FOLDER {
        match folder_of(body) {
            Some(item) => Some(BrowseableModel::Folder(item)),
            None => None,
        }
    } else if kind == item_type::MEDIA_ELEMENT {
        match media_element_of(body) {
            Some(item) => Some(BrowseableModel::MediaElement(item)),
            None => None,
        }
    } else {
        None
    }
}

/// The browseable item at `p`, and where it ends.
pub open spec fn browseable_at(d: Seq<u8>, p: int) -> Option<(BrowseableModel, int)> {
    if p + 3 <= d.len() && p + 3 + bytes::be16(d, p + 1) <= d.len() {
        let end = p + 3 + bytes::be16(d, p + 1);
        match browseable_of(d[p], d.subrange(p + 3, end)) {
            Some(item) => Some((item, end)),
            None => None,
        }
    } else {
        None
    }
}

/// The `n` browseable items from `p` on, and where they end.
pub open spec fn browseables_at(d: Seq<u8>, p: int, n: nat) -> Option<(Seq<BrowseableModel>, int)>
    decreases n,
{
    if n == 0 {
        Some((seq![], p))
    } else {
        match browseables_at(d, p, (n - 1) as nat) {
            None => None,
            Some((before, q)) => match browseable_at(d, q) {
                None => None,
                Some((item, end)) => Some((before.push(item), end)),
            },
        }
    }
}

impl BrowseableModel {
    /// The type that stands in front of this item.
    pub open spec fn kind(self) -> u8 {
        match self {
            BrowseableModel::MediaPlayer(_) => item_type::MEDIA_PLAYER,
            BrowseableModel::Folder(_) => item_type::FOLDER,
            BrowseableModel::MediaElement(_) => item_type::MEDIA_ELEMENT,
        }
    }

    /// The wire form of the body of this item.
    pub open spec fn body(self) -> Seq<u8> {
        match self {
            BrowseableModel::MediaPlayer(item) => item.bytes(),
            BrowseableModel::Folder(item) => item.bytes(),
            BrowseableModel::MediaElement(item) => item.bytes(),
        }
    }

    /// The wire form of this item; the length field holds the low bits of the
    /// length of its body.
    pub open spec fn bytes(self) -> Seq<u8> {
        seq![self.kind()] + bytes::be16_bytes(self.body().len() as u16) + self.body()
    }
}

/// Browseable items, one behind the other.
pub open spec fn browseables_bytes(list: Seq<BrowseableModel>) -> Seq<u8>
    decreases list.len(),
{
    if list.len() == 0 {
        seq![]
    } else {
        browseables_bytes(list.drop_last()) + list.last().bytes()
    }
}

/// When one of the items cannot be read, neither can a longer list.
pub proof fn lemma_browseables_at_fails(d: Seq<u8>, p: int, n: nat, more: nat)
    requires
        n <= more,
        browseables_at(d, p, n) is None,
    ensures
        browseables_at(d, p, more) is None,
    decreases more,
{
    if n < more {
        lemma_browseables_at_fails(d, p, n, (more - 1) as nat);
    }
}

impl BrowseableItem {
    pub(crate) fn read(reader: &mut Reader) -> (r: Option<Self>)
        requires
            old(reader).pos <= old(reader).data.len(),
        ensures
            final(reader).data == old(reader).data,
            final(reader).pos <= final(reader).data.len(),
            match r {
                Some(item) => browseable_at(old(reader).data@, old(reader).pos as int) == Some(
                    (item@, final(reader).pos as int),
                ),
                None => browseable_at(old(reader).data@, old(reader).pos as int) is None,
            },
    {
        let kind: u8 = reader.u8()?;
        let length: usize = reader.u16()? as usize;
        let part = reader.take(length)?;
        let mut body = Reader::new(part);
        if kind == item_type::MEDIA_PLAYER {
            let item = MediaPlayerItem::read(&mut body)?;
            Some(BrowseableItem::MediaPlayer(item))
        } else if kind == item_type::FOLDER {
            let item = FolderItem::read(&mut body)?;
            Some(BrowseableItem::Folder(item))
        } else if kind == item_type::MEDIA_ELEMENT {
            let item = MediaElementItem::read(&mut body)?;
            Some(BrowseableItem::MediaElement(item))
        } else {
            None
        }
    }

    pub(crate) fn write(&self, out: &mut Vec<u8>)
        ensures
            final(out)@ == old(out)@ + self@.bytes(),
    {
        let ghost before = out@;
        let mut body: Vec<u8> = Vec::new();
        let kind: u8 = match self {
            BrowseableItem::MediaPlayer(item) => {
                item.write(&mut body);
                item_type::MEDIA_PLAYER
            },
            BrowseableItem::Folder(item) => {
                item.write(&mut body);
                item_type::FOLDER
            },
            BrowseableItem::MediaElement(item) => {
                item.write(&mut body);
                item_type::MEDIA_ELEMENT
            },
        };
        assert(body@ =~= self@.body());
        out.push(kind);
        bytes::push_be16(out, body.len() as u16);
        bytes::push_bytes(out, &body);
        assert(out@ =~= before + self@.bytes());
    }
}

pub(crate) fn read_browseables(reader: &mut Reader, count: u16) -> (r: Option<
    Vec<BrowseableItem>,
>)
    requires
        old(reader).pos <= old(reader).data.len(),
    ensures
        final(reader).data == old(reader).data,
        final(reader).pos <= final(reader).data.len(),
        match r {
            Some(list) => browseables_at(
                old(reader).data@,
                old(reader).pos as int,
                count as nat,
            ) == Some((models::seq_views(list@), final(reader).pos as int)),
            None => browseables_at(old(reader).data@, old(reader).pos as int, count as nat) is None,
        },
{
    let ghost d = reader.data@;
    let ghost p = reader.pos as int;
    let mut list: Vec<BrowseableItem> = Vec::new();
    let mut i: u16 = 0;
    assert(models::seq_views(list@) =~= seq![]);
    while i < count
        invariant
            i <= count,
            reader.data@ == d,
            reader.data == old(reader).data,
            reader.pos <= d.len(),
            browseables_at(d, p, i as nat) == Some((models::seq_views(list@), reader.pos as int)),
        decreases count - i,
    {
        match BrowseableItem::read(reader) {
            None => {
                proof {
                    lemma_browseables_at_fails(d, p, (i + 1) as nat, count as nat);
                }
                return None;
            },
            Some(item) => {
                proof {
                    models::lemma_seq_views_push(list@, item);
                }
                list.push(item);
            },
        }
        i = i + 1;
    }
    Some(list)
}

pub(crate) fn write_browseables(out: &mut Vec<u8>, items: &[BrowseableItem])
    ensures
        final(out)@ == old(out)@ + browseables_bytes(models::seq_views(items@)),
{
    let ghost before = out@;
    let ghost all = models::seq_views(items@);
    let mut i: usize = 0;
    assert(out@ =~= before + browseables_bytes(all.take(0)));
    while i < items.len()
        invariant
            i <= items@.len(),
            out@ == before + browseables_bytes(all.take(i as int)),
        decreases items@.len() - i,
    {
        assert(all.take(i + 1).drop_last() =~= all.take(i as int));
        items[i].write(out);
        i = i + 1;
        assert(out@ =~= before + browseables_bytes(all.take(i as int)));
    }
    assert(all.take(i as int) =~= all);
}

} // verus!
