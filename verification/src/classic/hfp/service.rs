//! Service records of both sides.

use vstd::prelude::*;
use crate::classic::hfp::ag_feature;
use crate::classic::hfp::ag_sdp_feature;
use crate::classic::hfp::event::{AgConfiguration, HfConfiguration};
use crate::classic::hfp::gateway;
use crate::classic::hfp::hf_feature;
use crate::classic::hfp::hf_sdp_feature;
use crate::classic::hfp::values::{AudioCodec, ProfileVersion};
use crate::classic::sdp;
use crate::classic::sdp::client;
use crate::classic::sdp::element::{DataElement, ElementModel, SdpUuid};
use crate::classic::sdp::pdu::AttributeIdSpec;
use crate::classic::sdp::record;
use crate::classic::sdp::record::{AttributeModel, ServiceAttribute};
use crate::classic::sdp::SdpClient;
use crate::models;
use crate::types::{SimbleError, SimbleErrorModel};

verus! {

/// Attribute ID of the features.
pub const SUPPORTED_FEATURES: u16 = 0x0311;

/// Hands-Free service class UUID.
pub const HANDSFREE_SERVICE: u16 = 0x111E;

/// Audio Gateway service class UUID.
pub const HANDSFREE_AUDIO_GATEWAY_SERVICE: u16 = 0x111F;

/// Generic audio service class UUID.
pub const GENERIC_AUDIO_SERVICE: u16 = 0x1203;

/// The features of a Hands-Free, each with its bit in the service record.
pub const HF_FEATURES: [(u32, u16); 7] = [
    (hf_feature::EC_NR, hf_sdp_feature::EC_NR),
    (hf_feature::THREE_WAY_CALLING, hf_sdp_feature::THREE_WAY_CALLING),
    (hf_feature::CLI_PRESENTATION_CAPABILITY, hf_sdp_feature::CLI_PRESENTATION_CAPABILITY),
    (hf_feature::VOICE_RECOGNITION_ACTIVATION, hf_sdp_feature::VOICE_RECOGNITION_ACTIVATION),
    (hf_feature::REMOTE_VOLUME_CONTROL, hf_sdp_feature::REMOTE_VOLUME_CONTROL),
    (
        hf_feature::ENHANCED_VOICE_RECOGNITION_STATUS,
        hf_sdp_feature::ENHANCED_VOICE_RECOGNITION_STATUS,
    ),
    (hf_feature::VOICE_RECOGNITION_TEXT, hf_sdp_feature::VOICE_RECOGNITION_TEXT),
];

/// The features of an Audio Gateway, each with its bit in the service record.
pub const AG_FEATURES: [(u32, u16); 6] = [
    (ag_feature::EC_NR, ag_sdp_feature::EC_NR),
    (ag_feature::THREE_WAY_CALLING, ag_sdp_feature::THREE_WAY_CALLING),
    (
        ag_feature::ENHANCED_VOICE_RECOGNITION_STATUS,
        ag_sdp_feature::ENHANCED_VOICE_RECOGNITION_STATUS,
    ),
    (ag_feature::VOICE_RECOGNITION_TEXT, ag_sdp_feature::VOICE_RECOGNITION_TEXT),
    (ag_feature::IN_BAND_RING_TONE_CAPABILITY, ag_sdp_feature::IN_BAND_RING_TONE_CAPABILITY),
    (ag_feature::VOICE_RECOGNITION_FUNCTION, ag_sdp_feature::VOICE_RECOGNITION_FUNCTION),
];

// ---------------------------------------------------------------------------
// Writing records
// ---------------------------------------------------------------------------

/// The bits in a service record of those features in a table that are
/// supported.
pub open spec fn features_in(bits: Seq<(u32, u16)>, supported: u32) -> u16
    decreases bits.len(),
{
    if bits.len() == 0 {
        0
    } else {
        let before = features_in(bits.drop_last(), supported);
        if supported & bits.last().0 != 0 {
            before | bits.last().1
        } else {
            before
        }
    }
}

/// Features with the one for wide-band speech, where its codec is supported.
pub open spec fn with_speech(features: u16, codecs: Seq<AudioCodec>, speech: u16) -> u16 {
    if codecs.contains(AudioCodec::Msbc) {
        features | speech
    } else {
        features
    }
}

fn collect_features(bits: &[(u32, u16)], supported: u32) -> (r: u16)
    ensures
        r == features_in(bits@, supported),
{
    let mut features: u16 = 0;
    let mut i: usize = 0;
    assert(bits@.take(0) =~= seq![]);
    while i < bits.len()
        invariant
            i <= bits@.len(),
            features == features_in(bits@.take(i as int), supported),
        decreases bits@.len() - i,
    {
        assert(bits@.take(i + 1).drop_last() =~= bits@.take(i as int));
        if supported & bits[i].0 != 0 {
            features = features | bits[i].1;
        }
        i = i + 1;
    }
    assert(bits@.take(i as int) =~= bits@);
    features
}

/// The attributes of either side.
pub open spec fn record_attributes(
    handle: u32,
    channel: u8,
    class: u16,
    version: ProfileVersion,
    features: u16,
) -> Seq<AttributeModel> {
    seq![
        AttributeModel {
            id: sdp::attribute_id::SERVICE_RECORD_HANDLE,
            value: ElementModel::UnsignedInteger(handle as u64, 4),
        },
        AttributeModel {
            id: sdp::attribute_id::SERVICE_CLASS_ID_LIST,
            value: ElementModel::Sequence(
                seq![
                    ElementModel::Uuid(SdpUuid::Uuid16(class)),
                    ElementModel::Uuid(SdpUuid::Uuid16(GENERIC_AUDIO_SERVICE)),
                ],
            ),
        },
        AttributeModel {
            id: sdp::attribute_id::PROTOCOL_DESCRIPTOR_LIST,
            value: ElementModel::Sequence(
                seq![
                    ElementModel::Sequence(
                        seq![ElementModel::Uuid(SdpUuid::Uuid16(SdpUuid::BT_L2CAP_PROTOCOL_ID))],
                    ),
                    ElementModel::Sequence(
                        seq![
                            ElementModel::Uuid(SdpUuid::Uuid16(SdpUuid::BT_RFCOMM_PROTOCOL_ID)),
                            ElementModel::UnsignedInteger(channel as u64, 1),
                        ],
                    ),
                ],
            ),
        },
        AttributeModel {
            id: sdp::attribute_id::BLUETOOTH_PROFILE_DESCRIPTOR_LIST,
            value: ElementModel::Sequence(
                seq![
                    ElementModel::Sequence(
                        seq![
                            ElementModel::Uuid(SdpUuid::Uuid16(class)),
                            ElementModel::UnsignedInteger(version.number() as u64, 2),
                        ],
                    ),
                ],
            ),
        },
        AttributeModel {
            id: SUPPORTED_FEATURES,
            value: ElementModel::UnsignedInteger(features as u64, 2),
        },
    ]
}

fn make_records(
    handle: u32,
    channel: u8,
    class: u16,
    version: ProfileVersion,
    features: u16,
) -> (r: Vec<ServiceAttribute>)
    ensures
        models::seq_views(r@) == record_attributes(handle, channel, class, version, features),
{
    let mut records: Vec<ServiceAttribute> = Vec::new();
    records.push(
        ServiceAttribute::new(
            sdp::attribute_id::SERVICE_RECORD_HANDLE,
            DataElement::unsigned_integer_32(handle),
        ),
    );
    records.push(
        ServiceAttribute::new(
            sdp::attribute_id::SERVICE_CLASS_ID_LIST,
            DataElement::sequence_of_2(
                DataElement::uuid_16(class),
                DataElement::uuid_16(GENERIC_AUDIO_SERVICE),
            ),
        ),
    );
    records.push(
        ServiceAttribute::new(
            sdp::attribute_id::PROTOCOL_DESCRIPTOR_LIST,
            DataElement::sequence_of_2(
                DataElement::sequence_of_1(DataElement::uuid_16(SdpUuid::BT_L2CAP_PROTOCOL_ID)),
                DataElement::sequence_of_2(
                    DataElement::uuid_16(SdpUuid::BT_RFCOMM_PROTOCOL_ID),
                    DataElement::unsigned_integer_8(channel),
                ),
            ),
        ),
    );
    records.push(
        ServiceAttribute::new(
            sdp::attribute_id::BLUETOOTH_PROFILE_DESCRIPTOR_LIST,
            DataElement::sequence_of_1(
                DataElement::sequence_of_2(
                    DataElement::uuid_16(class),
                    DataElement::unsigned_integer_16(version.to_value()),
                ),
            ),
        ),
    );
    records.push(
        ServiceAttribute::new(SUPPORTED_FEATURES, DataElement::unsigned_integer_16(features)),
    );
    assert(models::seq_views(records@) =~= record_attributes(
        handle,
        channel,
        class,
        version,
        features,
    ));
    records
}

/// The features in the service record of the Hands-Free.
pub open spec fn hf_record_features(configuration: HfConfiguration) -> u16 {
    with_speech(
        features_in(HF_FEATURES@, configuration.supported_hf_features),
        configuration.supported_audio_codecs@,
        hf_sdp_feature::WIDE_BAND_SPEECH,
    )
}

/// The attributes that advertise a Hands-Free on an RFCOMM server channel.
pub fn make_hf_sdp_records(
    service_record_handle: u32,
    rfcomm_channel: u8,
    configuration: &HfConfiguration,
    version: ProfileVersion,
) -> (r: Vec<ServiceAttribute>)
    ensures
        models::seq_views(r@) == record_attributes(
            service_record_handle,
            rfcomm_channel,
            HANDSFREE_SERVICE,
            version,
            hf_record_features(*configuration),
        ),
{
    let mut features: u16 = collect_features(
        &HF_FEATURES,
        configuration.supported_hf_features,
    );
    if gateway::contains_codec(&configuration.supported_audio_codecs, AudioCodec::Msbc) {
        features = features | hf_sdp_feature::WIDE_BAND_SPEECH;
    }
    make_records(service_record_handle, rfcomm_channel, HANDSFREE_SERVICE, version, features)
}

/// The features in the service record of the Audio Gateway.
pub open spec fn ag_record_features(configuration: AgConfiguration) -> u16 {
    with_speech(
        features_in(AG_FEATURES@, configuration.supported_ag_features),
        configuration.supported_audio_codecs@,
        ag_sdp_feature::WIDE_BAND_SPEECH,
    )
}

/// The attributes that advertise an Audio Gateway on an RFCOMM server channel.
pub fn make_ag_sdp_records(
    service_record_handle: u32,
    rfcomm_channel: u8,
    configuration: &AgConfiguration,
    version: ProfileVersion,
) -> (r: Vec<ServiceAttribute>)
    ensures
        models::seq_views(r@) == record_attributes(
            service_record_handle,
            rfcomm_channel,
            HANDSFREE_AUDIO_GATEWAY_SERVICE,
            version,
            ag_record_features(*configuration),
        ),
{
    let mut features: u16 = collect_features(
        &AG_FEATURES,
        configuration.supported_ag_features,
    );
    if gateway::contains_codec(&configuration.supported_audio_codecs, AudioCodec::Msbc) {
        features = features | ag_sdp_feature::WIDE_BAND_SPEECH;
    }
    make_records(
        service_record_handle,
        rfcomm_channel,
        HANDSFREE_AUDIO_GATEWAY_SERVICE,
        version,
        features,
    )
}

// ---------------------------------------------------------------------------
// Reading records
// ---------------------------------------------------------------------------

/// What a list of attributes says of a service. Where an attribute occurs
/// twice, the later one counts.
#[derive(Debug, Clone, Copy, PartialEq, Eq, Structural)]
pub struct Described {
    /// RFCOMM server channel.
    pub channel: Option<u8>,
    /// Version of the profile.
    pub version: Option<ProfileVersion>,
    /// Features.
    pub features: Option<u16>,
    /// Whether its first service class is the Audio Gateway.
    pub is_gateway: bool,
}

/// Whether a list of service classes starts with the Audio Gateway.
pub open spec fn starts_with_gateway(value: ElementModel) -> bool {
    match value.sequence() {
        Some(items) => items.len() > 0 && items[0].uuid() == Some(
            SdpUuid::Uuid16(HANDSFREE_AUDIO_GATEWAY_SERVICE),
        ),
        None => false,
    }
}

/// What a list of attributes says of a service.
pub open spec fn described(attributes: Seq<AttributeModel>) -> Described
    decreases attributes.len(),
{
    if attributes.len() == 0 {
        Described { channel: None, version: None, features: None, is_gateway: false }
    } else {
        let before = described(attributes.drop_last());
        let value = attributes.last().value;
        match attributes.last().id {
            sdp::attribute_id::PROTOCOL_DESCRIPTOR_LIST => Described {
                channel: match record::unsigned_in(value, 1, 1) {
                    Some(v) => Some(v as u8),
                    None => None,
                },
                ..before
            },
            sdp::attribute_id::BLUETOOTH_PROFILE_DESCRIPTOR_LIST => Described {
                version: match record::unsigned_in(value, 0, 1) {
                    Some(v) => ProfileVersion::numbered(v as u16),
                    None => None,
                },
                ..before
            },
            SUPPORTED_FEATURES => match value.unsigned() {
                Some(v) => Described { features: Some(v.0 as u16), ..before },
                None => before,
            },
            sdp::attribute_id::SERVICE_CLASS_ID_LIST => Described {
                is_gateway: before.is_gateway || starts_with_gateway(value),
                ..before
            },
            _ => before,
        }
    }
}

fn check_gateway(value: &DataElement) -> (r: bool)
    ensures
        r == starts_with_gateway(value@),
{
    match value.as_sequence() {
        Some(items) => {
            if items.len() > 0 {
                match items[0].as_uuid() {
                    Some(uuid) => uuid.same(SdpUuid::Uuid16(HANDSFREE_AUDIO_GATEWAY_SERVICE)),
                    None => false,
                }
            } else {
                false
            }
        },
        None => false,
    }
}

fn describe(attributes: &[ServiceAttribute]) -> (r: Described)
    ensures
        r == described(models::seq_views(attributes@)),
{
    let ghost all = models::seq_views(attributes@);
    let mut r = Described { channel: None, version: None, features: None, is_gateway: false };
    let mut i: usize = 0;
    assert(all.take(0) =~= seq![]);
    while i < attributes.len()
        invariant
            i <= attributes@.len(),
            all == models::seq_views(attributes@),
            r == described(all.take(i as int)),
        decreases attributes@.len() - i,
    {
        assert(all.take(i + 1).drop_last() =~= all.take(i as int));
        assert(all.take(i + 1).last() == attributes@[i as int]@);
        let value = &attributes[i].value;
        match attributes[i].id {
            sdp::attribute_id::PROTOCOL_DESCRIPTOR_LIST => {
                r.channel = match record::find_unsigned_in(value, 1, 1) {
                    Some(v) => Some(v as u8),
                    None => None,
                };
            },
            sdp::attribute_id::BLUETOOTH_PROFILE_DESCRIPTOR_LIST => {
                r.version = match record::find_unsigned_in(value, 0, 1) {
                    Some(v) => ProfileVersion::from_value(v as u16),
                    None => None,
                };
            },
            SUPPORTED_FEATURES => {
                if let Some((v, _)) = value.as_unsigned_integer() {
                    r.features = Some(v as u16);
                }
            },
            sdp::attribute_id::SERVICE_CLASS_ID_LIST => {
                if check_gateway(value) {
                    r.is_gateway = true;
                }
            },
            _ => {},
        }
        i = i + 1;
    }
    assert(all.take(i as int) =~= all);
    r
}

/// What a search for a service finds in a description: everything that is
/// needed, and no Audio Gateway where those are to be passed over.
pub open spec fn usable(d: Described, skip_gateways: bool) -> Option<(u8, ProfileVersion, u16)> {
    match (d.channel, d.version, d.features) {
        (Some(channel), Some(version), Some(features)) => if skip_gateways && d.is_gateway {
            None
        } else {
            Some((channel, version, features))
        },
        _ => None,
    }
}

/// The first service that a search finds.
pub open spec fn record_of(lists: Seq<Seq<AttributeModel>>, skip_gateways: bool) -> Option<
    (u8, ProfileVersion, u16),
>
    decreases lists.len(),
{
    if lists.len() == 0 {
        None
    } else {
        match usable(described(lists[0]), skip_gateways) {
            Some(found) => Some(found),
            None => record_of(lists.skip(1), skip_gateways),
        }
    }
}

/// Reads the first service that a search finds.
pub fn record_from(lists: &[Vec<ServiceAttribute>], skip_gateways: bool) -> (r: Option<
    (u8, ProfileVersion, u16),
>)
    ensures
        r == record_of(client::list_views(lists@), skip_gateways),
{
    let ghost all = client::list_views(lists@);
    let mut i: usize = 0;
    assert(all.skip(0) =~= all);
    while i < lists.len()
        invariant
            i <= lists@.len(),
            all == client::list_views(lists@),
            record_of(all.skip(i as int), skip_gateways) == record_of(all, skip_gateways),
        decreases lists@.len() - i,
    {
        assert(all.skip(i as int)[0] == models::seq_views(lists@[i as int]@));
        assert(all.skip(i as int).skip(1) =~= all.skip(i + 1));
        let d = describe(&lists[i]);
        if !(skip_gateways && d.is_gateway) {
            if let (Some(channel), Some(version), Some(features)) = (
                d.channel,
                d.version,
                d.features,
            ) {
                return Some((channel, version, features));
            }
        }
        i = i + 1;
    }
    None
}

/// What a search comes to.
pub open spec fn record_in(
    found: Result<Seq<Seq<AttributeModel>>, SimbleErrorModel>,
    skip_gateways: bool,
) -> Result<Option<(u8, ProfileVersion, u16)>, SimbleErrorModel> {
    match found {
        Ok(lists) => Ok(record_of(lists, skip_gateways)),
        Err(why) => Err(why),
    }
}

/// The model of the result of a search.
pub open spec fn record_outcome(
    r: Result<Option<(u8, ProfileVersion, u16)>, SimbleError>,
) -> Result<Option<(u8, ProfileVersion, u16)>, SimbleErrorModel> {
    match r {
        Ok(found) => Ok(found),
        Err(why) => Err(why@),
    }
}

/// The attributes that a search for a Hands-Free asks for.
pub open spec fn hf_attribute_ids() -> Seq<AttributeIdSpec> {
    seq![
        AttributeIdSpec::Single(sdp::attribute_id::PROTOCOL_DESCRIPTOR_LIST),
        AttributeIdSpec::Single(sdp::attribute_id::BLUETOOTH_PROFILE_DESCRIPTOR_LIST),
        AttributeIdSpec::Single(SUPPORTED_FEATURES),
        AttributeIdSpec::Single(sdp::attribute_id::SERVICE_CLASS_ID_LIST),
    ]
}

/// Searches for a Hands-Free: its RFCOMM server channel, the version of the
/// profile, and its features.
pub fn find_hf_sdp_record(
    sdp_client: &mut SdpClient,
    transport: impl FnMut(&[u8]) -> Vec<u8>,
) -> (r: Result<Option<(u8, ProfileVersion, u16)>, SimbleError>)
    requires
        forall|request: &[u8]| call_requires(transport, (request,)),
    ensures
        exists|found: Result<Seq<Seq<AttributeModel>>, SimbleErrorModel>|
            #[trigger] client::search_attributes_gives(
                transport,
                old(sdp_client)@,
                seq![SdpUuid::Uuid16(HANDSFREE_SERVICE)],
                hf_attribute_ids(),
                found,
                final(sdp_client)@,
            ) && record_outcome(r) == record_in(found, true),
{
    let uuids: Vec<SdpUuid> = vec![SdpUuid::Uuid16(HANDSFREE_SERVICE)];
    assert(uuids@ =~= seq![SdpUuid::Uuid16(HANDSFREE_SERVICE)]);
    let ids: Vec<AttributeIdSpec> = vec![
        AttributeIdSpec::Single(sdp::attribute_id::PROTOCOL_DESCRIPTOR_LIST),
        AttributeIdSpec::Single(sdp::attribute_id::BLUETOOTH_PROFILE_DESCRIPTOR_LIST),
        AttributeIdSpec::Single(SUPPORTED_FEATURES),
        AttributeIdSpec::Single(sdp::attribute_id::SERVICE_CLASS_ID_LIST),
    ];
    assert(ids@ =~= hf_attribute_ids());
    match sdp_client.search_attributes(&uuids, &ids, transport) {
        Ok(lists) => Ok(record_from(&lists, true)),
        Err(why) => Err(why),
    }
}

/// The attributes that a search for an Audio Gateway asks for.
pub open spec fn ag_attribute_ids() -> Seq<AttributeIdSpec> {
    seq![
        AttributeIdSpec::Single(sdp::attribute_id::PROTOCOL_DESCRIPTOR_LIST),
        AttributeIdSpec::Single(sdp::attribute_id::BLUETOOTH_PROFILE_DESCRIPTOR_LIST),
        AttributeIdSpec::Single(SUPPORTED_FEATURES),
    ]
}

/// Searches for an Audio Gateway: its RFCOMM server channel, the version of the
/// profile, and its features.
pub fn find_ag_sdp_record(
    sdp_client: &mut SdpClient,
    transport: impl FnMut(&[u8]) -> Vec<u8>,
) -> (r: Result<Option<(u8, ProfileVersion, u16)>, SimbleError>)
    requires
        forall|request: &[u8]| call_requires(transport, (request,)),
    ensures
        exists|found: Result<Seq<Seq<AttributeModel>>, SimbleErrorModel>|
            #[trigger] client::search_attributes_gives(
                transport,
                old(sdp_client)@,
                seq![SdpUuid::Uuid16(HANDSFREE_AUDIO_GATEWAY_SERVICE)],
                ag_attribute_ids(),
                found,
                final(sdp_client)@,
            ) && record_outcome(r) == record_in(found, false),
{
    let uuids: Vec<SdpUuid> = vec![SdpUuid::Uuid16(HANDSFREE_AUDIO_GATEWAY_SERVICE)];
    assert(uuids@ =~= seq![SdpUuid::Uuid16(HANDSFREE_AUDIO_GATEWAY_SERVICE)]);
    let ids: Vec<AttributeIdSpec> = vec![
        AttributeIdSpec::Single(sdp::attribute_id::PROTOCOL_DESCRIPTOR_LIST),
        AttributeIdSpec::Single(sdp::attribute_id::BLUETOOTH_PROFILE_DESCRIPTOR_LIST),
        AttributeIdSpec::Single(SUPPORTED_FEATURES),
    ];
    assert(ids@ =~= ag_attribute_ids());
    match sdp_client.search_attributes(&uuids, &ids, transport) {
        Ok(lists) => Ok(record_from(&lists, false)),
        Err(why) => Err(why),
    }
}

// ---------------------------------------------------------------------------
// Laws
// ---------------------------------------------------------------------------

/// A service record says of its service what it was made of.
proof fn lemma_described(
    handle: u32,
    channel: u8,
    class: u16,
    version: ProfileVersion,
    features: u16,
)
    ensures
        described(record_attributes(handle, channel, class, version, features)) == (Described {
            channel: Some(channel),
            version: Some(version),
            features: Some(features),
            is_gateway: class == HANDSFREE_AUDIO_GATEWAY_SERVICE,
        }),
{
    let all = record_attributes(handle, channel, class, version, features);
    let a1 = all.drop_last();
    let a2 = a1.drop_last();
    let a3 = a2.drop_last();
    let a4 = a3.drop_last();
    assert(a4.drop_last() =~= seq![]);
    assert(described(a4.drop_last()).channel is None);
    assert(a4.last() == all[0]);
    assert(a3.last() == all[1]);
    assert(a2.last() == all[2]);
    assert(a1.last() == all[3]);
    assert(all.last() == all[4]);
    let d4 = described(a4);
    let classes = all[1].value.sequence()->0;
    assert(classes[0] == ElementModel::Uuid(SdpUuid::Uuid16(class)));
    let d3 = described(a3);
    assert(d3.is_gateway == (class == HANDSFREE_AUDIO_GATEWAY_SERVICE));
    assert(record::unsigned_in(all[2].value, 1, 1) == Some(channel as u64));
    assert(record::unsigned_in(all[3].value, 0, 1) == Some(version.number() as u64));
    let d2 = described(a2);
    let d1 = described(a1);
}

/// What the service record of a Hands-Free was made of is what a search for a
/// Hands-Free finds in it.
pub proof fn law_hands_free_is_found(
    handle: u32,
    channel: u8,
    version: ProfileVersion,
    features: u16,
    after: Seq<Seq<AttributeModel>>,
)
    ensures
        record_of(
            seq![record_attributes(handle, channel, HANDSFREE_SERVICE, version, features)] + after,
            true,
        ) == Some((channel, version, features)),
{
    lemma_described(handle, channel, HANDSFREE_SERVICE, version, features);
}

/// The same of an Audio Gateway.
pub proof fn law_gateway_is_found(
    handle: u32,
    channel: u8,
    version: ProfileVersion,
    features: u16,
    after: Seq<Seq<AttributeModel>>,
)
    ensures
        record_of(
            seq![
                record_attributes(
                    handle,
                    channel,
                    HANDSFREE_AUDIO_GATEWAY_SERVICE,
                    version,
                    features,
                ),
            ] + after,
            false,
        ) == Some((channel, version, features)),
{
    lemma_described(handle, channel, HANDSFREE_AUDIO_GATEWAY_SERVICE, version, features);
}

/// A search for a Hands-Free passes over the record of an Audio Gateway.
pub proof fn law_gateway_is_passed_over(
    handle: u32,
    channel: u8,
    version: ProfileVersion,
    features: u16,
    after: Seq<Seq<AttributeModel>>,
)
    ensures
        record_of(
            seq![
                record_attributes(
                    handle,
                    channel,
                    HANDSFREE_AUDIO_GATEWAY_SERVICE,
                    version,
                    features,
                ),
            ] + after,
            true,
        ) == record_of(after, true),
{
    let first = record_attributes(
        handle,
        channel,
        HANDSFREE_AUDIO_GATEWAY_SERVICE,
        version,
        features,
    );
    lemma_described(handle, channel, HANDSFREE_AUDIO_GATEWAY_SERVICE, version, features);
    assert((seq![first] + after).skip(1) =~= after);
}

/// Each bit of a collection is set for its own reason.
proof fn lemma_hf_bits(
    b0: bool,
    b1: bool,
    b2: bool,
    b3: bool,
    b4: bool,
    b5: bool,
    b6: bool,
    b7: bool,
    f0: u16,
    f1: u16,
    f2: u16,
    f3: u16,
    f4: u16,
    f5: u16,
    f6: u16,
    f7: u16,
    f8: u16,
    supported: u32,
)
    by (bit_vector)
    requires
        b0 == (supported & 0x1 != 0),
        b1 == (supported & 0x2 != 0),
        b2 == (supported & 0x4 != 0),
        b3 == (supported & 0x8 != 0),
        b4 == (supported & 0x10 != 0),
        b5 == (supported & 0x400 != 0),
        b6 == (supported & 0x800 != 0),
        f0 == 0,
        f1 == (if b0 { f0 | 0x1 } else { f0 }),
        f2 == (if b1 { f1 | 0x2 } else { f1 }),
        f3 == (if b2 { f2 | 0x4 } else { f2 }),
        f4 == (if b3 { f3 | 0x8 } else { f3 }),
        f5 == (if b4 { f4 | 0x10 } else { f4 }),
        f6 == (if b5 { f5 | 0x40 } else { f5 }),
        f7 == (if b6 { f6 | 0x80 } else { f6 }),
        f8 == (if b7 { f7 | 0x20 } else { f7 }),
    ensures
        (f8 & 0x1 != 0) == b0,
        (f8 & 0x2 != 0) == b1,
        (f8 & 0x4 != 0) == b2,
        (f8 & 0x8 != 0) == b3,
        (f8 & 0x10 != 0) == b4,
        (f8 & 0x40 != 0) == b5,
        (f8 & 0x80 != 0) == b6,
        (f8 & 0x20 != 0) == b7,
        f8 == ((supported & 0x1F) as u16) | (if b5 { 0x40u16 } else { 0 }) | (if b6 {
            0x80u16
        } else {
            0
        }) | (if b7 { 0x20u16 } else { 0 }),
{
}

/// The service record of a Hands-Free has the bit of a feature exactly if the
/// configuration has the feature, and the one for wide-band speech exactly if
/// mSBC is among its codecs. It has no other bits.
pub proof fn law_hf_record_features(configuration: HfConfiguration)
    ensures
        ({
            let features = hf_record_features(configuration);
            let supported = configuration.supported_hf_features;
            &&& (features & hf_sdp_feature::EC_NR != 0) == (supported
                & hf_feature::EC_NR != 0)
            &&& (features & hf_sdp_feature::THREE_WAY_CALLING != 0) == (supported
                & hf_feature::THREE_WAY_CALLING != 0)
            &&& (features & hf_sdp_feature::CLI_PRESENTATION_CAPABILITY != 0) == (supported
                & hf_feature::CLI_PRESENTATION_CAPABILITY != 0)
            &&& (features & hf_sdp_feature::VOICE_RECOGNITION_ACTIVATION != 0) == (supported
                & hf_feature::VOICE_RECOGNITION_ACTIVATION != 0)
            &&& (features & hf_sdp_feature::REMOTE_VOLUME_CONTROL != 0) == (supported
                & hf_feature::REMOTE_VOLUME_CONTROL != 0)
            &&& (features & hf_sdp_feature::ENHANCED_VOICE_RECOGNITION_STATUS != 0) == (supported
                & hf_feature::ENHANCED_VOICE_RECOGNITION_STATUS != 0)
            &&& (features & hf_sdp_feature::VOICE_RECOGNITION_TEXT != 0) == (supported
                & hf_feature::VOICE_RECOGNITION_TEXT != 0)
            &&& (features & hf_sdp_feature::WIDE_BAND_SPEECH != 0)
                == configuration.supported_audio_codecs@.contains(AudioCodec::Msbc)
            &&& features == ((supported & 0x1F) as u16) | (if supported
                & hf_feature::ENHANCED_VOICE_RECOGNITION_STATUS != 0 {
                hf_sdp_feature::ENHANCED_VOICE_RECOGNITION_STATUS
            } else {
                0
            }) | (if supported & hf_feature::VOICE_RECOGNITION_TEXT != 0 {
                hf_sdp_feature::VOICE_RECOGNITION_TEXT
            } else {
                0
            }) | (if configuration.supported_audio_codecs@.contains(AudioCodec::Msbc) {
                hf_sdp_feature::WIDE_BAND_SPEECH
            } else {
                0
            })
        }),
{
    let bits = HF_FEATURES@;
    let supported = configuration.supported_hf_features;
    assert(bits.take(0) =~= seq![]);
    assert(bits.take(1).drop_last() =~= bits.take(0));
    assert(bits.take(1).last() == bits[0]);
    assert(bits.take(2).drop_last() =~= bits.take(1));
    assert(bits.take(2).last() == bits[1]);
    assert(bits.take(3).drop_last() =~= bits.take(2));
    assert(bits.take(3).last() == bits[2]);
    assert(bits.take(4).drop_last() =~= bits.take(3));
    assert(bits.take(4).last() == bits[3]);
    assert(bits.take(5).drop_last() =~= bits.take(4));
    assert(bits.take(5).last() == bits[4]);
    assert(bits.take(6).drop_last() =~= bits.take(5));
    assert(bits.take(6).last() == bits[5]);
    assert(bits.take(7).drop_last() =~= bits.take(6));
    assert(bits.take(7).last() == bits[6]);
    assert(bits.take(7) =~= bits);
    lemma_hf_bits(
        supported & bits[0].0 != 0,
        supported & bits[1].0 != 0,
        supported & bits[2].0 != 0,
        supported & bits[3].0 != 0,
        supported & bits[4].0 != 0,
        supported & bits[5].0 != 0,
        supported & bits[6].0 != 0,
        configuration.supported_audio_codecs@.contains(AudioCodec::Msbc),
        features_in(bits.take(0), supported),
        features_in(bits.take(1), supported),
        features_in(bits.take(2), supported),
        features_in(bits.take(3), supported),
        features_in(bits.take(4), supported),
        features_in(bits.take(5), supported),
        features_in(bits.take(6), supported),
        features_in(bits.take(7), supported),
        hf_record_features(configuration),
        supported,
    );
}

/// Each bit of a collection is set for its own reason.
proof fn lemma_ag_bits(
    b0: bool,
    b1: bool,
    b2: bool,
    b3: bool,
    b4: bool,
    b5: bool,
    b6: bool,
    f0: u16,
    f1: u16,
    f2: u16,
    f3: u16,
    f4: u16,
    f5: u16,
    f6: u16,
    f7: u16,
)
    by (bit_vector)
    requires
        f0 == 0,
        f1 == (if b0 { f0 | 0x2 } else { f0 }),
        f2 == (if b1 { f1 | 0x1 } else { f1 }),
        f3 == (if b2 { f2 | 0x40 } else { f2 }),
        f4 == (if b3 { f3 | 0x80 } else { f3 }),
        f5 == (if b4 { f4 | 0x8 } else { f4 }),
        f6 == (if b5 { f5 | 0x4 } else { f5 }),
        f7 == (if b6 { f6 | 0x20 } else { f6 }),
    ensures
        (f7 & 0x2 != 0) == b0,
        (f7 & 0x1 != 0) == b1,
        (f7 & 0x40 != 0) == b2,
        (f7 & 0x80 != 0) == b3,
        (f7 & 0x8 != 0) == b4,
        (f7 & 0x4 != 0) == b5,
        (f7 & 0x20 != 0) == b6,
{
}

/// The service record of an Audio Gateway has the bit of a feature exactly if the
/// configuration has the feature, and the one for wide-band speech exactly if
/// mSBC is among its codecs.
pub proof fn law_ag_record_features(configuration: AgConfiguration)
    ensures
        ({
            let features = ag_record_features(configuration);
            let supported = configuration.supported_ag_features;
            &&& (features & ag_sdp_feature::EC_NR != 0) == (supported
                & ag_feature::EC_NR != 0)
            &&& (features & ag_sdp_feature::THREE_WAY_CALLING != 0) == (supported
                & ag_feature::THREE_WAY_CALLING != 0)
            &&& (features & ag_sdp_feature::ENHANCED_VOICE_RECOGNITION_STATUS != 0) == (supported
                & ag_feature::ENHANCED_VOICE_RECOGNITION_STATUS != 0)
            &&& (features & ag_sdp_feature::VOICE_RECOGNITION_TEXT != 0) == (supported
                & ag_feature::VOICE_RECOGNITION_TEXT != 0)
            &&& (features & ag_sdp_feature::IN_BAND_RING_TONE_CAPABILITY != 0) == (supported
                & ag_feature::IN_BAND_RING_TONE_CAPABILITY != 0)
            &&& (features & ag_sdp_feature::VOICE_RECOGNITION_FUNCTION != 0) == (supported
                & ag_feature::VOICE_RECOGNITION_FUNCTION != 0)
            &&& (features & ag_sdp_feature::WIDE_BAND_SPEECH != 0)
                == configuration.supported_audio_codecs@.contains(AudioCodec::Msbc)
        }),
{
    let bits = AG_FEATURES@;
    let supported = configuration.supported_ag_features;
    assert(bits.take(0) =~= seq![]);
    assert(bits.take(1).drop_last() =~= bits.take(0));
    assert(bits.take(1).last() == bits[0]);
    assert(bits.take(2).drop_last() =~= bits.take(1));
    assert(bits.take(2).last() == bits[1]);
    assert(bits.take(3).drop_last() =~= bits.take(2));
    assert(bits.take(3).last() == bits[2]);
    assert(bits.take(4).drop_last() =~= bits.take(3));
    assert(bits.take(4).last() == bits[3]);
    assert(bits.take(5).drop_last() =~= bits.take(4));
    assert(bits.take(5).last() == bits[4]);
    assert(bits.take(6).drop_last() =~= bits.take(5));
    assert(bits.take(6).last() == bits[5]);
    assert(bits.take(6) =~= bits);
    lemma_ag_bits(
        supported & bits[0].0 != 0,
        supported & bits[1].0 != 0,
        supported & bits[2].0 != 0,
        supported & bits[3].0 != 0,
        supported & bits[4].0 != 0,
        supported & bits[5].0 != 0,
        configuration.supported_audio_codecs@.contains(AudioCodec::Msbc),
        features_in(bits.take(0), supported),
        features_in(bits.take(1), supported),
        features_in(bits.take(2), supported),
        features_in(bits.take(3), supported),
        features_in(bits.take(4), supported),
        features_in(bits.take(5), supported),
        features_in(bits.take(6), supported),
        ag_record_features(configuration),
    );
}

} // verus!
