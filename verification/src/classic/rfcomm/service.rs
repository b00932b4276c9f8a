//! Service records of serial ports.

use std::collections::HashMap;
use vstd::prelude::*;
use crate::classic::sdp::attribute_id;
use crate::classic::sdp::client;
use crate::classic::sdp::element::{DataElement, ElementModel, SdpUuid};
use crate::classic::sdp::pdu::AttributeIdSpec;
use crate::classic::sdp::record;
use crate::classic::sdp::record::{AttributeModel, ServiceAttribute};
use crate::classic::sdp::SdpClient;
use crate::models;
use crate::types::{SimbleError, SimbleErrorModel};

verus! {

broadcast use vstd::std_specs::hash::group_hash_axioms;

/// The attributes of a service on a server channel.
pub open spec fn record_attributes(handle: u32, channel: u8, uuid: Option<SdpUuid>) -> Seq<
    AttributeModel,
> {
    let common = seq![
        AttributeModel {
            id: attribute_id::SERVICE_RECORD_HANDLE,
            value: ElementModel::UnsignedInteger(handle as u64, 4),
        },
        AttributeModel {
            id: attribute_id::BROWSE_GROUP_LIST,
            value: ElementModel::Sequence(
                seq![ElementModel::Uuid(SdpUuid::Uuid16(SdpUuid::SDP_PUBLIC_BROWSE_ROOT))],
            ),
        },
        AttributeModel {
            id: attribute_id::PROTOCOL_DESCRIPTOR_LIST,
            value: ElementModel::Sequence(
                seq![
                    ElementModel::Sequence(
                        seq![ElementModel::Uuid(SdpUuid::Uuid16(SdpUuid::BT_L2CAP_PROTOCOL_ID))],
                    ),
                    ElementModel::Sequence(
                        seq![
                            ElementModel::Uuid(SdpUuid::Uuid16(SdpUuid::BT_RFCOMM_PROTOCOL_ID)),
                            ElementModel::UnsignedInteger(channel as u64, 1),
                        ],
                    ),
                ],
            ),
        },
    ];
    match uuid {
        Some(uuid) => common.push(
            AttributeModel {
                id: attribute_id::SERVICE_CLASS_ID_LIST,
                value: ElementModel::Sequence(seq![ElementModel::Uuid(uuid)]),
            },
        ),
        None => common,
    }
}

/// The attributes that advertise a service on server channel `channel`,
/// optionally of service class `uuid`.
pub fn make_service_sdp_records(
    service_record_handle: u32,
    channel: u8,
    uuid: Option<SdpUuid>,
) -> (r: Vec<ServiceAttribute>)
    ensures
        models::seq_views(r@) == record_attributes(service_record_handle, channel, uuid),
{
    let mut records: Vec<ServiceAttribute> = Vec::new();
    records.push(
        ServiceAttribute::new(
            attribute_id::SERVICE_RECORD_HANDLE,
            DataElement::unsigned_integer_32(service_record_handle),
        ),
    );
    records.push(
        ServiceAttribute::new(
            attribute_id::BROWSE_GROUP_LIST,
            DataElement::sequence_of_1(DataElement::uuid_16(SdpUuid::SDP_PUBLIC_BROWSE_ROOT)),
        ),
    );
    records.push(
        ServiceAttribute::new(
            attribute_id::PROTOCOL_DESCRIPTOR_LIST,
            DataElement::sequence_of_2(
                DataElement::sequence_of_1(DataElement::uuid_16(SdpUuid::BT_L2CAP_PROTOCOL_ID)),
                DataElement::sequence_of_2(
                    DataElement::uuid_16(SdpUuid::BT_RFCOMM_PROTOCOL_ID),
                    DataElement::unsigned_integer_8(channel),
                ),
            ),
        ),
    );
    if let Some(uuid) = uuid {
        records.push(
            ServiceAttribute::new(
                attribute_id::SERVICE_CLASS_ID_LIST,
                DataElement::sequence_of_1(DataElement::uuid(uuid)),
            ),
        );
    }
    assert(models::seq_views(records@) =~= record_attributes(
        service_record_handle,
        channel,
        uuid,
    ));
    records
}

// ---------------------------------------------------------------------------
// Reading records
// ---------------------------------------------------------------------------

/// The UUIDs among values.
pub open spec fn uuids_in(items: Seq<ElementModel>) -> Seq<SdpUuid>
    decreases items.len(),
{
    if items.len() == 0 {
        seq![]
    } else {
        let before = uuids_in(items.drop_last());
        match items.last().uuid() {
            Some(uuid) => before.push(uuid),
            None => before,
        }
    }
}

/// Reads the UUIDs among values.
pub fn find_uuids_in(items: &[DataElement]) -> (r: Vec<SdpUuid>)
    ensures
        r@ == uuids_in(models::seq_views(items@)),
{
    let ghost all = models::seq_views(items@);
    let mut out: Vec<SdpUuid> = Vec::new();
    let mut i: usize = 0;
    assert(all.take(0) =~= seq![]);
    assert(out@ =~= uuids_in(all.take(0)));
    while i < items.len()
        invariant
            i <= items@.len(),
            out@ == uuids_in(all.take(i as int)),
        decreases items@.len() - i,
    {
        assert(all.take(i + 1).drop_last() =~= all.take(i as int));
        assert(all.take(i + 1).last() == items@[i as int]@);
        if let Some(uuid) = items[i].as_uuid() {
            out.push(uuid);
        }
        i = i + 1;
    }
    assert(all.take(i as int) =~= all);
    out
}

/// What a list of attributes says of a service: its server channel, and its
/// service classes. Where an attribute occurs twice, the later one counts.
pub open spec fn port_of(attributes: Seq<AttributeModel>) -> (Option<u8>, Seq<SdpUuid>)
    decreases attributes.len(),
{
    if attributes.len() == 0 {
        (None, seq![])
    } else {
        let before = port_of(attributes.drop_last());
        let attribute = attributes.last();
        match attribute.id {
            attribute_id::PROTOCOL_DESCRIPTOR_LIST => match record::unsigned_in(
                attribute.value,
                1,
                1,
            ) {
                Some(v) => (Some(v as u8), before.1),
                None => before,
            },
            attribute_id::SERVICE_CLASS_ID_LIST => match attribute.value.sequence() {
                Some(items) => (before.0, uuids_in(items)),
                None => before,
            },
            _ => before,
        }
    }
}

/// Reads the server channel and the service classes of a service.
fn parse_port(attributes: &[ServiceAttribute]) -> (r: (Option<u8>, Vec<SdpUuid>))
    ensures
        (r.0, r.1@) == port_of(models::seq_views(attributes@)),
{
    let ghost all = models::seq_views(attributes@);
    let mut channel: Option<u8> = None;
    let mut classes: Vec<SdpUuid> = Vec::new();
    let mut i: usize = 0;
    assert(all.take(0) =~= seq![]);
    assert(classes@ =~= seq![]);
    while i < attributes.len()
        invariant
            i <= attributes@.len(),
            (channel, classes@) == port_of(all.take(i as int)),
        decreases attributes@.len() - i,
    {
        assert(all.take(i + 1).drop_last() =~= all.take(i as int));
        assert(all.take(i + 1).last() == attributes@[i as int]@);
        let value = &attributes[i].value;
        match attributes[i].id {
            attribute_id::PROTOCOL_DESCRIPTOR_LIST => {
                if let Some(v) = record::find_unsigned_in(value, 1, 1) {
                    channel = Some(v as u8);
                }
            },
            attribute_id::SERVICE_CLASS_ID_LIST => {
                if let Some(items) = value.as_sequence() {
                    classes = find_uuids_in(items);
                }
            },
            _ => {},
        }
        i = i + 1;
    }
    assert(all.take(i as int) =~= all);
    (channel, classes)
}

/// The service classes by server channel, of the services that have both.
/// Where a channel occurs twice, the later service counts.
pub open spec fn channels_of(lists: Seq<Seq<AttributeModel>>) -> Map<u8, Seq<SdpUuid>>
    decreases lists.len(),
{
    if lists.len() == 0 {
        Map::empty()
    } else {
        let before = channels_of(lists.drop_last());
        match port_of(lists.last()) {
            (Some(channel), classes) => if classes.len() > 0 {
                before.insert(channel, classes)
            } else {
                before
            },
            (None, _) => before,
        }
    }
}

/// Reads the service classes by server channel from attribute lists.
pub fn channels_from(lists: &[Vec<ServiceAttribute>]) -> (r: HashMap<u8, Vec<SdpUuid>>)
    ensures
        models::map_views(r@) == channels_of(client::list_views(lists@)),
{
    let ghost all = client::list_views(lists@);
    let mut channels: HashMap<u8, Vec<SdpUuid>> = HashMap::new();
    let mut i: usize = 0;
    assert(all.take(0) =~= seq![]);
    assert(models::map_views(channels@) =~= Map::empty());
    while i < lists.len()
        invariant
            i <= lists@.len(),
            models::map_views(channels@) == channels_of(all.take(i as int)),
        decreases lists@.len() - i,
    {
        assert(all.take(i + 1).drop_last() =~= all.take(i as int));
        assert(all.take(i + 1).last() == models::seq_views(lists@[i as int]@));
        let (channel, classes) = parse_port(&lists[i]);
        if let Some(channel) = channel {
            if classes.len() > 0 {
                proof {
                    models::lemma_map_views_insert(channels@, channel, classes);
                }
                channels.insert(channel, classes);
            }
        }
        i = i + 1;
    }
    assert(all.take(i as int) =~= all);
    channels
}

/// The lowest server channel, from `from` on, with a service class.
pub open spec fn channel_with(channels: Map<u8, Seq<SdpUuid>>, uuid: SdpUuid, from: int) -> Option<
    u8,
>
    decreases 256 - from,
{
    if from >= 256 {
        None
    } else if channels.contains_key(from as u8) && channels[from as u8].contains(uuid) {
        Some(from as u8)
    } else {
        channel_with(channels, uuid, from + 1)
    }
}

fn contains_uuid(uuids: &[SdpUuid], uuid: SdpUuid) -> (r: bool)
    ensures
        r == uuids@.contains(uuid),
{
    let mut i: usize = 0;
    while i < uuids.len()
        invariant
            i <= uuids@.len(),
            forall|j: int| 0 <= j < i ==> uuids@[j] != uuid,
        decreases uuids@.len() - i,
    {
        if uuids[i].same(uuid) {
            return true;
        }
        i = i + 1;
    }
    false
}

/// Finds the lowest server channel with a service class.
pub fn channel_with_uuid(channels: &HashMap<u8, Vec<SdpUuid>>, uuid: SdpUuid) -> (r: Option<u8>)
    ensures
        r == channel_with(models::map_views(channels@), uuid, 0),
{
    let ghost all = models::map_views(channels@);
    let mut at: u16 = 0;
    while at < 256
        invariant
            at <= 256,
            channel_with(all, uuid, at as int) == channel_with(all, uuid, 0),
        decreases 256 - at,
    {
        let channel: u8 = at as u8;
        if let Some(classes) = channels.get(&channel) {
            if contains_uuid(classes, uuid) {
                return Some(channel);
            }
        }
        at = at + 1;
    }
    None
}

// ---------------------------------------------------------------------------
// Searching
// ---------------------------------------------------------------------------

/// The attributes that a search asks for.
pub open spec fn searched_attributes() -> Seq<AttributeIdSpec> {
    seq![
        AttributeIdSpec::Single(attribute_id::PROTOCOL_DESCRIPTOR_LIST),
        AttributeIdSpec::Single(attribute_id::SERVICE_CLASS_ID_LIST),
    ]
}

/// What a search for serial ports comes to.
pub open spec fn channels_in(
    found: Result<Seq<Seq<AttributeModel>>, SimbleErrorModel>,
) -> Result<Map<u8, Seq<SdpUuid>>, SimbleErrorModel> {
    match found {
        Ok(lists) => Ok(channels_of(lists)),
        Err(why) => Err(why),
    }
}

/// The model of the result of a search for serial ports.
pub open spec fn channels_outcome(r: Result<HashMap<u8, Vec<SdpUuid>>, SimbleError>) -> Result<
    Map<u8, Seq<SdpUuid>>,
    SimbleErrorModel,
> {
    match r {
        Ok(channels) => Ok(models::map_views(channels@)),
        Err(why) => Err(why@),
    }
}

/// What a search for the channel of a service class comes to.
pub open spec fn channel_in(
    found: Result<Seq<Seq<AttributeModel>>, SimbleErrorModel>,
    uuid: SdpUuid,
) -> Result<Option<u8>, SimbleErrorModel> {
    match found {
        Ok(lists) => Ok(channel_with(channels_of(lists), uuid, 0)),
        Err(why) => Err(why),
    }
}

/// The model of the result of a search for a channel.
pub open spec fn channel_outcome(r: Result<Option<u8>, SimbleError>) -> Result<
    Option<u8>,
    SimbleErrorModel,
> {
    match r {
        Ok(channel) => Ok(channel),
        Err(why) => Err(why@),
    }
}

/// Searches for all services over RFCOMM: the service classes by server
/// channel.
pub fn find_rfcomm_channels(
    sdp_client: &mut SdpClient,
    transport: impl FnMut(&[u8]) -> Vec<u8>,
) -> (r: Result<HashMap<u8, Vec<SdpUuid>>, SimbleError>)
    requires
        forall|request: &[u8]| call_requires(transport, (request,)),
    ensures
        exists|found: Result<Seq<Seq<AttributeModel>>, SimbleErrorModel>|
            #[trigger] client::search_attributes_gives(
                transport,
                old(sdp_client)@,
                seq![SdpUuid::Uuid16(SdpUuid::BT_RFCOMM_PROTOCOL_ID)],
                searched_attributes(),
                found,
                final(sdp_client)@,
            ) && channels_outcome(r) == channels_in(found),
{
    let uuids: Vec<SdpUuid> = vec![SdpUuid::Uuid16(SdpUuid::BT_RFCOMM_PROTOCOL_ID)];
    assert(uuids@ =~= seq![SdpUuid::Uuid16(SdpUuid::BT_RFCOMM_PROTOCOL_ID)]);
    let ids: Vec<AttributeIdSpec> = vec![
        AttributeIdSpec::Single(attribute_id::PROTOCOL_DESCRIPTOR_LIST),
        AttributeIdSpec::Single(attribute_id::SERVICE_CLASS_ID_LIST),
    ];
    assert(ids@ =~= searched_attributes());
    match sdp_client.search_attributes(&uuids, &ids, transport) {
        Ok(lists) => Ok(channels_from(&lists)),
        Err(why) => Err(why),
    }
}

/// Searches for the server channel of the service that advertises `uuid`, if
/// there is one; the lowest where there are several.
pub fn find_rfcomm_channel_with_uuid(
    sdp_client: &mut SdpClient,
    uuid: SdpUuid,
    transport: impl FnMut(&[u8]) -> Vec<u8>,
) -> (r: Result<Option<u8>, SimbleError>)
    requires
        forall|request: &[u8]| call_requires(transport, (request,)),
    ensures
        exists|found: Result<Seq<Seq<AttributeModel>>, SimbleErrorModel>|
            #[trigger] client::search_attributes_gives(
                transport,
                old(sdp_client)@,
                seq![SdpUuid::Uuid16(SdpUuid::BT_RFCOMM_PROTOCOL_ID)],
                searched_attributes(),
                found,
                final(sdp_client)@,
            ) && channel_outcome(r) == channel_in(found, uuid),
{
    match find_rfcomm_channels(sdp_client, transport) {
        Ok(channels) => Ok(channel_with_uuid(&channels, uuid)),
        Err(why) => Err(why),
    }
}

// ---------------------------------------------------------------------------
// Laws
// ---------------------------------------------------------------------------

/// A found channel advertises the service class, and none below it does.
/// Nothing is found only where no channel advertises it.
pub proof fn law_found_channel_advertises(channels: Map<u8, Seq<SdpUuid>>, uuid: SdpUuid, k: u8)
    ensures
        match channel_with(channels, uuid, 0) {
            Some(channel) => channels.contains_key(channel) && channels[channel].contains(uuid) && (
            k < channel ==> !(channels.contains_key(k) && channels[k].contains(uuid))),
            None => !(channels.contains_key(k) && channels[k].contains(uuid)),
        },
{
    lemma_found_channel(channels, uuid, 0, k);
}

proof fn lemma_found_channel(channels: Map<u8, Seq<SdpUuid>>, uuid: SdpUuid, from: int, k: u8)
    requires
        0 <= from,
    ensures
        match channel_with(channels, uuid, from) {
            Some(channel) => channels.contains_key(channel) && channels[channel].contains(uuid) && (
            from <= k < channel ==> !(channels.contains_key(k) && channels[k].contains(uuid))),
            None => from <= k ==> !(channels.contains_key(k) && channels[k].contains(uuid)),
        },
    decreases 256 - from,
{
    if from < 256 {
        lemma_found_channel(channels, uuid, from + 1, k);
    }
}

/// The server channel and the service class of a service record are read back
/// from its attributes.
pub proof fn law_service_record_round_trip(handle: u32, channel: u8, uuid: SdpUuid)
    ensures
        port_of(record_attributes(handle, channel, Some(uuid))) == (Some(channel), seq![uuid]),
        channels_of(seq![record_attributes(handle, channel, Some(uuid))])
            == Map::<u8, Seq<SdpUuid>>::empty().insert(channel, seq![uuid]),
{
    let all = record_attributes(handle, channel, Some(uuid));
    let s3 = all.drop_last();
    let s2 = s3.drop_last();
    let s1 = s2.drop_last();
    assert(s1.drop_last() =~= seq![]);
    assert(port_of(s1.drop_last()) == (None::<u8>, Seq::<SdpUuid>::empty()));
    assert(port_of(s1) == (None::<u8>, Seq::<SdpUuid>::empty()));
    assert(port_of(s2) == port_of(s1));
    assert(port_of(s3) == (Some(channel), Seq::<SdpUuid>::empty()));
    let classes = seq![ElementModel::Uuid(uuid)];
    assert(classes.drop_last() =~= seq![]);
    assert(uuids_in(classes.drop_last()) =~= seq![]);
    assert(uuids_in(classes) =~= seq![uuid]);
    assert(all.last().value.sequence() == Some(classes));
    let lists = seq![all];
    assert(lists.drop_last() =~= seq![]);
    assert(channels_of(lists.drop_last()) =~= Map::empty());
}

} // verus!
