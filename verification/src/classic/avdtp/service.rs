//! The signaling channel, and the service records that advertise it.

use vstd::prelude::*;
use crate::classic::avdtp::{ADVANCED_AUDIO_DISTRIBUTION_SERVICE_UUID, AVDTP_PSM};
use crate::classic::sdp::attribute_id;
use crate::classic::sdp::client;
use crate::classic::sdp::element::{DataElement, ElementModel, SdpUuid};
use crate::classic::sdp::pdu::AttributeIdSpec;
use crate::classic::sdp::record::{AttributeModel, ServiceAttribute};
use crate::classic::sdp::SdpClient;
use crate::l2cap::classic;
use crate::l2cap::classic::{ChannelManagerModel, ClassicChannelManager, ClassicChannelSpec};
use crate::models;
use crate::packets::l2cap_signaling::ConnectionRequestHeader;
use crate::types::{SimbleError, SimbleErrorModel};

verus! {

/// Allocates the signaling channel, returning its local identifier and the
/// Connection Request to send.
pub fn connect_channel(manager: &mut ClassicChannelManager, mtu: u16) -> (r: Result<
    (u16, ConnectionRequestHeader),
    SimbleError,
>)
    ensures
        classic::connects(
            old(manager)@,
            (ClassicChannelSpec { psm: AVDTP_PSM, mtu }),
            r,
            final(manager)@,
        ),
{
    manager.connect(&ClassicChannelSpec::with_mtu(AVDTP_PSM, mtu))
}

/// Accepts incoming connections from now on.
pub fn register_server(manager: &mut ClassicChannelManager) -> (r: Result<(), SimbleError>)
    ensures
        r is Ok,
        final(manager)@ == (ChannelManagerModel {
            servers: old(manager)@.servers.insert(AVDTP_PSM),
            ..old(manager)@
        }),
{
    manager.register_server(AVDTP_PSM)
}

// ---------------------------------------------------------------------------
// Reading records
// ---------------------------------------------------------------------------

/// The version in a profile descriptor: its second item, the major version in
/// the second byte and the minor version in the first.
pub open spec fn descriptor_version(descriptor: ElementModel) -> Option<(u8, u8)> {
    match descriptor.sequence() {
        Some(items) => if items.len() < 2 {
            None
        } else {
            match items[1].unsigned() {
                Some((v, _)) => Some((((v / 0x100) % 0x100) as u8, (v % 0x100) as u8)),
                None => None,
            }
        },
        None => None,
    }
}

/// The first version among descriptors, from an index on.
pub open spec fn descriptors_version(descriptors: Seq<ElementModel>, from: int) -> Option<(u8, u8)>
    decreases descriptors.len() - from,
{
    if from >= descriptors.len() {
        None
    } else {
        match descriptor_version(descriptors[from]) {
            Some(version) => Some(version),
            None => descriptors_version(descriptors, from + 1),
        }
    }
}

/// The first version in an attribute, if it lists profile descriptors.
pub open spec fn attribute_version(attribute: AttributeModel) -> Option<(u8, u8)> {
    if attribute.id != attribute_id::BLUETOOTH_PROFILE_DESCRIPTOR_LIST {
        None
    } else {
        match attribute.value.sequence() {
            Some(descriptors) => descriptors_version(descriptors, 0),
            None => None,
        }
    }
}

/// The first version among attributes, from an index on.
pub open spec fn attributes_version(attributes: Seq<AttributeModel>, from: int) -> Option<(u8, u8)>
    decreases attributes.len() - from,
{
    if from >= attributes.len() {
        None
    } else {
        match attribute_version(attributes[from]) {
            Some(version) => Some(version),
            None => attributes_version(attributes, from + 1),
        }
    }
}

/// The first version among attribute lists, from an index on.
pub open spec fn lists_version(lists: Seq<Seq<AttributeModel>>, from: int) -> Option<(u8, u8)>
    decreases lists.len() - from,
{
    if from >= lists.len() {
        None
    } else {
        match attributes_version(lists[from], 0) {
            Some(version) => Some(version),
            None => lists_version(lists, from + 1),
        }
    }
}

fn find_in_descriptor(descriptor: &DataElement) -> (r: Option<(u8, u8)>)
    ensures
        r == descriptor_version(descriptor@),
{
    match descriptor.as_sequence() {
        Some(items) => {
            if items.len() < 2 {
                return None;
            }
            match items[1].as_unsigned_integer() {
                Some((v, _)) => Some((((v / 0x100) % 0x100) as u8, (v % 0x100) as u8)),
                None => None,
            }
        },
        None => None,
    }
}

fn find_in_attribute(attribute: &ServiceAttribute) -> (r: Option<(u8, u8)>)
    ensures
        r == attribute_version(attribute@),
{
    if attribute.id != attribute_id::BLUETOOTH_PROFILE_DESCRIPTOR_LIST {
        return None;
    }
    match attribute.value.as_sequence() {
        Some(descriptors) => {
            let ghost all = models::seq_views(descriptors@);
            let mut i: usize = 0;
            while i < descriptors.len()
                invariant
                    i <= descriptors@.len(),
                    descriptors_version(all, i as int) == descriptors_version(all, 0),
                decreases descriptors@.len() - i,
            {
                assert(all[i as int] == descriptors@[i as int]@);
                if let Some(version) = find_in_descriptor(&descriptors[i]) {
                    return Some(version);
                }
                i = i + 1;
            }
            None
        },
        None => None,
    }
}

fn find_in_attributes(attributes: &[ServiceAttribute]) -> (r: Option<(u8, u8)>)
    ensures
        r == attributes_version(models::seq_views(attributes@), 0),
{
    let ghost all = models::seq_views(attributes@);
    let mut i: usize = 0;
    while i < attributes.len()
        invariant
            i <= attributes@.len(),
            attributes_version(all, i as int) == attributes_version(all, 0),
        decreases attributes@.len() - i,
    {
        assert(all[i as int] == attributes@[i as int]@);
        if let Some(version) = find_in_attribute(&attributes[i]) {
            return Some(version);
        }
        i = i + 1;
    }
    None
}

/// Finds the first version that attribute lists advertise.
pub fn version_from(lists: &[Vec<ServiceAttribute>]) -> (r: Option<(u8, u8)>)
    ensures
        r == lists_version(client::list_views(lists@), 0),
{
    let ghost all = client::list_views(lists@);
    let mut i: usize = 0;
    while i < lists.len()
        invariant
            i <= lists@.len(),
            lists_version(all, i as int) == lists_version(all, 0),
        decreases lists@.len() - i,
    {
        assert(all[i as int] == models::seq_views(lists@[i as int]@));
        if let Some(version) = find_in_attributes(&lists[i]) {
            return Some(version);
        }
        i = i + 1;
    }
    None
}

/// What a search for the service comes to.
pub open spec fn version_in(found: Result<Seq<Seq<AttributeModel>>, SimbleErrorModel>) -> Result<
    Option<(u8, u8)>,
    SimbleErrorModel,
> {
    match found {
        Ok(lists) => Ok(lists_version(lists, 0)),
        Err(why) => Err(why),
    }
}

/// The model of the result of a search for the service.
pub open spec fn version_outcome(r: Result<Option<(u8, u8)>, SimbleError>) -> Result<
    Option<(u8, u8)>,
    SimbleErrorModel,
> {
    match r {
        Ok(version) => Ok(version),
        Err(why) => Err(why@),
    }
}

/// Searches for an audio distribution service and returns the version that it
/// advertises, or `None` if the peer has none.
pub fn find_avdtp_service(
    sdp_client: &mut SdpClient,
    transport: impl FnMut(&[u8]) -> Vec<u8>,
) -> (r: Result<Option<(u8, u8)>, SimbleError>)
    requires
        forall|request: &[u8]| call_requires(transport, (request,)),
    ensures
        exists|found: Result<Seq<Seq<AttributeModel>>, SimbleErrorModel>|
            #[trigger] client::search_attributes_gives(
                transport,
                old(sdp_client)@,
                seq![SdpUuid::Uuid16(ADVANCED_AUDIO_DISTRIBUTION_SERVICE_UUID)],
                seq![AttributeIdSpec::Single(attribute_id::BLUETOOTH_PROFILE_DESCRIPTOR_LIST)],
                found,
                final(sdp_client)@,
            ) && version_outcome(r) == version_in(found),
{
    let uuids: Vec<SdpUuid> = vec![SdpUuid::Uuid16(ADVANCED_AUDIO_DISTRIBUTION_SERVICE_UUID)];
    assert(uuids@ =~= seq![SdpUuid::Uuid16(ADVANCED_AUDIO_DISTRIBUTION_SERVICE_UUID)]);
    let ids: Vec<AttributeIdSpec> = vec![
        AttributeIdSpec::Single(attribute_id::BLUETOOTH_PROFILE_DESCRIPTOR_LIST),
    ];
    assert(ids@ =~= seq![
        AttributeIdSpec::Single(attribute_id::BLUETOOTH_PROFILE_DESCRIPTOR_LIST),
    ]);
    match sdp_client.search_attributes(&uuids, &ids, transport) {
        Ok(lists) => Ok(version_from(&lists)),
        Err(why) => Err(why),
    }
}

} // verus!
