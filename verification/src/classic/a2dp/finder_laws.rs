//! A search finds the version of the audio service that registered it.

use vstd::prelude::*;
use crate::classic::a2dp::service;
use crate::classic::avdtp;
use crate::classic::avdtp::ADVANCED_AUDIO_DISTRIBUTION_SERVICE_UUID;
use crate::classic::sdp::attribute_id;
use crate::classic::sdp::element::{SdpUuid, MAX_DATA_ELEMENT_NESTING};
use crate::classic::sdp::exchange_laws;
use crate::classic::sdp::pdu::AttributeIdSpec;
use crate::classic::sdp::record;
use crate::classic::sdp::record::AttributeModel;
use crate::classic::sdp::selection_laws;
use crate::classic::sdp::server::ServerModel;
use crate::types::SimbleErrorModel;

verus! {

/// The attribute that a search for an audio service asks for.
pub open spec fn profile_ids() -> Seq<AttributeIdSpec> {
    seq![AttributeIdSpec::Single(attribute_id::BLUETOOTH_PROFILE_DESCRIPTOR_LIST)]
}

/// A search for an audio service, over a transport that is a server with the
/// record of a source or sink, finds the version that the record advertises,
/// and nothing else can come of it.
pub proof fn law_version_is_found_on_server(
    m: ServerModel,
    peer_mtu: u16,
    id: u16,
    handle: u32,
    service_class: u16,
    version: (u8, u8),
)
    requires
        m.service_records == Map::<u32, Seq<AttributeModel>>::empty().insert(
            handle,
            service::record_attributes(handle, service_class, version),
        ),
        peer_mtu >= 64,
    ensures
        exists|found: Result<Seq<Seq<AttributeModel>>, SimbleErrorModel>|
            exchange_laws::search_attributes_from(
                m,
                peer_mtu,
                id,
                seq![SdpUuid::Uuid16(ADVANCED_AUDIO_DISTRIBUTION_SERVICE_UUID)],
                profile_ids(),
                found,
            ),
        forall|found: Result<Seq<Seq<AttributeModel>>, SimbleErrorModel>|
            #[trigger] exchange_laws::search_attributes_from(
                m,
                peer_mtu,
                id,
                seq![SdpUuid::Uuid16(ADVANCED_AUDIO_DISTRIBUTION_SERVICE_UUID)],
                profile_ids(),
                found,
            ) ==> avdtp::service::version_in(found) == Ok::<Option<(u8, u8)>, SimbleErrorModel>(
                Some(version),
            ),
{
    let all = service::record_attributes(handle, service_class, version);
    let uuid = SdpUuid::Uuid16(ADVANCED_AUDIO_DISTRIBUTION_SERVICE_UUID);
    let ids = profile_ids();
    let list = seq![all[4]];
    let number = (version.0 * 0x100 + version.1) as u64;
    let profiles = all[4].value.sequence()->0;
    let profile = profiles[0].sequence()->0;
    assert(exchange_laws::has_uuid(all, uuid)) by {
        assert(record::holds_uuid(profile[0], uuid));
        assert(record::any_holds_uuid(profile, uuid));
        assert(record::holds_uuid(profiles[0], uuid));
        assert(record::any_holds_uuid(profiles, uuid));
        assert(record::holds_uuid(all[4].value, uuid));
    }
    assert forall|a: AttributeModel| #[trigger] list.contains(a) <==> all.contains(a)
        && selection_laws::wanted(ids, a.id) by {
        if list.contains(a) {
            assert(all[4] == a);
            assert(selection_laws::covers(ids[0], a.id));
        }
        if all.contains(a) && selection_laws::wanted(ids, a.id) {
            let k = choose|k: int| 0 <= k < all.len() && all[k] == a;
            assert(k == 4);
            assert(list[0] == a);
        }
    }
    exchange_laws::lemma_widths();
    exchange_laws::lemma_uuid_fits(ADVANCED_AUDIO_DISTRIBUTION_SERVICE_UUID);
    exchange_laws::lemma_unsigned_fits(number, 2);
    exchange_laws::lemma_two_fit(profile[0], profile[1], 3, 3, 0);
    exchange_laws::lemma_one_fits(profiles[0], 11, 1);
    assert forall|i: int| 0 <= i < list.len() implies exchange_laws::fits_in(
        (#[trigger] list[i]).value,
        16,
        MAX_DATA_ELEMENT_NESTING - 2,
    ) by {
        assert(i == 0);
    }
    assert(avdtp::service::attributes_version(list, 0) == Some(version)) by {
        assert(avdtp::service::descriptor_version(profiles[0]) == Some(version));
        assert(avdtp::service::descriptors_version(profiles, 0) == Some(version));
        assert(avdtp::service::attribute_version(list[0]) == Some(version));
    }
    let expected = Ok::<Seq<Seq<AttributeModel>>, SimbleErrorModel>(seq![list]);
    exchange_laws::lemma_client_reads_only_record(
        m, peer_mtu, id, handle, all, uuid, ids, list, 16, expected,
    );
    assert forall|found: Result<Seq<Seq<AttributeModel>>, SimbleErrorModel>|
        #[trigger] exchange_laws::search_attributes_from(
            m,
            peer_mtu,
            id,
            seq![uuid],
            ids,
            found,
        ) implies avdtp::service::version_in(found) == Ok::<Option<(u8, u8)>, SimbleErrorModel>(
        Some(version),
    ) by {
        exchange_laws::lemma_client_reads_only_record(
            m, peer_mtu, id, handle, all, uuid, ids, list, 16, found,
        );
        assert(seq![list][0] == list);
    }
}

} // verus!
