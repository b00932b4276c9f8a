//! A search finds the service record that the other side registered.

use vstd::prelude::*;
use crate::classic::hfp::event::{AgConfiguration, HfConfiguration};
use crate::classic::hfp::service;
use crate::classic::hfp::service::{HANDSFREE_AUDIO_GATEWAY_SERVICE, HANDSFREE_SERVICE};
use crate::classic::hfp::values::ProfileVersion;
use crate::classic::sdp::element::{SdpUuid, MAX_DATA_ELEMENT_NESTING};
use crate::classic::sdp::exchange_laws;
use crate::classic::sdp::record;
use crate::classic::sdp::record::AttributeModel;
use crate::classic::sdp::selection_laws;
use crate::classic::sdp::server::ServerModel;
use crate::types::SimbleErrorModel;

verus! {

/// The values of a service record take little room.
proof fn lemma_values_fit(
    handle: u32,
    channel: u8,
    class: u16,
    version: ProfileVersion,
    features: u16,
)
    ensures
        forall|i: int|
            1 <= i < 5 ==> exchange_laws::fits_in(
                (#[trigger] service::record_attributes(
                    handle,
                    channel,
                    class,
                    version,
                    features,
                )[i]).value,
                23,
                MAX_DATA_ELEMENT_NESTING - 2,
            ),
{
    let all = service::record_attributes(handle, channel, class, version, features);
    exchange_laws::lemma_widths();
    exchange_laws::lemma_uuid_fits(class);
    exchange_laws::lemma_uuid_fits(service::GENERIC_AUDIO_SERVICE);
    exchange_laws::lemma_uuid_fits(SdpUuid::BT_L2CAP_PROTOCOL_ID);
    exchange_laws::lemma_uuid_fits(SdpUuid::BT_RFCOMM_PROTOCOL_ID);
    exchange_laws::lemma_unsigned_fits(channel as u64, 1);
    exchange_laws::lemma_unsigned_fits(version.number() as u64, 2);
    exchange_laws::lemma_unsigned_fits(features as u64, 2);
    let classes = all[1].value.sequence()->0;
    exchange_laws::lemma_two_fit(classes[0], classes[1], 3, 3, 0);
    let protocols = all[2].value.sequence()->0;
    let l2cap = protocols[0].sequence()->0;
    let rfcomm = protocols[1].sequence()->0;
    exchange_laws::lemma_one_fits(l2cap[0], 3, 0);
    exchange_laws::lemma_two_fit(rfcomm[0], rfcomm[1], 3, 2, 0);
    exchange_laws::lemma_two_fit(protocols[0], protocols[1], 8, 10, 1);
    let profiles = all[3].value.sequence()->0;
    let profile = profiles[0].sequence()->0;
    exchange_laws::lemma_two_fit(profile[0], profile[1], 3, 3, 0);
    exchange_laws::lemma_one_fits(profiles[0], 11, 1);
    assert forall|i: int| 1 <= i < 5 implies exchange_laws::fits_in(
        (#[trigger] all[i]).value,
        23,
        MAX_DATA_ELEMENT_NESTING - 2,
    ) by {
        assert(i == 1 || i == 2 || i == 3 || i == 4);
    }
}

/// A service record holds the UUID of its class.
proof fn lemma_has_class(
    handle: u32,
    channel: u8,
    class: u16,
    version: ProfileVersion,
    features: u16,
)
    ensures
        exchange_laws::has_uuid(
            service::record_attributes(handle, channel, class, version, features),
            SdpUuid::Uuid16(class),
        ),
{
    let all = service::record_attributes(handle, channel, class, version, features);
    let uuid = SdpUuid::Uuid16(class);
    let classes = all[1].value.sequence()->0;
    assert(record::holds_uuid(classes[0], uuid));
    assert(record::any_holds_uuid(classes, uuid));
    assert(record::holds_uuid(all[1].value, uuid));
}

/// A search for a Hands-Free selects all of its record but the handle.
proof fn lemma_hf_selection(
    handle: u32,
    channel: u8,
    class: u16,
    version: ProfileVersion,
    features: u16,
)
    ensures
        ({
            let all = service::record_attributes(handle, channel, class, version, features);
            let ids = service::hf_attribute_ids();
            &&& selection_laws::distinct_ids(all)
            &&& selection_laws::disjoint(ids)
            &&& selection_laws::is_selection(all.skip(1), all, ids)
        }),
{
    let all = service::record_attributes(handle, channel, class, version, features);
    let ids = service::hf_attribute_ids();
    let list = all.skip(1);
    assert forall|a: AttributeModel| #[trigger] list.contains(a) <==> all.contains(a)
        && selection_laws::wanted(ids, a.id) by {
        if list.contains(a) {
            let k = choose|k: int| 0 <= k < list.len() && list[k] == a;
            assert(all[k + 1] == a);
            assert(selection_laws::covers(ids[0], a.id) || selection_laws::covers(ids[1], a.id)
                || selection_laws::covers(ids[2], a.id) || selection_laws::covers(ids[3], a.id));
        }
        if all.contains(a) && selection_laws::wanted(ids, a.id) {
            let k = choose|k: int| 0 <= k < all.len() && all[k] == a;
            let i = choose|i: int|
                0 <= i < ids.len() && #[trigger] selection_laws::covers(ids[i], a.id);
            assert(k != 0);
            assert(list[k - 1] == a);
        }
    }
}

/// A search for an Audio Gateway selects its record from the protocols on.
proof fn lemma_ag_selection(
    handle: u32,
    channel: u8,
    class: u16,
    version: ProfileVersion,
    features: u16,
)
    ensures
        ({
            let all = service::record_attributes(handle, channel, class, version, features);
            let ids = service::ag_attribute_ids();
            &&& selection_laws::distinct_ids(all)
            &&& selection_laws::disjoint(ids)
            &&& selection_laws::is_selection(all.skip(2), all, ids)
        }),
{
    let all = service::record_attributes(handle, channel, class, version, features);
    let ids = service::ag_attribute_ids();
    let list = all.skip(2);
    assert forall|a: AttributeModel| #[trigger] list.contains(a) <==> all.contains(a)
        && selection_laws::wanted(ids, a.id) by {
        if list.contains(a) {
            let k = choose|k: int| 0 <= k < list.len() && list[k] == a;
            assert(all[k + 2] == a);
            assert(selection_laws::covers(ids[0], a.id) || selection_laws::covers(ids[1], a.id)
                || selection_laws::covers(ids[2], a.id));
        }
        if all.contains(a) && selection_laws::wanted(ids, a.id) {
            let k = choose|k: int| 0 <= k < all.len() && all[k] == a;
            let i = choose|i: int|
                0 <= i < ids.len() && #[trigger] selection_laws::covers(ids[i], a.id);
            assert(k != 0 && k != 1);
            assert(list[k - 2] == a);
        }
    }
}

/// What the attributes that are selected from a record say of its service.
proof fn lemma_selection_described(
    handle: u32,
    channel: u8,
    class: u16,
    version: ProfileVersion,
    features: u16,
    from: int,
)
    requires
        from == 1 || from == 2,
    ensures
        ({
            let all = service::record_attributes(handle, channel, class, version, features);
            let d = service::described(all.skip(from));
            &&& d.channel == Some(channel)
            &&& d.version == Some(version)
            &&& d.features == Some(features)
            &&& class != HANDSFREE_AUDIO_GATEWAY_SERVICE ==> !d.is_gateway
        }),
{
    let all = service::record_attributes(handle, channel, class, version, features);
    let list = all.skip(from);
    let a1 = list.drop_last();
    let a2 = a1.drop_last();
    let a3 = a2.drop_last();
    assert(list.last() == all[4]);
    assert(a1.last() == all[3]);
    assert(a2.last() == all[2]);
    let classes = all[1].value.sequence()->0;
    assert(classes[0].uuid() == Some(SdpUuid::Uuid16(class)));
    if from == 1 {
        assert(a3.last() == all[1]);
        assert(a3.drop_last() =~= seq![]);
        assert(!service::described(a3.drop_last()).is_gateway);
        assert(service::starts_with_gateway(all[1].value) == (class
            == HANDSFREE_AUDIO_GATEWAY_SERVICE));
    } else {
        assert(a3 =~= seq![]);
    }
    let d3 = service::described(a3);
    assert(class != HANDSFREE_AUDIO_GATEWAY_SERVICE ==> !d3.is_gateway);
    assert(record::unsigned_in(all[2].value, 1, 1) == Some(channel as u64));
    assert(record::unsigned_in(all[3].value, 0, 1) == Some(version.number() as u64));
    let d2 = service::described(a2);
    let d1 = service::described(a1);
}

/// A search for a Hands-Free, over a transport that is a server with the
/// record of one, finds its channel, version and features, and nothing else
/// can come of it. [`service::law_hf_record_features`] says what the features
/// are.
pub proof fn law_hands_free_is_found_on_server(
    m: ServerModel,
    peer_mtu: u16,
    id: u16,
    handle: u32,
    channel: u8,
    configuration: HfConfiguration,
    version: ProfileVersion,
)
    requires
        m.service_records == Map::<u32, Seq<AttributeModel>>::empty().insert(
            handle,
            service::record_attributes(
                handle,
                channel,
                HANDSFREE_SERVICE,
                version,
                service::hf_record_features(configuration),
            ),
        ),
        peer_mtu >= 64,
    ensures
        exists|found: Result<Seq<Seq<AttributeModel>>, SimbleErrorModel>|
            exchange_laws::search_attributes_from(
                m,
                peer_mtu,
                id,
                seq![SdpUuid::Uuid16(HANDSFREE_SERVICE)],
                service::hf_attribute_ids(),
                found,
            ),
        forall|found: Result<Seq<Seq<AttributeModel>>, SimbleErrorModel>|
            #[trigger] exchange_laws::search_attributes_from(
                m,
                peer_mtu,
                id,
                seq![SdpUuid::Uuid16(HANDSFREE_SERVICE)],
                service::hf_attribute_ids(),
                found,
            ) ==> service::record_in(found, true) == Ok::<
                Option<(u8, ProfileVersion, u16)>,
                SimbleErrorModel,
            >(Some((channel, version, service::hf_record_features(configuration)))),
{
    let features = service::hf_record_features(configuration);
    let all = service::record_attributes(handle, channel, HANDSFREE_SERVICE, version, features);
    let uuid = SdpUuid::Uuid16(HANDSFREE_SERVICE);
    let ids = service::hf_attribute_ids();
    let list = all.skip(1);
    lemma_has_class(handle, channel, HANDSFREE_SERVICE, version, features);
    lemma_hf_selection(handle, channel, HANDSFREE_SERVICE, version, features);
    lemma_values_fit(handle, channel, HANDSFREE_SERVICE, version, features);
    lemma_selection_described(handle, channel, HANDSFREE_SERVICE, version, features, 1);
    assert forall|i: int| 0 <= i < list.len() implies exchange_laws::fits_in(
        (#[trigger] list[i]).value,
        23,
        MAX_DATA_ELEMENT_NESTING - 2,
    ) by {
        assert(list[i] == all[i + 1]);
    }
    let expected = Ok::<Seq<Seq<AttributeModel>>, SimbleErrorModel>(seq![list]);
    exchange_laws::lemma_client_reads_only_record(
        m, peer_mtu, id, handle, all, uuid, ids, list, 23, expected,
    );
    assert forall|found: Result<Seq<Seq<AttributeModel>>, SimbleErrorModel>|
        #[trigger] exchange_laws::search_attributes_from(
            m,
            peer_mtu,
            id,
            seq![uuid],
            ids,
            found,
        ) implies service::record_in(found, true) == Ok::<
        Option<(u8, ProfileVersion, u16)>,
        SimbleErrorModel,
    >(Some((channel, version, features))) by {
        exchange_laws::lemma_client_reads_only_record(
            m, peer_mtu, id, handle, all, uuid, ids, list, 23, found,
        );
        assert(seq![list][0] == list);
    }
}

/// A search for an Audio Gateway, over a transport that is a server with the
/// record of one, finds its channel, version and features, and nothing else
/// can come of it.
pub proof fn law_gateway_is_found_on_server(
    m: ServerModel,
    peer_mtu: u16,
    id: u16,
    handle: u32,
    channel: u8,
    configuration: AgConfiguration,
    version: ProfileVersion,
)
    requires
        m.service_records == Map::<u32, Seq<AttributeModel>>::empty().insert(
            handle,
            service::record_attributes(
                handle,
                channel,
                HANDSFREE_AUDIO_GATEWAY_SERVICE,
                version,
                service::ag_record_features(configuration),
            ),
        ),
        peer_mtu >= 64,
    ensures
        exists|found: Result<Seq<Seq<AttributeModel>>, SimbleErrorModel>|
            exchange_laws::search_attributes_from(
                m,
                peer_mtu,
                id,
                seq![SdpUuid::Uuid16(HANDSFREE_AUDIO_GATEWAY_SERVICE)],
                service::ag_attribute_ids(),
                found,
            ),
        forall|found: Result<Seq<Seq<AttributeModel>>, SimbleErrorModel>|
            #[trigger] exchange_laws::search_attributes_from(
                m,
                peer_mtu,
                id,
                seq![SdpUuid::Uuid16(HANDSFREE_AUDIO_GATEWAY_SERVICE)],
                service::ag_attribute_ids(),
                found,
            ) ==> service::record_in(found, false) == Ok::<
                Option<(u8, ProfileVersion, u16)>,
                SimbleErrorModel,
            >(Some((channel, version, service::ag_record_features(configuration)))),
{
    let features = service::ag_record_features(configuration);
    let class = HANDSFREE_AUDIO_GATEWAY_SERVICE;
    let all = service::record_attributes(handle, channel, class, version, features);
    let uuid = SdpUuid::Uuid16(class);
    let ids = service::ag_attribute_ids();
    let list = all.skip(2);
    lemma_has_class(handle, channel, class, version, features);
    lemma_ag_selection(handle, channel, class, version, features);
    lemma_values_fit(handle, channel, class, version, features);
    lemma_selection_described(handle, channel, class, version, features, 2);
    assert forall|i: int| 0 <= i < list.len() implies exchange_laws::fits_in(
        (#[trigger] list[i]).value,
        23,
        MAX_DATA_ELEMENT_NESTING - 2,
    ) by {
        assert(list[i] == all[i + 2]);
    }
    let expected = Ok::<Seq<Seq<AttributeModel>>, SimbleErrorModel>(seq![list]);
    exchange_laws::lemma_client_reads_only_record(
        m, peer_mtu, id, handle, all, uuid, ids, list, 23, expected,
    );
    assert forall|found: Result<Seq<Seq<AttributeModel>>, SimbleErrorModel>|
        #[trigger] exchange_laws::search_attributes_from(
            m,
            peer_mtu,
            id,
            seq![uuid],
            ids,
            found,
        ) implies service::record_in(found, false) == Ok::<
        Option<(u8, ProfileVersion, u16)>,
        SimbleErrorModel,
    >(Some((channel, version, features))) by {
        exchange_laws::lemma_client_reads_only_record(
            m, peer_mtu, id, handle, all, uuid, ids, list, 23, found,
        );
        assert(seq![list][0] == list);
    }
}

} // verus!
