//! A search finds the service record that the other side registered.

use vstd::prelude::*;
use crate::classic::avctp;
use crate::classic::avrcp::controller_features;
use crate::classic::avrcp::service;
use crate::classic::avrcp::service::{
    ControllerServiceRecord,
    ServiceFacts,
    TargetServiceRecord,
    AVCTP_PROTOCOL_UUID,
    AV_REMOTE_CONTROL_CONTROLLER_SERVICE_UUID,
    AV_REMOTE_CONTROL_SERVICE_UUID,
    AV_REMOTE_CONTROL_TARGET_SERVICE_UUID,
};
use crate::classic::avrcp::target_features;
use crate::classic::sdp::element::{SdpUuid, MAX_DATA_ELEMENT_NESTING};
use crate::classic::sdp::exchange_laws;
use crate::classic::sdp::record;
use crate::classic::sdp::record::AttributeModel;
use crate::classic::sdp::selection_laws;
use crate::classic::sdp::server::ServerModel;
use crate::types::SimbleErrorModel;

verus! {

/// A descriptor takes little room.
proof fn lemma_descriptor_fits(uuid: u16, value: u16)
    ensures
        exchange_laws::fits_in(service::descriptor(uuid, value), 11, 1),
{
    exchange_laws::lemma_widths();
    exchange_laws::lemma_uuid_fits(uuid);
    exchange_laws::lemma_unsigned_fits(value as u64, 2);
    let pair = service::descriptor(uuid, value).sequence()->0;
    exchange_laws::lemma_two_fit(pair[0], pair[1], 3, 3, 0);
}

/// A search selects handle, protocols, profile and features. They take little
/// room, and say of the service what the record was made of.
proof fn lemma_record(
    handle: u32,
    classes: Seq<u16>,
    avctp_version: (u8, u8),
    avrcp_version: (u8, u8),
    features: u16,
    browsing: bool,
)
    ensures
        ({
            let all = service::record_attributes(
                handle,
                classes,
                avctp_version,
                avrcp_version,
                features,
                browsing,
            );
            let ids = service::searched_attributes();
            let list = seq![all[0], all[3], all[4], all[5]];
            &&& selection_laws::distinct_ids(all)
            &&& selection_laws::disjoint(ids)
            &&& selection_laws::is_selection(list, all, ids)
            &&& forall|i: int|
                0 <= i < list.len() ==> exchange_laws::fits_in(
                    (#[trigger] list[i]).value,
                    27,
                    MAX_DATA_ELEMENT_NESTING - 2,
                )
            &&& service::facts_of(list) == (ServiceFacts {
                handle,
                avctp_version,
                avrcp_version,
                features,
            })
        }),
{
    let all = service::record_attributes(
        handle,
        classes,
        avctp_version,
        avrcp_version,
        features,
        browsing,
    );
    let ids = service::searched_attributes();
    let list = seq![all[0], all[3], all[4], all[5]];
    assert forall|a: AttributeModel| #[trigger] list.contains(a) <==> all.contains(a)
        && selection_laws::wanted(ids, a.id) by {
        if list.contains(a) {
            assert(all[0] == a || all[3] == a || all[4] == a || all[5] == a);
            assert(selection_laws::covers(ids[0], a.id) || selection_laws::covers(ids[1], a.id)
                || selection_laws::covers(ids[2], a.id) || selection_laws::covers(ids[3], a.id));
        }
        if all.contains(a) && selection_laws::wanted(ids, a.id) {
            let k = choose|k: int| 0 <= k < all.len() && all[k] == a;
            let i = choose|i: int|
                0 <= i < ids.len() && #[trigger] selection_laws::covers(ids[i], a.id);
            assert(k == 0 || k == 3 || k == 4 || k == 5);
            assert(list[0] == a || list[1] == a || list[2] == a || list[3] == a);
        }
    }
    exchange_laws::lemma_widths();
    exchange_laws::lemma_unsigned_fits(handle as u64, 4);
    exchange_laws::lemma_unsigned_fits(features as u64, 2);
    let avctp = service::version_number(avctp_version);
    let avrcp = service::version_number(avrcp_version);
    lemma_descriptor_fits(SdpUuid::BT_L2CAP_PROTOCOL_ID, avctp::AVCTP_PSM);
    lemma_descriptor_fits(AVCTP_PROTOCOL_UUID, avctp);
    lemma_descriptor_fits(AV_REMOTE_CONTROL_SERVICE_UUID, avrcp);
    let protocols = all[3].value.sequence()->0;
    exchange_laws::lemma_two_fit(protocols[0], protocols[1], 11, 11, 1);
    let profiles = all[4].value.sequence()->0;
    exchange_laws::lemma_one_fits(profiles[0], 11, 1);
    assert forall|i: int| 0 <= i < list.len() implies exchange_laws::fits_in(
        (#[trigger] list[i]).value,
        27,
        MAX_DATA_ELEMENT_NESTING - 2,
    ) by {
        assert(i == 0 || i == 1 || i == 2 || i == 3);
    }
    service::law_version_round_trip(avctp_version, 0);
    service::law_version_round_trip(avrcp_version, 0);
    let s3 = list.drop_last();
    let s2 = s3.drop_last();
    let s1 = s2.drop_last();
    assert(s1.drop_last() =~= seq![]);
    assert(service::facts_of(s1).handle == handle);
    assert(service::facts_of(s2) == (ServiceFacts { avctp_version, ..service::facts_of(s1) }));
    assert(service::facts_of(s3) == (ServiceFacts { avrcp_version, ..service::facts_of(s2) }));
}

/// A search for controllers, over a transport that is a server with the record of
/// one, finds that record, and nothing else can come of it.
pub proof fn law_controller_is_found_on_server(
    m: ServerModel,
    peer_mtu: u16,
    id: u16,
    known: ControllerServiceRecord,
)
    requires
        m.service_records == Map::<u32, Seq<AttributeModel>>::empty().insert(
            known.service_record_handle,
            service::record_attributes(
                known.service_record_handle,
                seq![AV_REMOTE_CONTROL_SERVICE_UUID, AV_REMOTE_CONTROL_CONTROLLER_SERVICE_UUID],
                known.avctp_version,
                known.avrcp_version,
                known.supported_features,
                known.supported_features & controller_features::SUPPORTS_BROWSING != 0,
            ),
        ),
        peer_mtu >= 64,
    ensures
        exists|found: Result<Seq<Seq<AttributeModel>>, SimbleErrorModel>|
            exchange_laws::search_attributes_from(
                m,
                peer_mtu,
                id,
                seq![SdpUuid::Uuid16(AV_REMOTE_CONTROL_CONTROLLER_SERVICE_UUID)],
                service::searched_attributes(),
                found,
            ),
        forall|found: Result<Seq<Seq<AttributeModel>>, SimbleErrorModel>|
            #[trigger] exchange_laws::search_attributes_from(
                m,
                peer_mtu,
                id,
                seq![SdpUuid::Uuid16(AV_REMOTE_CONTROL_CONTROLLER_SERVICE_UUID)],
                service::searched_attributes(),
                found,
            ) ==> service::controllers_in(found) == Ok::<
                Seq<ControllerServiceRecord>,
                SimbleErrorModel,
            >(seq![known]),
{
    let classes = seq![AV_REMOTE_CONTROL_SERVICE_UUID, AV_REMOTE_CONTROL_CONTROLLER_SERVICE_UUID];
    let browsing = known.supported_features & controller_features::SUPPORTS_BROWSING != 0;
    let handle = known.service_record_handle;
    let all = service::record_attributes(
        handle,
        classes,
        known.avctp_version,
        known.avrcp_version,
        known.supported_features,
        browsing,
    );
    let uuid = SdpUuid::Uuid16(AV_REMOTE_CONTROL_CONTROLLER_SERVICE_UUID);
    let ids = service::searched_attributes();
    let list = seq![all[0], all[3], all[4], all[5]];
    lemma_record(
        handle,
        classes,
        known.avctp_version,
        known.avrcp_version,
        known.supported_features,
        browsing,
    );
    assert(exchange_laws::has_uuid(all, uuid)) by {
        let listed = all[2].value.sequence()->0;
        let i = classes.len() - 1;
        assert(record::holds_uuid(listed[i], uuid));
        assert(record::any_holds_uuid(listed, uuid));
        assert(record::holds_uuid(all[2].value, uuid));
    }
    let expected = Ok::<Seq<Seq<AttributeModel>>, SimbleErrorModel>(seq![list]);
    exchange_laws::lemma_client_reads_only_record(
        m, peer_mtu, id, handle, all, uuid, ids, list, 27, expected,
    );
    assert forall|found: Result<Seq<Seq<AttributeModel>>, SimbleErrorModel>|
        #[trigger] exchange_laws::search_attributes_from(
            m,
            peer_mtu,
            id,
            seq![uuid],
            ids,
            found,
        ) implies service::controllers_in(found) == Ok::<
        Seq<ControllerServiceRecord>,
        SimbleErrorModel,
    >(seq![known]) by {
        exchange_laws::lemma_client_reads_only_record(
            m, peer_mtu, id, handle, all, uuid, ids, list, 27, found,
        );
        assert(service::controllers_in(found)->Ok_0 =~= seq![known]);
    }
}

/// A search for targets, over a transport that is a server with the record of
/// one, finds that record, and nothing else can come of it.
pub proof fn law_target_is_found_on_server(
    m: ServerModel,
    peer_mtu: u16,
    id: u16,
    known: TargetServiceRecord,
)
    requires
        m.service_records == Map::<u32, Seq<AttributeModel>>::empty().insert(
            known.service_record_handle,
            service::record_attributes(
                known.service_record_handle,
                seq![AV_REMOTE_CONTROL_TARGET_SERVICE_UUID],
                known.avctp_version,
                known.avrcp_version,
                known.supported_features,
                known.supported_features & target_features::SUPPORTS_BROWSING != 0,
            ),
        ),
        peer_mtu >= 64,
    ensures
        exists|found: Result<Seq<Seq<AttributeModel>>, SimbleErrorModel>|
            exchange_laws::search_attributes_from(
                m,
                peer_mtu,
                id,
                seq![SdpUuid::Uuid16(AV_REMOTE_CONTROL_TARGET_SERVICE_UUID)],
                service::searched_attributes(),
                found,
            ),
        forall|found: Result<Seq<Seq<AttributeModel>>, SimbleErrorModel>|
            #[trigger] exchange_laws::search_attributes_from(
                m,
                peer_mtu,
                id,
                seq![SdpUuid::Uuid16(AV_REMOTE_CONTROL_TARGET_SERVICE_UUID)],
                service::searched_attributes(),
                found,
            ) ==> service::targets_in(found) == Ok::<Seq<TargetServiceRecord>, SimbleErrorModel>(
                seq![known],
            ),
{
    let classes = seq![AV_REMOTE_CONTROL_TARGET_SERVICE_UUID];
    let browsing = known.supported_features & target_features::SUPPORTS_BROWSING != 0;
    let handle = known.service_record_handle;
    let all = service::record_attributes(
        handle,
        classes,
        known.avctp_version,
        known.avrcp_version,
        known.supported_features,
        browsing,
    );
    let uuid = SdpUuid::Uuid16(AV_REMOTE_CONTROL_TARGET_SERVICE_UUID);
    let ids = service::searched_attributes();
    let list = seq![all[0], all[3], all[4], all[5]];
    lemma_record(
        handle,
        classes,
        known.avctp_version,
        known.avrcp_version,
        known.supported_features,
        browsing,
    );
    assert(exchange_laws::has_uuid(all, uuid)) by {
        let listed = all[2].value.sequence()->0;
        let i = classes.len() - 1;
        assert(record::holds_uuid(listed[i], uuid));
        assert(record::any_holds_uuid(listed, uuid));
        assert(record::holds_uuid(all[2].value, uuid));
    }
    let expected = Ok::<Seq<Seq<AttributeModel>>, SimbleErrorModel>(seq![list]);
    exchange_laws::lemma_client_reads_only_record(
        m, peer_mtu, id, handle, all, uuid, ids, list, 27, expected,
    );
    assert forall|found: Result<Seq<Seq<AttributeModel>>, SimbleErrorModel>|
        #[trigger] exchange_laws::search_attributes_from(
            m,
            peer_mtu,
            id,
            seq![uuid],
            ids,
            found,
        ) implies service::targets_in(found) == Ok::<Seq<TargetServiceRecord>, SimbleErrorModel>(
        seq![known],
    ) by {
        exchange_laws::lemma_client_reads_only_record(
            m, peer_mtu, id, handle, all, uuid, ids, list, 27, found,
        );
        assert(service::targets_in(found)->Ok_0 =~= seq![known]);
    }
}

} // verus!
