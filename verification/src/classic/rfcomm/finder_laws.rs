//! A search finds the server channel that the other side registered.

use vstd::prelude::*;
use crate::classic::rfcomm::service;
use crate::classic::sdp::element::{ElementModel, SdpUuid, MAX_DATA_ELEMENT_NESTING};
use crate::classic::sdp::exchange_laws;
use crate::classic::sdp::record;
use crate::classic::sdp::record::AttributeModel;
use crate::classic::sdp::selection_laws;
use crate::classic::sdp::server::ServerModel;
use crate::types::SimbleErrorModel;

verus! {

/// A search selects service class and protocols. They take little room, and
/// say which channel serves which class.
proof fn lemma_record(handle: u32, channel: u8, uuid: SdpUuid)
    ensures
        ({
            let all = service::record_attributes(handle, channel, Some(uuid));
            let ids = service::searched_attributes();
            let list = seq![all[3], all[2]];
            &&& selection_laws::distinct_ids(all)
            &&& selection_laws::disjoint(ids)
            &&& selection_laws::is_selection(list, all, ids)
            &&& forall|i: int|
                0 <= i < list.len() ==> exchange_laws::fits_in(
                    (#[trigger] list[i]).value,
                    23,
                    MAX_DATA_ELEMENT_NESTING - 2,
                )
            &&& service::port_of(list) == (Some(channel), seq![uuid])
        }),
{
    let all = service::record_attributes(handle, channel, Some(uuid));
    let ids = service::searched_attributes();
    let list = seq![all[3], all[2]];
    assert forall|a: AttributeModel| #[trigger] list.contains(a) <==> all.contains(a)
        && selection_laws::wanted(ids, a.id) by {
        if list.contains(a) {
            assert(all[2] == a || all[3] == a);
            assert(selection_laws::covers(ids[0], a.id) || selection_laws::covers(ids[1], a.id));
        }
        if all.contains(a) && selection_laws::wanted(ids, a.id) {
            let k = choose|k: int| 0 <= k < all.len() && all[k] == a;
            let i = choose|i: int|
                0 <= i < ids.len() && #[trigger] selection_laws::covers(ids[i], a.id);
            assert(k == 2 || k == 3);
            assert(list[0] == a || list[1] == a);
        }
    }
    exchange_laws::lemma_widths();
    exchange_laws::lemma_uuid_fits(SdpUuid::BT_L2CAP_PROTOCOL_ID);
    exchange_laws::lemma_uuid_fits(SdpUuid::BT_RFCOMM_PROTOCOL_ID);
    exchange_laws::lemma_unsigned_fits(channel as u64, 1);
    let protocols = all[2].value.sequence()->0;
    let l2cap = protocols[0].sequence()->0;
    let rfcomm = protocols[1].sequence()->0;
    exchange_laws::lemma_one_fits(l2cap[0], 3, 0);
    exchange_laws::lemma_two_fit(rfcomm[0], rfcomm[1], 3, 2, 0);
    exchange_laws::lemma_two_fit(protocols[0], protocols[1], 8, 10, 1);
    let classes = seq![ElementModel::Uuid(uuid)];
    assert(exchange_laws::fits_in(classes[0], 17, 0));
    exchange_laws::lemma_one_fits(classes[0], 17, 0);
    assert forall|i: int| 0 <= i < list.len() implies exchange_laws::fits_in(
        (#[trigger] list[i]).value,
        23,
        MAX_DATA_ELEMENT_NESTING - 2,
    ) by {
        assert(i == 0 || i == 1);
    }
    assert(classes.drop_last() =~= seq![]);
    assert(service::uuids_in(classes.drop_last()) =~= seq![]);
    assert(service::uuids_in(classes) =~= seq![uuid]);
    let first = list.drop_last();
    assert(first.drop_last() =~= seq![]);
    assert(service::port_of(first.drop_last()) == (None::<u8>, Seq::<SdpUuid>::empty()));
    assert(first.last() == all[3]);
    assert(service::port_of(first) == (None::<u8>, seq![uuid]));
    assert(record::unsigned_in(all[2].value, 1, 1) == Some(channel as u64));
}

/// A search for services over RFCOMM, on a transport that is a server with the
/// record of one, finds its channel and its service class, and nothing else
/// can come of it.
pub proof fn law_channel_is_found_on_server(
    m: ServerModel,
    peer_mtu: u16,
    id: u16,
    handle: u32,
    channel: u8,
    uuid: SdpUuid,
)
    requires
        m.service_records == Map::<u32, Seq<AttributeModel>>::empty().insert(
            handle,
            service::record_attributes(handle, channel, Some(uuid)),
        ),
        peer_mtu >= 64,
    ensures
        exists|found: Result<Seq<Seq<AttributeModel>>, SimbleErrorModel>|
            exchange_laws::search_attributes_from(
                m,
                peer_mtu,
                id,
                seq![SdpUuid::Uuid16(SdpUuid::BT_RFCOMM_PROTOCOL_ID)],
                service::searched_attributes(),
                found,
            ),
        forall|found: Result<Seq<Seq<AttributeModel>>, SimbleErrorModel>|
            #[trigger] exchange_laws::search_attributes_from(
                m,
                peer_mtu,
                id,
                seq![SdpUuid::Uuid16(SdpUuid::BT_RFCOMM_PROTOCOL_ID)],
                service::searched_attributes(),
                found,
            ) ==> {
                &&& service::channels_in(found) == Ok::<Map<u8, Seq<SdpUuid>>, SimbleErrorModel>(
                    Map::<u8, Seq<SdpUuid>>::empty().insert(channel, seq![uuid]),
                )
                &&& service::channel_in(found, uuid) == Ok::<Option<u8>, SimbleErrorModel>(
                    Some(channel),
                )
            },
{
    let all = service::record_attributes(handle, channel, Some(uuid));
    let searched = SdpUuid::Uuid16(SdpUuid::BT_RFCOMM_PROTOCOL_ID);
    let ids = service::searched_attributes();
    let list = seq![all[3], all[2]];
    lemma_record(handle, channel, uuid);
    assert(exchange_laws::has_uuid(all, searched)) by {
        let protocols = all[2].value.sequence()->0;
        let rfcomm = protocols[1].sequence()->0;
        assert(record::holds_uuid(rfcomm[0], searched));
        assert(record::any_holds_uuid(rfcomm, searched));
        assert(record::holds_uuid(protocols[1], searched));
        assert(record::any_holds_uuid(protocols, searched));
        assert(record::holds_uuid(all[2].value, searched));
    }
    let none = Map::<u8, Seq<SdpUuid>>::empty();
    let channels = none.insert(channel, seq![uuid]);
    assert(seq![list].drop_last() =~= seq![]);
    assert(service::channels_of(seq![list].drop_last()) =~= none);
    assert(service::channels_of(seq![list]) =~= channels);
    assert(service::channel_with(channels, uuid, 0) == Some(channel)) by {
        service::law_found_channel_advertises(channels, uuid, channel);
        assert(seq![uuid][0] == uuid);
    }
    let expected = Ok::<Seq<Seq<AttributeModel>>, SimbleErrorModel>(seq![list]);
    exchange_laws::lemma_client_reads_only_record(
        m, peer_mtu, id, handle, all, searched, ids, list, 23, expected,
    );
    assert forall|found: Result<Seq<Seq<AttributeModel>>, SimbleErrorModel>|
        #[trigger] exchange_laws::search_attributes_from(
            m,
            peer_mtu,
            id,
            seq![searched],
            ids,
            found,
        ) implies service::channels_in(found) == Ok::<Map<u8, Seq<SdpUuid>>, SimbleErrorModel>(
        channels,
    ) && service::channel_in(found, uuid) == Ok::<Option<u8>, SimbleErrorModel>(
        Some(channel),
    ) by {
        exchange_laws::lemma_client_reads_only_record(
            m, peer_mtu, id, handle, all, searched, ids, list, 23, found,
        );
    }
}

} // verus!
