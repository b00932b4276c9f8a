//! A search finds the report descriptor of the device that registered it.

use vstd::prelude::*;
use crate::classic::hid::attribute_id;
use crate::classic::hid::service;
use crate::classic::hid::HID_SERVICE_CLASS;
use crate::classic::sdp::element;
use crate::classic::sdp::element::{ElementModel, SdpUuid, MAX_DATA_ELEMENT_NESTING};
use crate::classic::sdp::exchange_laws;
use crate::classic::sdp::pdu::AttributeIdSpec;
use crate::classic::sdp::record;
use crate::classic::sdp::record::AttributeModel;
use crate::classic::sdp::selection_laws;
use crate::classic::sdp::server::ServerModel;
use crate::classic::sdp::SDP_CONTINUATION_WATCHDOG;
use crate::types::SimbleErrorModel;

verus! {

/// The attribute that a search for a device asks for.
pub open spec fn descriptor_ids() -> Seq<AttributeIdSpec> {
    seq![AttributeIdSpec::Single(attribute_id::HID_DESCRIPTOR_LIST)]
}

/// The attribute with the report descriptor takes little more room than the
/// report descriptor.
proof fn lemma_descriptor_fits(handle: u32, report_descriptor: Seq<u8>, device_subclass: u8)
    requires
        report_descriptor.len() <= 0x0100_0000,
    ensures
        exchange_laws::fits_in(
            service::record_attributes(handle, report_descriptor, device_subclass)[12].value,
            report_descriptor.len() as int + 18,
            MAX_DATA_ELEMENT_NESTING - 2,
        ),
{
    let all = service::record_attributes(handle, report_descriptor, device_subclass);
    let entries = all[12].value.sequence()->0;
    let entry = entries[0].sequence()->0;
    let n = report_descriptor.len() as int;
    exchange_laws::lemma_widths();
    exchange_laws::lemma_unsigned_fits(entry[0].unsigned()->Some_0.0, 2);
    assert(exchange_laws::fits_in(entry[1], n + 5, 0)) by {
        assert(entry[1] == ElementModel::TextString(report_descriptor));
        assert(element::encode(entry[1]).len() <= n + 5);
    }
    exchange_laws::lemma_two_fit(entry[0], entry[1], 3, n + 5, 0);
    exchange_laws::lemma_one_fits(entries[0], n + 13, 1);
}

/// A search for a device selects the attribute with the report descriptor.
proof fn lemma_selection(handle: u32, report_descriptor: Seq<u8>, device_subclass: u8)
    ensures
        ({
            let all = service::record_attributes(handle, report_descriptor, device_subclass);
            &&& selection_laws::distinct_ids(all)
            &&& selection_laws::disjoint(descriptor_ids())
            &&& selection_laws::is_selection(seq![all[12]], all, descriptor_ids())
        }),
{
    let all = service::record_attributes(handle, report_descriptor, device_subclass);
    let ids = descriptor_ids();
    let list = seq![all[12]];
    assert forall|a: AttributeModel| #[trigger] list.contains(a) <==> all.contains(a)
        && selection_laws::wanted(ids, a.id) by {
        if list.contains(a) {
            assert(all[12] == a);
            assert(selection_laws::covers(ids[0], a.id));
        }
        if all.contains(a) && selection_laws::wanted(ids, a.id) {
            let k = choose|k: int| 0 <= k < all.len() && all[k] == a;
            assert(k == 12);
            assert(list[0] == a);
        }
    }
}

/// A search for a device, over a transport that is a server with the record of
/// one, finds its report descriptor, whether or not the answer comes in parts,
/// and nothing else can come of it. The answer must not take more rounds than
/// a client makes: there is room for the report descriptor and the headers
/// around it.
pub proof fn law_descriptor_is_found_on_server(
    m: ServerModel,
    peer_mtu: u16,
    id: u16,
    handle: u32,
    report_descriptor: Seq<u8>,
    device_subclass: u8,
)
    requires
        m.service_records == Map::<u32, Seq<AttributeModel>>::empty().insert(
            handle,
            service::record_attributes(handle, report_descriptor, device_subclass),
        ),
        peer_mtu > 9,
        report_descriptor.len() + 31 <= SDP_CONTINUATION_WATCHDOG * (peer_mtu - 9),
    ensures
        exists|found: Result<Seq<Seq<AttributeModel>>, SimbleErrorModel>|
            exchange_laws::search_attributes_from(
                m,
                peer_mtu,
                id,
                seq![SdpUuid::Uuid16(HID_SERVICE_CLASS)],
                descriptor_ids(),
                found,
            ),
        forall|found: Result<Seq<Seq<AttributeModel>>, SimbleErrorModel>|
            #[trigger] exchange_laws::search_attributes_from(
                m,
                peer_mtu,
                id,
                seq![SdpUuid::Uuid16(HID_SERVICE_CLASS)],
                descriptor_ids(),
                found,
            ) ==> service::descriptor_in(found) == Ok::<Option<Seq<u8>>, SimbleErrorModel>(
                Some(report_descriptor),
            ),
{
    let all = service::record_attributes(handle, report_descriptor, device_subclass);
    let uuid = SdpUuid::Uuid16(HID_SERVICE_CLASS);
    let ids = descriptor_ids();
    let list = seq![all[12]];
    let room = report_descriptor.len() as int + 18;
    lemma_descriptor_fits(handle, report_descriptor, device_subclass);
    lemma_selection(handle, report_descriptor, device_subclass);
    assert(exchange_laws::has_uuid(all, uuid)) by {
        let classes = all[2].value.sequence()->0;
        assert(record::holds_uuid(classes[0], uuid));
        assert(record::any_holds_uuid(classes, uuid));
        assert(record::holds_uuid(all[2].value, uuid));
    }
    assert forall|i: int| 0 <= i < list.len() implies exchange_laws::fits_in(
        (#[trigger] list[i]).value,
        room,
        MAX_DATA_ELEMENT_NESTING - 2,
    ) by {
        assert(i == 0);
    }
    assert(list.len() * (room + 3) == room + 3);
    assert(service::attributes_descriptor(list, 0) == Some(report_descriptor)) by {
        let entries = all[12].value.sequence()->0;
        assert(service::entry_descriptor(entries[0]) == Some(report_descriptor));
        assert(service::entries_descriptor(entries, 0) == Some(report_descriptor));
        assert(service::attribute_descriptor(list[0]) == Some(report_descriptor));
    }
    let expected = Ok::<Seq<Seq<AttributeModel>>, SimbleErrorModel>(seq![list]);
    exchange_laws::lemma_client_reads_only_record(
        m, peer_mtu, id, handle, all, uuid, ids, list, room, expected,
    );
    assert forall|found: Result<Seq<Seq<AttributeModel>>, SimbleErrorModel>|
        #[trigger] exchange_laws::search_attributes_from(
            m,
            peer_mtu,
            id,
            seq![uuid],
            ids,
            found,
        ) implies service::descriptor_in(found) == Ok::<Option<Seq<u8>>, SimbleErrorModel>(
        Some(report_descriptor),
    ) by {
        exchange_laws::lemma_client_reads_only_record(
            m, peer_mtu, id, handle, all, uuid, ids, list, room, found,
        );
        assert(seq![list][0] == list);
    }
}

} // verus!
