//! What a client gathers from a server.

use vstd::prelude::*;
use crate::classic::sdp::client;
use crate::classic::sdp::element;
use crate::classic::sdp::element::{ElementModel, SdpUuid, MAX_DATA_ELEMENT_NESTING};
use crate::classic::sdp::element_laws;
use crate::classic::sdp::error_code;
use crate::classic::sdp::pdu;
use crate::classic::sdp::pdu::PduModel;
use crate::classic::sdp::pdu_laws;
use crate::classic::sdp::record;
use crate::classic::sdp::record::AttributeModel;
use crate::classic::sdp::server;
use crate::classic::sdp::server::{PendingModel, ServerModel};

verus! {

/// The same request with another continuation state.
pub open spec fn continued(request: PduModel, state: Seq<u8>) -> PduModel {
    match request {
        PduModel::ServiceSearchRequest {
            transaction_id,
            service_search_pattern,
            maximum_service_record_count,
            ..
        } => PduModel::ServiceSearchRequest {
            transaction_id,
            service_search_pattern,
            maximum_service_record_count,
            continuation_state: state,
        },
        PduModel::ServiceAttributeRequest {
            transaction_id,
            service_record_handle,
            maximum_attribute_byte_count,
            attribute_id_list,
            ..
        } => PduModel::ServiceAttributeRequest {
            transaction_id,
            service_record_handle,
            maximum_attribute_byte_count,
            attribute_id_list,
            continuation_state: state,
        },
        PduModel::ServiceSearchAttributeRequest {
            transaction_id,
            service_search_pattern,
            maximum_attribute_byte_count,
            attribute_id_list,
            ..
        } => PduModel::ServiceSearchAttributeRequest {
            transaction_id,
            service_search_pattern,
            maximum_attribute_byte_count,
            attribute_id_list,
            continuation_state: state,
        },
        _ => request,
    }
}

/// The handles that a response carries, and its continuation state.
pub open spec fn handles_in(response: PduModel) -> Option<(Seq<u32>, Seq<u8>)> {
    match response {
        PduModel::ServiceSearchResponse {
            service_record_handle_list,
            continuation_state,
            ..
        } => Some((service_record_handle_list, continuation_state)),
        _ => None,
    }
}

/// The attribute bytes that a response carries, and its continuation state.
pub open spec fn bytes_in(response: PduModel) -> Option<(Seq<u8>, Seq<u8>)> {
    match response {
        PduModel::ServiceAttributeResponse { attribute_list, continuation_state, .. } => Some(
            (attribute_list, continuation_state),
        ),
        PduModel::ServiceSearchAttributeResponse { attribute_lists, continuation_state, .. } => {
            Some((attribute_lists, continuation_state))
        },
        _ => None,
    }
}

/// The handles gathered by asking and continuing until the server says that
/// the answer is complete, in at most `rounds` requests.
pub open spec fn gathered_handles(
    m: ServerModel,
    request: PduModel,
    peer_mtu: u16,
    rounds: nat,
) -> Option<Seq<u32>>
    decreases rounds,
{
    if rounds == 0 {
        None
    } else {
        let (after, response) = server::answer(m, request, peer_mtu);
        match handles_in(response) {
            None => None,
            Some((part, state)) => if client::is_final(state) {
                Some(part)
            } else {
                match gathered_handles(
                    after,
                    continued(request, state),
                    peer_mtu,
                    (rounds - 1) as nat,
                ) {
                    Some(rest) => Some(part + rest),
                    None => None,
                }
            },
        }
    }
}

/// The attribute bytes gathered by asking and continuing until the server
/// says that the answer is complete, in at most `rounds` requests.
pub open spec fn gathered_bytes(
    m: ServerModel,
    request: PduModel,
    peer_mtu: u16,
    rounds: nat,
) -> Option<Seq<u8>>
    decreases rounds,
{
    if rounds == 0 {
        None
    } else {
        let (after, response) = server::answer(m, request, peer_mtu);
        match bytes_in(response) {
            None => None,
            Some((part, state)) => if client::is_final(state) {
                Some(part)
            } else {
                match gathered_bytes(
                    after,
                    continued(request, state),
                    peer_mtu,
                    (rounds - 1) as nat,
                ) {
                    Some(rest) => Some(part + rest),
                    None => None,
                }
            },
        }
    }
}

/// Continuing hands over the pending handles.
proof fn lemma_pending_handles(
    m: ServerModel,
    request: PduModel,
    peer_mtu: u16,
    rounds: nat,
    total: u16,
    handles: Seq<u32>,
)
    requires
        request is ServiceSearchRequest,
        server::handle_limit(peer_mtu) > 0,
        m.current_response == Some(PendingModel::Handles(total, handles)),
        rounds > handles.len(),
    ensures
        gathered_handles(m, continued(request, server::more_marker()), peer_mtu, rounds) == Some(
            handles,
        ),
    decreases rounds,
{
    let limit = server::handle_limit(peer_mtu);
    let asked = continued(request, server::more_marker());
    let (after, response) = server::answer(m, asked, peer_mtu);
    if handles.len() > limit {
        lemma_pending_handles(
            after,
            asked,
            peer_mtu,
            (rounds - 1) as nat,
            total,
            handles.skip(limit),
        );
        assert(continued(asked, server::more_marker()) == asked);
        assert(handles.take(limit) + handles.skip(limit) =~= handles);
    }
}

/// Continuing hands over the pending bytes.
proof fn lemma_pending_bytes(
    m: ServerModel,
    request: PduModel,
    peer_mtu: u16,
    rounds: nat,
    pending: Seq<u8>,
    limit: int,
)
    requires
        request matches PduModel::ServiceAttributeRequest { maximum_attribute_byte_count, .. }
            ==> limit == server::byte_limit(maximum_attribute_byte_count, peer_mtu),
        request matches PduModel::ServiceSearchAttributeRequest { maximum_attribute_byte_count, .. }
            ==> limit == server::byte_limit(maximum_attribute_byte_count, peer_mtu),
        request is ServiceAttributeRequest || request is ServiceSearchAttributeRequest,
        limit > 0,
        m.current_response == Some(PendingModel::Bytes(pending)),
        rounds > pending.len(),
    ensures
        gathered_bytes(m, continued(request, server::more_marker()), peer_mtu, rounds) == Some(
            pending,
        ),
    decreases rounds,
{
    let asked = continued(request, server::more_marker());
    let (after, response) = server::answer(m, asked, peer_mtu);
    if pending.len() > limit {
        lemma_pending_bytes(
            after,
            asked,
            peer_mtu,
            (rounds - 1) as nat,
            pending.skip(limit),
            limit,
        );
        assert(continued(asked, server::more_marker()) == asked);
        assert(pending.take(limit) + pending.skip(limit) =~= pending);
    }
}

/// A search matches the records that hold all of the UUIDs that a client asks
/// for, and a search for none matches no record.
pub proof fn law_search_matches_all(service: Seq<AttributeModel>, uuids: Seq<SdpUuid>)
    ensures
        server::record_matches(service, client::search_pattern(uuids)) <==> uuids.len() > 0 && (
        forall|i: int|
            0 <= i < uuids.len() ==> exists|j: int|
                0 <= j < service.len() && record::holds_uuid(
                    (#[trigger] service[j]).value,
                    #[trigger] uuids[i],
                )),
{
    let ids = client::search_pattern(uuids)->Sequence_0;
    assert forall|i: int| 0 <= i < uuids.len() implies (#[trigger] ids[i]).uuid() == Some(
        uuids[i],
    ) by {}
    if uuids.len() > 0 {
        assert(ids[0].uuid() is Some);
        assert(server::names_uuid(ids));
    }
    if server::all_ids_match(service, ids) {
        assert forall|i: int| 0 <= i < uuids.len() implies exists|j: int|
            0 <= j < service.len() && record::holds_uuid(
                (#[trigger] service[j]).value,
                #[trigger] uuids[i],
            ) by {
            assert(ids[i].uuid() == Some(uuids[i]));
            assert(server::id_matches(service, ids[i]));
        }
    } else {
        let i = choose|i: int|
            0 <= i < ids.len() && (#[trigger] ids[i]).uuid() is Some && !server::id_matches(
                service,
                ids[i],
            );
        assert(ids[i].uuid() == Some(uuids[i]));
    }
}

/// A service search that is continued until it is complete gathers the
/// handles of exactly the matching records, in ascending order, up to the
/// number that was asked for. A response must have room for one handle.
pub proof fn law_search_gathers_all_matches(
    m: ServerModel,
    transaction_id: u16,
    pattern: ElementModel,
    maximum_service_record_count: u16,
    peer_mtu: u16,
    rounds: nat,
)
    requires
        server::handle_limit(peer_mtu) > 0,
        rounds > server::matching_handles(m.service_records, pattern).len(),
    ensures
        gathered_handles(
            m,
            PduModel::ServiceSearchRequest {
                transaction_id,
                service_search_pattern: pattern,
                maximum_service_record_count,
                continuation_state: seq![0u8],
            },
            peer_mtu,
            rounds,
        ) == Some(
            server::first_of(
                server::matching_handles(m.service_records, pattern),
                maximum_service_record_count as int,
            ),
        ),
{
    let request = PduModel::ServiceSearchRequest {
        transaction_id,
        service_search_pattern: pattern,
        maximum_service_record_count,
        continuation_state: seq![0u8],
    };
    let all = server::matching_handles(m.service_records, pattern);
    let handles = server::first_of(all, maximum_service_record_count as int);
    let limit = server::handle_limit(peer_mtu);
    let (after, response) = server::answer(m, request, peer_mtu);
    if handles.len() > limit {
        lemma_pending_handles(
            after,
            request,
            peer_mtu,
            (rounds - 1) as nat,
            all.len() as u16,
            handles.skip(limit),
        );
        assert(handles.take(limit) + handles.skip(limit) =~= handles);
    }
}

/// A request for the attributes of a registered record that is continued
/// until it is complete gathers the bytes of exactly the selected attributes.
/// A response must have room for one byte.
pub proof fn law_attributes_gathered_whole(
    m: ServerModel,
    transaction_id: u16,
    handle: u32,
    maximum_attribute_byte_count: u16,
    attribute_id_list: ElementModel,
    peer_mtu: u16,
    rounds: nat,
)
    requires
        server::byte_limit(maximum_attribute_byte_count, peer_mtu) > 0,
        m.service_records.contains_key(handle),
        rounds > element::encode(
            server::selected(
                m.service_records[handle],
                server::elements_or_none(attribute_id_list),
            ),
        ).len(),
    ensures
        gathered_bytes(
            m,
            PduModel::ServiceAttributeRequest {
                transaction_id,
                service_record_handle: handle,
                maximum_attribute_byte_count,
                attribute_id_list,
                continuation_state: seq![0u8],
            },
            peer_mtu,
            rounds,
        ) == Some(
            element::encode(
                server::selected(
                    m.service_records[handle],
                    server::elements_or_none(attribute_id_list),
                ),
            ),
        ),
{
    let request = PduModel::ServiceAttributeRequest {
        transaction_id,
        service_record_handle: handle,
        maximum_attribute_byte_count,
        attribute_id_list,
        continuation_state: seq![0u8],
    };
    let all = element::encode(
        server::selected(m.service_records[handle], server::elements_or_none(attribute_id_list)),
    );
    let limit = server::byte_limit(maximum_attribute_byte_count, peer_mtu);
    let (after, response) = server::answer(m, request, peer_mtu);
    if all.len() > limit {
        lemma_pending_bytes(
            after,
            request,
            peer_mtu,
            (rounds - 1) as nat,
            all.skip(limit),
            limit,
        );
        assert(all.take(limit) + all.skip(limit) =~= all);
    }
}

/// The element that a combined search and attribute request answers with.
pub open spec fn found_attributes(
    m: ServerModel,
    pattern: ElementModel,
    attribute_id_list: ElementModel,
) -> ElementModel {
    ElementModel::Sequence(
        server::attribute_lists(
            m.service_records,
            server::matching_handles(m.service_records, pattern),
            server::elements_or_none(attribute_id_list),
        ),
    )
}

/// A combined search and attribute request that is continued until it is
/// complete gathers the bytes of the attribute lists of all matching records.
/// A response must have room for one byte.
pub proof fn law_search_attributes_gathered_whole(
    m: ServerModel,
    transaction_id: u16,
    pattern: ElementModel,
    maximum_attribute_byte_count: u16,
    attribute_id_list: ElementModel,
    peer_mtu: u16,
    rounds: nat,
)
    requires
        server::byte_limit(maximum_attribute_byte_count, peer_mtu) > 0,
        rounds > element::encode(found_attributes(m, pattern, attribute_id_list)).len(),
    ensures
        gathered_bytes(
            m,
            PduModel::ServiceSearchAttributeRequest {
                transaction_id,
                service_search_pattern: pattern,
                maximum_attribute_byte_count,
                attribute_id_list,
                continuation_state: seq![0u8],
            },
            peer_mtu,
            rounds,
        ) == Some(element::encode(found_attributes(m, pattern, attribute_id_list))),
{
    let request = PduModel::ServiceSearchAttributeRequest {
        transaction_id,
        service_search_pattern: pattern,
        maximum_attribute_byte_count,
        attribute_id_list,
        continuation_state: seq![0u8],
    };
    let all = element::encode(found_attributes(m, pattern, attribute_id_list));
    let limit = server::byte_limit(maximum_attribute_byte_count, peer_mtu);
    let (after, response) = server::answer(m, request, peer_mtu);
    if all.len() > limit {
        lemma_pending_bytes(
            after,
            request,
            peer_mtu,
            (rounds - 1) as nat,
            all.skip(limit),
            limit,
        );
        assert(all.take(limit) + all.skip(limit) =~= all);
    }
}

/// A flat list of alternating IDs and values in front of others.
proof fn lemma_attributes_of_prepended(first: AttributeModel, rest: Seq<ElementModel>)
    ensures
        record::attributes_of(
            seq![ElementModel::UnsignedInteger(first.id as u64, 2), first.value] + rest,
        ) == seq![first] + record::attributes_of(rest),
{
    let all = seq![ElementModel::UnsignedInteger(first.id as u64, 2), first.value] + rest;
    assert(all.skip(2) =~= rest);
    assert(all[0].unsigned() == Some((first.id as u64, 2u8)));
}

/// A flat list without its first pair.
proof fn lemma_flattened_first(list: Seq<AttributeModel>)
    requires
        list.len() > 0,
    ensures
        server::flattened(list) == seq![
            ElementModel::UnsignedInteger(list[0].id as u64, 2),
            list[0].value,
        ] + server::flattened(list.skip(1)),
    decreases list.len(),
{
    let pair = seq![ElementModel::UnsignedInteger(list[0].id as u64, 2), list[0].value];
    if list.len() == 1 {
        assert(list.drop_last() =~= seq![]);
        assert(list.skip(1) =~= seq![]);
        assert(server::flattened(list) =~= pair + server::flattened(list.skip(1)));
    } else {
        lemma_flattened_first(list.drop_last());
        assert(list.drop_last().skip(1) =~= list.skip(1).drop_last());
        assert(list.skip(1).last() == list.last());
        assert(server::flattened(list) =~= pair + server::flattened(list.skip(1)));
    }
}

/// Attributes written as a flat list of IDs and values are read back from it.
pub proof fn law_attribute_list_round_trip(list: Seq<AttributeModel>)
    ensures
        record::attributes_of(server::flattened(list)) == list,
    decreases list.len(),
{
    if list.len() == 0 {
        assert(record::attributes_of(server::flattened(list)) =~= list);
    } else {
        lemma_flattened_first(list);
        lemma_attributes_of_prepended(list[0], server::flattened(list.skip(1)));
        law_attribute_list_round_trip(list.skip(1));
        assert(seq![list[0]] + list.skip(1) =~= list);
    }
}

/// What a client reads from the gathered answer to an attribute request is
/// the list of selected attributes, in ascending order of their IDs. The
/// values must have a wire form that says all of them.
pub proof fn law_attributes_read_back(service: Seq<AttributeModel>, ids: Seq<ElementModel>)
    requires
        element_laws::well_formed(server::selected(service, ids)),
        element_laws::nesting(server::selected(service, ids)) <= MAX_DATA_ELEMENT_NESTING,
    ensures
        client::attributes_in(element::encode(server::selected(service, ids))) == Ok::<
            Seq<AttributeModel>,
            crate::types::SimbleErrorModel,
        >(server::sorted_by_id(server::requested(service, ids))),
{
    let e = server::selected(service, ids);
    element_laws::law_element_round_trip(e, seq![]);
    assert(element::encode(e) + Seq::<u8>::empty() =~= element::encode(e));
    law_attribute_list_round_trip(server::sorted_by_id(server::requested(service, ids)));
}

/// A continuation state that the server did not hand out is refused, and the
/// server stays as it was.
pub proof fn law_foreign_continuation_is_refused(
    m: ServerModel,
    request: PduModel,
    state: Seq<u8>,
    peer_mtu: u16,
)
    requires
        request is ServiceSearchRequest || request is ServiceAttributeRequest
            || request is ServiceSearchAttributeRequest,
        state.len() > 1,
        m.current_response is None || state != server::more_marker(),
    ensures
        server::answer(m, continued(request, state), peer_mtu) == (
            m,
            server::failure(request.transaction(), error_code::INVALID_CONTINUATION_STATE),
        ),
{
}

/// No answer changes the service records.
pub proof fn law_answers_keep_records(m: ServerModel, request: PduModel, peer_mtu: u16)
    ensures
        server::answer(m, request, peer_mtu).0.service_records == m.service_records,
{
}

/// What a server answers fits the MTU of the peer, whatever the peer asks and
/// whatever is pending. An MTU below 11 has no room for an empty list of
/// handles with a continuation state.
pub proof fn law_answers_fit_the_mtu(m: ServerModel, request: Seq<u8>, peer_mtu: u16)
    requires
        peer_mtu >= 11,
    ensures
        server::answer_bytes(m, request, peer_mtu).1.len() <= peer_mtu,
{
    reveal(server::answer_bytes);
    if let Some(p) = pdu::pdu_of(request) {
        let (_, response) = server::answer(m, p, peer_mtu);
        lemma_answer_size(m, p, peer_mtu);
        assert(response.bytes().len() == 5 + response.parameters().len());
    }
}

/// The parameters of an answer leave room for the header of a PDU.
proof fn lemma_answer_size(m: ServerModel, request: PduModel, peer_mtu: u16)
    requires
        peer_mtu >= 11,
    ensures
        server::answer(m, request, peer_mtu).1.parameters().len() + 5 <= peer_mtu,
{
    let (_, response) = server::answer(m, request, peer_mtu);
    if let PduModel::ServiceSearchResponse { service_record_handle_list, .. } = response {
        pdu_laws::lemma_handle_bytes(service_record_handle_list);
    }
}

} // verus!
