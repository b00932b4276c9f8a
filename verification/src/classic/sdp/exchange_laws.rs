//! What a client reads from a server.

use vstd::prelude::*;
use crate::classic::sdp::client;
use crate::classic::sdp::client::{Progress, ReplyModel};
use crate::classic::sdp::element;
use crate::classic::sdp::element::{ElementModel, SdpUuid, MAX_DATA_ELEMENT_NESTING};
use crate::classic::sdp::element_laws;
use crate::classic::sdp::pdu;
use crate::classic::sdp::pdu::{AttributeIdSpec, PduModel};
use crate::classic::sdp::pdu_laws;
use crate::classic::sdp::record;
use crate::classic::sdp::record::AttributeModel;
use crate::classic::sdp::selection_laws;
use crate::classic::sdp::server;
use crate::classic::sdp::server::{PendingModel, ServerModel};
use crate::classic::sdp::server_laws;
use crate::classic::sdp::SDP_CONTINUATION_WATCHDOG;
use crate::types::SimbleErrorModel;

verus! {

// ---------------------------------------------------------------------------
// A dialogue with a server
// ---------------------------------------------------------------------------

/// A server after it has given these responses to a client whose next
/// transaction ID was `id`.
pub open spec fn server_after<T>(
    m: ServerModel,
    peer_mtu: u16,
    part: spec_fn(Seq<u8>) -> ReplyModel<T>,
    request: spec_fn(u16, Seq<u8>) -> Seq<u8>,
    id: u16,
    responses: Seq<Seq<u8>>,
) -> ServerModel
    decreases responses.len(), 0nat,
{
    if responses.len() == 0 {
        m
    } else {
        let earlier = responses.drop_last();
        server_turn(m, peer_mtu, part, request, id, earlier).0
    }
}

/// What a server does with the request that follows these responses.
#[verifier::opaque]
pub open spec fn server_turn<T>(
    m: ServerModel,
    peer_mtu: u16,
    part: spec_fn(Seq<u8>) -> ReplyModel<T>,
    request: spec_fn(u16, Seq<u8>) -> Seq<u8>,
    id: u16,
    earlier: Seq<Seq<u8>>,
) -> (ServerModel, Seq<u8>)
    decreases earlier.len(), 1nat,
{
    server::answer_bytes(
        server_after(m, peer_mtu, part, request, id, earlier),
        request(
            client::transaction_after(id, earlier.len() as int),
            client::state_of(client::progress(part, earlier)),
        ),
        peer_mtu,
    )
}

/// Whether a response follows an unfinished dialogue, and answers the request
/// that the ones before it led to.
#[verifier::opaque]
pub open spec fn served_at<T>(
    m: ServerModel,
    peer_mtu: u16,
    part: spec_fn(Seq<u8>) -> ReplyModel<T>,
    request: spec_fn(u16, Seq<u8>) -> Seq<u8>,
    id: u16,
    responses: Seq<Seq<u8>>,
    i: int,
) -> bool {
    let earlier = responses.take(i);
    &&& client::progress(part, earlier) is Open
    &&& responses[i] == server_turn(m, peer_mtu, part, request, id, earlier).1
}

/// Whether these are the responses that a server gives to a client whose next
/// transaction ID is `id`. This is [`client::dialogue`] with a server for the
/// transport.
pub open spec fn server_dialogue<T>(
    m: ServerModel,
    peer_mtu: u16,
    part: spec_fn(Seq<u8>) -> ReplyModel<T>,
    request: spec_fn(u16, Seq<u8>) -> Seq<u8>,
    id: u16,
    responses: Seq<Seq<u8>>,
) -> bool {
    forall|i: int|
        0 <= i < responses.len() ==> #[trigger] served_at(
            m,
            peer_mtu,
            part,
            request,
            id,
            responses,
            i,
        )
}

/// Whether a dialogue with a server that ended where it had to left a request
/// at `p`.
pub open spec fn server_gives<T>(
    m: ServerModel,
    peer_mtu: u16,
    part: spec_fn(Seq<u8>) -> ReplyModel<T>,
    request: spec_fn(u16, Seq<u8>) -> Seq<u8>,
    id: u16,
    p: Progress<T>,
) -> bool {
    exists|responses: Seq<Seq<u8>>|
        {
            &&& #[trigger] server_dialogue(m, peer_mtu, part, request, id, responses)
            &&& p == client::progress(part, responses)
            &&& client::ended(p, responses.len() as int)
        }
}

// ---------------------------------------------------------------------------
// An answer in parts
// ---------------------------------------------------------------------------

/// Whether a server has handed over the first `limit` items of what is left of
/// an answer, or all of it.
spec fn handed<T>(
    after: ServerModel,
    reply: ReplyModel<T>,
    records: Map<u32, Seq<AttributeModel>>,
    pending: spec_fn(Seq<T>) -> PendingModel,
    left: Seq<T>,
    limit: int,
) -> bool {
    &&& after.service_records == records
    &&& if left.len() > limit {
        &&& after.current_response == Some(pending(left.skip(limit)))
        &&& reply == ReplyModel::More(left.take(limit), server::more_marker())
    } else {
        reply == ReplyModel::Last(left)
    }
}

/// Whether a server starts an answer as it should.
spec fn starts<T>(
    s: ServerModel,
    peer_mtu: u16,
    part: spec_fn(Seq<u8>) -> ReplyModel<T>,
    request: spec_fn(u16, Seq<u8>) -> Seq<u8>,
    pending: spec_fn(Seq<T>) -> PendingModel,
    all: Seq<T>,
    limit: int,
    id: u16,
) -> bool {
    let (after, response) = server::answer_bytes(s, request(id, seq![0u8]), peer_mtu);
    handed(after, part(response), s.service_records, pending, all, limit)
}

/// Whether a server goes on with an answer as it should.
spec fn goes_on<T>(
    s: ServerModel,
    peer_mtu: u16,
    part: spec_fn(Seq<u8>) -> ReplyModel<T>,
    request: spec_fn(u16, Seq<u8>) -> Seq<u8>,
    pending: spec_fn(Seq<T>) -> PendingModel,
    left: Seq<T>,
    limit: int,
    id: u16,
) -> bool {
    let (after, response) = server::answer_bytes(s, request(id, server::more_marker()), peer_mtu);
    handed(after, part(response), s.service_records, pending, left, limit)
}

/// Whether a server with the records of `m` hands over `all` in parts of
/// `limit`.
spec fn hands_over<T>(
    m: ServerModel,
    peer_mtu: u16,
    part: spec_fn(Seq<u8>) -> ReplyModel<T>,
    request: spec_fn(u16, Seq<u8>) -> Seq<u8>,
    pending: spec_fn(Seq<T>) -> PendingModel,
    all: Seq<T>,
    limit: int,
) -> bool {
    &&& forall|id: u16| #[trigger] starts(m, peer_mtu, part, request, pending, all, limit, id)
    &&& forall|s: ServerModel, left: Seq<T>, id: u16|
        s.service_records == m.service_records && s.current_response == Some(pending(left))
            ==> #[trigger] goes_on(s, peer_mtu, part, request, pending, left, limit, id)
}

/// Whether a response is served depends on it and on the ones before it.
proof fn lemma_served_prefix<T>(
    m: ServerModel,
    peer_mtu: u16,
    part: spec_fn(Seq<u8>) -> ReplyModel<T>,
    request: spec_fn(u16, Seq<u8>) -> Seq<u8>,
    id: u16,
    a: Seq<Seq<u8>>,
    b: Seq<Seq<u8>>,
    i: int,
)
    requires
        served_at(m, peer_mtu, part, request, id, a, i),
        0 <= i < a.len(),
        i < b.len(),
        a.take(i + 1) =~= b.take(i + 1),
    ensures
        served_at(m, peer_mtu, part, request, id, b, i),
{
    reveal(served_at);
    assert(a.take(i + 1)[i] == b.take(i + 1)[i]);
    assert(a.take(i) =~= a.take(i + 1).take(i));
    assert(b.take(i) =~= b.take(i + 1).take(i));
}

/// Where a dialogue with a server stands.
proof fn lemma_dialogue_stands<T>(
    m: ServerModel,
    peer_mtu: u16,
    part: spec_fn(Seq<u8>) -> ReplyModel<T>,
    request: spec_fn(u16, Seq<u8>) -> Seq<u8>,
    pending: spec_fn(Seq<T>) -> PendingModel,
    all: Seq<T>,
    limit: int,
    id: u16,
    responses: Seq<Seq<u8>>,
)
    requires
        hands_over(m, peer_mtu, part, request, pending, all, limit),
        limit > 0,
        server_dialogue(m, peer_mtu, part, request, id, responses),
        responses.len() > 0,
    ensures
        ({
            let n = responses.len() * limit;
            let s = server_after(m, peer_mtu, part, request, id, responses);
            &&& s.service_records == m.service_records
            &&& if n < all.len() {
                &&& s.current_response == Some(pending(all.skip(n)))
                &&& client::progress(part, responses) == Progress::Open(
                    all.take(n),
                    server::more_marker(),
                )
            } else {
                client::progress(part, responses) == Progress::Done(all)
            }
        }),
    decreases responses.len(),
{
    reveal(server_turn);
    let k = responses.len() as int;
    let earlier = responses.drop_last();
    assert(responses.take(k - 1) =~= earlier);
    assert(served_at(m, peer_mtu, part, request, id, responses, k - 1)) by {
        reveal(served_at);
    }
    assert(client::progress(part, earlier) is Open && responses[k - 1] == server_turn(
        m,
        peer_mtu,
        part,
        request,
        id,
        earlier,
    ).1) by {
        reveal(served_at);
    }
    let t = client::transaction_after(id, earlier.len() as int);
    if k == 1 {
        assert(earlier =~= seq![]);
        assert(client::progress(part, earlier) == Progress::<T>::Open(seq![], seq![0u8]));
        assert(starts(m, peer_mtu, part, request, pending, all, limit, t));
        assert(seq![] + all =~= all);
        assert(seq![] + all.take(limit) =~= all.take(limit));
        if all.len() <= limit {
            assert(1 * limit >= all.len());
        }
        assert(k * limit == limit);
    } else {
        assert forall|i: int| 0 <= i < earlier.len() implies #[trigger] served_at(
            m,
            peer_mtu,
            part,
            request,
            id,
            earlier,
            i,
        ) by {
            assert(served_at(m, peer_mtu, part, request, id, responses, i));
            lemma_served_prefix(m, peer_mtu, part, request, id, responses, earlier, i);
        }
        lemma_dialogue_stands(m, peer_mtu, part, request, pending, all, limit, id, earlier);
        let n = (k - 1) * limit;
        let s = server_after(m, peer_mtu, part, request, id, earlier);
        assert(client::progress(part, earlier) is Open);
        assert(n < all.len());
        assert(0 <= n) by (nonlinear_arith)
            requires
                n == (k - 1) * limit,
                k > 1,
                limit > 0,
        ;
        assert(k * limit == n + limit) by (nonlinear_arith)
            requires
                n == (k - 1) * limit,
        ;
        let left = all.skip(n);
        assert(goes_on(s, peer_mtu, part, request, pending, left, limit, t));
        if left.len() > limit {
            assert(left.skip(limit) =~= all.skip(n + limit));
            assert(all.take(n) + left.take(limit) =~= all.take(n + limit));
        } else {
            assert(all.take(n) + left =~= all);
        }
    }
}

/// The responses that a server gives in at most `rounds` rounds.
spec fn server_responses<T>(
    m: ServerModel,
    peer_mtu: u16,
    part: spec_fn(Seq<u8>) -> ReplyModel<T>,
    request: spec_fn(u16, Seq<u8>) -> Seq<u8>,
    id: u16,
    rounds: nat,
) -> Seq<Seq<u8>>
    decreases rounds,
{
    if rounds == 0 {
        seq![]
    } else {
        let earlier = server_responses(m, peer_mtu, part, request, id, (rounds - 1) as nat);
        if client::progress(part, earlier) is Open {
            earlier.push(server_turn(m, peer_mtu, part, request, id, earlier).1)
        } else {
            earlier
        }
    }
}

/// The responses that a server gives make up a dialogue, which goes on until
/// the answer is complete.
proof fn lemma_server_responses<T>(
    m: ServerModel,
    peer_mtu: u16,
    part: spec_fn(Seq<u8>) -> ReplyModel<T>,
    request: spec_fn(u16, Seq<u8>) -> Seq<u8>,
    id: u16,
    rounds: nat,
)
    ensures
        ({
            let responses = server_responses(m, peer_mtu, part, request, id, rounds);
            &&& server_dialogue(m, peer_mtu, part, request, id, responses)
            &&& responses.len() <= rounds
            &&& client::progress(part, responses) is Open ==> responses.len() == rounds
        }),
    decreases rounds,
{
    if rounds > 0 {
        let earlier = server_responses(m, peer_mtu, part, request, id, (rounds - 1) as nat);
        let responses = server_responses(m, peer_mtu, part, request, id, rounds);
        lemma_server_responses(m, peer_mtu, part, request, id, (rounds - 1) as nat);
        if client::progress(part, earlier) is Open {
            assert forall|i: int| 0 <= i < responses.len() implies #[trigger] served_at(
                m,
                peer_mtu,
                part,
                request,
                id,
                responses,
                i,
            ) by {
                if i < earlier.len() {
                    assert(served_at(m, peer_mtu, part, request, id, earlier, i));
                    lemma_served_prefix(m, peer_mtu, part, request, id, earlier, responses, i);
                } else {
                    assert(responses.take(i) =~= earlier);
                    reveal(served_at);
                }
            }
        }
    }
}

/// A client whose transport is a server gets all of the answer, and nothing
/// else can come of it. The answer must not take more rounds than a client
/// makes.
proof fn lemma_server_gives_all<T>(
    m: ServerModel,
    peer_mtu: u16,
    part: spec_fn(Seq<u8>) -> ReplyModel<T>,
    request: spec_fn(u16, Seq<u8>) -> Seq<u8>,
    pending: spec_fn(Seq<T>) -> PendingModel,
    all: Seq<T>,
    limit: int,
    id: u16,
    p: Progress<T>,
)
    requires
        hands_over(m, peer_mtu, part, request, pending, all, limit),
        limit > 0,
        all.len() <= SDP_CONTINUATION_WATCHDOG * limit,
    ensures
        server_gives(m, peer_mtu, part, request, id, p) <==> p == Progress::Done(all),
{
    let rounds = SDP_CONTINUATION_WATCHDOG as nat;
    if server_gives(m, peer_mtu, part, request, id, p) {
        let responses = choose|responses: Seq<Seq<u8>>|
            {
                &&& #[trigger] server_dialogue(m, peer_mtu, part, request, id, responses)
                &&& p == client::progress(part, responses)
                &&& client::ended(p, responses.len() as int)
            };
        assert(responses.len() > 0);
        lemma_dialogue_stands(m, peer_mtu, part, request, pending, all, limit, id, responses);
    }
    lemma_server_responses(m, peer_mtu, part, request, id, rounds);
    let responses = server_responses(m, peer_mtu, part, request, id, rounds);
    assert(responses.len() > 0);
    lemma_dialogue_stands(m, peer_mtu, part, request, pending, all, limit, id, responses);
    let q = client::progress(part, responses);
    if q is Open {
        assert(responses.len() == rounds);
    }
    assert(q == Progress::Done(all));
    assert(server_dialogue(m, peer_mtu, part, request, id, responses));
}

// ---------------------------------------------------------------------------
// Elements that are read back
// ---------------------------------------------------------------------------

/// Elements nest no deeper than each of them.
proof fn lemma_nesting_bound(items: Seq<ElementModel>, depth: nat)
    requires
        forall|i: int| 0 <= i < items.len() ==> element_laws::nesting(#[trigger] items[i]) <= depth,
    ensures
        element_laws::nesting_all(items) <= depth,
    decreases items.len(),
{
    if items.len() > 0 {
        let front = items.drop_last();
        assert forall|i: int| 0 <= i < front.len() implies element_laws::nesting(
            #[trigger] front[i],
        ) <= depth by {
            assert(element_laws::nesting(items[i]) <= depth);
        }
        lemma_nesting_bound(front, depth);
        assert(element_laws::nesting(items[items.len() - 1]) <= depth);
    }
}

/// Whether an element is read back from inside others that nest no deeper than
/// `depth` with it.
pub open spec fn readable(e: ElementModel, depth: int) -> bool {
    element_laws::well_formed(e) && element_laws::nesting(e) <= depth
}

/// A sequence of elements that are read back is read back.
pub proof fn lemma_readable_sequence(items: Seq<ElementModel>, depth: nat)
    requires
        forall|i: int| 0 <= i < items.len() ==> readable(#[trigger] items[i], depth as int),
        element::encode_all(items).len() <= u32::MAX,
    ensures
        readable(ElementModel::Sequence(items), depth as int + 1),
{
    assert forall|i: int| 0 <= i < items.len() implies element_laws::nesting(#[trigger] items[i])
        <= depth by {
        assert(readable(items[i], depth as int));
    }
    lemma_nesting_bound(items, depth);
    assert forall|i: int| 0 <= i < items.len() implies element_laws::well_formed(
        #[trigger] items[i],
    ) by {
        assert(readable(items[i], depth as int));
    }
}

/// The elements that ask for attributes are read back.
proof fn lemma_ids_readable(ids: Seq<AttributeIdSpec>)
    requires
        element::encode(pdu::attribute_id_list_element(ids)).len() <= 0xFFFF,
    ensures
        pdu_laws::faithful(pdu::attribute_id_list_element(ids)),
{
    let items = pdu::attribute_id_list_element(ids)->Sequence_0;
    reveal_with_fuel(element::power_256, 5);
    assert(element::power_256(2) == 0x1_0000);
    assert(element::power_256(4) == 0x1_0000_0000);
    assert forall|i: int| 0 <= i < items.len() implies readable(#[trigger] items[i], 0) by {
        assert(items[i] == pdu::attribute_id_element(ids[i]));
    }
    lemma_readable_sequence(items, 0);
}

/// The elements that ask for services are read back.
proof fn lemma_pattern_readable(uuids: Seq<SdpUuid>)
    requires
        element::encode(client::search_pattern(uuids)).len() <= 0xFFFF,
    ensures
        pdu_laws::faithful(client::search_pattern(uuids)),
{
    let items = client::search_pattern(uuids)->Sequence_0;
    assert forall|i: int| 0 <= i < items.len() implies readable(#[trigger] items[i], 0) by {
        assert(items[i] == ElementModel::Uuid(uuids[i]));
    }
    lemma_readable_sequence(items, 0);
}

/// Each element of a flat list is the ID or the value of an attribute.
proof fn lemma_flattened(list: Seq<AttributeModel>, depth: int)
    requires
        forall|i: int| 0 <= i < list.len() ==> readable((#[trigger] list[i]).value, depth),
        depth >= 0,
    ensures
        server::flattened(list).len() == 2 * list.len(),
        forall|i: int|
            0 <= i < server::flattened(list).len() ==> readable(
                #[trigger] server::flattened(list)[i],
                depth,
            ),
    decreases list.len(),
{
    if list.len() > 0 {
        let front = list.drop_last();
        assert forall|i: int| 0 <= i < front.len() implies readable(
            (#[trigger] front[i]).value,
            depth,
        ) by {
            assert(readable(list[i].value, depth));
        }
        lemma_flattened(front, depth);
        let all = server::flattened(list);
        let before = server::flattened(front);
        reveal_with_fuel(element::power_256, 3);
        assert(element::power_256(2) == 0x1_0000);
        assert forall|i: int| 0 <= i < all.len() implies readable(#[trigger] all[i], depth) by {
            if i < before.len() {
                assert(all[i] == before[i]);
            } else {
                assert(readable(list[list.len() - 1].value, depth));
            }
        }
    }
}

/// Whether the values of a record are read back from inside others.
pub open spec fn record_readable(service: Seq<AttributeModel>, depth: int) -> bool {
    forall|i: int| 0 <= i < service.len() ==> readable((#[trigger] service[i]).value, depth)
}

/// What is selected from a record can be read back where the record can.
proof fn lemma_selection_readable(
    service: Seq<AttributeModel>,
    ids: Seq<AttributeIdSpec>,
    depth: int,
)
    requires
        record_readable(service, depth),
    ensures
        record_readable(selection_laws::selection(service, ids), depth),
{
    let list = selection_laws::selection(service, ids);
    selection_laws::lemma_selection_members(service, ids);
    assert forall|i: int| 0 <= i < list.len() implies readable(
        (#[trigger] list[i]).value,
        depth,
    ) by {
        assert(service.contains(list[i]));
        let k = choose|k: int| 0 <= k < service.len() && service[k] == list[i];
        assert(readable(service[k].value, depth));
    }
}

/// A list of selected attributes is read back.
proof fn lemma_list_readable(list: Seq<AttributeModel>, depth: nat)
    requires
        record_readable(list, depth as int),
        element::encode(ElementModel::Sequence(server::flattened(list))).len() <= u32::MAX,
    ensures
        readable(ElementModel::Sequence(server::flattened(list)), depth as int + 1),
{
    lemma_flattened(list, depth as int);
    lemma_readable_sequence(server::flattened(list), depth);
}

// ---------------------------------------------------------------------------
// Attributes of a record
// ---------------------------------------------------------------------------

/// Bytes that are still to be sent.
spec fn pending_bytes() -> spec_fn(Seq<u8>) -> PendingModel {
    |left: Seq<u8>| PendingModel::Bytes(left)
}

/// Whether an attribute request for these IDs fits the length field of a PDU.
pub open spec fn attribute_request_fits(ids: Seq<AttributeIdSpec>) -> bool {
    8 + element::encode(pdu::attribute_id_list_element(ids)).len() <= 0xFFFF
}

/// A server answers one attribute request with a part of its answer.
proof fn lemma_attribute_turn(
    s: ServerModel,
    peer_mtu: u16,
    handle: u32,
    ids: Seq<AttributeIdSpec>,
    left: Seq<u8>,
    state: Seq<u8>,
    id: u16,
)
    requires
        attribute_request_fits(ids),
        (state == seq![0u8] && s.service_records.contains_key(handle) && left == element::encode(
            server::selected(s.service_records[handle], selection_laws::id_elements(ids)),
        )) || (state == server::more_marker() && s.current_response == Some(
            PendingModel::Bytes(left),
        )),
    ensures
        ({
            let (after, response) = server::answer_bytes(
                s,
                client::attribute_requests(handle, ids)(id, state),
                peer_mtu,
            );
            handed(
                after,
                client::attribute_parts()(response),
                s.service_records,
                pending_bytes(),
                left,
                server::byte_limit(0xFFFF, peer_mtu),
            )
        }),
{
    reveal(server::answer_bytes);
    reveal(client::attribute_requests);
    reveal(client::attribute_part);
    let request = PduModel::ServiceAttributeRequest {
        transaction_id: id,
        service_record_handle: handle,
        maximum_attribute_byte_count: 0xFFFF,
        attribute_id_list: pdu::attribute_id_list_element(ids),
        continuation_state: state,
    };
    lemma_ids_readable(ids);
    pdu_laws::law_pdu_round_trip(request, seq![]);
    assert(request.bytes() + seq![] =~= request.bytes());
    let (after, response) = server::answer(s, request, peer_mtu);
    pdu_laws::law_pdu_round_trip(response, seq![]);
    assert(response.bytes() + seq![] =~= response.bytes());
}

/// Whether an attribute request for a server's record may come to an outcome,
/// for a client whose next transaction ID is `id`.
pub open spec fn get_attributes_from(
    m: ServerModel,
    peer_mtu: u16,
    id: u16,
    handle: u32,
    ids: Seq<AttributeIdSpec>,
    outcome: Result<Seq<AttributeModel>, SimbleErrorModel>,
) -> bool {
    exists|p: Progress<u8>|
        {
            &&& #[trigger] server_gives(
                m,
                peer_mtu,
                client::attribute_parts(),
                client::attribute_requests(handle, ids),
                id,
                p,
            )
            &&& outcome == client::attribute_outcome(p)
        }
}

/// A client whose transport is a server reads the attributes of a record that
/// it asks for, and nothing else can come of it, however many parts the MTU
/// cuts the answer into. Where no two attributes of the record have the same
/// ID and none is asked for twice, these are exactly the ones asked for, in
/// strictly ascending order of their IDs. The request must fit its PDU, the
/// answer must not take more rounds than a client makes, and the values must
/// have a wire form that says all of them.
pub proof fn law_client_reads_record(
    m: ServerModel,
    peer_mtu: u16,
    id: u16,
    handle: u32,
    ids: Seq<AttributeIdSpec>,
    outcome: Result<Seq<AttributeModel>, SimbleErrorModel>,
)
    requires
        m.service_records.contains_key(handle),
        record_readable(m.service_records[handle], MAX_DATA_ELEMENT_NESTING - 1),
        attribute_request_fits(ids),
        peer_mtu > 9,
        element::encode(
            server::selected(m.service_records[handle], selection_laws::id_elements(ids)),
        ).len() <= SDP_CONTINUATION_WATCHDOG * (peer_mtu - 9),
    ensures
        get_attributes_from(m, peer_mtu, id, handle, ids, outcome) <==> outcome == Ok::<
            Seq<AttributeModel>,
            SimbleErrorModel,
        >(selection_laws::selection(m.service_records[handle], ids)),
        selection_laws::distinct_ids(m.service_records[handle]) && selection_laws::disjoint(ids)
            ==> selection_laws::is_selection(
            selection_laws::selection(m.service_records[handle], ids),
            m.service_records[handle],
            ids,
        ),
{
    let service = m.service_records[handle];
    let part = client::attribute_parts();
    let request = client::attribute_requests(handle, ids);
    let pending = pending_bytes();
    let limit = server::byte_limit(0xFFFF, peer_mtu);
    let all = element::encode(server::selected(service, selection_laws::id_elements(ids)));
    assert forall|t: u16| #[trigger]
        starts(m, peer_mtu, part, request, pending, all, limit, t) by {
        lemma_attribute_turn(m, peer_mtu, handle, ids, all, seq![0u8], t);
    }
    assert forall|s: ServerModel, left: Seq<u8>, t: u16|
        s.service_records == m.service_records && s.current_response == Some(
            pending(left),
        ) implies #[trigger] goes_on(s, peer_mtu, part, request, pending, left, limit, t) by {
        lemma_attribute_turn(s, peer_mtu, handle, ids, left, server::more_marker(), t);
    }
    assert(limit == peer_mtu - 9);
    let done = Progress::Done(all);
    lemma_server_gives_all(m, peer_mtu, part, request, pending, all, limit, id, done);
    let list = selection_laws::selection(service, ids);
    lemma_selection_readable(service, ids, MAX_DATA_ELEMENT_NESTING - 1);
    lemma_list_readable(list, (MAX_DATA_ELEMENT_NESTING - 1) as nat);
    server_laws::law_attributes_read_back(service, selection_laws::id_elements(ids));
    if get_attributes_from(m, peer_mtu, id, handle, ids, outcome) {
        let p = choose|p: Progress<u8>|
            {
                &&& #[trigger] server_gives(m, peer_mtu, part, request, id, p)
                &&& outcome == client::attribute_outcome(p)
            };
        lemma_server_gives_all(m, peer_mtu, part, request, pending, all, limit, id, p);
    }
    if selection_laws::distinct_ids(service) && selection_laws::disjoint(ids) {
        selection_laws::law_selection(service, ids);
    }
}

// ---------------------------------------------------------------------------
// Attributes of the records that a search matches
// ---------------------------------------------------------------------------

/// Whether a combined request for these fits the length field of a PDU.
pub open spec fn search_attribute_request_fits(
    uuids: Seq<SdpUuid>,
    ids: Seq<AttributeIdSpec>,
) -> bool {
    element::encode(client::search_pattern(uuids)).len() + element::encode(
        pdu::attribute_id_list_element(ids),
    ).len() + 4 <= 0xFFFF
}

/// A server answers one combined request with a part of its answer.
proof fn lemma_search_attribute_turn(
    s: ServerModel,
    peer_mtu: u16,
    uuids: Seq<SdpUuid>,
    ids: Seq<AttributeIdSpec>,
    left: Seq<u8>,
    state: Seq<u8>,
    id: u16,
)
    requires
        search_attribute_request_fits(uuids, ids),
        (state == seq![0u8] && left == element::encode(
            server_laws::found_attributes(
                s,
                client::search_pattern(uuids),
                pdu::attribute_id_list_element(ids),
            ),
        )) || (state == server::more_marker() && s.current_response == Some(
            PendingModel::Bytes(left),
        )),
    ensures
        ({
            let (after, response) = server::answer_bytes(
                s,
                client::search_attribute_requests(uuids, ids)(id, state),
                peer_mtu,
            );
            handed(
                after,
                client::search_attribute_parts()(response),
                s.service_records,
                pending_bytes(),
                left,
                server::byte_limit(0xFFFF, peer_mtu),
            )
        }),
{
    reveal(server::answer_bytes);
    reveal(client::search_attribute_requests);
    reveal(client::search_attribute_part);
    let request = PduModel::ServiceSearchAttributeRequest {
        transaction_id: id,
        service_search_pattern: client::search_pattern(uuids),
        maximum_attribute_byte_count: 0xFFFF,
        attribute_id_list: pdu::attribute_id_list_element(ids),
        continuation_state: state,
    };
    lemma_ids_readable(ids);
    lemma_pattern_readable(uuids);
    pdu_laws::law_pdu_round_trip(request, seq![]);
    assert(request.bytes() + seq![] =~= request.bytes());
    let (after, response) = server::answer(s, request, peer_mtu);
    pdu_laws::law_pdu_round_trip(response, seq![]);
    assert(response.bytes() + seq![] =~= response.bytes());
}

/// Whether a combined search and attribute request to a server may come to an
/// outcome, for a client whose next transaction ID is `id`. This is
/// [`client::search_attributes_gives`] with a server for the transport.
pub open spec fn search_attributes_from(
    m: ServerModel,
    peer_mtu: u16,
    id: u16,
    uuids: Seq<SdpUuid>,
    ids: Seq<AttributeIdSpec>,
    outcome: Result<Seq<Seq<AttributeModel>>, SimbleErrorModel>,
) -> bool {
    exists|p: Progress<u8>|
        {
            &&& #[trigger] server_gives(
                m,
                peer_mtu,
                client::search_attribute_parts(),
                client::search_attribute_requests(uuids, ids),
                id,
                p,
            )
            &&& outcome == client::search_attribute_outcome(p)
        }
}

/// The attributes that are asked for of each of some records that has any.
pub open spec fn selections(
    records: Map<u32, Seq<AttributeModel>>,
    handles: Seq<u32>,
    ids: Seq<AttributeIdSpec>,
) -> Seq<Seq<AttributeModel>>
    decreases handles.len(),
{
    if handles.len() == 0 {
        seq![]
    } else {
        let before = selections(records, handles.drop_last(), ids);
        let list = selection_laws::selection(records[handles.last()], ids);
        if list.len() == 0 {
            before
        } else {
            before.push(list)
        }
    }
}

/// The lists in an answer are what was selected from each record.
proof fn lemma_lists_in(
    records: Map<u32, Seq<AttributeModel>>,
    handles: Seq<u32>,
    ids: Seq<AttributeIdSpec>,
)
    ensures
        client::lists_in(
            server::attribute_lists(records, handles, selection_laws::id_elements(ids)),
        ) == selections(records, handles, ids),
    decreases handles.len(),
{
    let elements = selection_laws::id_elements(ids);
    let items = server::attribute_lists(records, handles, elements);
    if handles.len() == 0 {
        assert(client::lists_in(items) =~= seq![]);
    } else {
        let front = handles.drop_last();
        lemma_lists_in(records, front, ids);
        let list = selection_laws::selection(records[handles.last()], ids);
        server_laws::law_attribute_list_round_trip(list);
        if list.len() > 0 {
            assert(server::flattened(list).len() > 0);
            assert(items.drop_last() =~= server::attribute_lists(records, front, elements));
        } else {
            assert(server::flattened(list) =~= seq![]);
        }
    }
}

/// The lists in an answer are read back.
proof fn lemma_lists_readable(
    records: Map<u32, Seq<AttributeModel>>,
    handles: Seq<u32>,
    ids: Seq<AttributeIdSpec>,
    depth: nat,
)
    requires
        forall|i: int|
            0 <= i < handles.len() ==> record_readable(
                selection_laws::selection(records[#[trigger] handles[i]], ids),
                depth as int,
            ),
        element::encode_all(
            server::attribute_lists(records, handles, selection_laws::id_elements(ids)),
        ).len() <= u32::MAX,
    ensures
        forall|i: int|
            0 <= i < server::attribute_lists(
                records,
                handles,
                selection_laws::id_elements(ids),
            ).len() ==> readable(
                #[trigger] server::attribute_lists(
                    records,
                    handles,
                    selection_laws::id_elements(ids),
                )[i],
                depth as int + 1,
            ),
    decreases handles.len(),
{
    let elements = selection_laws::id_elements(ids);
    let items = server::attribute_lists(records, handles, elements);
    if handles.len() > 0 {
        let front = handles.drop_last();
        let before = server::attribute_lists(records, front, elements);
        let e = server::selected(records[handles.last()], elements);
        assert forall|i: int| 0 <= i < front.len() implies record_readable(
            selection_laws::selection(records[#[trigger] front[i]], ids),
            depth as int,
        ) by {
            assert(front[i] == handles[i]);
        }
        if items != before {
            assert(items == before.push(e));
            assert(items.drop_last() =~= before);
            assert(items.last() == e);
            assert(element::encode_all(items) == element::encode_all(before) + element::encode(e));
            assert(handles[handles.len() - 1] == handles.last());
            lemma_list_readable(
                selection_laws::selection(records[handles.last()], ids),
                depth,
            );
        }
        lemma_lists_readable(records, front, ids, depth);
        assert forall|i: int| 0 <= i < items.len() implies readable(
            #[trigger] items[i],
            depth as int + 1,
        ) by {
            if i < before.len() {
                assert(items[i] == before[i]);
            }
        }
    }
}

/// A client whose transport is a server reads, of every record that a search
/// matches, the attributes that it asks for, and nothing else can come of it,
/// however many parts the MTU cuts the answer into. The request must fit its
/// PDU, the answer must not take more rounds than a client makes, and the
/// values asked for must have a wire form that says all of them.
pub proof fn law_client_reads_matches(
    m: ServerModel,
    peer_mtu: u16,
    id: u16,
    uuids: Seq<SdpUuid>,
    ids: Seq<AttributeIdSpec>,
    handles: Seq<u32>,
    outcome: Result<Seq<Seq<AttributeModel>>, SimbleErrorModel>,
)
    requires
        server::lists_matches(handles, m.service_records, client::search_pattern(uuids)),
        forall|i: int|
            0 <= i < handles.len() ==> record_readable(
                selection_laws::selection(m.service_records[#[trigger] handles[i]], ids),
                MAX_DATA_ELEMENT_NESTING - 2,
            ),
        search_attribute_request_fits(uuids, ids),
        peer_mtu > 9,
        element::encode(
            server_laws::found_attributes(
                m,
                client::search_pattern(uuids),
                pdu::attribute_id_list_element(ids),
            ),
        ).len() <= SDP_CONTINUATION_WATCHDOG * (peer_mtu - 9),
    ensures
        search_attributes_from(m, peer_mtu, id, uuids, ids, outcome) <==> outcome == Ok::<
            Seq<Seq<AttributeModel>>,
            SimbleErrorModel,
        >(selections(m.service_records, handles, ids)),
{
    let pattern = client::search_pattern(uuids);
    let id_list = pdu::attribute_id_list_element(ids);
    let part = client::search_attribute_parts();
    let request = client::search_attribute_requests(uuids, ids);
    let pending = pending_bytes();
    let limit = server::byte_limit(0xFFFF, peer_mtu);
    let found = server_laws::found_attributes(m, pattern, id_list);
    let all = element::encode(found);
    assert forall|t: u16| #[trigger]
        starts(m, peer_mtu, part, request, pending, all, limit, t) by {
        lemma_search_attribute_turn(m, peer_mtu, uuids, ids, all, seq![0u8], t);
    }
    assert forall|s: ServerModel, left: Seq<u8>, t: u16|
        s.service_records == m.service_records && s.current_response == Some(
            pending(left),
        ) implies #[trigger] goes_on(s, peer_mtu, part, request, pending, left, limit, t) by {
        lemma_search_attribute_turn(s, peer_mtu, uuids, ids, left, server::more_marker(), t);
    }
    assert(limit == peer_mtu - 9);
    let done = Progress::Done(all);
    lemma_server_gives_all(m, peer_mtu, part, request, pending, all, limit, id, done);
    server::lemma_matching_handles(handles, m.service_records, pattern);
    let items = server::attribute_lists(
        m.service_records,
        handles,
        selection_laws::id_elements(ids),
    );
    assert(found == ElementModel::Sequence(items));
    let depth = (MAX_DATA_ELEMENT_NESTING - 2) as nat;
    lemma_lists_readable(m.service_records, handles, ids, depth);
    lemma_readable_sequence(items, depth + 1);
    element_laws::law_element_round_trip(found, seq![]);
    assert(all + seq![] =~= all);
    lemma_lists_in(m.service_records, handles, ids);
    if search_attributes_from(m, peer_mtu, id, uuids, ids, outcome) {
        let p = choose|p: Progress<u8>|
            {
                &&& #[trigger] server_gives(m, peer_mtu, part, request, id, p)
                &&& outcome == client::search_attribute_outcome(p)
            };
        lemma_server_gives_all(m, peer_mtu, part, request, pending, all, limit, id, p);
    }
}

// ---------------------------------------------------------------------------
// Services
// ---------------------------------------------------------------------------

/// Handles that are still to be sent, of `total` matches.
spec fn pending_handles(total: u16) -> spec_fn(Seq<u32>) -> PendingModel {
    |left: Seq<u32>| PendingModel::Handles(total, left)
}

/// A server answers one service search with a part of its answer.
proof fn lemma_search_turn(
    s: ServerModel,
    peer_mtu: u16,
    uuids: Seq<SdpUuid>,
    total: u16,
    left: Seq<u32>,
    state: Seq<u8>,
    id: u16,
)
    requires
        element::encode(client::search_pattern(uuids)).len() + 4 <= 0xFFFF,
        (state == seq![0u8] && total == server::matching_handles(
            s.service_records,
            client::search_pattern(uuids),
        ).len() as u16 && left == server::first_of(
            server::matching_handles(s.service_records, client::search_pattern(uuids)),
            0xFFFF,
        )) || (state == server::more_marker() && s.current_response == Some(
            PendingModel::Handles(total, left),
        )),
    ensures
        ({
            let (after, response) = server::answer_bytes(
                s,
                client::search_requests(uuids)(id, state),
                peer_mtu,
            );
            handed(
                after,
                client::search_parts()(response),
                s.service_records,
                pending_handles(total),
                left,
                server::handle_limit(peer_mtu),
            )
        }),
{
    reveal(server::answer_bytes);
    reveal(client::search_requests);
    reveal(client::search_part);
    let request = PduModel::ServiceSearchRequest {
        transaction_id: id,
        service_search_pattern: client::search_pattern(uuids),
        maximum_service_record_count: 0xFFFF,
        continuation_state: state,
    };
    lemma_pattern_readable(uuids);
    pdu_laws::law_pdu_round_trip(request, seq![]);
    assert(request.bytes() + seq![] =~= request.bytes());
    let (after, response) = server::answer(s, request, peer_mtu);
    let limit = server::handle_limit(peer_mtu);
    let part = if left.len() > limit {
        left.take(limit)
    } else {
        left
    };
    pdu_laws::lemma_handle_bytes(part);
    pdu_laws::law_pdu_round_trip(response, seq![]);
    assert(response.bytes() + seq![] =~= response.bytes());
}

/// Whether a service search on a server may come to an outcome, for a client
/// whose next transaction ID is `id`.
pub open spec fn search_services_from(
    m: ServerModel,
    peer_mtu: u16,
    id: u16,
    uuids: Seq<SdpUuid>,
    outcome: Result<Seq<u32>, SimbleErrorModel>,
) -> bool {
    exists|p: Progress<u32>|
        {
            &&& #[trigger] server_gives(
                m,
                peer_mtu,
                client::search_parts(),
                client::search_requests(uuids),
                id,
                p,
            )
            &&& outcome == client::search_outcome(p)
        }
}

/// A client whose transport is a server finds the handles of exactly the
/// records that hold all of the UUIDs, in ascending order, up to the number
/// that a request can ask for, and nothing else can come of it. The request
/// must fit its PDU, a response must have room for one handle, and the answer
/// must not take more rounds than a client makes.
pub proof fn law_client_finds_services(
    m: ServerModel,
    peer_mtu: u16,
    id: u16,
    uuids: Seq<SdpUuid>,
    handles: Seq<u32>,
    outcome: Result<Seq<u32>, SimbleErrorModel>,
)
    requires
        server::lists_matches(handles, m.service_records, client::search_pattern(uuids)),
        element::encode(client::search_pattern(uuids)).len() + 4 <= 0xFFFF,
        server::handle_limit(peer_mtu) > 0,
        handles.len() <= SDP_CONTINUATION_WATCHDOG * server::handle_limit(peer_mtu),
    ensures
        search_services_from(m, peer_mtu, id, uuids, outcome) <==> outcome == Ok::<
            Seq<u32>,
            SimbleErrorModel,
        >(server::first_of(handles, 0xFFFF)),
{
    let part = client::search_parts();
    let request = client::search_requests(uuids);
    let total = handles.len() as u16;
    let pending = pending_handles(total);
    let limit = server::handle_limit(peer_mtu);
    let all = server::first_of(handles, 0xFFFF);
    server::lemma_matching_handles(handles, m.service_records, client::search_pattern(uuids));
    assert forall|t: u16| #[trigger]
        starts(m, peer_mtu, part, request, pending, all, limit, t) by {
        lemma_search_turn(m, peer_mtu, uuids, total, all, seq![0u8], t);
    }
    assert forall|s: ServerModel, left: Seq<u32>, t: u16|
        s.service_records == m.service_records && s.current_response == Some(
            pending(left),
        ) implies #[trigger] goes_on(s, peer_mtu, part, request, pending, left, limit, t) by {
        lemma_search_turn(s, peer_mtu, uuids, total, left, server::more_marker(), t);
    }
    let done = Progress::Done(all);
    lemma_server_gives_all(m, peer_mtu, part, request, pending, all, limit, id, done);
    if search_services_from(m, peer_mtu, id, uuids, outcome) {
        let p = choose|p: Progress<u32>|
            {
                &&& #[trigger] server_gives(m, peer_mtu, part, request, id, p)
                &&& outcome == client::search_outcome(p)
            };
        lemma_server_gives_all(m, peer_mtu, part, request, pending, all, limit, id, p);
    }
}

// ---------------------------------------------------------------------------
// A server with one record
// ---------------------------------------------------------------------------

/// Whether an element is read back from inside others, and takes at most
/// `room` bytes.
pub open spec fn fits_in(e: ElementModel, room: int, depth: int) -> bool {
    readable(e, depth) && element::encode(e).len() <= room
}

/// An unsigned integer of one, two or four bytes.
pub proof fn lemma_unsigned_fits(v: u64, size: u8)
    requires
        size == 1 || size == 2 || size == 4,
        v < element::power_256(size as nat),
    ensures
        fits_in(ElementModel::UnsignedInteger(v, size), size + 1, 0),
{
    element_laws::lemma_low_bytes(v as nat, size as nat);
}

/// A 16-bit UUID.
pub proof fn lemma_uuid_fits(uuid: u16)
    ensures
        fits_in(ElementModel::Uuid(SdpUuid::Uuid16(uuid)), 3, 0),
{
}

/// How large integers of one, two and four bytes are.
pub proof fn lemma_widths()
    ensures
        element::power_256(1) == 0x100,
        element::power_256(2) == 0x1_0000,
        element::power_256(4) == 0x1_0000_0000,
{
    reveal_with_fuel(element::power_256, 5);
}

/// One more element takes as much more room as it takes alone.
proof fn lemma_encode_push(items: Seq<ElementModel>, e: ElementModel)
    ensures
        element::encode_all(items.push(e)) == element::encode_all(items) + element::encode(e),
{
    assert(items.push(e).drop_last() =~= items);
}

/// A sequence of one element.
pub proof fn lemma_one_fits(e: ElementModel, room: int, depth: int)
    requires
        fits_in(e, room, depth),
        0 <= room <= u32::MAX,
        depth >= 0,
    ensures
        fits_in(ElementModel::Sequence(seq![e]), room + 5, depth + 1),
{
    let items = seq![e];
    assert(items.drop_last() =~= seq![]);
    assert(element::encode_all(items.drop_last()) =~= seq![]);
    lemma_readable_sequence(items, depth as nat);
}

/// A sequence of two elements.
pub proof fn lemma_two_fit(a: ElementModel, b: ElementModel, room_a: int, room_b: int, depth: int)
    requires
        fits_in(a, room_a, depth),
        fits_in(b, room_b, depth),
        room_a + room_b <= u32::MAX,
        depth >= 0,
    ensures
        fits_in(ElementModel::Sequence(seq![a, b]), room_a + room_b + 5, depth + 1),
{
    let items = seq![a, b];
    let none = Seq::<ElementModel>::empty();
    lemma_encode_push(none, a);
    lemma_encode_push(none.push(a), b);
    assert(items =~= none.push(a).push(b));
    assert(element::encode_all(none) =~= seq![]);
    assert(element::encode_all(items).len() == element::encode(a).len() + element::encode(
        b,
    ).len());
    lemma_readable_sequence(items, depth as nat);
}

/// The room that a flat list of attributes takes.
pub proof fn lemma_flattened_room(list: Seq<AttributeModel>, room: int)
    requires
        forall|i: int|
            0 <= i < list.len() ==> element::encode((#[trigger] list[i]).value).len() <= room,
    ensures
        element::encode_all(server::flattened(list)).len() <= list.len() * (room + 3),
    decreases list.len(),
{
    if list.len() > 0 {
        let front = list.drop_last();
        assert forall|i: int| 0 <= i < front.len() implies element::encode(
            (#[trigger] front[i]).value,
        ).len() <= room by {
            assert(front[i] == list[i]);
        }
        lemma_flattened_room(front, room);
        let all = server::flattened(list);
        let key = ElementModel::UnsignedInteger(list.last().id as u64, 2);
        element_laws::lemma_low_bytes(list.last().id as nat, 2);
        assert(list[list.len() - 1] == list.last());
        let partial = server::flattened(front).push(key);
        assert(all =~= partial.push(list.last().value));
        lemma_encode_push(server::flattened(front), key);
        lemma_encode_push(partial, list.last().value);
        assert(element::encode(key).len() == 3);
        assert(list.len() * (room + 3) == front.len() * (room + 3) + (room + 3))
            by (nonlinear_arith)
            requires
                list.len() == front.len() + 1,
        ;
    } else {
        assert(element::encode_all(server::flattened(list)) =~= seq![]);
    }
}

/// Whether a record holds a UUID.
pub open spec fn has_uuid(service: Seq<AttributeModel>, uuid: SdpUuid) -> bool {
    exists|j: int|
        0 <= j < service.len() && record::holds_uuid((#[trigger] service[j]).value, uuid)
}

/// A client that asks a server with one record for services with a UUID that
/// the record holds reads the attributes of that record that it asks for, in
/// strictly ascending order of their IDs, and nothing else can come of it.
pub proof fn lemma_client_reads_only_record(
    m: ServerModel,
    peer_mtu: u16,
    id: u16,
    handle: u32,
    service: Seq<AttributeModel>,
    uuid: SdpUuid,
    ids: Seq<AttributeIdSpec>,
    list: Seq<AttributeModel>,
    room: int,
    outcome: Result<Seq<Seq<AttributeModel>>, SimbleErrorModel>,
)
    requires
        m.service_records == Map::<u32, Seq<AttributeModel>>::empty().insert(handle, service),
        has_uuid(service, uuid),
        selection_laws::distinct_ids(service),
        selection_laws::disjoint(ids),
        selection_laws::is_selection(list, service, ids),
        list.len() > 0,
        forall|i: int|
            0 <= i < list.len() ==> fits_in(
                (#[trigger] list[i]).value,
                room,
                MAX_DATA_ELEMENT_NESTING - 2,
            ),
        ids.len() <= 1000,
        peer_mtu > 9,
        list.len() * (room + 3) + 10 <= SDP_CONTINUATION_WATCHDOG * (peer_mtu - 9),
    ensures
        search_attributes_from(m, peer_mtu, id, seq![uuid], ids, outcome) <==> outcome == Ok::<
            Seq<Seq<AttributeModel>>,
            SimbleErrorModel,
        >(seq![list]),
{
    let uuids = seq![uuid];
    let pattern = client::search_pattern(uuids);
    let records = m.service_records;
    let handles = seq![handle];
    server_laws::law_search_matches_all(service, uuids);
    assert(server::record_matches(service, pattern)) by {
        assert forall|i: int| 0 <= i < uuids.len() implies exists|j: int|
            0 <= j < service.len() && record::holds_uuid(
                (#[trigger] service[j]).value,
                #[trigger] uuids[i],
            ) by {
            assert(uuids[i] == uuid);
        }
    }
    assert(server::lists_matches(handles, records, pattern)) by {
        assert forall|h: u32| #[trigger] handles.contains(h) <==> records.contains_key(h)
            && server::record_matches(records[h], pattern) by {
            assert(handles[0] == handle);
        }
    }
    selection_laws::law_selection(service, ids);
    selection_laws::law_selection_is_unique(
        list,
        selection_laws::selection(service, ids),
        service,
        ids,
    );
    assert(record_readable(list, MAX_DATA_ELEMENT_NESTING - 2)) by {
        assert forall|i: int| 0 <= i < list.len() implies readable(
            (#[trigger] list[i]).value,
            MAX_DATA_ELEMENT_NESTING - 2,
        ) by {
            assert(fits_in(list[i].value, room, MAX_DATA_ELEMENT_NESTING - 2));
        }
    }
    assert forall|i: int| 0 <= i < list.len() implies element::encode(
        (#[trigger] list[i]).value,
    ).len() <= room by {
        assert(fits_in(list[i].value, room, MAX_DATA_ELEMENT_NESTING - 2));
    }
    lemma_flattened_room(list, room);
    let elements = selection_laws::id_elements(ids);
    let e = server::selected(service, elements);
    assert(e == ElementModel::Sequence(server::flattened(list)));
    assert(server::flattened(list).len() > 0);
    assert(handles.drop_last() =~= seq![]);
    assert(server::attribute_lists(records, handles.drop_last(), elements) =~= seq![]);
    assert(server::attribute_lists(records, handles, elements) =~= seq![e]);
    server::lemma_matching_handles(handles, records, pattern);
    assert(seq![e].drop_last() =~= seq![]);
    assert(element::encode_all(seq![e].drop_last()) =~= seq![]);
    assert(element::encode_all(seq![e]) == seq![] + element::encode(e));
    lemma_pattern_room(uuid);
    lemma_ids_room(ids);
    law_client_reads_matches(m, peer_mtu, id, uuids, ids, handles, outcome);
    assert(selections(records, handles.drop_last(), ids) =~= seq![]);
    assert(selections(records, handles, ids) =~= seq![list]);
}

/// The room that a search for one UUID takes.
proof fn lemma_pattern_room(uuid: SdpUuid)
    ensures
        element::encode(client::search_pattern(seq![uuid])).len() <= 19,
{
    let items = client::search_pattern(seq![uuid])->Sequence_0;
    assert(items =~= seq![ElementModel::Uuid(uuid)]);
    assert(items.drop_last() =~= seq![]);
    assert(element::encode_all(items.drop_last()) =~= seq![]);
    assert(element::encode(items.last()).len() <= 17);
}

/// The room that the elements that ask for attributes take.
proof fn lemma_ids_room(ids: Seq<AttributeIdSpec>)
    requires
        ids.len() <= 1000,
    ensures
        element::encode(pdu::attribute_id_list_element(ids)).len() <= 5 * ids.len() + 3,
{
    lemma_all_ids_room(ids);
}

proof fn lemma_all_ids_room(ids: Seq<AttributeIdSpec>)
    ensures
        element::encode_all(selection_laws::id_elements(ids)).len() <= 5 * ids.len(),
    decreases ids.len(),
{
    let items = selection_laws::id_elements(ids);
    if ids.len() > 0 {
        lemma_all_ids_room(ids.drop_last());
        assert(items.drop_last() =~= selection_laws::id_elements(ids.drop_last()));
        assert(items.last() == pdu::attribute_id_element(ids.last()));
        lemma_encode_push(items.drop_last(), items.last());
        assert(items.drop_last().push(items.last()) =~= items);
        match ids.last() {
            AttributeIdSpec::Single(v) => {
                element_laws::lemma_low_bytes(v as nat, 2);
            },
            AttributeIdSpec::Range(start, end) => {
                element_laws::lemma_low_bytes((start * 0x1_0000 + end) as nat, 4);
            },
        }
    } else {
        assert(element::encode_all(items) =~= seq![]);
    }
}

} // verus!
