//! The SDP server.

use std::collections::HashMap;
use vstd::prelude::*;
use crate::bytes;
use crate::classic::sdp::element;
use crate::classic::sdp::element::{DataElement, ElementModel};
use crate::classic::sdp::error_code;
use crate::classic::sdp::pdu;
use crate::classic::sdp::pdu::{PduModel, SdpPdu};
use crate::classic::sdp::record;
use crate::classic::sdp::record::{AttributeModel, Service, ServiceAttribute};
use crate::classic::sdp::SDP_PSM;
use crate::l2cap::classic::{ChannelManagerModel, ClassicChannelManager};
use crate::models;
use crate::types::SimbleError;

verus! {

/// The part of an answer that did not fit in one response.
pub enum PendingResponse {
    Handles(u16, Vec<u32>),
    Bytes(Vec<u8>),
}

/// The model of the part of an answer that is still to be sent.
#[verifier::ext_equal]
pub enum PendingModel {
    /// Total number of matches, and the handles still to be sent.
    Handles(u16, Seq<u32>),
    /// The bytes still to be sent.
    Bytes(Seq<u8>),
}

impl View for PendingResponse {
    type V = PendingModel;

    open spec fn view(&self) -> PendingModel {
        match self {
            PendingResponse::Handles(total, handles) => PendingModel::Handles(*total, handles@),
            PendingResponse::Bytes(b) => PendingModel::Bytes(b@),
        }
    }
}

/// SDP server: holds registered service records and answers request PDUs.
/// One sequence of request and continuations is in flight at a time.
pub struct SdpServer {
    /// Registered service records, keyed by record handle.
    pub service_records: HashMap<u32, Service>,
    /// What is left to send of an answer that did not fit in one response.
    pub current_response: Option<PendingResponse>,
}

/// The model of an [`SdpServer`].
#[verifier::ext_equal]
pub struct ServerModel {
    pub service_records: Map<u32, Seq<AttributeModel>>,
    pub current_response: Option<PendingModel>,
}

/// The models of service records.
pub open spec fn record_models(m: Map<u32, Service>) -> Map<u32, Seq<AttributeModel>> {
    Map::new(|k: u32| m.dom().contains(k), |k: u32| models::seq_views(m[k]@))
}

impl View for SdpServer {
    type V = ServerModel;

    open spec fn view(&self) -> ServerModel {
        ServerModel {
            service_records: record_models(self.service_records@),
            current_response: models::opt_view(self.current_response),
        }
    }
}

// ---------------------------------------------------------------------------
// Searching
// ---------------------------------------------------------------------------

/// Whether a record holds all UUIDs of a search pattern. A pattern without any
/// matches no record.
pub open spec fn record_matches(service: Seq<AttributeModel>, pattern: ElementModel) -> bool {
    match pattern.sequence() {
        Some(ids) => names_uuid(ids) && all_ids_match(service, ids),
        None => false,
    }
}

/// Whether there is a UUID in a list of elements.
pub open spec fn names_uuid(ids: Seq<ElementModel>) -> bool {
    exists|i: int| 0 <= i < ids.len() && (#[trigger] ids[i]).uuid() is Some
}

/// Whether a record holds all UUIDs of a list. What is no UUID is passed over.
pub open spec fn all_ids_match(service: Seq<AttributeModel>, ids: Seq<ElementModel>) -> bool {
    forall|i: int|
        0 <= i < ids.len() && (#[trigger] ids[i]).uuid() is Some ==> id_matches(service, ids[i])
}

/// Whether a record holds the UUID of one element of a search pattern.
pub open spec fn id_matches(service: Seq<AttributeModel>, id: ElementModel) -> bool {
    match id.uuid() {
        Some(uuid) => exists|j: int|
            0 <= j < service.len() && record::holds_uuid((#[trigger] service[j]).value, uuid),
        None => false,
    }
}

/// Whether handles are in strictly ascending order.
pub open spec fn ascending(handles: Seq<u32>) -> bool {
    forall|i: int, j: int| 0 <= i < j < handles.len() ==> handles[i] < handles[j]
}

/// Whether a list holds exactly the handles of the records that match a
/// pattern, in ascending order.
pub open spec fn lists_matches(
    handles: Seq<u32>,
    records: Map<u32, Seq<AttributeModel>>,
    pattern: ElementModel,
) -> bool {
    &&& ascending(handles)
    &&& forall|h: u32|
        #[trigger] handles.contains(h) <==> records.contains_key(h) && record_matches(
            records[h],
            pattern,
        )
}

/// The handles of the records that match a pattern, in ascending order.
pub open spec fn matching_handles(
    records: Map<u32, Seq<AttributeModel>>,
    pattern: ElementModel,
) -> Seq<u32> {
    choose|handles: Seq<u32>| lists_matches(handles, records, pattern)
}

/// Ascending lists with the same members are the same.
proof fn lemma_ascending_unique(a: Seq<u32>, b: Seq<u32>)
    requires
        ascending(a),
        ascending(b),
        forall|h: u32| a.contains(h) <==> #[trigger] b.contains(h),
    ensures
        a == b,
    decreases a.len(),
{
    if a.len() == 0 {
        if b.len() > 0 {
            assert(b.contains(b[0]));
        }
        assert(a =~= b);
    } else {
        assert(a.contains(a.last()));
        assert(b.contains(a.last()));
        assert(b.len() > 0);
        assert(b.contains(b.last()));
        let i = choose|i: int| 0 <= i < a.len() && a[i] == b.last();
        let j = choose|j: int| 0 <= j < b.len() && b[j] == a.last();
        assert(a.last() == b.last());
        let x = a.drop_last();
        let y = b.drop_last();
        assert forall|h: u32| x.contains(h) <==> #[trigger] y.contains(h) by {
            if x.contains(h) {
                let k = choose|k: int| 0 <= k < x.len() && x[k] == h;
                assert(a[k] == h);
                assert(b.contains(h));
                let l = choose|l: int| 0 <= l < b.len() && b[l] == h;
                assert(l < b.len() - 1);
                assert(y[l] == h);
            }
            if y.contains(h) {
                let k = choose|k: int| 0 <= k < y.len() && y[k] == h;
                assert(b[k] == h);
                assert(b.contains(h));
                assert(a.contains(h));
                let l = choose|l: int| 0 <= l < a.len() && a[l] == h;
                assert(l < a.len() - 1);
                assert(x[l] == h);
            }
        }
        lemma_ascending_unique(x, y);
        assert(a =~= x.push(a.last()));
        assert(b =~= y.push(b.last()));
    }
}

/// A list of the matches is the list of the matches.
pub proof fn lemma_matching_handles(
    handles: Seq<u32>,
    records: Map<u32, Seq<AttributeModel>>,
    pattern: ElementModel,
)
    requires
        lists_matches(handles, records, pattern),
    ensures
        matching_handles(records, pattern) == handles,
{
    let chosen = matching_handles(records, pattern);
    assert(lists_matches(chosen, records, pattern));
    assert forall|h: u32| handles.contains(h) <==> #[trigger] chosen.contains(h) by {
        assert(handles.contains(h) <==> records.contains_key(h) && record_matches(
            records[h],
            pattern,
        ));
    }
    lemma_ascending_unique(handles, chosen);
}

/// Inserts a handle into an ascending list that does not hold it.
fn insert_ascending(handles: &mut Vec<u32>, h: u32)
    requires
        ascending(old(handles)@),
        !old(handles)@.contains(h),
    ensures
        ascending(final(handles)@),
        forall|x: u32|
            #[trigger] final(handles)@.contains(x) <==> old(handles)@.contains(x) || x == h,
{
    let ghost before = handles@;
    let mut i: usize = 0;
    while i < handles.len() && handles[i] < h
        invariant
            i <= handles@.len(),
            handles@ == before,
            forall|j: int| 0 <= j < i ==> handles@[j] < h,
        decreases handles@.len() - i,
    {
        i = i + 1;
    }
    handles.insert(i, h);
    proof {
        let after = handles@;
        assert(after =~= before.insert(i as int, h));
        if i < before.len() {
            assert(before.contains(before[i as int]));
        }
        assert forall|a: int, b: int| 0 <= a < b < after.len() implies after[a] < after[b] by {
            let p = if a < i {
                a
            } else {
                a - 1
            };
            let q = if b < i {
                b
            } else {
                b - 1
            };
            if a != i && b != i {
                assert(before[p] < before[q]);
            } else if b == i {
                assert(before[a] < h);
            } else {
                assert(before[i as int] <= before[q]);
            }
        }
        assert forall|x: u32| #[trigger] after.contains(x) <==> before.contains(x) || x == h by {
            if before.contains(x) {
                let k = choose|k: int| 0 <= k < before.len() && before[k] == x;
                if k < i {
                    assert(after[k] == x);
                } else {
                    assert(after[k + 1] == x);
                }
            }
            if x == h {
                assert(after[i as int] == x);
            }
            if after.contains(x) {
                let k = choose|k: int| 0 <= k < after.len() && after[k] == x;
                if k < i {
                    assert(before[k] == x);
                } else if k > i {
                    assert(before[k - 1] == x);
                }
            }
        }
    }
}

// ---------------------------------------------------------------------------
// Attributes of a record
// ---------------------------------------------------------------------------

/// The attributes with IDs from `start` to `end`, in their order.
pub open spec fn in_range(service: Seq<AttributeModel>, start: u16, end: u16) -> Seq<
    AttributeModel,
>
    decreases service.len(),
{
    if service.len() == 0 {
        seq![]
    } else {
        let before = in_range(service.drop_last(), start, end);
        if start <= service.last().id <= end {
            before.push(service.last())
        } else {
            before
        }
    }
}

/// The range of IDs that an element asks for: a 4-byte integer holds start and
/// end, any other a single ID. What is not an unsigned integer asks for
/// nothing.
pub open spec fn range_of(id: ElementModel) -> Option<(u16, u16)> {
    match id.unsigned() {
        Some((value, size)) => if size == 4 {
            Some(((value / 0x1_0000) as u16, (value % 0x1_0000) as u16))
        } else {
            Some((value as u16, value as u16))
        },
        None => None,
    }
}

/// The attributes that elements ask for, in the order of the elements.
pub open spec fn requested(service: Seq<AttributeModel>, ids: Seq<ElementModel>) -> Seq<
    AttributeModel,
>
    decreases ids.len(),
{
    if ids.len() == 0 {
        seq![]
    } else {
        let before = requested(service, ids.drop_last());
        match range_of(ids.last()) {
            Some((start, end)) => before + in_range(service, start, end),
            None => before,
        }
    }
}

/// How many attributes at the start of a list have an ID of at most `id`.
pub open spec fn insertion_point(sorted: Seq<AttributeModel>, id: u16) -> nat
    decreases sorted.len(),
{
    if sorted.len() == 0 || sorted[0].id > id {
        0
    } else {
        1 + insertion_point(sorted.skip(1), id)
    }
}

/// Attributes ordered by ID; attributes with the same ID keep their order.
pub open spec fn sorted_by_id(list: Seq<AttributeModel>) -> Seq<AttributeModel>
    decreases list.len(),
{
    if list.len() == 0 {
        seq![]
    } else {
        let before = sorted_by_id(list.drop_last());
        before.insert(insertion_point(before, list.last().id) as int, list.last())
    }
}

/// Attributes as a flat list of alternating IDs and values.
pub open spec fn flattened(list: Seq<AttributeModel>) -> Seq<ElementModel>
    decreases list.len(),
{
    if list.len() == 0 {
        seq![]
    } else {
        flattened(list.drop_last()) + seq![
            ElementModel::UnsignedInteger(list.last().id as u64, 2),
            list.last().value,
        ]
    }
}

/// The attributes of a record that elements ask for, as one data element.
pub open spec fn selected(service: Seq<AttributeModel>, ids: Seq<ElementModel>) -> ElementModel {
    ElementModel::Sequence(flattened(sorted_by_id(requested(service, ids))))
}

/// The elements of a sequence, or none.
pub open spec fn elements_or_none(e: ElementModel) -> Seq<ElementModel> {
    match e.sequence() {
        Some(items) => items,
        None => seq![],
    }
}

/// Inserts an attribute behind those with an ID that is not larger.
fn insert_by_id(sorted: &mut Vec<ServiceAttribute>, attribute: ServiceAttribute)
    ensures
        insertion_point(models::seq_views(old(sorted)@), attribute.id) <= old(sorted)@.len(),
        final(sorted)@ == old(sorted)@.insert(
            insertion_point(models::seq_views(old(sorted)@), attribute.id) as int,
            attribute,
        ),
        models::seq_views(final(sorted)@) == models::seq_views(old(sorted)@).insert(
            insertion_point(models::seq_views(old(sorted)@), attribute.id) as int,
            attribute@,
        ),
{
    let ghost all = models::seq_views(sorted@);
    let ghost before = sorted@;
    let mut i: usize = 0;
    assert(all.skip(0) =~= all);
    while i < sorted.len() && sorted[i].id <= attribute.id
        invariant
            i <= sorted@.len(),
            sorted@ == before,
            all == models::seq_views(before),
            i + insertion_point(all.skip(i as int), attribute.id) == insertion_point(
                all,
                attribute.id,
            ),
        decreases sorted@.len() - i,
    {
        assert(all.skip(i as int)[0] == sorted@[i as int]@);
        assert(all.skip(i as int).skip(1) =~= all.skip(i + 1));
        i = i + 1;
    }
    proof {
        if i < sorted@.len() {
            assert(all.skip(i as int)[0] == sorted@[i as int]@);
        }
    }
    sorted.insert(i, attribute);
    assert(sorted@ =~= before.insert(i as int, attribute));
    assert(models::seq_views(sorted@) =~= all.insert(i as int, attribute@));
}

// ---------------------------------------------------------------------------
// Answers
// ---------------------------------------------------------------------------

/// The continuation state that says that more is to come.
pub open spec fn more_marker() -> Seq<u8> {
    seq![0x01u8, 0x00u8]
}

/// Whether a request continues the pending answer; `None` when its
/// continuation state is invalid.
pub open spec fn continues(m: ServerModel, continuation_state: Seq<u8>) -> Option<bool> {
    if continuation_state.len() > 1 {
        if m.current_response is None || continuation_state != more_marker() {
            None
        } else {
            Some(true)
        }
    } else {
        Some(false)
    }
}

/// An error response.
pub open spec fn failure(transaction_id: u16, code: u16) -> PduModel {
    PduModel::ErrorResponse { transaction_id, error_code: code }
}

/// The bytes of the pending answer that fit in one response: the server
/// afterwards, the bytes, and the continuation state.
pub open spec fn next_payload(m: ServerModel, max_size: int) -> (ServerModel, Seq<u8>, Seq<u8>) {
    let current = match m.current_response {
        Some(PendingModel::Bytes(b)) => b,
        _ => seq![],
    };
    if current.len() > max_size {
        (
            ServerModel {
                current_response: Some(PendingModel::Bytes(current.skip(max_size))),
                ..m
            },
            current.take(max_size),
            more_marker(),
        )
    } else {
        (ServerModel { current_response: None, ..m }, current, seq![0u8])
    }
}

/// How many attribute bytes fit in one response.
pub open spec fn byte_limit(maximum_attribute_byte_count: u16, peer_mtu: u16) -> int {
    let room = if peer_mtu < 9 {
        0int
    } else {
        peer_mtu - 9
    };
    if maximum_attribute_byte_count < room {
        maximum_attribute_byte_count as int
    } else {
        room
    }
}

/// How many handles fit in one response.
pub open spec fn handle_limit(peer_mtu: u16) -> int {
    if peer_mtu < 11 {
        0
    } else {
        (peer_mtu - 11) / 4
    }
}

/// At most the first `n` elements.
pub open spec fn first_of<T>(s: Seq<T>, n: int) -> Seq<T> {
    if s.len() > n {
        s.take(n)
    } else {
        s
    }
}

/// The answer to a service search.
pub open spec fn answer_search(
    m: ServerModel,
    transaction_id: u16,
    pattern: ElementModel,
    maximum_service_record_count: u16,
    continuation_state: Seq<u8>,
    peer_mtu: u16,
) -> (ServerModel, PduModel) {
    match continues(m, continuation_state) {
        None => (m, failure(transaction_id, error_code::INVALID_CONTINUATION_STATE)),
        Some(continuation) => {
            let (total, handles) = if continuation {
                match m.current_response {
                    Some(PendingModel::Handles(total, handles)) => (total, handles),
                    _ => (0u16, seq![]),
                }
            } else {
                let all = matching_handles(m.service_records, pattern);
                (all.len() as u16, first_of(all, maximum_service_record_count as int))
            };
            let limit = handle_limit(peer_mtu);
            if handles.len() > limit {
                (
                    ServerModel {
                        current_response: Some(PendingModel::Handles(total, handles.skip(limit))),
                        ..m
                    },
                    PduModel::ServiceSearchResponse {
                        transaction_id,
                        total_service_record_count: total,
                        service_record_handle_list: handles.take(limit),
                        continuation_state: more_marker(),
                    },
                )
            } else {
                (
                    ServerModel { current_response: None, ..m },
                    PduModel::ServiceSearchResponse {
                        transaction_id,
                        total_service_record_count: total,
                        service_record_handle_list: handles,
                        continuation_state: seq![0u8],
                    },
                )
            }
        },
    }
}

/// The answer to a request for the attributes of one record.
pub open spec fn answer_attributes(
    m: ServerModel,
    transaction_id: u16,
    handle: u32,
    maximum_attribute_byte_count: u16,
    attribute_id_list: ElementModel,
    continuation_state: Seq<u8>,
    peer_mtu: u16,
) -> (ServerModel, PduModel) {
    let limit = byte_limit(maximum_attribute_byte_count, peer_mtu);
    match continues(m, continuation_state) {
        None => (m, failure(transaction_id, error_code::INVALID_CONTINUATION_STATE)),
        Some(continuation) => if !continuation && !m.service_records.contains_key(handle) {
            (
                ServerModel { current_response: None, ..m },
                failure(transaction_id, error_code::INVALID_SERVICE_RECORD_HANDLE),
            )
        } else {
            let pending = if continuation {
                m
            } else {
                ServerModel {
                    current_response: Some(
                        PendingModel::Bytes(
                            element::encode(
                                selected(
                                    m.service_records[handle],
                                    elements_or_none(attribute_id_list),
                                ),
                            ),
                        ),
                    ),
                    ..m
                }
            };
            let (after, attribute_list, state) = next_payload(pending, limit);
            (
                after,
                PduModel::ServiceAttributeResponse {
                    transaction_id,
                    attribute_list,
                    continuation_state: state,
                },
            )
        },
    }
}

/// The attribute lists of records that are not empty, in the order of their
/// handles.
pub open spec fn attribute_lists(
    records: Map<u32, Seq<AttributeModel>>,
    handles: Seq<u32>,
    ids: Seq<ElementModel>,
) -> Seq<ElementModel>
    decreases handles.len(),
{
    if handles.len() == 0 {
        seq![]
    } else {
        let before = attribute_lists(records, handles.drop_last(), ids);
        let attributes = selected(records[handles.last()], ids);
        if attributes == ElementModel::Sequence(seq![]) {
            before
        } else {
            before.push(attributes)
        }
    }
}

/// The answer to a combined search and attribute request.
pub open spec fn answer_search_attributes(
    m: ServerModel,
    transaction_id: u16,
    pattern: ElementModel,
    maximum_attribute_byte_count: u16,
    attribute_id_list: ElementModel,
    continuation_state: Seq<u8>,
    peer_mtu: u16,
) -> (ServerModel, PduModel) {
    let limit = byte_limit(maximum_attribute_byte_count, peer_mtu);
    match continues(m, continuation_state) {
        None => (m, failure(transaction_id, error_code::INVALID_CONTINUATION_STATE)),
        Some(continuation) => {
            let pending = if continuation {
                m
            } else {
                ServerModel {
                    current_response: Some(
                        PendingModel::Bytes(
                            element::encode(
                                ElementModel::Sequence(
                                    attribute_lists(
                                        m.service_records,
                                        matching_handles(m.service_records, pattern),
                                        elements_or_none(attribute_id_list),
                                    ),
                                ),
                            ),
                        ),
                    ),
                    ..m
                }
            };
            let (after, attribute_lists, state) = next_payload(pending, limit);
            (
                after,
                PduModel::ServiceSearchAttributeResponse {
                    transaction_id,
                    attribute_lists,
                    continuation_state: state,
                },
            )
        },
    }
}

/// The answer to a request PDU. What is not a request is refused.
pub open spec fn answer(m: ServerModel, request: PduModel, peer_mtu: u16) -> (
    ServerModel,
    PduModel,
) {
    match request {
        PduModel::ServiceSearchRequest {
            transaction_id,
            service_search_pattern,
            maximum_service_record_count,
            continuation_state,
        } => answer_search(
            m,
            transaction_id,
            service_search_pattern,
            maximum_service_record_count,
            continuation_state,
            peer_mtu,
        ),
        PduModel::ServiceAttributeRequest {
            transaction_id,
            service_record_handle,
            maximum_attribute_byte_count,
            attribute_id_list,
            continuation_state,
        } => answer_attributes(
            m,
            transaction_id,
            service_record_handle,
            maximum_attribute_byte_count,
            attribute_id_list,
            continuation_state,
            peer_mtu,
        ),
        PduModel::ServiceSearchAttributeRequest {
            transaction_id,
            service_search_pattern,
            maximum_attribute_byte_count,
            attribute_id_list,
            continuation_state,
        } => answer_search_attributes(
            m,
            transaction_id,
            service_search_pattern,
            maximum_attribute_byte_count,
            attribute_id_list,
            continuation_state,
            peer_mtu,
        ),
        _ => (m, failure(request.transaction(), error_code::INVALID_REQUEST_SYNTAX)),
    }
}

/// The answer to the bytes of a request; bytes that are no PDU are refused.
#[verifier::opaque]
pub open spec fn answer_bytes(m: ServerModel, request: Seq<u8>, peer_mtu: u16) -> (
    ServerModel,
    Seq<u8>,
) {
    match pdu::pdu_of(request) {
        None => (m, failure(0, error_code::INVALID_REQUEST_SYNTAX).bytes()),
        Some(p) => {
            let (after, response) = answer(m, p, peer_mtu);
            (after, response.bytes())
        },
    }
}

/// Whether the values of all records can be serialized.
pub open spec fn records_encodable(m: Map<u32, Seq<AttributeModel>>) -> bool {
    forall|h: u32|
        #[trigger] m.contains_key(h) ==> forall|i: int|
            0 <= i < m[h].len() ==> (#[trigger] m[h][i]).value.encodable()
}

// ---------------------------------------------------------------------------
// The server
// ---------------------------------------------------------------------------

impl Default for SdpServer {
    fn default() -> (r: Self)
        ensures
            r@ == (ServerModel { service_records: Map::empty(), current_response: None }),
    {
        broadcast use vstd::std_specs::hash::group_hash_axioms;

        let r = SdpServer { service_records: HashMap::new(), current_response: None };
        assert(r@.service_records =~= Map::empty());
        r
    }
}

/// Whether a handle is one of the first `n` keys.
spec fn among(keys: Seq<&u32>, n: int, h: u32) -> bool {
    exists|i: int| 0 <= i < n && *(#[trigger] keys[i]) == h
}

/// Among all the keys are the members of their set.
broadcast proof fn lemma_among_all(keys: Seq<&u32>, h: u32)
    ensures
        #[trigger] among(keys, keys.len() as int, h) <==> keys.unref().to_set().contains(h),
{
    if among(keys, keys.len() as int, h) {
        let i = choose|i: int| 0 <= i < keys.len() && *(#[trigger] keys[i]) == h;
        assert(keys.unref()[i] == h);
    }
    if keys.unref().contains(h) {
        let i = choose|i: int| 0 <= i < keys.unref().len() && keys.unref()[i] == h;
        assert(*keys[i] == h);
    }
}

impl SdpServer {
    /// A server without records.
    pub fn new() -> (r: Self)
        ensures
            r@ == (ServerModel { service_records: Map::empty(), current_response: None }),
    {
        Self::default()
    }

    /// Registers the SDP PSM as accepting incoming connections.
    pub fn register(&self, manager: &mut ClassicChannelManager) -> (r: Result<(), SimbleError>)
        ensures
            r is Ok,
            final(manager)@ == (ChannelManagerModel {
                servers: old(manager)@.servers.insert(SDP_PSM),
                ..old(manager)@
            }),
    {
        manager.register_server(SDP_PSM)
    }

    fn id_is_in(service: &Vec<ServiceAttribute>, id: &DataElement) -> (r: bool)
        ensures
            r == id_matches(models::seq_views(service@), id@),
    {
        let uuid = match id.as_uuid() {
            Some(uuid) => uuid,
            None => {
                return false;
            },
        };
        let ghost all = models::seq_views(service@);
        let mut j: usize = 0;
        while j < service.len()
            invariant
                j <= service@.len(),
                forall|k: int| 0 <= k < j ==> !record::holds_uuid((#[trigger] all[k]).value, uuid),
            decreases service@.len() - j,
        {
            assert(all[j as int] == service@[j as int]@);
            if ServiceAttribute::is_uuid_in_value(uuid, &service[j].value) {
                assert(record::holds_uuid(all[j as int].value, uuid));
                return true;
            }
            j = j + 1;
        }
        false
    }

    fn service_matches(service: &Vec<ServiceAttribute>, pattern: &DataElement) -> (r: bool)
        ensures
            r == record_matches(models::seq_views(service@), pattern@),
    {
        let ids = match pattern.as_sequence() {
            Some(ids) => ids,
            None => {
                return false;
            },
        };
        let ghost all = models::seq_views(ids@);
        let ghost attributes = models::seq_views(service@);
        assert(pattern@.sequence() == Some(all));
        let mut named = false;
        let mut i: usize = 0;
        while i < ids.len()
            invariant
                i <= ids@.len(),
                named == names_uuid(all.take(i as int)),
                all_ids_match(attributes, all.take(i as int)),
            decreases ids@.len() - i,
        {
            let ghost seen = all.take(i as int);
            let ghost more = all.take(i + 1);
            assert(more =~= seen.push(all[i as int]));
            assert(all[i as int] == ids@[i as int]@);
            if ids[i].as_uuid().is_some() {
                assert(more[i as int].uuid() is Some);
                if !Self::id_is_in(service, &ids[i]) {
                    assert(!all_ids_match(attributes, all));
                    return false;
                }
                named = true;
            } else {
                proof {
                    if named {
                        let k = choose|k: int|
                            0 <= k < seen.len() && (#[trigger] seen[k]).uuid() is Some;
                        assert(more[k].uuid() is Some);
                    }
                    if names_uuid(more) {
                        let k = choose|k: int|
                            0 <= k < more.len() && (#[trigger] more[k]).uuid() is Some;
                        assert(seen[k].uuid() is Some);
                    }
                }
            }
            assert(all_ids_match(attributes, more)) by {
                assert forall|k: int|
                    0 <= k < more.len() && (#[trigger] more[k]).uuid() is Some implies id_matches(
                    attributes,
                    more[k],
                ) by {
                    if k < i {
                        assert(seen[k] == more[k]);
                    }
                }
            }
            i = i + 1;
        }
        assert(all.take(ids@.len() as int) =~= all);
        named
    }

    /// Finds the records that match a pattern.
    fn match_services(&self, pattern: &DataElement) -> (r: Vec<u32>)
        ensures
            r@ == matching_handles(self@.service_records, pattern@),
            lists_matches(r@, self@.service_records, pattern@),
    {
        broadcast use {vstd::std_specs::hash::group_hash_axioms, lemma_among_all};

        let ghost records = self@.service_records;
        let mut handles: Vec<u32> = Vec::new();
        for key in it: self.service_records.keys()
            invariant
                records == record_models(self.service_records@),
                it.seq().unref().to_set() == self.service_records@.dom(),
                it.seq().no_duplicates(),
                forall|h: u32|
                    #[trigger] among(it.seq(), it.seq().len() as int, h)
                        <==> self.service_records@.dom().contains(h),
                ascending(handles@),
                forall|h: u32|
                    #[trigger] handles@.contains(h) <==> among(it.seq(), it.index() as int, h)
                        && record_matches(records[h], pattern@),
        {
            let handle: u32 = *key;
            let ghost before = handles@;
            proof {
                let n = it.index() as int;
                assert(*it.seq()[n] == handle);
                assert(it.seq().unref()[n] == handle);
                assert(it.seq().unref().to_set().contains(handle));
                assert(!among(it.seq(), n, handle)) by {
                    if among(it.seq(), n, handle) {
                        let i = choose|i: int| 0 <= i < n && *(#[trigger] it.seq()[i]) == handle;
                        assert(it.seq()[i] == it.seq()[n]);
                    }
                }
                assert forall|h: u32|
                    #[trigger] among(it.seq(), n + 1, h) <==> among(it.seq(), n, h) || h
                        == handle by {
                    if among(it.seq(), n + 1, h) {
                        let i = choose|i: int| 0 <= i < n + 1 && *(#[trigger] it.seq()[i]) == h;
                        if i < n {
                            assert(among(it.seq(), n, h));
                        }
                    }
                    if among(it.seq(), n, h) {
                        let i = choose|i: int| 0 <= i < n && *(#[trigger] it.seq()[i]) == h;
                        assert(*it.seq()[i] == h);
                    }
                }
            }
            if let Some(service) = self.service_records.get(&handle) {
                if Self::service_matches(service, pattern) {
                    insert_ascending(&mut handles, handle);
                }
            }
        }
        proof {
            assert forall|h: u32|
                #[trigger] handles@.contains(h) <==> records.contains_key(h) && record_matches(
                    records[h],
                    pattern@,
                ) by {
                if records.contains_key(h) {
                    assert(self.service_records@.dom().contains(h));
                }
            }
            lemma_matching_handles(handles@, records, pattern@);
        }
        handles
    }

    /// Collects the attributes of a record that elements ask for.
    fn get_service_attributes(service: &Vec<ServiceAttribute>, ids: &[DataElement]) -> (r:
        DataElement)
        requires
            forall|i: int| 0 <= i < service@.len() ==> (#[trigger] service@[i]).value@.encodable(),
        ensures
            r@ == selected(models::seq_views(service@), models::seq_views(ids@)),
            r@.encodable(),
    {
        let ghost all = models::seq_views(service@);
        let ghost asked = models::seq_views(ids@);
        let mut sorted: Vec<ServiceAttribute> = Vec::new();
        let mut i: usize = 0;
        assert(models::seq_views(sorted@) =~= sorted_by_id(requested(all, asked.take(0))));
        while i < ids.len()
            invariant
                i <= ids@.len(),
                all == models::seq_views(service@),
                asked == models::seq_views(ids@),
                models::seq_views(sorted@) == sorted_by_id(requested(all, asked.take(i as int))),
                forall|k: int| 0 <= k < sorted@.len() ==> (#[trigger] sorted@[k]).value@.encodable(
                ),
            decreases ids@.len() - i,
        {
            let ghost before = requested(all, asked.take(i as int));
            assert(asked.take(i + 1).drop_last() =~= asked.take(i as int));
            assert(asked.take(i + 1).last() == ids@[i as int]@);
            if let Some((value, size)) = ids[i].as_unsigned_integer() {
                let (start, end): (u16, u16) = if size == 4 {
                    ((value / 0x1_0000) as u16, (value % 0x1_0000) as u16)
                } else {
                    (value as u16, value as u16)
                };
                let mut j: usize = 0;
                assert(before + in_range(all.take(0), start, end) =~= before);
                while j < service.len()
                    invariant
                        j <= service@.len(),
                        all == models::seq_views(service@),
                        models::seq_views(sorted@) == sorted_by_id(
                            before + in_range(all.take(j as int), start, end),
                        ),
                        forall|k: int|
                            0 <= k < sorted@.len() ==> (#[trigger] sorted@[k]).value@.encodable(),
                    decreases service@.len() - j,
                {
                    let ghost list = before + in_range(all.take(j as int), start, end);
                    assert(all.take(j + 1).drop_last() =~= all.take(j as int));
                    assert(all.take(j + 1).last() == service@[j as int]@);
                    if start <= service[j].id && service[j].id <= end {
                        let attribute = ServiceAttribute::new(
                            service[j].id,
                            service[j].value.clone(),
                        );
                        let ghost grown = before + in_range(all.take(j + 1), start, end);
                        assert(grown =~= list.push(attribute@));
                        assert(grown.drop_last() =~= list);
                        let ghost elements = sorted@;
                        insert_by_id(&mut sorted, attribute);
                        assert forall|k: int| 0 <= k < sorted@.len() implies (
                        #[trigger] sorted@[k]).value@.encodable() by {
                            let at = insertion_point(models::seq_views(elements), attribute.id) as int;
                            if k < at {
                                assert(sorted@[k] == elements[k]);
                            } else if k > at {
                                assert(sorted@[k] == elements[k - 1]);
                            }
                        }
                    }
                    j = j + 1;
                }
                assert(all.take(j as int) =~= all);
            }
            i = i + 1;
        }
        assert(asked.take(i as int) =~= asked);

        let ghost list = models::seq_views(sorted@);
        let mut items: Vec<DataElement> = Vec::new();
        let mut n: usize = 0;
        assert(models::seq_views(items@) =~= flattened(list.take(0)));
        while n < sorted.len()
            invariant
                n <= sorted@.len(),
                list == models::seq_views(sorted@),
                models::seq_views(items@) == flattened(list.take(n as int)),
                forall|k: int| 0 <= k < sorted@.len() ==> (#[trigger] sorted@[k]).value@.encodable(
                ),
                forall|k: int| 0 <= k < items@.len() ==> (#[trigger] items@[k])@.encodable(),
            decreases sorted@.len() - n,
        {
            let ghost done = items@;
            assert(list.take(n + 1).drop_last() =~= list.take(n as int));
            assert(list.take(n + 1).last() == sorted@[n as int]@);
            items.push(DataElement::unsigned_integer_16(sorted[n].id));
            items.push(sorted[n].value.clone());
            assert(models::seq_views(items@) =~= models::seq_views(done) + seq![
                ElementModel::UnsignedInteger(sorted@[n as int].id as u64, 2),
                sorted@[n as int].value@,
            ]);
            n = n + 1;
        }
        assert(list.take(n as int) =~= list);
        proof {
            let elements = models::seq_views(items@);
            assert forall|k: int| 0 <= k < elements.len() implies (#[trigger] elements[k]).encodable() by {
                assert(elements[k] == items@[k]@);
            }
            assert(element::all_encodable(elements));
        }
        DataElement::sequence(items)
    }

    /// Whether a request continues the pending answer; a fresh request drops
    /// it.
    fn check_continuation(&mut self, continuation_state: &[u8]) -> (r: Result<bool, ()>)
        ensures
            final(self).service_records == old(self).service_records,
            match continues(old(self)@, continuation_state@) {
                None => r is Err && *final(self) == *old(self),
                Some(true) => r == Ok::<bool, ()>(true) && *final(self) == *old(self),
                Some(false) => r == Ok::<bool, ()>(false) && final(self).current_response is None,
            },
    {
        if continuation_state.len() > 1 {
            let is_marker = continuation_state.len() == 2 && continuation_state[0] == 0x01
                && continuation_state[1] == 0x00;
            proof {
                if is_marker {
                    assert(continuation_state@ =~= more_marker());
                }
            }
            if self.current_response.is_none() || !is_marker {
                return Err(());
            }
            return Ok(true);
        }
        self.current_response = None;
        Ok(false)
    }

    /// Takes the bytes of the pending answer that fit in one response.
    fn next_response_payload(&mut self, max_size: usize) -> (r: (Vec<u8>, Vec<u8>))
        ensures
            final(self).service_records == old(self).service_records,
            final(self)@ == next_payload(old(self)@, max_size as int).0,
            r.0@ == next_payload(old(self)@, max_size as int).1,
            r.1@ == next_payload(old(self)@, max_size as int).2,
    {
        let current: Vec<u8> = match self.current_response.take() {
            Some(PendingResponse::Bytes(b)) => b,
            _ => Vec::new(),
        };
        if current.len() > max_size {
            let payload = bytes::copy_range(&current, 0, max_size);
            let rest = bytes::copy_range(&current, max_size, current.len());
            assert(payload@ =~= current@.take(max_size as int));
            assert(rest@ =~= current@.skip(max_size as int));
            self.current_response = Some(PendingResponse::Bytes(rest));
            let marker: Vec<u8> = vec![0x01, 0x00];
            assert(marker@ =~= more_marker());
            (payload, marker)
        } else {
            let last: Vec<u8> = vec![0];
            assert(last@ =~= seq![0u8]);
            assert(current@ =~= next_payload(old(self)@, max_size as int).1);
            (current, last)
        }
    }

    fn error(transaction_id: u16, code: u16) -> (r: SdpPdu)
        ensures
            r@ == failure(transaction_id, code),
            r@.encodable(),
    {
        SdpPdu::ErrorResponse { transaction_id, error_code: code }
    }

    fn on_service_search_request(
        &mut self,
        transaction_id: u16,
        pattern: &DataElement,
        maximum_service_record_count: u16,
        continuation_state: &[u8],
        peer_mtu: u16,
    ) -> (r: SdpPdu)
        ensures
            final(self).service_records == old(self).service_records,
            (final(self)@, r@) == answer_search(
                old(self)@,
                transaction_id,
                pattern@,
                maximum_service_record_count,
                continuation_state@,
                peer_mtu,
            ),
            r@.encodable(),
    {
        let continuation = match self.check_continuation(continuation_state) {
            Ok(continuation) => continuation,
            Err(_) => {
                return Self::error(transaction_id, error_code::INVALID_CONTINUATION_STATE);
            },
        };
        let mut total: u16 = 0;
        let mut handles: Vec<u32> = Vec::new();
        if continuation {
            if let Some(PendingResponse::Handles(t, h)) = self.current_response.take() {
                total = t;
                handles = h;
            }
            assert(match old(self)@.current_response {
                Some(PendingModel::Handles(t, h)) => total == t && handles@ == h,
                _ => total == 0 && handles@ =~= seq![],
            });
        } else {
            handles = self.match_services(pattern);
            total = handles.len() as u16;
            let ghost all = handles@;
            handles.truncate(maximum_service_record_count as usize);
            assert(handles@ =~= first_of(all, maximum_service_record_count as int));
        }
        let limit: usize = if peer_mtu < 11 {
            0
        } else {
            (peer_mtu as usize - 11) / 4
        };
        let ghost whole = handles@;
        if handles.len() > limit {
            let rest = handles.split_off(limit);
            assert(rest@ =~= whole.skip(limit as int));
            assert(handles@ =~= whole.take(limit as int));
            self.current_response = Some(PendingResponse::Handles(total, rest));
            let marker: Vec<u8> = vec![0x01, 0x00];
            assert(marker@ =~= more_marker());
            SdpPdu::ServiceSearchResponse {
                transaction_id,
                total_service_record_count: total,
                service_record_handle_list: handles,
                continuation_state: marker,
            }
        } else {
            let last: Vec<u8> = vec![0];
            assert(last@ =~= seq![0u8]);
            SdpPdu::ServiceSearchResponse {
                transaction_id,
                total_service_record_count: total,
                service_record_handle_list: handles,
                continuation_state: last,
            }
        }
    }

    fn byte_limit(maximum_attribute_byte_count: u16, peer_mtu: u16) -> (r: usize)
        ensures
            r == byte_limit(maximum_attribute_byte_count, peer_mtu),
    {
        let room: u16 = peer_mtu.saturating_sub(9);
        if maximum_attribute_byte_count < room {
            maximum_attribute_byte_count as usize
        } else {
            room as usize
        }
    }

    fn on_service_attribute_request(
        &mut self,
        transaction_id: u16,
        service_record_handle: u32,
        maximum_attribute_byte_count: u16,
        attribute_id_list: &DataElement,
        continuation_state: &[u8],
        peer_mtu: u16,
    ) -> (r: SdpPdu)
        requires
            records_encodable(old(self)@.service_records),
        ensures
            final(self).service_records == old(self).service_records,
            (final(self)@, r@) == answer_attributes(
                old(self)@,
                transaction_id,
                service_record_handle,
                maximum_attribute_byte_count,
                attribute_id_list@,
                continuation_state@,
                peer_mtu,
            ),
            r@.encodable(),
    {
        broadcast use vstd::std_specs::hash::group_hash_axioms;

        let ghost records = self@.service_records;
        let continuation = match self.check_continuation(continuation_state) {
            Ok(continuation) => continuation,
            Err(_) => {
                return Self::error(transaction_id, error_code::INVALID_CONTINUATION_STATE);
            },
        };
        if !continuation {
            let attributes = match self.service_records.get(&service_record_handle) {
                Some(service) => {
                    proof {
                        assert(records.contains_key(service_record_handle));
                        assert(records[service_record_handle] == models::seq_views(service@));
                        assert forall|i: int| 0 <= i < service@.len() implies (
                        #[trigger] service@[i]).value@.encodable() by {
                            assert(records[service_record_handle][i].value.encodable());
                        }
                    }
                    match attribute_id_list.as_sequence() {
                        Some(ids) => Self::get_service_attributes(service, ids),
                        None => {
                            let none: Vec<DataElement> = Vec::new();
                            assert(models::seq_views(none@) =~= seq![]);
                            Self::get_service_attributes(service, none.as_slice())
                        },
                    }
                },
                None => {
                    return Self::error(transaction_id, error_code::INVALID_SERVICE_RECORD_HANDLE);
                },
            };
            self.current_response = Some(PendingResponse::Bytes(attributes.to_bytes()));
        }
        let limit: usize = Self::byte_limit(maximum_attribute_byte_count, peer_mtu);
        let (attribute_list, state) = self.next_response_payload(limit);
        SdpPdu::ServiceAttributeResponse {
            transaction_id,
            attribute_list,
            continuation_state: state,
        }
    }

    /// The attribute lists of the records with the given handles.
    fn lists_of(&self, handles: &Vec<u32>, ids: &[DataElement]) -> (r: Vec<DataElement>)
        requires
            records_encodable(self@.service_records),
            forall|i: int|
                0 <= i < handles@.len() ==> self@.service_records.contains_key(
                    #[trigger] handles@[i],
                ),
        ensures
            models::seq_views(r@) == attribute_lists(
                self@.service_records,
                handles@,
                models::seq_views(ids@),
            ),
            element::all_encodable(models::seq_views(r@)),
    {
        broadcast use vstd::std_specs::hash::group_hash_axioms;

        let ghost records = self@.service_records;
        let ghost asked = models::seq_views(ids@);
        let mut lists: Vec<DataElement> = Vec::new();
        let mut i: usize = 0;
        assert(models::seq_views(lists@) =~= attribute_lists(records, handles@.take(0), asked));
        while i < handles.len()
            invariant
                i <= handles@.len(),
                models::seq_views(lists@) == attribute_lists(
                    records,
                    handles@.take(i as int),
                    asked,
                ),
                forall|k: int| 0 <= k < lists@.len() ==> (#[trigger] lists@[k])@.encodable(),
            decreases handles@.len() - i,
        {
            let handle: u32 = handles[i];
            assert(handles@.take(i + 1).drop_last() =~= handles@.take(i as int));
            assert(handles@.take(i + 1).last() == handle);
            assert(records.contains_key(handles@[i as int]));
            if let Some(service) = self.service_records.get(&handle) {
                proof {
                    assert(records[handle] == models::seq_views(service@));
                    assert forall|k: int| 0 <= k < service@.len() implies (
                    #[trigger] service@[k]).value@.encodable() by {
                        assert(records[handle][k].value.encodable());
                    }
                }
                let attributes = Self::get_service_attributes(service, ids);
                let empty = match &attributes {
                    DataElement::Sequence(items) => {
                        proof {
                            element::lemma_element_lists(*items);
                            if items@.len() == 0 {
                                assert(models::seq_views(items@) =~= seq![]);
                            }
                        }
                        items.len() == 0
                    },
                    _ => false,
                };
                if !empty {
                    proof {
                        models::lemma_seq_views_push(lists@, attributes);
                    }
                    lists.push(attributes);
                }
            }
            i = i + 1;
        }
        assert(handles@.take(i as int) =~= handles@);
        proof {
            let elements = models::seq_views(lists@);
            assert forall|k: int| 0 <= k < elements.len() implies (#[trigger] elements[k]).encodable() by {
                assert(elements[k] == lists@[k]@);
            }
        }
        lists
    }

    fn on_service_search_attribute_request(
        &mut self,
        transaction_id: u16,
        pattern: &DataElement,
        maximum_attribute_byte_count: u16,
        attribute_id_list: &DataElement,
        continuation_state: &[u8],
        peer_mtu: u16,
    ) -> (r: SdpPdu)
        requires
            records_encodable(old(self)@.service_records),
        ensures
            final(self).service_records == old(self).service_records,
            (final(self)@, r@) == answer_search_attributes(
                old(self)@,
                transaction_id,
                pattern@,
                maximum_attribute_byte_count,
                attribute_id_list@,
                continuation_state@,
                peer_mtu,
            ),
            r@.encodable(),
    {
        let continuation = match self.check_continuation(continuation_state) {
            Ok(continuation) => continuation,
            Err(_) => {
                return Self::error(transaction_id, error_code::INVALID_CONTINUATION_STATE);
            },
        };
        if !continuation {
            let handles = self.match_services(pattern);
            proof {
                assert forall|i: int| 0 <= i < handles@.len() implies self@.service_records.contains_key(
                    #[trigger] handles@[i],
                ) by {
                    assert(handles@.contains(handles@[i]));
                }
            }
            let lists = match attribute_id_list.as_sequence() {
                Some(ids) => self.lists_of(&handles, ids),
                None => {
                    let none: Vec<DataElement> = Vec::new();
                    assert(models::seq_views(none@) =~= seq![]);
                    self.lists_of(&handles, none.as_slice())
                },
            };
            self.current_response = Some(
                PendingResponse::Bytes(DataElement::sequence(lists).to_bytes()),
            );
        }
        let limit: usize = Self::byte_limit(maximum_attribute_byte_count, peer_mtu);
        let (attribute_lists, state) = self.next_response_payload(limit);
        SdpPdu::ServiceSearchAttributeResponse {
            transaction_id,
            attribute_lists,
            continuation_state: state,
        }
    }

    fn handle_pdu(&mut self, request: SdpPdu, peer_mtu: u16) -> (r: SdpPdu)
        requires
            records_encodable(old(self)@.service_records),
        ensures
            final(self).service_records == old(self).service_records,
            (final(self)@, r@) == answer(old(self)@, request@, peer_mtu),
            r@.encodable(),
    {
        match request {
            SdpPdu::ServiceSearchRequest {
                transaction_id,
                service_search_pattern,
                maximum_service_record_count,
                continuation_state,
            } => self.on_service_search_request(
                transaction_id,
                &service_search_pattern,
                maximum_service_record_count,
                &continuation_state,
                peer_mtu,
            ),
            SdpPdu::ServiceAttributeRequest {
                transaction_id,
                service_record_handle,
                maximum_attribute_byte_count,
                attribute_id_list,
                continuation_state,
            } => self.on_service_attribute_request(
                transaction_id,
                service_record_handle,
                maximum_attribute_byte_count,
                &attribute_id_list,
                &continuation_state,
                peer_mtu,
            ),
            SdpPdu::ServiceSearchAttributeRequest {
                transaction_id,
                service_search_pattern,
                maximum_attribute_byte_count,
                attribute_id_list,
                continuation_state,
            } => self.on_service_search_attribute_request(
                transaction_id,
                &service_search_pattern,
                maximum_attribute_byte_count,
                &attribute_id_list,
                &continuation_state,
                peer_mtu,
            ),
            other => Self::error(other.transaction_id(), error_code::INVALID_REQUEST_SYNTAX),
        }
    }

    /// Answers the bytes of one request. `peer_mtu` bounds how much goes into
    /// a single response before the rest has to be asked for. The values of
    /// the records have to be such that they can be serialized.
    pub fn handle_request(&mut self, request: &[u8], peer_mtu: u16) -> (r: Vec<u8>)
        requires
            records_encodable(old(self)@.service_records),
        ensures
            final(self).service_records == old(self).service_records,
            (final(self)@, r@) == answer_bytes(old(self)@, request@, peer_mtu),
    {
        reveal(answer_bytes);
        match SdpPdu::parse(request) {
            Some(p) => {
                let response = self.handle_pdu(p, peer_mtu);
                response.to_bytes()
            },
            None => Self::error(0, error_code::INVALID_REQUEST_SYNTAX).to_bytes(),
        }
    }
}

} // verus!
