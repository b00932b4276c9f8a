//! What stands on the wire, byte by byte, and what a server answers.

use vstd::prelude::*;
use vstd::utf8;
use crate::bytes;
use crate::classic::sdp::client;
use crate::classic::sdp::client::ReplyModel;
use crate::classic::sdp::element;
use crate::classic::sdp::element::{ElementModel, SdpUuid};
use crate::classic::sdp::pdu;
use crate::classic::sdp::pdu::{AttributeIdSpec, PduModel};
use crate::classic::sdp::record;
use crate::classic::sdp::record::AttributeModel;
use crate::classic::sdp::server;
use crate::classic::sdp::server::{PendingModel, ServerModel};
use crate::text;
use crate::types::SimbleErrorModel;

verus! {

// ---------------------------------------------------------------------------
// Elements
// ---------------------------------------------------------------------------

proof fn lemma_headers()
    by (bit_vector)
    ensures
        0u8 << 3 == 0x00u8,
        1u8 << 3 == 0x08u8,
        2u8 << 3 == 0x10u8,
        3u8 << 3 == 0x18u8,
        4u8 << 3 == 0x20u8,
        5u8 << 3 == 0x28u8,
        6u8 << 3 == 0x30u8,
        7u8 << 3 == 0x38u8,
        8u8 << 3 == 0x40u8,
        0x08u8 | 0 == 0x08,
        0x08u8 | 1 == 0x09,
        0x08u8 | 2 == 0x0A,
        0x08u8 | 3 == 0x0B,
        0x10u8 | 0 == 0x10,
        0x10u8 | 1 == 0x11,
        0x10u8 | 2 == 0x12,
        0x10u8 | 3 == 0x13,
        0x18u8 | 1 == 0x19,
        0x18u8 | 2 == 0x1A,
        0x18u8 | 4 == 0x1C,
        0x20u8 | 5 == 0x25,
        0x20u8 | 6 == 0x26,
        0x20u8 | 7 == 0x27,
        0x30u8 | 5 == 0x35,
        0x30u8 | 6 == 0x36,
        0x30u8 | 7 == 0x37,
        0x38u8 | 5 == 0x3D,
        0x38u8 | 6 == 0x3E,
        0x38u8 | 7 == 0x3F,
        0x40u8 | 5 == 0x45,
        0x40u8 | 6 == 0x46,
        0x40u8 | 7 == 0x47,
{
}

/// Numbers have one, two, four or eight bytes, the highest first, behind a
/// header that says how many; negative ones are written in two's complement.
/// Nil has no bytes, and a truth value one.
#[verifier::rlimit(50)]
pub proof fn law_number_bytes(a: u8, b: u16, c: u32, truth: bool, i: i8, j: i16)
    ensures
        element::encode(ElementModel::Nil) == seq![0x00u8],
        element::encode(ElementModel::UnsignedInteger(a as u64, 1)) == seq![0x08u8, a],
        element::encode(ElementModel::UnsignedInteger(b as u64, 2)) == seq![0x09u8]
            + bytes::be16_bytes(b),
        element::encode(ElementModel::UnsignedInteger(c as u64, 4)) == seq![0x0Au8]
            + bytes::be32_bytes(c),
        element::encode(ElementModel::SignedInteger(i as i64, 1)) == seq![
            0x10u8,
            (i + if i < 0 {
                256int
            } else {
                0
            }) as u8,
        ],
        element::encode(ElementModel::SignedInteger(j as i64, 2)) == seq![0x11u8]
            + bytes::be16_bytes(
            (j + if j < 0 {
                65536int
            } else {
                0
            }) as u16,
        ),
        element::encode(ElementModel::Boolean(truth)) == seq![
            0x28u8,
            if truth {
                1
            } else {
                0
            },
        ],
{
    lemma_headers();
    reveal_with_fuel(element::low_bytes, 5);
    assert(element::low_bytes(a as nat, 1) =~= seq![a]);
    assert(element::low_bytes(b as nat, 2) =~= bytes::be16_bytes(b));
    assert(element::low_bytes(c as nat, 4) =~= bytes::be32_bytes(c));
    assert(element::encode(ElementModel::UnsignedInteger(a as u64, 1)) =~= seq![0x08u8, a]);
    let wide = element::two_complement(i as i64);
    let low = (i + if i < 0 {
        256int
    } else {
        0
    }) as u8;
    assert(wide % 256 == low);
    assert(element::low_bytes(wide, 1) =~= seq![low]);
    assert(element::encode(ElementModel::SignedInteger(i as i64, 1)) =~= seq![0x10u8, low]);
    let wide = element::two_complement(j as i64);
    let low = (j + if j < 0 {
        65536int
    } else {
        0
    }) as u16;
    assert(wide % 65536 == low);
    assert(element::low_bytes(wide, 2) =~= bytes::be16_bytes(low));
}

/// UUIDs have two, four or sixteen bytes, the highest first.
#[verifier::rlimit(50)]
pub proof fn law_uuid_bytes(a: u16, b: u32, c: [u8; 16])
    ensures
        element::encode(ElementModel::Uuid(SdpUuid::Uuid16(a))) == seq![0x19u8]
            + bytes::be16_bytes(a),
        element::encode(ElementModel::Uuid(SdpUuid::Uuid32(b))) == seq![0x1Au8]
            + bytes::be32_bytes(b),
        element::encode(ElementModel::Uuid(SdpUuid::Uuid128(c))) == seq![0x1Cu8] + c@,
{
    lemma_headers();
}

/// Texts and addresses, sequences and alternatives stand behind their length,
/// which has one byte up to 255, two up to 65535, and four above.
#[verifier::rlimit(50)]
pub proof fn law_list_bytes(words: Seq<u8>, url: Seq<char>, items: Seq<ElementModel>)
    ensures
        words.len() <= 255 ==> element::encode(ElementModel::TextString(words)) == seq![
            0x25u8,
            words.len() as u8,
        ] + words,
        255 < words.len() <= 65535 ==> element::encode(ElementModel::TextString(words)) == seq![
            0x26u8,
        ] + bytes::be16_bytes(words.len() as u16) + words,
        65535 < words.len() <= u32::MAX ==> element::encode(ElementModel::TextString(words))
            == seq![0x27u8] + bytes::be32_bytes(words.len() as u32) + words,
        utf8::encode_utf8(url).len() <= 255 ==> element::encode(ElementModel::Url(url)) == seq![
            0x45u8,
            utf8::encode_utf8(url).len() as u8,
        ] + utf8::encode_utf8(url),
        ({
            let all = element::encode_all(items);
            &&& all.len() <= 255 ==> element::encode(ElementModel::Sequence(items)) == seq![
                0x35u8,
                all.len() as u8,
            ] + all
            &&& 255 < all.len() <= 65535 ==> element::encode(ElementModel::Sequence(items))
                == seq![0x36u8] + bytes::be16_bytes(all.len() as u16) + all
            &&& all.len() <= 255 ==> element::encode(ElementModel::Alternative(items)) == seq![
                0x3Du8,
                all.len() as u8,
            ] + all
        }),
{
    lemma_headers();
}

/// The elements of a list stand one behind the other.
#[verifier::rlimit(50)]
pub proof fn law_items_are_in_order(items: Seq<ElementModel>, last: ElementModel)
    ensures
        element::encode_all(Seq::<ElementModel>::empty()) == Seq::<u8>::empty(),
        element::encode_all(items.push(last)) == element::encode_all(items) + element::encode(last),
{
    assert(items.push(last).drop_last() =~= items);
}

/// A UUID is found where it stands itself, and in a sequence where it is found
/// in one of its elements; nothing else holds a UUID.
#[verifier::rlimit(50)]
pub proof fn law_uuid_is_found(value: ElementModel, uuid: SdpUuid)
    ensures
        record::holds_uuid(value, uuid) <==> (value == ElementModel::Uuid(uuid) || (
        value is Sequence && exists|i: int|
            0 <= i < value->Sequence_0.len() && record::holds_uuid(
                #[trigger] value->Sequence_0[i],
                uuid,
            ))),
{
}

// ---------------------------------------------------------------------------
// PDUs
// ---------------------------------------------------------------------------

/// A PDU starts with its number, the transaction and the length of what
/// follows. The numbers of the seven kinds are one to seven.
#[verifier::rlimit(50)]
pub proof fn law_pdu_header(m: PduModel)
    requires
        m.parameters().len() <= 0xFFFF,
    ensures
        m.bytes() == seq![
            match m {
                PduModel::ErrorResponse { .. } => 0x01u8,
                PduModel::ServiceSearchRequest { .. } => 0x02,
                PduModel::ServiceSearchResponse { .. } => 0x03,
                PduModel::ServiceAttributeRequest { .. } => 0x04,
                PduModel::ServiceAttributeResponse { .. } => 0x05,
                PduModel::ServiceSearchAttributeRequest { .. } => 0x06,
                PduModel::ServiceSearchAttributeResponse { .. } => 0x07,
            },
        ] + bytes::be16_bytes(m.transaction()) + bytes::be16_bytes(m.parameters().len() as u16)
            + m.parameters(),
{
}

/// The parameters of requests: what is looked for, how much may come back, and
/// how far the answer has got.
#[verifier::rlimit(50)]
pub proof fn law_request_parameters(
    id: u16,
    handle: u32,
    pattern: ElementModel,
    most: u16,
    ids: ElementModel,
    state: Seq<u8>,
)
    ensures
        (PduModel::ServiceSearchRequest {
            transaction_id: id,
            service_search_pattern: pattern,
            maximum_service_record_count: most,
            continuation_state: state,
        }).parameters() == element::encode(pattern) + bytes::be16_bytes(most) + state,
        (PduModel::ServiceAttributeRequest {
            transaction_id: id,
            service_record_handle: handle,
            maximum_attribute_byte_count: most,
            attribute_id_list: ids,
            continuation_state: state,
        }).parameters() == bytes::be32_bytes(handle) + bytes::be16_bytes(most) + element::encode(
            ids,
        ) + state,
        (PduModel::ServiceSearchAttributeRequest {
            transaction_id: id,
            service_search_pattern: pattern,
            maximum_attribute_byte_count: most,
            attribute_id_list: ids,
            continuation_state: state,
        }).parameters() == element::encode(pattern) + bytes::be16_bytes(most) + element::encode(
            ids,
        ) + state,
{
}

/// The parameters of answers: an error, or handles behind both counts, or bytes
/// behind their count, and how far the answer has got.
#[verifier::rlimit(50)]
pub proof fn law_answer_parameters(
    id: u16,
    code: u16,
    total: u16,
    handle: u32,
    list: Seq<u8>,
    state: Seq<u8>,
)
    ensures
        (PduModel::ErrorResponse { transaction_id: id, error_code: code }).parameters()
            == bytes::be16_bytes(code),
        (PduModel::ServiceSearchResponse {
            transaction_id: id,
            total_service_record_count: total,
            service_record_handle_list: seq![handle],
            continuation_state: state,
        }).parameters() == bytes::be16_bytes(total) + seq![0x00u8, 0x01u8] + bytes::be32_bytes(
            handle,
        ) + state,
        (PduModel::ServiceAttributeResponse {
            transaction_id: id,
            attribute_list: list,
            continuation_state: state,
        }).parameters() == bytes::be16_bytes(list.len() as u16) + list + state,
        (PduModel::ServiceSearchAttributeResponse {
            transaction_id: id,
            attribute_lists: list,
            continuation_state: state,
        }).parameters() == bytes::be16_bytes(list.len() as u16) + list + state,
{
    let handles = seq![handle];
    assert(handles.drop_last() =~= seq![]);
    assert(pdu::handle_bytes(handles.drop_last()) =~= seq![]);
    assert(pdu::handle_bytes(handles) =~= bytes::be32_bytes(handle));
    assert(bytes::be16_bytes(1) =~= seq![0x00u8, 0x01u8]);
}

// ---------------------------------------------------------------------------
// Answers
// ---------------------------------------------------------------------------

/// A search is answered with the number of all records that match, and with
/// their handles: in ascending order, no more than were asked for, and in one
/// answer no more than fit, four bytes each beside eleven. The rest is kept, and
/// the answer says whether there is any.
#[verifier::rlimit(50)]
pub proof fn law_search_is_answered(
    m: ServerModel,
    id: u16,
    pattern: ElementModel,
    most: u16,
    state: Seq<u8>,
    peer_mtu: u16,
    handles: Seq<u32>,
)
    requires
        state.len() <= 1,
        peer_mtu >= 11,
        server::lists_matches(handles, m.service_records, pattern),
    ensures
        ({
            let (after, response) = server::answer(
                m,
                PduModel::ServiceSearchRequest {
                    transaction_id: id,
                    service_search_pattern: pattern,
                    maximum_service_record_count: most,
                    continuation_state: state,
                },
                peer_mtu,
            );
            let wanted = if handles.len() > most {
                handles.take(most as int)
            } else {
                handles
            };
            let n = (peer_mtu - 11) / 4;
            &&& after.service_records == m.service_records
            &&& wanted.len() <= n ==> after.current_response is None && response
                == (PduModel::ServiceSearchResponse {
                transaction_id: id,
                total_service_record_count: handles.len() as u16,
                service_record_handle_list: wanted,
                continuation_state: seq![0x00u8],
            })
            &&& wanted.len() > n ==> after.current_response == Some(
                PendingModel::Handles(handles.len() as u16, wanted.skip(n)),
            ) && response == (PduModel::ServiceSearchResponse {
                transaction_id: id,
                total_service_record_count: handles.len() as u16,
                service_record_handle_list: wanted.take(n),
                continuation_state: seq![0x01u8, 0x00u8],
            })
        }),
{
    server::lemma_matching_handles(handles, m.service_records, pattern);
}

/// Requests that cannot be served are refused with the error that says why, and
/// change no record: a handle that does not exist, an answer that is no request,
/// and bytes that are no PDU.
#[verifier::rlimit(50)]
pub proof fn law_refusals(
    m: ServerModel,
    id: u16,
    handle: u32,
    most: u16,
    ids: ElementModel,
    state: Seq<u8>,
    code: u16,
    request: Seq<u8>,
    peer_mtu: u16,
)
    requires
        !m.service_records.contains_key(handle),
        state.len() <= 1,
        pdu::pdu_of(request) is None,
    ensures
        server::answer(
            m,
            (PduModel::ServiceAttributeRequest {
                transaction_id: id,
                service_record_handle: handle,
                maximum_attribute_byte_count: most,
                attribute_id_list: ids,
                continuation_state: state,
            }),
            peer_mtu,
        ).1 == (PduModel::ErrorResponse { transaction_id: id, error_code: 0x0002 }),
        server::answer(
            m,
            (PduModel::ErrorResponse { transaction_id: id, error_code: code }),
            peer_mtu,
        ) == (m, PduModel::ErrorResponse { transaction_id: id, error_code: 0x0003 }),
        server::answer_bytes(m, request, peer_mtu) == (
            m,
            seq![0x01u8, 0x00u8, 0x00u8, 0x00u8, 0x02u8, 0x00u8, 0x03u8],
        ),
{
    reveal(server::answer_bytes);
    let refused = PduModel::ErrorResponse { transaction_id: 0, error_code: 3 };
    assert(refused.bytes() =~= seq![0x01u8, 0x00u8, 0x00u8, 0x00u8, 0x02u8, 0x00u8, 0x03u8]);
}

/// A continuation that the server did not hand out is refused with its error.
#[verifier::rlimit(50)]
pub proof fn law_foreign_continuation(
    m: ServerModel,
    id: u16,
    pattern: ElementModel,
    most: u16,
    state: Seq<u8>,
    peer_mtu: u16,
)
    requires
        state.len() > 1,
        m.current_response is None || state != seq![0x01u8, 0x00u8],
    ensures
        server::answer(
            m,
            (PduModel::ServiceSearchRequest {
                transaction_id: id,
                service_search_pattern: pattern,
                maximum_service_record_count: most,
                continuation_state: state,
            }),
            peer_mtu,
        ) == (m, PduModel::ErrorResponse { transaction_id: id, error_code: 0x0005 }),
{
}

/// What is asked for by a number alone is the attribute with that ID; by two
/// numbers in four bytes, the attributes with IDs from the first to the second.
#[verifier::rlimit(50)]
pub proof fn law_asked_attributes(a: AttributeModel, id: u16, start: u16, end: u16)
    ensures
        server::requested(seq![a], seq![ElementModel::UnsignedInteger(id as u64, 2)]).contains(a)
            <==> a.id == id,
        server::requested(
            seq![a],
            seq![ElementModel::UnsignedInteger((start * 65536 + end) as u64, 4)],
        ).contains(a) <==> start <= a.id <= end,
{
    let one = seq![ElementModel::UnsignedInteger(id as u64, 2)];
    let range = seq![ElementModel::UnsignedInteger((start * 65536 + end) as u64, 4)];
    let service = seq![a];
    let none: Seq<AttributeModel> = seq![];
    assert(one.drop_last() =~= seq![] && range.drop_last() =~= seq![]);
    assert(service.drop_last() =~= none);
    assert(server::in_range(none, id, id) =~= none && server::in_range(none, start, end) =~= none);
    assert(server::requested(service, one.drop_last()) =~= none);
    assert(server::requested(service, range.drop_last()) =~= none);
    let v = (start * 65536 + end) as u64;
    assert(v / 65536 == start && v % 65536 == end);
    assert(server::requested(service, one) =~= server::in_range(service, id, id));
    assert(server::requested(service, range) =~= server::in_range(service, start, end));
    assert(none.push(a)[0] == a);
}

// ---------------------------------------------------------------------------
// Replies at the client
// ---------------------------------------------------------------------------

/// A reply that is an error ends the request with that error, one of another
/// kind and one that is no PDU end it too; otherwise its part is taken, and it
/// is the last exactly if its continuation is a single zero.
pub proof fn law_replies(response: Seq<u8>)
    ensures
        match pdu::pdu_of(response) {
            None => client::search_part(response) is Failed && client::attribute_part(
                response,
            ) is Failed && client::search_attribute_part(response) is Failed,
            Some(PduModel::ErrorResponse { error_code, .. }) => {
                let why = ReplyModel::<u8>::Failed(
                    SimbleErrorModel::DeviceError(
                        "SDP: peer returned error "@ + text::hex16(error_code),
                    ),
                );
                client::attribute_part(response) == why && client::search_attribute_part(response)
                    == why && client::search_part(response) is Failed
            },
            Some(
                PduModel::ServiceSearchResponse {
                    service_record_handle_list,
                    continuation_state,
                    ..
                },
            ) => {
                &&& client::attribute_part(response) is Failed
                &&& client::search_attribute_part(response) is Failed
                &&& client::search_part(response) == if continuation_state == seq![0u8] {
                    ReplyModel::Last(service_record_handle_list)
                } else {
                    ReplyModel::More(service_record_handle_list, continuation_state)
                }
            },
            Some(PduModel::ServiceAttributeResponse { attribute_list, continuation_state, .. }) => {
                &&& client::search_part(response) is Failed
                &&& client::search_attribute_part(response) is Failed
                &&& client::attribute_part(response) == if continuation_state == seq![0u8] {
                    ReplyModel::Last(attribute_list)
                } else {
                    ReplyModel::More(attribute_list, continuation_state)
                }
            },
            Some(
                PduModel::ServiceSearchAttributeResponse {
                    attribute_lists,
                    continuation_state,
                    ..
                },
            ) => {
                &&& client::search_part(response) is Failed
                &&& client::attribute_part(response) is Failed
                &&& client::search_attribute_part(response) == if continuation_state == seq![0u8] {
                    ReplyModel::Last(attribute_lists)
                } else {
                    ReplyModel::More(attribute_lists, continuation_state)
                }
            },
            Some(_) => client::search_part(response) is Failed && client::attribute_part(
                response,
            ) is Failed && client::search_attribute_part(response) is Failed,
        },
{
    reveal(client::search_part);
    reveal(client::attribute_part);
    reveal(client::search_attribute_part);
    assert forall|s: Seq<u8>| #[trigger] client::is_final(s) == (s == seq![0u8]) by {
        assert(client::is_final(s) ==> s =~= seq![0u8]);
    }
}

/// The value of an attribute is that of the first with its ID.
pub proof fn law_first_attribute_counts(list: Seq<AttributeModel>, id: u16, i: int)
    requires
        0 <= i <= list.len(),
        forall|j: int| 0 <= j < i ==> (#[trigger] list[j]).id != id,
        i < list.len() ==> list[i].id == id,
    ensures
        i < list.len() ==> record::attribute_in(list, id) == Some(list[i].value),
        i == list.len() ==> record::attribute_in(list, id) is None,
    decreases i,
{
    if i > 0 {
        assert(list[0].id != id);
        let rest = list.skip(1);
        assert forall|j: int| 0 <= j < i - 1 implies (#[trigger] rest[j]).id != id by {
            assert(rest[j] == list[j + 1]);
        }
        law_first_attribute_counts(rest, id, i - 1);
    }
}

/// A client asks with one transaction after the other, starting over behind the
/// last; asks for as much as there is; and gives up after 64 replies.
pub proof fn law_client_requests(
    id: u16,
    n: int,
    handle: u32,
    uuids: Seq<SdpUuid>,
    ids: Seq<AttributeIdSpec>,
    state: Seq<u8>,
)
    requires
        0 <= n,
    ensures
        client::transaction_after(id, 0) == id,
        client::transaction_after(id, n + 1) == if client::transaction_after(id, n) == 0xFFFF {
            0
        } else {
            client::transaction_after(id, n) + 1
        },
        client::search_pattern(uuids) == ElementModel::Sequence(
            uuids.map_values(|u: SdpUuid| ElementModel::Uuid(u)),
        ),
        client::search_requests(uuids)(id, state) == (PduModel::ServiceSearchRequest {
            transaction_id: id,
            service_search_pattern: client::search_pattern(uuids),
            maximum_service_record_count: 0xFFFF,
            continuation_state: state,
        }).bytes(),
        client::attribute_requests(handle, ids)(id, state) == (PduModel::ServiceAttributeRequest {
            transaction_id: id,
            service_record_handle: handle,
            maximum_attribute_byte_count: 0xFFFF,
            attribute_id_list: pdu::attribute_id_list_element(ids),
            continuation_state: state,
        }).bytes(),
        client::search_attribute_requests(uuids, ids)(id, state) == (
        PduModel::ServiceSearchAttributeRequest {
            transaction_id: id,
            service_search_pattern: client::search_pattern(uuids),
            maximum_attribute_byte_count: 0xFFFF,
            attribute_id_list: pdu::attribute_id_list_element(ids),
            continuation_state: state,
        }).bytes(),
        crate::classic::sdp::SDP_CONTINUATION_WATCHDOG == 64,
{
    reveal(client::search_requests);
    reveal(client::attribute_requests);
    reveal(client::search_attribute_requests);
    assert(client::search_pattern(uuids)->Sequence_0 =~= uuids.map_values(
        |u: SdpUuid| ElementModel::Uuid(u),
    ));
}

/// What is asked for one by one stands in two bytes, a range in four, its first
/// ID before its last.
pub proof fn law_asked_ids(ids: Seq<AttributeIdSpec>, i: int)
    requires
        0 <= i < ids.len(),
    ensures
        pdu::attribute_id_list_element(ids) is Sequence,
        pdu::attribute_id_list_element(ids)->Sequence_0.len() == ids.len(),
        pdu::attribute_id_list_element(ids)->Sequence_0[i] == match ids[i] {
            AttributeIdSpec::Single(v) => ElementModel::UnsignedInteger(v as u64, 2),
            AttributeIdSpec::Range(first, last) => ElementModel::UnsignedInteger(
                (first * 65536 + last) as u64,
                4,
            ),
        },
{
}

} // verus!
