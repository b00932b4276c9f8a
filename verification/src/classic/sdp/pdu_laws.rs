//! Serialized PDUs are read back.

use vstd::prelude::*;
use crate::bytes;
use crate::classic::sdp::element;
use crate::classic::sdp::element::{ElementModel, MAX_DATA_ELEMENT_NESTING};
use crate::classic::sdp::element_laws;
use crate::classic::sdp::pdu;
use crate::classic::sdp::pdu::PduModel;

verus! {

/// Whether an element is read back from its wire form.
pub open spec fn faithful(e: ElementModel) -> bool {
    element_laws::well_formed(e) && element_laws::nesting(e) <= MAX_DATA_ELEMENT_NESTING
}

/// Whether the elements in a PDU are read back from their wire form.
pub open spec fn faithful_elements(m: PduModel) -> bool {
    match m {
        PduModel::ServiceSearchRequest { service_search_pattern, .. } => faithful(
            service_search_pattern,
        ),
        PduModel::ServiceAttributeRequest { attribute_id_list, .. } => faithful(attribute_id_list),
        PduModel::ServiceSearchAttributeRequest {
            service_search_pattern,
            attribute_id_list,
            ..
        } => faithful(service_search_pattern) && faithful(attribute_id_list),
        _ => true,
    }
}

/// Handles are read back from their bytes, four to a handle.
pub proof fn lemma_handle_bytes(handles: Seq<u32>)
    ensures
        pdu::handle_bytes(handles).len() == 4 * handles.len(),
        forall|i: int|
            #![trigger handles[i]]
            0 <= i < handles.len() ==> bytes::be32(pdu::handle_bytes(handles), 4 * i) == handles[i],
    decreases handles.len(),
{
    if handles.len() > 0 {
        let before = handles.drop_last();
        lemma_handle_bytes(before);
        bytes::lemma_be32_round_trip(handles.last());
        let b = pdu::handle_bytes(handles);
        assert forall|i: int| #![trigger handles[i]] 0 <= i < handles.len() implies bytes::be32(
            b,
            4 * i,
        ) == handles[i] by {
            if i < handles.len() - 1 {
                assert(before[i] == handles[i]);
                assert(b[4 * i] == pdu::handle_bytes(before)[4 * i]);
                assert(b[4 * i + 1] == pdu::handle_bytes(before)[4 * i + 1]);
                assert(b[4 * i + 2] == pdu::handle_bytes(before)[4 * i + 2]);
                assert(b[4 * i + 3] == pdu::handle_bytes(before)[4 * i + 3]);
            } else {
                let last = bytes::be32_bytes(handles.last());
                assert(b[4 * i] == last[0]);
                assert(b[4 * i + 1] == last[1]);
                assert(b[4 * i + 2] == last[2]);
                assert(b[4 * i + 3] == last[3]);
            }
        }
    }
}

/// Four bytes of a part that starts at the fifth byte of some data.
proof fn lemma_be32_inside(p: Seq<u8>, h: Seq<u8>, j: int)
    requires
        0 <= j,
        j + 4 <= h.len(),
        4 + h.len() <= p.len(),
        p.subrange(4, 4 + h.len() as int) == h,
    ensures
        bytes::be32(p, 4 + j) == bytes::be32(h, j),
{
    let part = p.subrange(4, 4 + h.len() as int);
    assert(part[j] == p[4 + j]);
    assert(part[j + 1] == p[4 + j + 1]);
    assert(part[j + 2] == p[4 + j + 2]);
    assert(part[j + 3] == p[4 + j + 3]);
}

/// Two bytes in the middle of some data.
proof fn lemma_be16_at(data: Seq<u8>, at: int, v: u16)
    requires
        0 <= at,
        at + 2 <= data.len(),
        data.subrange(at, at + 2) == bytes::be16_bytes(v),
    ensures
        bytes::be16(data, at) == v,
{
    bytes::lemma_be16_round_trip(v);
    assert(data.subrange(at, at + 2)[0] == data[at]);
    assert(data.subrange(at, at + 2)[1] == data[at + 1]);
}

proof fn lemma_error_response_read_back(m: PduModel)
    requires
        m is ErrorResponse,
        faithful_elements(m),
        m.parameters().len() <= 0xFFFF,
    ensures
        pdu::pdu_from(m.id(), m.transaction(), m.parameters()) == Some(m),
{
    let p = m.parameters();
    if let PduModel::ErrorResponse { error_code, .. } = m {
        bytes::lemma_be16_round_trip(error_code);
    }
}

proof fn lemma_service_search_request_read_back(m: PduModel)
    requires
        m is ServiceSearchRequest,
        faithful_elements(m),
        m.parameters().len() <= 0xFFFF,
    ensures
        pdu::pdu_from(m.id(), m.transaction(), m.parameters()) == Some(m),
{
    let p = m.parameters();
    if let PduModel::ServiceSearchRequest {
            service_search_pattern,
            maximum_service_record_count,
            continuation_state,
            ..
        } = m {
        let e = element::encode(service_search_pattern);
        let n = e.len() as int;
        let rest = bytes::be16_bytes(maximum_service_record_count) + continuation_state;
        assert(p =~= e + rest);
        element_laws::law_element_round_trip(service_search_pattern, rest);
        assert(p.subrange(n, n + 2) =~= bytes::be16_bytes(maximum_service_record_count));
        lemma_be16_at(p, n, maximum_service_record_count);
        assert(p.skip(n + 2) =~= continuation_state);
    }
}

proof fn lemma_service_search_response_read_back(m: PduModel)
    requires
        m is ServiceSearchResponse,
        faithful_elements(m),
        m.parameters().len() <= 0xFFFF,
    ensures
        pdu::pdu_from(m.id(), m.transaction(), m.parameters()) == Some(m),
{
    let p = m.parameters();
    if let PduModel::ServiceSearchResponse {
            total_service_record_count,
            service_record_handle_list,
            continuation_state,
            ..
        } = m {
        let h = pdu::handle_bytes(service_record_handle_list);
        lemma_handle_bytes(service_record_handle_list);
        let count = service_record_handle_list.len();
        assert(p.len() == 4 + 4 * count + continuation_state.len());
        assert(p.subrange(0, 2) =~= bytes::be16_bytes(total_service_record_count));
        lemma_be16_at(p, 0, total_service_record_count);
        assert(p.subrange(2, 4) =~= bytes::be16_bytes(count as u16));
        lemma_be16_at(p, 2, count as u16);
        assert(p.subrange(4, 4 + h.len() as int) =~= h);
        let read = Seq::new(count, |i: int| bytes::be32(p, 4 + 4 * i));
        assert forall|i: int| 0 <= i < count implies #[trigger] read[i]
            == service_record_handle_list[i] by {
            assert(bytes::be32(h, 4 * i) == service_record_handle_list[i]);
            lemma_be32_inside(p, h, 4 * i);
        }
        assert(read =~= service_record_handle_list);
        assert(p.skip((4 + 4 * count) as int) =~= continuation_state);
    }
}

proof fn lemma_service_attribute_request_read_back(m: PduModel)
    requires
        m is ServiceAttributeRequest,
        faithful_elements(m),
        m.parameters().len() <= 0xFFFF,
    ensures
        pdu::pdu_from(m.id(), m.transaction(), m.parameters()) == Some(m),
{
    let p = m.parameters();
    if let PduModel::ServiceAttributeRequest {
            service_record_handle,
            maximum_attribute_byte_count,
            attribute_id_list,
            continuation_state,
            ..
        } = m {
        let e = element::encode(attribute_id_list);
        bytes::lemma_be32_round_trip(service_record_handle);
        assert(p[0] == bytes::be32_bytes(service_record_handle)[0]);
        assert(p[1] == bytes::be32_bytes(service_record_handle)[1]);
        assert(p[2] == bytes::be32_bytes(service_record_handle)[2]);
        assert(p[3] == bytes::be32_bytes(service_record_handle)[3]);
        assert(p.subrange(4, 6) =~= bytes::be16_bytes(maximum_attribute_byte_count));
        lemma_be16_at(p, 4, maximum_attribute_byte_count);
        assert(p.skip(6) =~= e + continuation_state);
        element_laws::law_element_round_trip(attribute_id_list, continuation_state);
        assert(p.skip(6 + e.len() as int) =~= continuation_state);
    }
}

proof fn lemma_service_attribute_response_read_back(m: PduModel)
    requires
        m is ServiceAttributeResponse,
        faithful_elements(m),
        m.parameters().len() <= 0xFFFF,
    ensures
        pdu::pdu_from(m.id(), m.transaction(), m.parameters()) == Some(m),
{
    let p = m.parameters();
    if let PduModel::ServiceAttributeResponse { attribute_list, continuation_state, .. } = m {
        let n = attribute_list.len() as int;
        assert(p.subrange(0, 2) =~= bytes::be16_bytes(n as u16));
        lemma_be16_at(p, 0, n as u16);
        assert(p.subrange(2, 2 + n) =~= attribute_list);
        assert(p.skip(2 + n) =~= continuation_state);
    }
}

proof fn lemma_service_search_attribute_request_read_back(m: PduModel)
    requires
        m is ServiceSearchAttributeRequest,
        faithful_elements(m),
        m.parameters().len() <= 0xFFFF,
    ensures
        pdu::pdu_from(m.id(), m.transaction(), m.parameters()) == Some(m),
{
    let p = m.parameters();
    if let PduModel::ServiceSearchAttributeRequest {
            service_search_pattern,
            maximum_attribute_byte_count,
            attribute_id_list,
            continuation_state,
            ..
        } = m {
        let e = element::encode(service_search_pattern);
        let ids = element::encode(attribute_id_list);
        let n = e.len() as int;
        let rest = bytes::be16_bytes(maximum_attribute_byte_count) + ids + continuation_state;
        assert(p =~= e + rest);
        element_laws::law_element_round_trip(service_search_pattern, rest);
        assert(p.subrange(n, n + 2) =~= bytes::be16_bytes(maximum_attribute_byte_count));
        lemma_be16_at(p, n, maximum_attribute_byte_count);
        assert(p.skip(n + 2) =~= ids + continuation_state);
        element_laws::law_element_round_trip(attribute_id_list, continuation_state);
        assert(p.skip(n + 2 + ids.len() as int) =~= continuation_state);
    }
}

proof fn lemma_service_search_attribute_response_read_back(m: PduModel)
    requires
        m is ServiceSearchAttributeResponse,
        faithful_elements(m),
        m.parameters().len() <= 0xFFFF,
    ensures
        pdu::pdu_from(m.id(), m.transaction(), m.parameters()) == Some(m),
{
    let p = m.parameters();
    if let PduModel::ServiceSearchAttributeResponse { attribute_lists, continuation_state, .. } = m {
        let n = attribute_lists.len() as int;
        assert(p.subrange(0, 2) =~= bytes::be16_bytes(n as u16));
        lemma_be16_at(p, 0, n as u16);
        assert(p.subrange(2, 2 + n) =~= attribute_lists);
        assert(p.skip(2 + n) =~= continuation_state);
    }
}

proof fn lemma_parameters_read_back(m: PduModel)
    requires
        faithful_elements(m),
        m.parameters().len() <= 0xFFFF,
    ensures
        pdu::pdu_from(m.id(), m.transaction(), m.parameters()) == Some(m),
{
    match m {
        PduModel::ErrorResponse { .. } => {
            lemma_error_response_read_back(m);
        },
        PduModel::ServiceSearchRequest { .. } => {
            lemma_service_search_request_read_back(m);
        },
        PduModel::ServiceSearchResponse { .. } => {
            lemma_service_search_response_read_back(m);
        },
        PduModel::ServiceAttributeRequest { .. } => {
            lemma_service_attribute_request_read_back(m);
        },
        PduModel::ServiceAttributeResponse { .. } => {
            lemma_service_attribute_response_read_back(m);
        },
        PduModel::ServiceSearchAttributeRequest { .. } => {
            lemma_service_search_attribute_request_read_back(m);
        },
        PduModel::ServiceSearchAttributeResponse { .. } => {
            lemma_service_search_attribute_response_read_back(m);
        },
    }
}

/// A serialized PDU is read back, whatever bytes follow it. Its parameters
/// have to fit the 16-bit length field, and its data elements have to have a
/// faithful wire form.
pub proof fn law_pdu_round_trip(m: PduModel, suffix: Seq<u8>)
    requires
        faithful_elements(m),
        m.parameters().len() <= 0xFFFF,
    ensures
        pdu::pdu_of(m.bytes() + suffix) == Some(m),
{
    let p = m.parameters();
    let data = m.bytes() + suffix;
    assert(data.subrange(1, 3) =~= bytes::be16_bytes(m.transaction()));
    lemma_be16_at(data, 1, m.transaction());
    assert(data.subrange(3, 5) =~= bytes::be16_bytes(p.len() as u16));
    lemma_be16_at(data, 3, p.len() as u16);
    assert(data.subrange(5, 5 + p.len() as int) =~= p);
    lemma_parameters_read_back(m);
}

} // verus!
