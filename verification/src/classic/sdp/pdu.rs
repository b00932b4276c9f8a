//! SDP request and response PDUs.

use vstd::prelude::*;
use crate::bytes;
use crate::classic::sdp::element;
use crate::classic::sdp::element::{DataElement, ElementModel};
use crate::classic::sdp::pdu_id;
use crate::models;

verus! {

/// An attribute ID, or an inclusive range of attribute IDs.
#[derive(Debug, Clone, Copy, PartialEq, Eq, Structural)]
pub enum AttributeIdSpec {
    /// A single attribute ID.
    Single(u16),
    /// An inclusive `(start, end)` range of attribute IDs.
    Range(u16, u16),
}

/// The data element that asks for an attribute ID or range: a range is a
/// 4-byte integer with the start in its upper half.
pub open spec fn attribute_id_element(id: AttributeIdSpec) -> ElementModel {
    match id {
        AttributeIdSpec::Single(v) => ElementModel::UnsignedInteger(v as u64, 2),
        AttributeIdSpec::Range(start, end) => ElementModel::UnsignedInteger(
            (start * 0x1_0000 + end) as u64,
            4,
        ),
    }
}

/// The data element that asks for attribute IDs and ranges.
pub open spec fn attribute_id_list_element(ids: Seq<AttributeIdSpec>) -> ElementModel {
    ElementModel::Sequence(Seq::new(ids.len(), |i: int| attribute_id_element(ids[i])))
}

/// Builds the data element that asks for attribute IDs and ranges.
pub fn encode_attribute_id_list(ids: &[AttributeIdSpec]) -> (r: DataElement)
    ensures
        r@ == attribute_id_list_element(ids@),
        r@.encodable(),
{
    let mut items: Vec<DataElement> = Vec::new();
    let mut i: usize = 0;
    while i < ids.len()
        invariant
            i <= ids@.len(),
            items@.len() == i,
            forall|j: int| 0 <= j < i ==> (#[trigger] items@[j])@ == attribute_id_element(ids@[j]),
        decreases ids@.len() - i,
    {
        let item = match ids[i] {
            AttributeIdSpec::Single(v) => DataElement::unsigned_integer_16(v),
            AttributeIdSpec::Range(start, end) => DataElement::unsigned_integer_32(
                start as u32 * 0x1_0000 + end as u32,
            ),
        };
        items.push(item);
        i = i + 1;
    }
    let ghost elements = models::seq_views(items@);
    assert(elements =~= attribute_id_list_element(ids@)->Sequence_0);
    assert(element::all_encodable(elements)) by {
        assert forall|i: int| 0 <= i < elements.len() implies (#[trigger] elements[i]).encodable() by {
            assert(elements[i] == attribute_id_element(ids@[i]));
        }
    }
    DataElement::sequence(items)
}

/// An SDP request or response PDU.
#[derive(Debug, Clone, PartialEq)]
pub enum SdpPdu {
    /// An error code for a failed request.
    ErrorResponse { transaction_id: u16, error_code: u16 },
    /// Search for records that match a UUID pattern.
    ServiceSearchRequest {
        transaction_id: u16,
        service_search_pattern: DataElement,
        maximum_service_record_count: u16,
        continuation_state: Vec<u8>,
    },
    /// Matching service record handles.
    ServiceSearchResponse {
        transaction_id: u16,
        total_service_record_count: u16,
        service_record_handle_list: Vec<u32>,
        continuation_state: Vec<u8>,
    },
    /// Request for attributes of one service record.
    ServiceAttributeRequest {
        transaction_id: u16,
        service_record_handle: u32,
        maximum_attribute_byte_count: u16,
        attribute_id_list: DataElement,
        continuation_state: Vec<u8>,
    },
    /// The requested attribute list.
    ServiceAttributeResponse {
        transaction_id: u16,
        attribute_list: Vec<u8>,
        continuation_state: Vec<u8>,
    },
    /// Combined search and attribute request.
    ServiceSearchAttributeRequest {
        transaction_id: u16,
        service_search_pattern: DataElement,
        maximum_attribute_byte_count: u16,
        attribute_id_list: DataElement,
        continuation_state: Vec<u8>,
    },
    /// Attribute lists of all matches.
    ServiceSearchAttributeResponse {
        transaction_id: u16,
        attribute_lists: Vec<u8>,
        continuation_state: Vec<u8>,
    },
}

/// The model of an [`SdpPdu`].
#[verifier::ext_equal]
pub enum PduModel {
    ErrorResponse { transaction_id: u16, error_code: u16 },
    ServiceSearchRequest {
        transaction_id: u16,
        service_search_pattern: ElementModel,
        maximum_service_record_count: u16,
        continuation_state: Seq<u8>,
    },
    ServiceSearchResponse {
        transaction_id: u16,
        total_service_record_count: u16,
        service_record_handle_list: Seq<u32>,
        continuation_state: Seq<u8>,
    },
    ServiceAttributeRequest {
        transaction_id: u16,
        service_record_handle: u32,
        maximum_attribute_byte_count: u16,
        attribute_id_list: ElementModel,
        continuation_state: Seq<u8>,
    },
    ServiceAttributeResponse {
        transaction_id: u16,
        attribute_list: Seq<u8>,
        continuation_state: Seq<u8>,
    },
    ServiceSearchAttributeRequest {
        transaction_id: u16,
        service_search_pattern: ElementModel,
        maximum_attribute_byte_count: u16,
        attribute_id_list: ElementModel,
        continuation_state: Seq<u8>,
    },
    ServiceSearchAttributeResponse {
        transaction_id: u16,
        attribute_lists: Seq<u8>,
        continuation_state: Seq<u8>,
    },
}

impl View for SdpPdu {
    type V = PduModel;

    open spec fn view(&self) -> PduModel {
        match self {
            SdpPdu::ErrorResponse { transaction_id, error_code } => PduModel::ErrorResponse {
                transaction_id: *transaction_id,
                error_code: *error_code,
            },
            SdpPdu::ServiceSearchRequest {
                transaction_id,
                service_search_pattern,
                maximum_service_record_count,
                continuation_state,
            } => PduModel::ServiceSearchRequest {
                transaction_id: *transaction_id,
                service_search_pattern: service_search_pattern@,
                maximum_service_record_count: *maximum_service_record_count,
                continuation_state: continuation_state@,
            },
            SdpPdu::ServiceSearchResponse {
                transaction_id,
                total_service_record_count,
                service_record_handle_list,
                continuation_state,
            } => PduModel::ServiceSearchResponse {
                transaction_id: *transaction_id,
                total_service_record_count: *total_service_record_count,
                service_record_handle_list: service_record_handle_list@,
                continuation_state: continuation_state@,
            },
            SdpPdu::ServiceAttributeRequest {
                transaction_id,
                service_record_handle,
                maximum_attribute_byte_count,
                attribute_id_list,
                continuation_state,
            } => PduModel::ServiceAttributeRequest {
                transaction_id: *transaction_id,
                service_record_handle: *service_record_handle,
                maximum_attribute_byte_count: *maximum_attribute_byte_count,
                attribute_id_list: attribute_id_list@,
                continuation_state: continuation_state@,
            },
            SdpPdu::ServiceAttributeResponse {
                transaction_id,
                attribute_list,
                continuation_state,
            } => PduModel::ServiceAttributeResponse {
                transaction_id: *transaction_id,
                attribute_list: attribute_list@,
                continuation_state: continuation_state@,
            },
            SdpPdu::ServiceSearchAttributeRequest {
                transaction_id,
                service_search_pattern,
                maximum_attribute_byte_count,
                attribute_id_list,
                continuation_state,
            } => PduModel::ServiceSearchAttributeRequest {
                transaction_id: *transaction_id,
                service_search_pattern: service_search_pattern@,
                maximum_attribute_byte_count: *maximum_attribute_byte_count,
                attribute_id_list: attribute_id_list@,
                continuation_state: continuation_state@,
            },
            SdpPdu::ServiceSearchAttributeResponse {
                transaction_id,
                attribute_lists,
                continuation_state,
            } => PduModel::ServiceSearchAttributeResponse {
                transaction_id: *transaction_id,
                attribute_lists: attribute_lists@,
                continuation_state: continuation_state@,
            },
        }
    }
}

/// The wire forms of record handles, one after another.
pub open spec fn handle_bytes(handles: Seq<u32>) -> Seq<u8>
    decreases handles.len(),
{
    if handles.len() == 0 {
        seq![]
    } else {
        handle_bytes(handles.drop_last()) + bytes::be32_bytes(handles.last())
    }
}

impl PduModel {
    /// The identifier of this kind of PDU.
    pub open spec fn id(self) -> u8 {
        match self {
            PduModel::ErrorResponse { .. } => pdu_id::ERROR_RESPONSE,
            PduModel::ServiceSearchRequest { .. } => pdu_id::SERVICE_SEARCH_REQUEST,
            PduModel::ServiceSearchResponse { .. } => pdu_id::SERVICE_SEARCH_RESPONSE,
            PduModel::ServiceAttributeRequest { .. } => pdu_id::SERVICE_ATTRIBUTE_REQUEST,
            PduModel::ServiceAttributeResponse { .. } => pdu_id::SERVICE_ATTRIBUTE_RESPONSE,
            PduModel::ServiceSearchAttributeRequest { .. } => {
                pdu_id::SERVICE_SEARCH_ATTRIBUTE_REQUEST
            },
            PduModel::ServiceSearchAttributeResponse { .. } => {
                pdu_id::SERVICE_SEARCH_ATTRIBUTE_RESPONSE
            },
        }
    }

    /// The transaction that this PDU belongs to.
    pub open spec fn transaction(self) -> u16 {
        match self {
            PduModel::ErrorResponse { transaction_id, .. } => transaction_id,
            PduModel::ServiceSearchRequest { transaction_id, .. } => transaction_id,
            PduModel::ServiceSearchResponse { transaction_id, .. } => transaction_id,
            PduModel::ServiceAttributeRequest { transaction_id, .. } => transaction_id,
            PduModel::ServiceAttributeResponse { transaction_id, .. } => transaction_id,
            PduModel::ServiceSearchAttributeRequest { transaction_id, .. } => transaction_id,
            PduModel::ServiceSearchAttributeResponse { transaction_id, .. } => transaction_id,
        }
    }

    /// Whether the data elements in this PDU can be serialized.
    pub open spec fn encodable(self) -> bool {
        match self {
            PduModel::ServiceSearchRequest { service_search_pattern, .. } => {
                service_search_pattern.encodable()
            },
            PduModel::ServiceAttributeRequest { attribute_id_list, .. } => {
                attribute_id_list.encodable()
            },
            PduModel::ServiceSearchAttributeRequest {
                service_search_pattern,
                attribute_id_list,
                ..
            } => service_search_pattern.encodable() && attribute_id_list.encodable(),
            _ => true,
        }
    }

    /// The parameters of this PDU on the wire.
    pub open spec fn parameters(self) -> Seq<u8> {
        match self {
            PduModel::ErrorResponse { error_code, .. } => bytes::be16_bytes(error_code),
            PduModel::ServiceSearchRequest {
                service_search_pattern,
                maximum_service_record_count,
                continuation_state,
                ..
            } => element::encode(service_search_pattern) + bytes::be16_bytes(
                maximum_service_record_count,
            ) + continuation_state,
            PduModel::ServiceSearchResponse {
                total_service_record_count,
                service_record_handle_list,
                continuation_state,
                ..
            } => bytes::be16_bytes(total_service_record_count) + bytes::be16_bytes(
                service_record_handle_list.len() as u16,
            ) + handle_bytes(service_record_handle_list) + continuation_state,
            PduModel::ServiceAttributeRequest {
                service_record_handle,
                maximum_attribute_byte_count,
                attribute_id_list,
                continuation_state,
                ..
            } => bytes::be32_bytes(service_record_handle) + bytes::be16_bytes(
                maximum_attribute_byte_count,
            ) + element::encode(attribute_id_list) + continuation_state,
            PduModel::ServiceAttributeResponse { attribute_list, continuation_state, .. } => {
                bytes::be16_bytes(attribute_list.len() as u16) + attribute_list
                    + continuation_state
            },
            PduModel::ServiceSearchAttributeRequest {
                service_search_pattern,
                maximum_attribute_byte_count,
                attribute_id_list,
                continuation_state,
                ..
            } => element::encode(service_search_pattern) + bytes::be16_bytes(
                maximum_attribute_byte_count,
            ) + element::encode(attribute_id_list) + continuation_state,
            PduModel::ServiceSearchAttributeResponse { attribute_lists, continuation_state, .. } => {
                bytes::be16_bytes(attribute_lists.len() as u16) + attribute_lists
                    + continuation_state
            },
        }
    }

    /// This PDU on the wire: identifier, transaction, parameter length (its
    /// low 16 bits) and parameters.
    pub open spec fn bytes(self) -> Seq<u8> {
        seq![self.id()] + bytes::be16_bytes(self.transaction()) + bytes::be16_bytes(
            self.parameters().len() as u16,
        ) + self.parameters()
    }
}

/// The PDU that parameters of a kind stand for.
pub open spec fn pdu_from(id: u8, transaction_id: u16, params: Seq<u8>) -> Option<PduModel> {
    if id == pdu_id::ERROR_RESPONSE {
        if params.len() < 2 {
            None
        } else {
            Some(PduModel::ErrorResponse { transaction_id, error_code: bytes::be16(params, 0) })
        }
    } else if id == pdu_id::SERVICE_SEARCH_REQUEST {
        match element::element_of(params) {
            Some((service_search_pattern, at)) => if params.len() < at + 2 {
                None
            } else {
                Some(
                    PduModel::ServiceSearchRequest {
                        transaction_id,
                        service_search_pattern,
                        maximum_service_record_count: bytes::be16(params, at),
                        continuation_state: params.skip(at + 2),
                    },
                )
            },
            None => None,
        }
    } else if id == pdu_id::SERVICE_SEARCH_RESPONSE {
        if params.len() < 4 || params.len() < 4 + 4 * bytes::be16(params, 2) {
            None
        } else {
            let count = bytes::be16(params, 2);
            Some(
                PduModel::ServiceSearchResponse {
                    transaction_id,
                    total_service_record_count: bytes::be16(params, 0),
                    service_record_handle_list: Seq::new(
                        count as nat,
                        |i: int| bytes::be32(params, 4 + 4 * i),
                    ),
                    continuation_state: params.skip(4 + 4 * count),
                },
            )
        }
    } else if id == pdu_id::SERVICE_ATTRIBUTE_REQUEST {
        if params.len() < 6 {
            None
        } else {
            match element::element_of(params.skip(6)) {
                Some((attribute_id_list, n)) => Some(
                    PduModel::ServiceAttributeRequest {
                        transaction_id,
                        service_record_handle: bytes::be32(params, 0),
                        maximum_attribute_byte_count: bytes::be16(params, 4),
                        attribute_id_list,
                        continuation_state: params.skip(6 + n),
                    },
                ),
                None => None,
            }
        }
    } else if id == pdu_id::SERVICE_ATTRIBUTE_RESPONSE {
        if params.len() < 2 || params.len() < 2 + bytes::be16(params, 0) {
            None
        } else {
            let n = 2 + bytes::be16(params, 0);
            Some(
                PduModel::ServiceAttributeResponse {
                    transaction_id,
                    attribute_list: params.subrange(2, n),
                    continuation_state: params.skip(n),
                },
            )
        }
    } else if id == pdu_id::SERVICE_SEARCH_ATTRIBUTE_REQUEST {
        match element::element_of(params) {
            Some((service_search_pattern, at)) => if params.len() < at + 2 {
                None
            } else {
                match element::element_of(params.skip(at + 2)) {
                    Some((attribute_id_list, n)) => Some(
                        PduModel::ServiceSearchAttributeRequest {
                            transaction_id,
                            service_search_pattern,
                            maximum_attribute_byte_count: bytes::be16(params, at),
                            attribute_id_list,
                            continuation_state: params.skip(at + 2 + n),
                        },
                    ),
                    None => None,
                }
            },
            None => None,
        }
    } else if id == pdu_id::SERVICE_SEARCH_ATTRIBUTE_RESPONSE {
        if params.len() < 2 || params.len() < 2 + bytes::be16(params, 0) {
            None
        } else {
            let n = 2 + bytes::be16(params, 0);
            Some(
                PduModel::ServiceSearchAttributeResponse {
                    transaction_id,
                    attribute_lists: params.subrange(2, n),
                    continuation_state: params.skip(n),
                },
            )
        }
    } else {
        None
    }
}

/// The PDU that bytes encode. Bytes after the parameters are ignored.
pub open spec fn pdu_of(data: Seq<u8>) -> Option<PduModel> {
    if data.len() < 5 || data.len() < 5 + bytes::be16(data, 3) {
        None
    } else {
        pdu_from(data[0], bytes::be16(data, 1), data.subrange(5, 5 + bytes::be16(data, 3)))
    }
}

/// A parsed element has integers of proper width only.
pub proof fn lemma_parsed_encodable(data: Seq<u8>, at: int, depth: int)
    requires
        depth <= element::MAX_DATA_ELEMENT_NESTING,
    ensures
        element::parse_at(data, at, depth) is Some ==> (element::parse_at(
            data,
            at,
            depth,
        )->0).0.encodable(),
    decreases element::MAX_DATA_ELEMENT_NESTING - depth, 1int, 0int,
{
    if 0 <= at < data.len() {
        match element::value_extent(data, at) {
            Some((start, len)) => {
                if depth < element::MAX_DATA_ELEMENT_NESTING {
                    lemma_parsed_items_encodable(data, start, start + len, depth);
                }
            },
            None => {},
        }
    }
}

proof fn lemma_parsed_items_encodable(data: Seq<u8>, at: int, end: int, depth: int)
    requires
        depth < element::MAX_DATA_ELEMENT_NESTING,
    ensures
        element::parse_items(data, at, end, depth) is Some ==> element::all_encodable(
            element::parse_items(data, at, end, depth)->0,
        ),
    decreases element::MAX_DATA_ELEMENT_NESTING - depth, 0int, end - at,
{
    if at < end {
        lemma_parsed_encodable(data, at, depth + 1);
        match element::parse_at(data, at, depth + 1) {
            Some((first, next)) => {
                if at < next <= end {
                    lemma_parsed_items_encodable(data, next, end, depth);
                }
            },
            None => {},
        }
    }
}

impl SdpPdu {
    fn pdu_id(&self) -> (r: u8)
        ensures
            r == self@.id(),
    {
        match self {
            SdpPdu::ErrorResponse { .. } => pdu_id::ERROR_RESPONSE,
            SdpPdu::ServiceSearchRequest { .. } => pdu_id::SERVICE_SEARCH_REQUEST,
            SdpPdu::ServiceSearchResponse { .. } => pdu_id::SERVICE_SEARCH_RESPONSE,
            SdpPdu::ServiceAttributeRequest { .. } => pdu_id::SERVICE_ATTRIBUTE_REQUEST,
            SdpPdu::ServiceAttributeResponse { .. } => pdu_id::SERVICE_ATTRIBUTE_RESPONSE,
            SdpPdu::ServiceSearchAttributeRequest { .. } => {
                pdu_id::SERVICE_SEARCH_ATTRIBUTE_REQUEST
            },
            SdpPdu::ServiceSearchAttributeResponse { .. } => {
                pdu_id::SERVICE_SEARCH_ATTRIBUTE_RESPONSE
            },
        }
    }

    /// The transaction that this PDU belongs to.
    pub fn transaction_id(&self) -> (r: u16)
        ensures
            r == self@.transaction(),
    {
        match self {
            SdpPdu::ErrorResponse { transaction_id, .. } => *transaction_id,
            SdpPdu::ServiceSearchRequest { transaction_id, .. } => *transaction_id,
            SdpPdu::ServiceSearchResponse { transaction_id, .. } => *transaction_id,
            SdpPdu::ServiceAttributeRequest { transaction_id, .. } => *transaction_id,
            SdpPdu::ServiceAttributeResponse { transaction_id, .. } => *transaction_id,
            SdpPdu::ServiceSearchAttributeRequest { transaction_id, .. } => *transaction_id,
            SdpPdu::ServiceSearchAttributeResponse { transaction_id, .. } => *transaction_id,
        }
    }

    fn push_handles(out: &mut Vec<u8>, handles: &Vec<u32>)
        ensures
            final(out)@ == old(out)@ + handle_bytes(handles@),
    {
        let ghost before = out@;
        let mut i: usize = 0;
        assert(handle_bytes(handles@.take(0)) =~= seq![]);
        assert(out@ =~= before + handle_bytes(handles@.take(0)));
        while i < handles.len()
            invariant
                i <= handles@.len(),
                out@ == before + handle_bytes(handles@.take(i as int)),
            decreases handles@.len() - i,
        {
            assert(handles@.take(i + 1).drop_last() =~= handles@.take(i as int));
            assert(handles@.take(i + 1).last() == handles@[i as int]);
            let ghost sofar = out@;
            bytes::push_be32(out, handles[i]);
            assert(out@ =~= before + handle_bytes(handles@.take(i + 1)));
            i = i + 1;
        }
        assert(handles@.take(i as int) =~= handles@);
    }

    fn parameters(&self) -> (r: Vec<u8>)
        requires
            self@.encodable(),
        ensures
            r@ == self@.parameters(),
    {
        let mut out: Vec<u8> = Vec::new();
        match self {
            SdpPdu::ErrorResponse { error_code, .. } => {
                bytes::push_be16(&mut out, *error_code);
            },
            SdpPdu::ServiceSearchRequest {
                service_search_pattern,
                maximum_service_record_count,
                continuation_state,
                ..
            } => {
                out = service_search_pattern.to_bytes();
                bytes::push_be16(&mut out, *maximum_service_record_count);
                bytes::push_bytes(&mut out, continuation_state);
            },
            SdpPdu::ServiceSearchResponse {
                total_service_record_count,
                service_record_handle_list,
                continuation_state,
                ..
            } => {
                bytes::push_be16(&mut out, *total_service_record_count);
                bytes::push_be16(&mut out, service_record_handle_list.len() as u16);
                Self::push_handles(&mut out, service_record_handle_list);
                bytes::push_bytes(&mut out, continuation_state);
            },
            SdpPdu::ServiceAttributeRequest {
                service_record_handle,
                maximum_attribute_byte_count,
                attribute_id_list,
                continuation_state,
                ..
            } => {
                bytes::push_be32(&mut out, *service_record_handle);
                bytes::push_be16(&mut out, *maximum_attribute_byte_count);
                bytes::push_bytes(&mut out, &attribute_id_list.to_bytes());
                bytes::push_bytes(&mut out, continuation_state);
            },
            SdpPdu::ServiceAttributeResponse { attribute_list, continuation_state, .. } => {
                bytes::push_be16(&mut out, attribute_list.len() as u16);
                bytes::push_bytes(&mut out, attribute_list);
                bytes::push_bytes(&mut out, continuation_state);
            },
            SdpPdu::ServiceSearchAttributeRequest {
                service_search_pattern,
                maximum_attribute_byte_count,
                attribute_id_list,
                continuation_state,
                ..
            } => {
                out = service_search_pattern.to_bytes();
                bytes::push_be16(&mut out, *maximum_attribute_byte_count);
                bytes::push_bytes(&mut out, &attribute_id_list.to_bytes());
                bytes::push_bytes(&mut out, continuation_state);
            },
            SdpPdu::ServiceSearchAttributeResponse { attribute_lists, continuation_state, .. } => {
                bytes::push_be16(&mut out, attribute_lists.len() as u16);
                bytes::push_bytes(&mut out, attribute_lists);
                bytes::push_bytes(&mut out, continuation_state);
            },
        }
        assert(out@ =~= self@.parameters());
        out
    }

    /// Serializes the full PDU: 5-byte header and parameters.
    pub fn to_bytes(&self) -> (r: Vec<u8>)
        requires
            self@.encodable(),
        ensures
            r@ == self@.bytes(),
    {
        let params = self.parameters();
        let mut out: Vec<u8> = Vec::new();
        out.push(self.pdu_id());
        bytes::push_be16(&mut out, self.transaction_id());
        bytes::push_be16(&mut out, params.len() as u16);
        bytes::push_bytes(&mut out, &params);
        assert(out@ =~= self@.bytes());
        out
    }

    /// Parses a full PDU (5-byte header and parameters).
    pub fn parse(data: &[u8]) -> (r: Option<SdpPdu>)
        ensures
            models::opt_view(r) == pdu_of(data@),
            r is Some ==> r->0@.encodable(),
    {
        if data.len() < 5 {
            return None;
        }
        let id: u8 = data[0];
        let transaction_id: u16 = bytes::read_be16(data, 1);
        let n: usize = bytes::read_be16(data, 3) as usize;
        if data.len() - 5 < n {
            return None;
        }
        Self::parse_parameters(id, transaction_id, bytes::range(data, 5, 5 + n))
    }

    fn parse_element(params: &[u8], at: usize) -> (r: Option<(DataElement, usize)>)
        requires
            at <= params@.len(),
        ensures
            match r {
                Some((e, end)) => element::element_of(params@.skip(at as int)) == Some(
                    (e@, (end - at) as int),
                ) && at <= end <= params@.len() && e@.encodable(),
                None => element::element_of(params@.skip(at as int)) is None,
            },
    {
        let rest = bytes::range(params, at, params.len());
        assert(rest@ =~= params@.skip(at as int));
        proof {
            reveal(element::element_of);
            lemma_parsed_encodable(rest@, 0, 0);
        }
        match DataElement::parse(rest) {
            Some((e, n)) => Some((e, at + n)),
            None => None,
        }
    }

    fn rest_of(params: &[u8], at: usize) -> (r: Vec<u8>)
        requires
            at <= params@.len(),
        ensures
            r@ == params@.skip(at as int),
    {
        let r = bytes::copy_range(params, at, params.len());
        assert(r@ =~= params@.skip(at as int));
        r
    }

    fn parse_parameters(id: u8, transaction_id: u16, params: &[u8]) -> (r: Option<SdpPdu>)
        ensures
            models::opt_view(r) == pdu_from(id, transaction_id, params@),
            r is Some ==> r->0@.encodable(),
    {
        assert(params@.skip(0) =~= params@);
        match id {
            pdu_id::ERROR_RESPONSE => {
                if params.len() < 2 {
                    return None;
                }
                Some(
                    SdpPdu::ErrorResponse {
                        transaction_id,
                        error_code: bytes::read_be16(params, 0),
                    },
                )
            },
            pdu_id::SERVICE_SEARCH_REQUEST => {
                let (service_search_pattern, at) = Self::parse_element(params, 0)?;
                if params.len() - at < 2 {
                    return None;
                }
                Some(
                    SdpPdu::ServiceSearchRequest {
                        transaction_id,
                        service_search_pattern,
                        maximum_service_record_count: bytes::read_be16(params, at),
                        continuation_state: Self::rest_of(params, at + 2),
                    },
                )
            },
            pdu_id::SERVICE_SEARCH_RESPONSE => {
                if params.len() < 4 {
                    return None;
                }
                let count: usize = bytes::read_be16(params, 2) as usize;
                if (params.len() - 4) / 4 < count {
                    return None;
                }
                let mut handles: Vec<u32> = Vec::new();
                let mut i: usize = 0;
                while i < count
                    invariant
                        i <= count <= 0xFFFF,
                        4 + 4 * count <= params@.len(),
                        handles@.len() == i,
                        forall|j: int|
                            0 <= j < i ==> #[trigger] handles@[j] == bytes::be32(
                                params@,
                                4 + 4 * j,
                            ),
                    decreases count - i,
                {
                    handles.push(bytes::read_be32(params, 4 + 4 * i));
                    i = i + 1;
                }
                let r = SdpPdu::ServiceSearchResponse {
                    transaction_id,
                    total_service_record_count: bytes::read_be16(params, 0),
                    service_record_handle_list: handles,
                    continuation_state: Self::rest_of(params, 4 + 4 * count),
                };
                assert(handles@ =~= Seq::new(
                    count as nat,
                    |i: int| bytes::be32(params@, 4 + 4 * i),
                ));
                Some(r)
            },
            pdu_id::SERVICE_ATTRIBUTE_REQUEST => {
                if params.len() < 6 {
                    return None;
                }
                let (attribute_id_list, at) = Self::parse_element(params, 6)?;
                Some(
                    SdpPdu::ServiceAttributeRequest {
                        transaction_id,
                        service_record_handle: bytes::read_be32(params, 0),
                        maximum_attribute_byte_count: bytes::read_be16(params, 4),
                        attribute_id_list,
                        continuation_state: Self::rest_of(params, at),
                    },
                )
            },
            pdu_id::SERVICE_ATTRIBUTE_RESPONSE => {
                if params.len() < 2 {
                    return None;
                }
                let n: usize = bytes::read_be16(params, 0) as usize;
                if params.len() - 2 < n {
                    return None;
                }
                Some(
                    SdpPdu::ServiceAttributeResponse {
                        transaction_id,
                        attribute_list: bytes::copy_range(params, 2, 2 + n),
                        continuation_state: Self::rest_of(params, 2 + n),
                    },
                )
            },
            pdu_id::SERVICE_SEARCH_ATTRIBUTE_REQUEST => {
                let (service_search_pattern, at) = Self::parse_element(params, 0)?;
                if params.len() - at < 2 {
                    return None;
                }
                let (attribute_id_list, end) = Self::parse_element(params, at + 2)?;
                Some(
                    SdpPdu::ServiceSearchAttributeRequest {
                        transaction_id,
                        service_search_pattern,
                        maximum_attribute_byte_count: bytes::read_be16(params, at),
                        attribute_id_list,
                        continuation_state: Self::rest_of(params, end),
                    },
                )
            },
            pdu_id::SERVICE_SEARCH_ATTRIBUTE_RESPONSE => {
                if params.len() < 2 {
                    return None;
                }
                let n: usize = bytes::read_be16(params, 0) as usize;
                if params.len() - 2 < n {
                    return None;
                }
                Some(
                    SdpPdu::ServiceSearchAttributeResponse {
                        transaction_id,
                        attribute_lists: bytes::copy_range(params, 2, 2 + n),
                        continuation_state: Self::rest_of(params, 2 + n),
                    },
                )
            },
            _ => None,
        }
    }
}

} // verus!
