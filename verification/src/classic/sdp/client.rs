//! The SDP client.

use vstd::prelude::*;
use crate::bytes;
use crate::classic::sdp::element;
use crate::classic::sdp::element::{DataElement, ElementModel, SdpUuid};
use crate::classic::sdp::pdu;
use crate::classic::sdp::pdu::{AttributeIdSpec, PduModel, SdpPdu};
use crate::classic::sdp::record;
use crate::classic::sdp::record::{AttributeModel, ServiceAttribute};
use crate::classic::sdp::SDP_CONTINUATION_WATCHDOG;
use crate::models;
use crate::text;
use crate::types::{SimbleError, SimbleErrorModel};

verus! {

// ---------------------------------------------------------------------------
// Errors
// ---------------------------------------------------------------------------

/// The error for a response that cannot be parsed.
pub open spec fn malformed() -> SimbleErrorModel {
    SimbleErrorModel::PacketParseError("SDP: malformed response"@)
}

/// The error for a response of the wrong kind.
pub open spec fn unexpected() -> SimbleErrorModel {
    SimbleErrorModel::PacketParseError("SDP: unexpected response PDU type"@)
}

/// The error for an answer that does not come to an end.
pub open spec fn endless() -> SimbleErrorModel {
    SimbleErrorModel::DeviceError("SDP: continuation watchdog exceeded"@)
}

/// The error for an error response.
pub open spec fn refused(code: u16) -> SimbleErrorModel {
    SimbleErrorModel::DeviceError("SDP: peer returned error "@ + text::hex16(code))
}

fn malformed_element() -> (r: SimbleError)
    ensures
        r@ == malformed(),
{
    SimbleError::PacketParseError(text::owned("SDP: malformed response"))
}

fn unexpected_response() -> (r: SimbleError)
    ensures
        r@ == unexpected(),
{
    SimbleError::PacketParseError(text::owned("SDP: unexpected response PDU type"))
}

fn watchdog_exceeded() -> (r: SimbleError)
    ensures
        r@ == endless(),
{
    SimbleError::DeviceError(text::owned("SDP: continuation watchdog exceeded"))
}

fn sdp_error(code: u16) -> (r: SimbleError)
    ensures
        r@ == refused(code),
{
    let mut message = text::owned("SDP: peer returned error ");
    text::append_hex16(&mut message, code);
    SimbleError::DeviceError(message)
}

// ---------------------------------------------------------------------------
// One response
// ---------------------------------------------------------------------------

/// What one response contributes to an answer.
#[derive(Debug)]
pub enum Reply<T> {
    /// The request failed.
    Failed(SimbleError),
    /// A part of the answer, and the continuation state to ask for more with.
    More(Vec<T>, Vec<u8>),
    /// The last part of the answer.
    Last(Vec<T>),
}

/// The model of a [`Reply`].
#[verifier::ext_equal]
#[verifier::reject_recursive_types(T)]
pub enum ReplyModel<T> {
    Failed(SimbleErrorModel),
    More(Seq<T>, Seq<u8>),
    Last(Seq<T>),
}

impl<T> View for Reply<T> {
    type V = ReplyModel<T>;

    open spec fn view(&self) -> ReplyModel<T> {
        match self {
            Reply::Failed(why) => ReplyModel::Failed(why@),
            Reply::More(part, state) => ReplyModel::More(part@, state@),
            Reply::Last(part) => ReplyModel::Last(part@),
        }
    }
}

/// Whether a continuation state says that the answer is complete: it is a
/// single zero byte.
pub open spec fn is_final(state: Seq<u8>) -> bool {
    state.len() == 1 && state[0] == 0
}

/// Whether a response's continuation state says "that was all of it".
pub fn is_final_continuation(state: &[u8]) -> (r: bool)
    ensures
        r == is_final(state@),
{
    state.len() == 1 && state[0] == 0
}

/// A part of an answer, with the continuation state that came with it.
pub open spec fn part_of<T>(part: Seq<T>, state: Seq<u8>) -> ReplyModel<T> {
    if is_final(state) {
        ReplyModel::Last(part)
    } else {
        ReplyModel::More(part, state)
    }
}

/// What a response to a service search contributes.
#[verifier::opaque]
pub open spec fn search_part(response: Seq<u8>) -> ReplyModel<u32> {
    match pdu::pdu_of(response) {
        None => ReplyModel::Failed(malformed()),
        Some(PduModel::ServiceSearchResponse {
            service_record_handle_list,
            continuation_state,
            ..
        }) => part_of(service_record_handle_list, continuation_state),
        Some(PduModel::ErrorResponse { error_code, .. }) => ReplyModel::Failed(refused(error_code)),
        Some(_) => ReplyModel::Failed(unexpected()),
    }
}

/// What a response to an attribute request contributes.
#[verifier::opaque]
pub open spec fn attribute_part(response: Seq<u8>) -> ReplyModel<u8> {
    match pdu::pdu_of(response) {
        None => ReplyModel::Failed(malformed()),
        Some(PduModel::ServiceAttributeResponse { attribute_list, continuation_state, .. }) => {
            part_of(attribute_list, continuation_state)
        },
        Some(PduModel::ErrorResponse { error_code, .. }) => ReplyModel::Failed(refused(error_code)),
        Some(_) => ReplyModel::Failed(unexpected()),
    }
}

/// What a response to a combined search and attribute request contributes.
#[verifier::opaque]
pub open spec fn search_attribute_part(response: Seq<u8>) -> ReplyModel<u8> {
    match pdu::pdu_of(response) {
        None => ReplyModel::Failed(malformed()),
        Some(PduModel::ServiceSearchAttributeResponse {
            attribute_lists,
            continuation_state,
            ..
        }) => part_of(attribute_lists, continuation_state),
        Some(PduModel::ErrorResponse { error_code, .. }) => ReplyModel::Failed(refused(error_code)),
        Some(_) => ReplyModel::Failed(unexpected()),
    }
}

/// Reads a response to a service search.
pub fn read_search_response(response: &[u8]) -> (r: Reply<u32>)
    ensures
        r@ == search_part(response@),
{
    reveal(search_part);
    match SdpPdu::parse(response) {
        None => Reply::Failed(malformed_element()),
        Some(SdpPdu::ServiceSearchResponse {
            service_record_handle_list,
            continuation_state,
            ..
        }) => {
            if is_final_continuation(&continuation_state) {
                Reply::Last(service_record_handle_list)
            } else {
                Reply::More(service_record_handle_list, continuation_state)
            }
        },
        Some(SdpPdu::ErrorResponse { error_code, .. }) => Reply::Failed(sdp_error(error_code)),
        Some(_) => Reply::Failed(unexpected_response()),
    }
}

/// Reads a response to an attribute request.
pub fn read_attribute_response(response: &[u8]) -> (r: Reply<u8>)
    ensures
        r@ == attribute_part(response@),
{
    reveal(attribute_part);
    match SdpPdu::parse(response) {
        None => Reply::Failed(malformed_element()),
        Some(SdpPdu::ServiceAttributeResponse { attribute_list, continuation_state, .. }) => {
            if is_final_continuation(&continuation_state) {
                Reply::Last(attribute_list)
            } else {
                Reply::More(attribute_list, continuation_state)
            }
        },
        Some(SdpPdu::ErrorResponse { error_code, .. }) => Reply::Failed(sdp_error(error_code)),
        Some(_) => Reply::Failed(unexpected_response()),
    }
}

/// Reads a response to a combined search and attribute request.
pub fn read_search_attribute_response(response: &[u8]) -> (r: Reply<u8>)
    ensures
        r@ == search_attribute_part(response@),
{
    reveal(search_attribute_part);
    match SdpPdu::parse(response) {
        None => Reply::Failed(malformed_element()),
        Some(SdpPdu::ServiceSearchAttributeResponse {
            attribute_lists,
            continuation_state,
            ..
        }) => {
            if is_final_continuation(&continuation_state) {
                Reply::Last(attribute_lists)
            } else {
                Reply::More(attribute_lists, continuation_state)
            }
        },
        Some(SdpPdu::ErrorResponse { error_code, .. }) => Reply::Failed(sdp_error(error_code)),
        Some(_) => Reply::Failed(unexpected_response()),
    }
}

// ---------------------------------------------------------------------------
// A whole answer
// ---------------------------------------------------------------------------

/// Where a request stands after some responses.
#[verifier::ext_equal]
#[verifier::reject_recursive_types(T)]
pub enum Progress<T> {
    /// More has to be asked for, with this continuation state.
    Open(Seq<T>, Seq<u8>),
    /// The answer is complete.
    Done(Seq<T>),
    /// The request failed.
    Failed(SimbleErrorModel),
}

/// Where a request stands after one more response.
pub open spec fn advance<T>(p: Progress<T>, part: ReplyModel<T>) -> Progress<T> {
    match p {
        Progress::Open(gathered, _) => match part {
            ReplyModel::Failed(why) => Progress::Failed(why),
            ReplyModel::More(more, state) => Progress::Open(gathered + more, state),
            ReplyModel::Last(more) => Progress::Done(gathered + more),
        },
        _ => p,
    }
}

/// Where a request stands after some responses, whose contributions `part`
/// gives.
pub open spec fn progress<T>(
    part: spec_fn(Seq<u8>) -> ReplyModel<T>,
    responses: Seq<Seq<u8>>,
) -> Progress<T>
    decreases responses.len(),
{
    if responses.len() == 0 {
        Progress::Open(seq![], seq![0u8])
    } else {
        advance(progress(part, responses.drop_last()), part(responses.last()))
    }
}

/// The continuation state to ask with next.
pub open spec fn state_of<T>(p: Progress<T>) -> Seq<u8> {
    match p {
        Progress::Open(_, state) => state,
        _ => seq![],
    }
}

/// The models of both sides of a result.
pub open spec fn outcome<T: View>(r: Result<Vec<T>, SimbleError>) -> Result<
    Seq<T::V>,
    SimbleErrorModel,
> {
    match r {
        Ok(items) => Ok(models::seq_views(items@)),
        Err(why) => Err(why@),
    }
}

/// The model of both sides of a result with handles.
pub open spec fn handles_outcome(r: Result<Vec<u32>, SimbleError>) -> Result<
    Seq<u32>,
    SimbleErrorModel,
> {
    match r {
        Ok(handles) => Ok(handles@),
        Err(why) => Err(why@),
    }
}

/// What a service search comes to.
pub open spec fn search_outcome(p: Progress<u32>) -> Result<Seq<u32>, SimbleErrorModel> {
    match p {
        Progress::Open(..) => Err(endless()),
        Progress::Done(handles) => Ok(handles),
        Progress::Failed(why) => Err(why),
    }
}

/// The attributes in the bytes of an answer.
pub open spec fn attributes_in(answer: Seq<u8>) -> Result<Seq<AttributeModel>, SimbleErrorModel> {
    match element::element_of(answer) {
        None => Err(malformed()),
        Some((e, _)) => match e.sequence() {
            None => Err(unexpected()),
            Some(items) => Ok(record::attributes_of(items)),
        },
    }
}

/// What an attribute request comes to.
pub open spec fn attribute_outcome(p: Progress<u8>) -> Result<
    Seq<AttributeModel>,
    SimbleErrorModel,
> {
    match p {
        Progress::Open(..) => Err(endless()),
        Progress::Done(answer) => attributes_in(answer),
        Progress::Failed(why) => Err(why),
    }
}

/// The attribute lists among elements; what is not a sequence is skipped.
pub open spec fn lists_in(items: Seq<ElementModel>) -> Seq<Seq<AttributeModel>>
    decreases items.len(),
{
    if items.len() == 0 {
        seq![]
    } else {
        let before = lists_in(items.drop_last());
        match items.last().sequence() {
            Some(list) => before.push(record::attributes_of(list)),
            None => before,
        }
    }
}

/// The attribute lists in the bytes of an answer.
pub open spec fn attribute_lists_in(answer: Seq<u8>) -> Result<
    Seq<Seq<AttributeModel>>,
    SimbleErrorModel,
> {
    match element::element_of(answer) {
        None => Err(malformed()),
        Some((e, _)) => match e.sequence() {
            None => Err(unexpected()),
            Some(items) => Ok(lists_in(items)),
        },
    }
}

/// What a combined request comes to.
pub open spec fn search_attribute_outcome(p: Progress<u8>) -> Result<
    Seq<Seq<AttributeModel>>,
    SimbleErrorModel,
> {
    match p {
        Progress::Open(..) => Err(endless()),
        Progress::Done(answer) => attribute_lists_in(answer),
        Progress::Failed(why) => Err(why),
    }
}

/// The models of lists of attributes.
pub open spec fn list_views(lists: Seq<Vec<ServiceAttribute>>) -> Seq<Seq<AttributeModel>> {
    Seq::new(lists.len(), |i: int| models::seq_views(lists[i]@))
}

/// The models of both sides of a result with lists of attributes.
pub open spec fn lists_outcome(r: Result<Vec<Vec<ServiceAttribute>>, SimbleError>) -> Result<
    Seq<Seq<AttributeModel>>,
    SimbleErrorModel,
> {
    match r {
        Ok(lists) => Ok(list_views(lists@)),
        Err(why) => Err(why@),
    }
}

/// Reads the attributes in the bytes of an answer.
pub fn read_attributes(answer: &[u8]) -> (r: Result<Vec<ServiceAttribute>, SimbleError>)
    ensures
        outcome(r) == attributes_in(answer@),
{
    match DataElement::from_bytes(answer) {
        None => Err(malformed_element()),
        Some(e) => match e.as_sequence() {
            None => Err(unexpected_response()),
            Some(items) => Ok(ServiceAttribute::list_from_data_elements(items)),
        },
    }
}

/// Reads the attribute lists in the bytes of an answer.
pub fn read_attribute_lists(answer: &[u8]) -> (r: Result<Vec<Vec<ServiceAttribute>>, SimbleError>)
    ensures
        lists_outcome(r) == attribute_lists_in(answer@),
{
    match DataElement::from_bytes(answer) {
        None => Err(malformed_element()),
        Some(e) => match e.as_sequence() {
            None => Err(unexpected_response()),
            Some(items) => {
                let ghost all = models::seq_views(items@);
                let mut lists: Vec<Vec<ServiceAttribute>> = Vec::new();
                let mut i: usize = 0;
                assert(list_views(lists@) =~= lists_in(all.take(0)));
                while i < items.len()
                    invariant
                        i <= items@.len(),
                        all == models::seq_views(items@),
                        list_views(lists@) == lists_in(all.take(i as int)),
                    decreases items@.len() - i,
                {
                    assert(all.take(i + 1).drop_last() =~= all.take(i as int));
                    assert(all.take(i + 1).last() == items@[i as int]@);
                    if let Some(list) = items[i].as_sequence() {
                        let ghost before = lists@;
                        let attributes = ServiceAttribute::list_from_data_elements(list);
                        lists.push(attributes);
                        assert(list_views(lists@) =~= list_views(before).push(
                            models::seq_views(attributes@),
                        ));
                    }
                    i = i + 1;
                }
                assert(all.take(i as int) =~= all);
                Ok(lists)
            },
        },
    }
}

// ---------------------------------------------------------------------------
// The client
// ---------------------------------------------------------------------------

/// SDP client: builds request PDUs and asks for continuations until an answer
/// is complete. The transport is whatever moves a request to the peer and
/// gives back its response.
#[derive(Debug)]
pub struct SdpClient {
    next_transaction_id: u16,
}

impl View for SdpClient {
    type V = u16;

    closed spec fn view(&self) -> u16 {
        self.next_transaction_id
    }
}

impl Default for SdpClient {
    fn default() -> (r: Self)
        ensures
            r@ == 0,
    {
        SdpClient { next_transaction_id: 0 }
    }
}

/// The transaction ID that follows `id` after `n` requests.
pub open spec fn transaction_after(id: u16, n: int) -> u16 {
    ((id + n) % 0x1_0000) as u16
}

/// The element that asks for services with UUIDs.
pub open spec fn search_pattern(uuids: Seq<SdpUuid>) -> ElementModel {
    ElementModel::Sequence(Seq::new(uuids.len(), |i: int| ElementModel::Uuid(uuids[i])))
}

fn make_pattern(uuids: &[SdpUuid]) -> (r: DataElement)
    ensures
        r@ == search_pattern(uuids@),
        r@.encodable(),
{
    let mut items: Vec<DataElement> = Vec::new();
    let mut i: usize = 0;
    while i < uuids.len()
        invariant
            i <= uuids@.len(),
            items@.len() == i,
            forall|j: int| 0 <= j < i ==> (#[trigger] items@[j])@ == ElementModel::Uuid(uuids@[j]),
        decreases uuids@.len() - i,
    {
        items.push(DataElement::uuid(uuids[i]));
        i = i + 1;
    }
    let ghost elements = models::seq_views(items@);
    assert(elements =~= search_pattern(uuids@)->Sequence_0);
    assert(element::all_encodable(elements)) by {
        assert forall|k: int| 0 <= k < elements.len() implies (#[trigger] elements[k]).encodable() by {
            assert(elements[k] == ElementModel::Uuid(uuids@[k]));
        }
    }
    DataElement::sequence(items)
}

/// Whether a transport may have answered the bytes of a request with a
/// response.
pub open spec fn answered<F: FnMut(&[u8]) -> Vec<u8>>(
    transport: F,
    request: Seq<u8>,
    response: Vec<u8>,
) -> bool {
    exists|sent: &[u8]| sent@ == request && #[trigger] call_ensures(transport, (sent,), response)
}

/// The bytes of the request for services, by transaction ID and continuation
/// state.
#[verifier::opaque]
pub open spec fn search_requests(uuids: Seq<SdpUuid>) -> spec_fn(u16, Seq<u8>) -> Seq<u8> {
    |transaction_id: u16, continuation_state: Seq<u8>|
        PduModel::ServiceSearchRequest {
            transaction_id,
            service_search_pattern: search_pattern(uuids),
            maximum_service_record_count: 0xFFFF,
            continuation_state,
        }.bytes()
}

/// The bytes of the request for a record's attributes, by transaction ID and
/// continuation state.
#[verifier::opaque]
pub open spec fn attribute_requests(handle: u32, ids: Seq<AttributeIdSpec>) -> spec_fn(
    u16,
    Seq<u8>,
) -> Seq<u8> {
    |transaction_id: u16, continuation_state: Seq<u8>|
        PduModel::ServiceAttributeRequest {
            transaction_id,
            service_record_handle: handle,
            maximum_attribute_byte_count: 0xFFFF,
            attribute_id_list: pdu::attribute_id_list_element(ids),
            continuation_state,
        }.bytes()
}

/// The bytes of the combined request, by transaction ID and continuation
/// state.
#[verifier::opaque]
pub open spec fn search_attribute_requests(
    uuids: Seq<SdpUuid>,
    ids: Seq<AttributeIdSpec>,
) -> spec_fn(u16, Seq<u8>) -> Seq<u8> {
    |transaction_id: u16, continuation_state: Seq<u8>|
        PduModel::ServiceSearchAttributeRequest {
            transaction_id,
            service_search_pattern: search_pattern(uuids),
            maximum_attribute_byte_count: 0xFFFF,
            attribute_id_list: pdu::attribute_id_list_element(ids),
            continuation_state,
        }.bytes()
}

/// What responses to a service search contribute.
pub open spec fn search_parts() -> spec_fn(Seq<u8>) -> ReplyModel<u32> {
    |response: Seq<u8>| search_part(response)
}

/// What responses to an attribute request contribute.
pub open spec fn attribute_parts() -> spec_fn(Seq<u8>) -> ReplyModel<u8> {
    |response: Seq<u8>| attribute_part(response)
}

/// What responses to a combined request contribute.
pub open spec fn search_attribute_parts() -> spec_fn(Seq<u8>) -> ReplyModel<u8> {
    |response: Seq<u8>| search_attribute_part(response)
}

fn search_request(transaction_id: u16, uuids: &[SdpUuid], state: Vec<u8>) -> (r: Vec<u8>)
    ensures
        r@ == search_requests(uuids@)(transaction_id, state@),
{
    reveal(search_requests);
    SdpPdu::ServiceSearchRequest {
        transaction_id,
        service_search_pattern: make_pattern(uuids),
        maximum_service_record_count: 0xFFFF,
        continuation_state: state,
    }.to_bytes()
}

fn attribute_request(
    transaction_id: u16,
    service_record_handle: u32,
    attribute_ids: &[AttributeIdSpec],
    state: Vec<u8>,
) -> (r: Vec<u8>)
    ensures
        r@ == attribute_requests(service_record_handle, attribute_ids@)(transaction_id, state@),
{
    reveal(attribute_requests);
    SdpPdu::ServiceAttributeRequest {
        transaction_id,
        service_record_handle,
        maximum_attribute_byte_count: 0xFFFF,
        attribute_id_list: pdu::encode_attribute_id_list(attribute_ids),
        continuation_state: state,
    }.to_bytes()
}

fn search_attribute_request(
    transaction_id: u16,
    uuids: &[SdpUuid],
    attribute_ids: &[AttributeIdSpec],
    state: Vec<u8>,
) -> (r: Vec<u8>)
    ensures
        r@ == search_attribute_requests(uuids@, attribute_ids@)(transaction_id, state@),
{
    reveal(search_attribute_requests);
    SdpPdu::ServiceSearchAttributeRequest {
        transaction_id,
        service_search_pattern: make_pattern(uuids),
        maximum_attribute_byte_count: 0xFFFF,
        attribute_id_list: pdu::encode_attribute_id_list(attribute_ids),
        continuation_state: state,
    }.to_bytes()
}

/// Whether a client whose next transaction ID is `id` may have received these
/// responses: each answers the request that the ones before it led to.
#[verifier::opaque]
pub open spec fn dialogue<T, F: FnMut(&[u8]) -> Vec<u8>>(
    transport: F,
    part: spec_fn(Seq<u8>) -> ReplyModel<T>,
    request: spec_fn(u16, Seq<u8>) -> Seq<u8>,
    id: u16,
    responses: Seq<Vec<u8>>,
) -> bool {
    forall|i: int|
        0 <= i < responses.len() ==> {
            let before = progress(part, models::seq_views(responses.take(i)));
            &&& before is Open
            &&& answered(
                transport,
                request(transaction_after(id, i), state_of(before)),
                #[trigger] responses[i],
            )
        }
}

/// Whether a dialogue ended where it had to: at the end of the answer, or at
/// the limit on round trips.
pub open spec fn ended<T>(p: Progress<T>, n: int) -> bool {
    &&& n <= SDP_CONTINUATION_WATCHDOG
    &&& p is Open ==> n == SDP_CONTINUATION_WATCHDOG
}

/// A dialogue starts without responses.
proof fn lemma_dialogue_start<T, F: FnMut(&[u8]) -> Vec<u8>>(
    transport: F,
    part: spec_fn(Seq<u8>) -> ReplyModel<T>,
    request: spec_fn(u16, Seq<u8>) -> Seq<u8>,
    id: u16,
)
    ensures
        dialogue(transport, part, request, id, seq![]),
        progress(part, models::seq_views(Seq::<Vec<u8>>::empty())) == Progress::<T>::Open(
            seq![],
            seq![0u8],
        ),
{
    reveal(dialogue);
}

/// A dialogue goes on with the response to the next request.
#[verifier::spinoff_prover]
#[verifier::rlimit(80)]
proof fn lemma_dialogue_push<T, F: FnMut(&[u8]) -> Vec<u8>>(
    transport: F,
    part: spec_fn(Seq<u8>) -> ReplyModel<T>,
    request: spec_fn(u16, Seq<u8>) -> Seq<u8>,
    id: u16,
    responses: Seq<Vec<u8>>,
    response: Vec<u8>,
)
    requires
        dialogue(transport, part, request, id, responses),
        progress(part, models::seq_views(responses)) is Open,
        answered(
            transport,
            request(
                transaction_after(id, responses.len() as int),
                state_of(progress(part, models::seq_views(responses))),
            ),
            response,
        ),
    ensures
        dialogue(transport, part, request, id, responses.push(response)),
        progress(part, models::seq_views(responses.push(response))) == advance(
            progress(part, models::seq_views(responses)),
            part(response@),
        ),
{
    reveal(dialogue);
    let all = responses.push(response);
    assert forall|i: int| 0 <= i < all.len() implies {
        let before = progress(part, models::seq_views(all.take(i)));
        &&& before is Open
        &&& answered(
            transport,
            request(transaction_after(id, i), state_of(before)),
            #[trigger] all[i],
        )
    } by {
        if i < responses.len() {
            assert(all.take(i) =~= responses.take(i));
            assert(all[i] == responses[i]);
        } else {
            assert(i == responses.len());
            assert(all.take(i) =~= responses);
            assert(all[i] == response);
        }
    }
    assert(models::seq_views(all).drop_last() =~= models::seq_views(responses));
    assert(models::seq_views(all).last() == response@);
}

/// Whether a combined search and attribute request over a transport may come
/// to an outcome, where the client's next transaction ID goes from `id` to
/// `after`: there is a dialogue that ends where it has to, and the outcome is
/// what its responses come to.
pub open spec fn search_attributes_gives<F: FnMut(&[u8]) -> Vec<u8>>(
    transport: F,
    id: u16,
    uuids: Seq<SdpUuid>,
    ids: Seq<AttributeIdSpec>,
    outcome: Result<Seq<Seq<AttributeModel>>, SimbleErrorModel>,
    after: u16,
) -> bool {
    exists|responses: Seq<Vec<u8>>|
        {
            let p = progress(search_attribute_parts(), models::seq_views(responses));
            &&& #[trigger] dialogue(
                transport,
                search_attribute_parts(),
                search_attribute_requests(uuids, ids),
                id,
                responses,
            )
            &&& ended(p, responses.len() as int)
            &&& outcome == search_attribute_outcome(p)
            &&& after == transaction_after(id, responses.len() as int)
        }
}

impl SdpClient {
    /// A client that has not asked anything yet.
    pub fn new() -> (r: Self)
        ensures
            r@ == 0,
    {
        Self::default()
    }

    fn make_transaction_id(&mut self) -> (r: u16)
        ensures
            r == old(self)@,
            final(self)@ == transaction_after(old(self)@, 1),
    {
        let id: u16 = self.next_transaction_id;
        self.next_transaction_id = if id == 0xFFFF {
            0
        } else {
            id + 1
        };
        id
    }

    /// Searches for services that match all of `uuids`, returning their record
    /// handles.
    pub fn search_services(
        &mut self,
        uuids: &[SdpUuid],
        mut transport: impl FnMut(&[u8]) -> Vec<u8>,
    ) -> (r: Result<Vec<u32>, SimbleError>)
        requires
            forall|request: &[u8]| call_requires(transport, (request,)),
        ensures
            exists|responses: Seq<Vec<u8>>|
                {
                    let p = progress(search_parts(), models::seq_views(responses));
                    &&& #[trigger] dialogue(
                        transport,
                        search_parts(),
                        search_requests(uuids@),
                        old(self)@,
                        responses,
                    )
                    &&& ended(p, responses.len() as int)
                    &&& handles_outcome(r) == search_outcome(p)
                    &&& final(self)@ == transaction_after(old(self)@, responses.len() as int)
                },
    {
        let mut gathered: Vec<u32> = Vec::new();
        let mut state: Vec<u8> = vec![0u8];
        let ghost mut responses: Seq<Vec<u8>> = seq![];
        let ghost id = self@;
        let ghost channel = transport;
        let ghost part = search_parts();
        let ghost request_bytes = search_requests(uuids@);
        assert(gathered@ =~= seq![]);
        assert(state@ =~= seq![0u8]);
        proof {
            lemma_dialogue_start(channel, part, request_bytes, id);
        }
        let mut round: u32 = 0;
        while round < SDP_CONTINUATION_WATCHDOG
            invariant
                round <= SDP_CONTINUATION_WATCHDOG,
                responses.len() == round,
                self@ == transaction_after(id, round as int),
                progress(part, models::seq_views(responses)) == Progress::Open(gathered@, state@),
                transport == channel,
                dialogue(channel, part, request_bytes, id, responses),
            decreases SDP_CONTINUATION_WATCHDOG - round,
        {
            let ghost earlier = responses;
            let ghost asked = state@;
            let transaction_id: u16 = self.make_transaction_id();
            let wire = search_request(transaction_id, uuids, state);
            assert(wire@ == request_bytes(transaction_id, asked));
            let response = transport(wire.as_slice());
            proof {
                responses = responses.push(response);
                assert(answered(channel, request_bytes(transaction_id, asked), response));
                lemma_dialogue_push(channel, part, request_bytes, id, earlier, response);
            }
            match read_search_response(&response) {
                Reply::Failed(why) => {
                    return Err(why);
                },
                Reply::Last(mut rest) => {
                    gathered.append(&mut rest);
                    return Ok(gathered);
                },
                Reply::More(mut more, next) => {
                    gathered.append(&mut more);
                    state = next;
                },
            }
            round = round + 1;
        }
        Err(watchdog_exceeded())
    }

    /// Fetches attributes of one service record by handle.
    pub fn get_attributes(
        &mut self,
        service_record_handle: u32,
        attribute_ids: &[AttributeIdSpec],
        mut transport: impl FnMut(&[u8]) -> Vec<u8>,
    ) -> (r: Result<Vec<ServiceAttribute>, SimbleError>)
        requires
            forall|request: &[u8]| call_requires(transport, (request,)),
        ensures
            exists|responses: Seq<Vec<u8>>|
                {
                    let p = progress(attribute_parts(), models::seq_views(responses));
                    &&& #[trigger] dialogue(
                        transport,
                        attribute_parts(),
                        attribute_requests(service_record_handle, attribute_ids@),
                        old(self)@,
                        responses,
                    )
                    &&& ended(p, responses.len() as int)
                    &&& outcome(r) == attribute_outcome(p)
                    &&& final(self)@ == transaction_after(old(self)@, responses.len() as int)
                },
    {
        let mut gathered: Vec<u8> = Vec::new();
        let mut state: Vec<u8> = vec![0u8];
        let ghost mut responses: Seq<Vec<u8>> = seq![];
        let ghost id = self@;
        let ghost channel = transport;
        let ghost part = attribute_parts();
        let ghost request_bytes = attribute_requests(service_record_handle, attribute_ids@);
        assert(gathered@ =~= seq![]);
        assert(state@ =~= seq![0u8]);
        proof {
            lemma_dialogue_start(channel, part, request_bytes, id);
        }
        let mut round: u32 = 0;
        while round < SDP_CONTINUATION_WATCHDOG
            invariant
                round <= SDP_CONTINUATION_WATCHDOG,
                responses.len() == round,
                self@ == transaction_after(id, round as int),
                progress(part, models::seq_views(responses)) == Progress::Open(gathered@, state@),
                transport == channel,
                dialogue(channel, part, request_bytes, id, responses),
            decreases SDP_CONTINUATION_WATCHDOG - round,
        {
            let ghost earlier = responses;
            let ghost asked = state@;
            let transaction_id: u16 = self.make_transaction_id();
            let wire = attribute_request(
                transaction_id,
                service_record_handle,
                attribute_ids,
                state,
            );
            assert(wire@ == request_bytes(transaction_id, asked));
            let response = transport(wire.as_slice());
            proof {
                responses = responses.push(response);
                assert(answered(channel, request_bytes(transaction_id, asked), response));
                lemma_dialogue_push(channel, part, request_bytes, id, earlier, response);
            }
            match read_attribute_response(&response) {
                Reply::Failed(why) => {
                    return Err(why);
                },
                Reply::Last(mut rest) => {
                    gathered.append(&mut rest);
                    return read_attributes(&gathered);
                },
                Reply::More(mut more, next) => {
                    gathered.append(&mut more);
                    state = next;
                },
            }
            round = round + 1;
        }
        Err(watchdog_exceeded())
    }

    /// Searches for services that match all of `uuids` and fetches their
    /// attributes, in one transaction.
    pub fn search_attributes(
        &mut self,
        uuids: &[SdpUuid],
        attribute_ids: &[AttributeIdSpec],
        mut transport: impl FnMut(&[u8]) -> Vec<u8>,
    ) -> (r: Result<Vec<Vec<ServiceAttribute>>, SimbleError>)
        requires
            forall|request: &[u8]| call_requires(transport, (request,)),
        ensures
            search_attributes_gives(
                transport,
                old(self)@,
                uuids@,
                attribute_ids@,
                lists_outcome(r),
                final(self)@,
            ),
    {
        let mut gathered: Vec<u8> = Vec::new();
        let mut state: Vec<u8> = vec![0u8];
        let ghost mut responses: Seq<Vec<u8>> = seq![];
        let ghost id = self@;
        let ghost channel = transport;
        let ghost part = search_attribute_parts();
        let ghost request_bytes = search_attribute_requests(uuids@, attribute_ids@);
        assert(gathered@ =~= seq![]);
        assert(state@ =~= seq![0u8]);
        proof {
            lemma_dialogue_start(channel, part, request_bytes, id);
        }
        let mut round: u32 = 0;
        while round < SDP_CONTINUATION_WATCHDOG
            invariant
                round <= SDP_CONTINUATION_WATCHDOG,
                responses.len() == round,
                self@ == transaction_after(id, round as int),
                progress(part, models::seq_views(responses)) == Progress::Open(gathered@, state@),
                transport == channel,
                dialogue(channel, part, request_bytes, id, responses),
            decreases SDP_CONTINUATION_WATCHDOG - round,
        {
            let ghost earlier = responses;
            let ghost asked = state@;
            let transaction_id: u16 = self.make_transaction_id();
            let wire = search_attribute_request(transaction_id, uuids, attribute_ids, state);
            assert(wire@ == request_bytes(transaction_id, asked));
            let response = transport(wire.as_slice());
            proof {
                responses = responses.push(response);
                assert(answered(channel, request_bytes(transaction_id, asked), response));
                lemma_dialogue_push(channel, part, request_bytes, id, earlier, response);
            }
            match read_search_attribute_response(&response) {
                Reply::Failed(why) => {
                    return Err(why);
                },
                Reply::Last(mut rest) => {
                    gathered.append(&mut rest);
                    return read_attribute_lists(&gathered);
                },
                Reply::More(mut more, next) => {
                    gathered.append(&mut more);
                    state = next;
                },
            }
            round = round + 1;
        }
        Err(watchdog_exceeded())
    }
}

} // verus!
