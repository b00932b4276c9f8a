//! Service capabilities and the description of stream endpoints.

use vstd::prelude::*;
use crate::bytes;
use crate::classic::avdtp::service_category;
use crate::models;

verus! {

/// Kind of media.
#[derive(Debug, Clone, Copy, PartialEq, Eq, Structural)]
pub enum MediaType {
    Audio,
    Video,
    Multimedia,
}

/// The kind of media that a number stands for.
pub open spec fn media_type_of(value: u8) -> Option<MediaType> {
    match value {
        0x00 => Some(MediaType::Audio),
        0x01 => Some(MediaType::Video),
        0x02 => Some(MediaType::Multimedia),
        _ => None,
    }
}

impl MediaType {
    /// The number of this kind of media.
    pub open spec fn number(self) -> u8 {
        match self {
            MediaType::Audio => 0x00,
            MediaType::Video => 0x01,
            MediaType::Multimedia => 0x02,
        }
    }

    /// The kind of media that a number stands for.
    pub fn from_u8(value: u8) -> (r: Option<Self>)
        ensures
            r == media_type_of(value),
    {
        match value {
            0x00 => Some(MediaType::Audio),
            0x01 => Some(MediaType::Video),
            0x02 => Some(MediaType::Multimedia),
            _ => None,
        }
    }

    /// The number of this kind of media.
    pub fn as_u8(self) -> (r: u8)
        ensures
            r == self.number(),
    {
        match self {
            MediaType::Audio => 0x00,
            MediaType::Video => 0x01,
            MediaType::Multimedia => 0x02,
        }
    }
}

/// Whether an endpoint is a source or a sink.
#[derive(Debug, Clone, Copy, PartialEq, Eq, Structural)]
pub enum StreamEndPointType {
    Source,
    Sink,
}

/// The type of endpoint that a number stands for.
pub open spec fn endpoint_type_of(value: u8) -> Option<StreamEndPointType> {
    match value {
        0x00 => Some(StreamEndPointType::Source),
        0x01 => Some(StreamEndPointType::Sink),
        _ => None,
    }
}

impl StreamEndPointType {
    /// The number of this type of endpoint.
    pub open spec fn number(self) -> u8 {
        match self {
            StreamEndPointType::Source => 0x00,
            StreamEndPointType::Sink => 0x01,
        }
    }

    /// The type of endpoint that a number stands for.
    pub fn from_u8(value: u8) -> (r: Option<Self>)
        ensures
            r == endpoint_type_of(value),
    {
        match value {
            0x00 => Some(StreamEndPointType::Source),
            0x01 => Some(StreamEndPointType::Sink),
            _ => None,
        }
    }

    /// The number of this type of endpoint.
    pub fn as_u8(self) -> (r: u8)
        ensures
            r == self.number(),
    {
        match self {
            StreamEndPointType::Source => 0x00,
            StreamEndPointType::Sink => 0x01,
        }
    }
}

/// Kinds of media and types of endpoints are read back from their numbers, and
/// nothing else is.
pub proof fn law_numbers_round_trip(m: MediaType, t: StreamEndPointType, value: u8)
    ensures
        media_type_of(m.number()) == Some(m),
        media_type_of(value) is Some ==> (media_type_of(value)->0).number() == value,
        endpoint_type_of(t.number()) == Some(t),
        endpoint_type_of(value) is Some ==> (endpoint_type_of(value)->0).number() == value,
{
}

// ---------------------------------------------------------------------------
// Capabilities
// ---------------------------------------------------------------------------

/// One service capability: a category and bytes that depend on it. Those of a
/// media codec can be viewed as [`MediaCodecCapabilities`].
#[derive(Debug, PartialEq, Eq)]
pub struct ServiceCapability {
    pub service_category: u8,
    pub data: Vec<u8>,
}

/// The model of a [`ServiceCapability`].
#[verifier::ext_equal]
pub struct CapabilityModel {
    pub service_category: u8,
    pub data: Seq<u8>,
}

impl View for ServiceCapability {
    type V = CapabilityModel;

    open spec fn view(&self) -> CapabilityModel {
        CapabilityModel { service_category: self.service_category, data: self.data@ }
    }
}

impl Clone for ServiceCapability {
    fn clone(&self) -> (r: Self)
        ensures
            r@ == self@,
    {
        ServiceCapability {
            service_category: self.service_category,
            data: bytes::copy(&self.data),
        }
    }
}

/// A capability without bytes.
pub open spec fn plain_capability(service_category: u8) -> CapabilityModel {
    CapabilityModel { service_category, data: seq![] }
}

/// The capabilities listed from an offset on: category, length and bytes of
/// each.
pub open spec fn capabilities_from(payload: Seq<u8>, at: int) -> Option<Seq<CapabilityModel>>
    decreases payload.len() - at,
{
    if at >= payload.len() {
        Some(seq![])
    } else if at + 2 > payload.len() || at + 2 + payload[at + 1] > payload.len() {
        None
    } else {
        let end = at + 2 + payload[at + 1];
        match capabilities_from(payload, end) {
            Some(rest) => Some(
                seq![
                    CapabilityModel {
                        service_category: payload[at],
                        data: payload.subrange(at + 2, end),
                    },
                ] + rest,
            ),
            None => None,
        }
    }
}

/// The wire form of a capability; the length field has one byte.
pub open spec fn capability_bytes(c: CapabilityModel) -> Seq<u8> {
    seq![c.service_category, (c.data.len() % 0x100) as u8] + c.data
}

/// The wire form of a list of capabilities.
pub open spec fn capability_list_bytes(list: Seq<CapabilityModel>) -> Seq<u8>
    decreases list.len(),
{
    if list.len() == 0 {
        seq![]
    } else {
        capability_list_bytes(list.drop_last()) + capability_bytes(list.last())
    }
}

/// Copies a list of capabilities.
pub fn copy_capabilities(list: &[ServiceCapability]) -> (r: Vec<ServiceCapability>)
    ensures
        models::seq_views(r@) == models::seq_views(list@),
{
    let mut out: Vec<ServiceCapability> = Vec::new();
    let mut i: usize = 0;
    while i < list.len()
        invariant
            i <= list@.len(),
            out@.len() == i,
            forall|j: int| 0 <= j < i ==> (#[trigger] out@[j])@ == list@[j]@,
        decreases list@.len() - i,
    {
        out.push(list[i].clone());
        i = i + 1;
    }
    assert(models::seq_views(out@) =~= models::seq_views(list@));
    out
}

impl ServiceCapability {
    /// A capability without bytes.
    pub fn new(service_category: u8) -> (r: Self)
        ensures
            r@ == plain_capability(service_category),
    {
        let r = ServiceCapability { service_category, data: Vec::new() };
        assert(r@ =~= plain_capability(service_category));
        r
    }

    /// The media transport capability.
    pub fn media_transport() -> (r: Self)
        ensures
            r@ == plain_capability(service_category::MEDIA_TRANSPORT),
    {
        Self::new(service_category::MEDIA_TRANSPORT)
    }

    /// The delay reporting capability.
    pub fn delay_reporting() -> (r: Self)
        ensures
            r@ == plain_capability(service_category::DELAY_REPORTING),
    {
        Self::new(service_category::DELAY_REPORTING)
    }

    /// Parses a list of capabilities.
    pub fn parse_list(payload: &[u8]) -> (r: Option<Vec<ServiceCapability>>)
        ensures
            match r {
                Some(list) => capabilities_from(payload@, 0) == Some(models::seq_views(list@)),
                None => capabilities_from(payload@, 0) is None,
            },
    {
        let ghost whole = capabilities_from(payload@, 0);
        let mut list: Vec<ServiceCapability> = Vec::new();
        let mut at: usize = 0;
        proof {
            if whole is Some {
                assert(models::seq_views(list@) + whole->0 =~= whole->0);
            }
        }
        while at < payload.len()
            invariant
                at <= payload@.len(),
                whole == match capabilities_from(payload@, at as int) {
                    Some(rest) => Some(models::seq_views(list@) + rest),
                    None => None,
                },
            decreases payload@.len() - at,
        {
            if payload.len() - at < 2 {
                return None;
            }
            let length: usize = payload[at + 1] as usize;
            if payload.len() - at - 2 < length {
                return None;
            }
            let ghost before = models::seq_views(list@);
            let capability = ServiceCapability {
                service_category: payload[at],
                data: bytes::copy_range(payload, at + 2, at + 2 + length),
            };
            proof {
                models::lemma_seq_views_push(list@, capability);
                let end = at + 2 + length;
                match capabilities_from(payload@, end as int) {
                    Some(rest) => {
                        assert(before + (seq![capability@] + rest) =~= before.push(capability@)
                            + rest);
                    },
                    None => {},
                }
            }
            list.push(capability);
            at = at + 2 + length;
        }
        assert(models::seq_views(list@) + seq![] =~= models::seq_views(list@));
        Some(list)
    }

    /// Serializes a list of capabilities.
    pub fn serialize_list(capabilities: &[ServiceCapability]) -> (r: Vec<u8>)
        ensures
            r@ == capability_list_bytes(models::seq_views(capabilities@)),
    {
        let ghost all = models::seq_views(capabilities@);
        let mut out: Vec<u8> = Vec::new();
        let mut i: usize = 0;
        assert(out@ =~= capability_list_bytes(all.take(0)));
        while i < capabilities.len()
            invariant
                i <= capabilities@.len(),
                out@ == capability_list_bytes(all.take(i as int)),
            decreases capabilities@.len() - i,
        {
            let ghost before = out@;
            assert(all.take(i + 1).drop_last() =~= all.take(i as int));
            assert(all.take(i + 1).last() == capabilities@[i as int]@);
            let capability = &capabilities[i];
            out.push(capability.service_category);
            out.push((capability.data.len() % 0x100) as u8);
            bytes::push_bytes(&mut out, &capability.data);
            assert(out@ =~= before + capability_bytes(capability@));
            i = i + 1;
        }
        assert(all.take(i as int) =~= all);
        out
    }
}

/// A media codec capability: what it is a codec of, which one, and bytes that
/// the layer above interprets.
#[derive(Debug, PartialEq, Eq)]
pub struct MediaCodecCapabilities {
    pub media_type: MediaType,
    pub media_codec_type: u8,
    pub media_codec_information: Vec<u8>,
}

/// The model of a [`MediaCodecCapabilities`].
#[verifier::ext_equal]
pub struct CodecModel {
    pub media_type: MediaType,
    pub media_codec_type: u8,
    pub media_codec_information: Seq<u8>,
}

impl View for MediaCodecCapabilities {
    type V = CodecModel;

    open spec fn view(&self) -> CodecModel {
        CodecModel {
            media_type: self.media_type,
            media_codec_type: self.media_codec_type,
            media_codec_information: self.media_codec_information@,
        }
    }
}

impl Clone for MediaCodecCapabilities {
    fn clone(&self) -> (r: Self)
        ensures
            r@ == self@,
    {
        MediaCodecCapabilities {
            media_type: self.media_type,
            media_codec_type: self.media_codec_type,
            media_codec_information: bytes::copy(&self.media_codec_information),
        }
    }
}

impl CodecModel {
    /// This codec as a capability.
    pub open spec fn capability(self) -> CapabilityModel {
        CapabilityModel {
            service_category: service_category::MEDIA_CODEC,
            data: seq![self.media_type.number(), self.media_codec_type]
                + self.media_codec_information,
        }
    }
}

/// The codec that a capability describes.
pub open spec fn codec_of(c: CapabilityModel) -> Option<CodecModel> {
    if c.service_category != service_category::MEDIA_CODEC || c.data.len() < 2 {
        None
    } else {
        match media_type_of(c.data[0]) {
            Some(media_type) => Some(
                CodecModel {
                    media_type,
                    media_codec_type: c.data[1],
                    media_codec_information: c.data.skip(2),
                },
            ),
            None => None,
        }
    }
}

impl MediaCodecCapabilities {
    /// This codec as a capability.
    pub fn to_capability(&self) -> (r: ServiceCapability)
        ensures
            r@ == self@.capability(),
    {
        let mut data: Vec<u8> = vec![self.media_type.as_u8(), self.media_codec_type];
        bytes::push_bytes(&mut data, &self.media_codec_information);
        assert(data@ =~= self@.capability().data);
        ServiceCapability { service_category: service_category::MEDIA_CODEC, data }
    }

    /// The codec that a capability describes, if it describes one.
    pub fn from_capability(capability: &ServiceCapability) -> (r: Option<Self>)
        ensures
            models::opt_view(r) == codec_of(capability@),
    {
        if capability.service_category != service_category::MEDIA_CODEC {
            return None;
        }
        if capability.data.len() < 2 {
            return None;
        }
        let media_type = match MediaType::from_u8(capability.data[0]) {
            Some(media_type) => media_type,
            None => {
                return None;
            },
        };
        let information = bytes::copy_range(&capability.data, 2, capability.data.len());
        assert(information@ =~= capability.data@.skip(2));
        Some(
            MediaCodecCapabilities {
                media_type,
                media_codec_type: capability.data[1],
                media_codec_information: information,
            },
        )
    }
}

// ---------------------------------------------------------------------------
// Endpoint information
// ---------------------------------------------------------------------------

/// A SEID as it travels: in the high six bits of a byte.
pub open spec fn seid_byte(seid: u8) -> u8 {
    ((seid % 0x40) * 4) as u8
}

/// Encodes a SEID.
pub(crate) fn seid_to_byte(seid: u8) -> (r: u8)
    ensures
        r == seid_byte(seid),
{
    (seid % 0x40) * 4
}

/// One entry of a discover response.
#[derive(Debug, Clone, Copy, PartialEq, Eq, Structural)]
pub struct SepInfo {
    pub seid: u8,
    pub in_use: bool,
    pub media_type: MediaType,
    pub tsep: StreamEndPointType,
}

/// The entry that two bytes hold.
pub open spec fn sep_info_of(first: u8, second: u8) -> Option<SepInfo> {
    match media_type_of(second / 0x10) {
        Some(media_type) => Some(
            SepInfo {
                seid: first / 4,
                in_use: (first / 2) % 2 == 1,
                media_type,
                tsep: if (second / 8) % 2 == 0 {
                    StreamEndPointType::Source
                } else {
                    StreamEndPointType::Sink
                },
            },
        ),
        None => None,
    }
}

impl SepInfo {
    /// The wire form of this entry.
    pub open spec fn wire(self) -> Seq<u8> {
        seq![
            (seid_byte(self.seid) + if self.in_use {
                2int
            } else {
                0
            }) as u8,
            (self.media_type.number() * 0x10 + self.tsep.number() * 8) as u8,
        ]
    }

    /// Serializes this entry.
    pub fn to_bytes(self) -> (r: [u8; 2])
        ensures
            r@ == self.wire(),
    {
        let flag: u8 = if self.in_use {
            2
        } else {
            0
        };
        let r = [
            seid_to_byte(self.seid) + flag,
            self.media_type.as_u8() * 0x10 + self.tsep.as_u8() * 8,
        ];
        assert(r@ =~= self.wire());
        r
    }

    /// Parses an entry.
    pub fn parse(bytes: &[u8]) -> (r: Option<Self>)
        ensures
            r == if bytes@.len() < 2 {
                None
            } else {
                sep_info_of(bytes@[0], bytes@[1])
            },
    {
        if bytes.len() < 2 {
            return None;
        }
        let media_type = match MediaType::from_u8(bytes[1] / 0x10) {
            Some(media_type) => media_type,
            None => {
                return None;
            },
        };
        let tsep = match StreamEndPointType::from_u8((bytes[1] / 8) % 2) {
            Some(tsep) => tsep,
            None => {
                return None;
            },
        };
        Some(
            SepInfo { seid: bytes[0] / 4, in_use: (bytes[0] / 2) % 2 == 1, media_type, tsep },
        )
    }
}

// ---------------------------------------------------------------------------
// Laws
// ---------------------------------------------------------------------------

/// A codec is read back from its capability.
pub proof fn law_codec_round_trip(c: CodecModel)
    ensures
        codec_of(c.capability()) == Some(c),
{
    assert(c.capability().data.skip(2) =~= c.media_codec_information);
}

/// An entry with a SEID of six bits is read back from its bytes.
pub proof fn law_sep_info_round_trip(info: SepInfo)
    requires
        info.seid < 0x40,
    ensures
        sep_info_of(info.wire()[0], info.wire()[1]) == Some(info),
{
}

/// Whether the lengths of capabilities fit their field.
pub open spec fn capabilities_fit(list: Seq<CapabilityModel>) -> bool {
    forall|i: int| 0 <= i < list.len() ==> (#[trigger] list[i]).data.len() < 0x100
}

proof fn lemma_capability_list_front(list: Seq<CapabilityModel>)
    requires
        list.len() > 0,
    ensures
        capability_list_bytes(list) == capability_bytes(list[0]) + capability_list_bytes(
            list.skip(1),
        ),
    decreases list.len(),
{
    if list.len() == 1 {
        assert(list.drop_last() =~= seq![]);
        assert(list.skip(1) =~= seq![]);
        assert(capability_list_bytes(list) =~= capability_bytes(list[0]) + capability_list_bytes(
            list.skip(1),
        ));
    } else {
        lemma_capability_list_front(list.drop_last());
        assert(list.drop_last().skip(1) =~= list.skip(1).drop_last());
        assert(capability_list_bytes(list) =~= capability_bytes(list[0]) + capability_list_bytes(
            list.skip(1),
        ));
    }
}

proof fn lemma_capabilities_read(prefix: Seq<u8>, list: Seq<CapabilityModel>)
    requires
        capabilities_fit(list),
    ensures
        capabilities_from(prefix + capability_list_bytes(list), prefix.len() as int) == Some(list),
    decreases list.len(),
{
    let payload = prefix + capability_list_bytes(list);
    let at = prefix.len() as int;
    if list.len() == 0 {
        assert(list =~= seq![]);
    } else {
        let c = list[0];
        let rest = list.skip(1);
        lemma_capability_list_front(list);
        assert forall|i: int| 0 <= i < rest.len() implies (#[trigger] rest[i]).data.len()
            < 0x100 by {
            assert(rest[i] == list[i + 1]);
        }
        lemma_capabilities_read(prefix + capability_bytes(c), rest);
        assert(payload =~= (prefix + capability_bytes(c)) + capability_list_bytes(rest));
        assert(payload[at] == c.service_category);
        assert(payload[at + 1] == c.data.len());
        assert(payload.subrange(at + 2, at + 2 + c.data.len()) =~= c.data);
        assert(seq![c] + rest =~= list);
    }
}

/// A list of capabilities is read back from its bytes.
pub proof fn law_capability_list_round_trip(list: Seq<CapabilityModel>)
    requires
        capabilities_fit(list),
    ensures
        capabilities_from(capability_list_bytes(list), 0) == Some(list),
{
    lemma_capabilities_read(seq![], list);
    assert(seq![] + capability_list_bytes(list) =~= capability_list_bytes(list));
}

} // verus!
