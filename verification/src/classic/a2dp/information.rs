//! Codec information: what a codec can do, or what it was configured for.

use vstd::prelude::*;
use crate::bytes;
use crate::classic::a2dp::codec_type;
use crate::classic::a2dp::sbc::sampling_frequency;
use crate::classic::avdtp::capability::{CodecModel, MediaCodecCapabilities, MediaType};
use crate::models;

verus! {

// ---------------------------------------------------------------------------
// SBC
// ---------------------------------------------------------------------------

/// SBC codec information. Several bits in a mask express a capability, exactly
/// one a configuration.
#[derive(Debug, Clone, Copy, PartialEq, Eq, Structural)]
pub struct SbcMediaCodecInformation {
    /// Sampling frequencies (`sbc::sampling_frequency`).
    pub sampling_frequency: u8,
    /// Channel modes (`sbc::channel_mode`).
    pub channel_mode: u8,
    /// Block lengths (`sbc::block_length`).
    pub block_length: u8,
    /// Numbers of subbands (`sbc::subbands`).
    pub subbands: u8,
    /// Bit allocation methods (`sbc::allocation_method`).
    pub allocation_method: u8,
    /// Minimum bitpool value.
    pub minimum_bitpool_value: u8,
    /// Maximum bitpool value.
    pub maximum_bitpool_value: u8,
}

/// The SBC information that bytes hold.
pub open spec fn sbc_of(data: Seq<u8>) -> Option<SbcMediaCodecInformation> {
    if data.len() < 4 {
        None
    } else {
        Some(
            SbcMediaCodecInformation {
                sampling_frequency: data[0] / 0x10,
                channel_mode: data[0] % 0x10,
                block_length: data[1] / 0x10,
                subbands: (data[1] / 4) % 4,
                allocation_method: data[1] % 4,
                minimum_bitpool_value: data[2],
                maximum_bitpool_value: data[3],
            },
        )
    }
}

/// The larger of two numbers.
pub open spec fn larger(a: u8, b: u8) -> u8 {
    if a > b {
        a
    } else {
        b
    }
}

/// The smaller of two numbers.
pub open spec fn smaller(a: u8, b: u8) -> u8 {
    if a < b {
        a
    } else {
        b
    }
}

/// What two SBC capabilities have in common: the common bits of every mask,
/// and the overlap of the bitpool ranges.
pub open spec fn common(a: SbcMediaCodecInformation, b: SbcMediaCodecInformation) ->
    SbcMediaCodecInformation {
    SbcMediaCodecInformation {
        sampling_frequency: a.sampling_frequency & b.sampling_frequency,
        channel_mode: a.channel_mode & b.channel_mode,
        block_length: a.block_length & b.block_length,
        subbands: a.subbands & b.subbands,
        allocation_method: a.allocation_method & b.allocation_method,
        minimum_bitpool_value: larger(a.minimum_bitpool_value, b.minimum_bitpool_value),
        maximum_bitpool_value: smaller(a.maximum_bitpool_value, b.maximum_bitpool_value),
    }
}

/// Whether there is something to choose: a bit in every mask, and a bitpool
/// value.
pub open spec fn usable(i: SbcMediaCodecInformation) -> bool {
    &&& i.sampling_frequency != 0
    &&& i.channel_mode != 0
    &&& i.block_length != 0
    &&& i.subbands != 0
    &&& i.allocation_method != 0
    &&& i.minimum_bitpool_value <= i.maximum_bitpool_value
}

/// The bit for a sampling rate in Hz.
pub open spec fn frequency_flag(hz: u32) -> Option<u8> {
    match hz {
        16000 => Some(sampling_frequency::SF_16000),
        32000 => Some(sampling_frequency::SF_32000),
        44100 => Some(sampling_frequency::SF_44100),
        48000 => Some(sampling_frequency::SF_48000),
        _ => None,
    }
}

impl SbcMediaCodecInformation {
    /// The wire form of this information.
    pub open spec fn wire(self) -> Seq<u8> {
        seq![
            (self.sampling_frequency << 4) | self.channel_mode,
            (self.block_length << 4) | (self.subbands << 2) | self.allocation_method,
            self.minimum_bitpool_value,
            self.maximum_bitpool_value,
        ]
    }

    /// Decodes SBC information.
    pub fn parse(data: &[u8]) -> (r: Option<Self>)
        ensures
            r == sbc_of(data@),
    {
        if data.len() < 4 {
            return None;
        }
        Some(
            SbcMediaCodecInformation {
                sampling_frequency: data[0] / 0x10,
                channel_mode: data[0] % 0x10,
                block_length: data[1] / 0x10,
                subbands: (data[1] / 4) % 4,
                allocation_method: data[1] % 4,
                minimum_bitpool_value: data[2],
                maximum_bitpool_value: data[3],
            },
        )
    }

    /// Encodes SBC information.
    pub fn to_bytes(self) -> (r: [u8; 4])
        ensures
            r@ == self.wire(),
    {
        let r = [
            (self.sampling_frequency << 4) | self.channel_mode,
            (self.block_length << 4) | (self.subbands << 2) | self.allocation_method,
            self.minimum_bitpool_value,
            self.maximum_bitpool_value,
        ];
        assert(r@ =~= self.wire());
        r
    }

    /// The bit for a sampling rate in Hz.
    pub fn sampling_frequency_flag(hz: u32) -> (r: Option<u8>)
        ensures
            r == frequency_flag(hz),
    {
        match hz {
            16000 => Some(sampling_frequency::SF_16000),
            32000 => Some(sampling_frequency::SF_32000),
            44100 => Some(sampling_frequency::SF_44100),
            48000 => Some(sampling_frequency::SF_48000),
            _ => None,
        }
    }

    /// What two capabilities have in common, or `None` if there is nothing
    /// that both can do.
    pub fn intersect(&self, other: &Self) -> (r: Option<Self>)
        ensures
            r == if usable(common(*self, *other)) {
                Some(common(*self, *other))
            } else {
                None
            },
    {
        let result = SbcMediaCodecInformation {
            sampling_frequency: self.sampling_frequency & other.sampling_frequency,
            channel_mode: self.channel_mode & other.channel_mode,
            block_length: self.block_length & other.block_length,
            subbands: self.subbands & other.subbands,
            allocation_method: self.allocation_method & other.allocation_method,
            minimum_bitpool_value: if self.minimum_bitpool_value > other.minimum_bitpool_value {
                self.minimum_bitpool_value
            } else {
                other.minimum_bitpool_value
            },
            maximum_bitpool_value: if self.maximum_bitpool_value < other.maximum_bitpool_value {
                self.maximum_bitpool_value
            } else {
                other.maximum_bitpool_value
            },
        };
        if result.sampling_frequency != 0 && result.channel_mode != 0 && result.block_length != 0
            && result.subbands != 0 && result.allocation_method != 0
            && result.minimum_bitpool_value <= result.maximum_bitpool_value {
            Some(result)
        } else {
            None
        }
    }
}

// ---------------------------------------------------------------------------
// AAC
// ---------------------------------------------------------------------------

/// MPEG-2/4 AAC codec information.
#[derive(Debug, Clone, Copy, PartialEq, Eq, Structural)]
pub struct AacMediaCodecInformation {
    /// Object types (`aac::object_type`).
    pub object_type: u8,
    /// Sampling frequencies, in 12 bits (`aac::sampling_frequency`).
    pub sampling_frequency: u16,
    /// Numbers of channels (`aac::channels`).
    pub channels: u8,
    /// Whether variable bit rate is supported.
    pub vbr: bool,
    /// Maximum bit rate, in 23 bits; 0 if unknown.
    pub bitrate: u32,
}

/// The AAC information that bytes hold.
pub open spec fn aac_of(data: Seq<u8>) -> Option<AacMediaCodecInformation> {
    if data.len() < 6 {
        None
    } else {
        Some(
            AacMediaCodecInformation {
                object_type: data[0],
                sampling_frequency: (data[1] * 0x10 + data[2] / 0x10) as u16,
                channels: (data[2] / 4) % 4,
                vbr: data[3] >= 0x80,
                bitrate: ((data[3] % 0x80) * 0x10000 + data[4] * 0x100 + data[5]) as u32,
            },
        )
    }
}

impl AacMediaCodecInformation {
    /// The wire form of this information.
    pub open spec fn wire(self) -> Seq<u8> {
        let low: u8 = ((self.sampling_frequency % 0x10) * 0x10) as u8;
        seq![
            self.object_type,
            ((self.sampling_frequency / 0x10) % 0x100) as u8,
            low | (self.channels << 2),
            ((if self.vbr {
                0x80int
            } else {
                0
            }) + (self.bitrate / 0x10000) % 0x80) as u8,
            ((self.bitrate / 0x100) % 0x100) as u8,
            (self.bitrate % 0x100) as u8,
        ]
    }

    /// Decodes AAC information.
    pub fn parse(data: &[u8]) -> (r: Option<Self>)
        ensures
            r == aac_of(data@),
    {
        if data.len() < 6 {
            return None;
        }
        Some(
            AacMediaCodecInformation {
                object_type: data[0],
                sampling_frequency: data[1] as u16 * 0x10 + (data[2] / 0x10) as u16,
                channels: (data[2] / 4) % 4,
                vbr: data[3] >= 0x80,
                bitrate: (data[3] % 0x80) as u32 * 0x10000 + data[4] as u32 * 0x100
                    + data[5] as u32,
            },
        )
    }

    /// Encodes AAC information.
    pub fn to_bytes(self) -> (r: [u8; 6])
        ensures
            r@ == self.wire(),
    {
        let low: u8 = (self.sampling_frequency % 0x10) as u8 * 0x10;
        let vbr: u8 = if self.vbr {
            0x80
        } else {
            0
        };
        let r = [
            self.object_type,
            ((self.sampling_frequency / 0x10) % 0x100) as u8,
            low | (self.channels << 2),
            vbr + ((self.bitrate / 0x10000) % 0x80) as u8,
            ((self.bitrate / 0x100) % 0x100) as u8,
            (self.bitrate % 0x100) as u8,
        ];
        assert(r@ =~= self.wire());
        r
    }
}

// ---------------------------------------------------------------------------
// Vendor-specific codecs
// ---------------------------------------------------------------------------

/// Information of a vendor-specific codec: a company, a codec of that company,
/// and bytes that only it can interpret.
#[derive(Debug, Clone, PartialEq, Eq)]
pub struct VendorSpecificMediaCodecInformation {
    /// Company ID.
    pub vendor_id: u32,
    /// Codec ID, assigned by the company.
    pub codec_id: u16,
    /// Codec-specific bytes.
    pub value: Vec<u8>,
}

/// The model of a [`VendorSpecificMediaCodecInformation`].
#[verifier::ext_equal]
pub struct VendorModel {
    pub vendor_id: u32,
    pub codec_id: u16,
    pub value: Seq<u8>,
}

impl View for VendorSpecificMediaCodecInformation {
    type V = VendorModel;

    open spec fn view(&self) -> VendorModel {
        VendorModel { vendor_id: self.vendor_id, codec_id: self.codec_id, value: self.value@ }
    }
}

/// The vendor-specific information that bytes hold; both IDs are
/// little-endian.
pub open spec fn vendor_of(data: Seq<u8>) -> Option<VendorModel> {
    if data.len() < 6 {
        None
    } else {
        Some(
            VendorModel {
                vendor_id: bytes::le32(data, 0),
                codec_id: bytes::le16(data, 4),
                value: data.skip(6),
            },
        )
    }
}

impl VendorModel {
    /// The wire form of this information.
    pub open spec fn wire(self) -> Seq<u8> {
        bytes::le32_bytes(self.vendor_id) + bytes::le16_bytes(self.codec_id) + self.value
    }
}

impl VendorSpecificMediaCodecInformation {
    /// Decodes vendor-specific information.
    pub fn parse(data: &[u8]) -> (r: Option<Self>)
        ensures
            models::opt_view(r) == vendor_of(data@),
    {
        if data.len() < 6 {
            return None;
        }
        let value = bytes::copy_range(data, 6, data.len());
        assert(value@ =~= data@.skip(6));
        Some(
            VendorSpecificMediaCodecInformation {
                vendor_id: bytes::read_le32(data, 0),
                codec_id: bytes::read_le16(data, 4),
                value,
            },
        )
    }

    /// Encodes vendor-specific information.
    pub fn to_bytes(&self) -> (r: Vec<u8>)
        ensures
            r@ == self@.wire(),
    {
        let mut out: Vec<u8> = Vec::new();
        bytes::push_le32(&mut out, self.vendor_id);
        bytes::push_le16(&mut out, self.codec_id);
        bytes::push_bytes(&mut out, &self.value);
        assert(out@ =~= self@.wire());
        out
    }
}

/// Opus codec information: a vendor-specific codec whose value is a byte.
#[derive(Debug, Clone, Copy, PartialEq, Eq, Structural)]
pub struct OpusMediaCodecInformation {
    /// Channel modes (`opus::channel_mode`).
    pub channel_mode: u8,
    /// Frame sizes (`opus::frame_size`).
    pub frame_size: u8,
    /// Sampling frequencies (`opus::sampling_frequency`).
    pub sampling_frequency: u8,
}

/// The Opus information that the value of a vendor-specific codec holds.
pub open spec fn opus_of(value: Seq<u8>) -> Option<OpusMediaCodecInformation> {
    if value.len() == 0 {
        None
    } else {
        Some(
            OpusMediaCodecInformation {
                channel_mode: value[0] % 8,
                frame_size: (value[0] / 8) % 4,
                sampling_frequency: value[0] / 0x80,
            },
        )
    }
}

impl OpusMediaCodecInformation {
    /// Company ID of Opus.
    pub const VENDOR_ID: u32 = 0x0000_00E0;

    /// Codec ID of Opus.
    pub const CODEC_ID: u16 = 0x0001;

    /// The byte of this information.
    pub open spec fn byte(self) -> u8 {
        self.channel_mode | (self.frame_size << 3) | (self.sampling_frequency << 7)
    }

    /// This information as that of a vendor-specific codec.
    pub open spec fn vendor(self) -> VendorModel {
        VendorModel {
            vendor_id: Self::VENDOR_ID,
            codec_id: Self::CODEC_ID,
            value: seq![self.byte()],
        }
    }

    /// Decodes the value of the vendor-specific codec.
    pub fn parse_value(value: &[u8]) -> (r: Option<Self>)
        ensures
            r == opus_of(value@),
    {
        if value.len() == 0 {
            return None;
        }
        Some(
            OpusMediaCodecInformation {
                channel_mode: value[0] % 8,
                frame_size: (value[0] / 8) % 4,
                sampling_frequency: value[0] / 0x80,
            },
        )
    }

    /// Encodes the value of the vendor-specific codec.
    pub fn value_byte(self) -> (r: u8)
        ensures
            r == self.byte(),
    {
        self.channel_mode | (self.frame_size << 3) | (self.sampling_frequency << 7)
    }

    /// This information as that of a vendor-specific codec.
    pub fn to_vendor_information(self) -> (r: VendorSpecificMediaCodecInformation)
        ensures
            r@ == self.vendor(),
    {
        let value: Vec<u8> = vec![self.value_byte()];
        assert(value@ =~= seq![self.byte()]);
        VendorSpecificMediaCodecInformation {
            vendor_id: Self::VENDOR_ID,
            codec_id: Self::CODEC_ID,
            value,
        }
    }
}

// ---------------------------------------------------------------------------
// Any codec
// ---------------------------------------------------------------------------

/// Codec information, by the type of the codec.
#[derive(Debug, Clone, PartialEq, Eq)]
pub enum MediaCodecInformation {
    /// SBC.
    Sbc(SbcMediaCodecInformation),
    /// MPEG-2/4 AAC.
    Aac(AacMediaCodecInformation),
    /// Opus.
    Opus(OpusMediaCodecInformation),
    /// Any other vendor-specific codec.
    Vendor(VendorSpecificMediaCodecInformation),
}

/// The model of a [`MediaCodecInformation`].
#[verifier::ext_equal]
pub enum InformationModel {
    Sbc(SbcMediaCodecInformation),
    Aac(AacMediaCodecInformation),
    Opus(OpusMediaCodecInformation),
    Vendor(VendorModel),
}

impl View for MediaCodecInformation {
    type V = InformationModel;

    open spec fn view(&self) -> InformationModel {
        match *self {
            MediaCodecInformation::Sbc(info) => InformationModel::Sbc(info),
            MediaCodecInformation::Aac(info) => InformationModel::Aac(info),
            MediaCodecInformation::Opus(info) => InformationModel::Opus(info),
            MediaCodecInformation::Vendor(info) => InformationModel::Vendor(info@),
        }
    }
}

/// Whether vendor-specific information is that of Opus.
pub open spec fn is_opus(vendor: VendorModel) -> bool {
    vendor.vendor_id == OpusMediaCodecInformation::VENDOR_ID && vendor.codec_id
        == OpusMediaCodecInformation::CODEC_ID
}

/// The information that bytes hold for a type of codec. Types that are not
/// supported have none.
pub open spec fn information_of(media_codec_type: u8, data: Seq<u8>) -> Option<InformationModel> {
    match media_codec_type {
        codec_type::SBC => match sbc_of(data) {
            Some(info) => Some(InformationModel::Sbc(info)),
            None => None,
        },
        codec_type::MPEG_2_4_AAC => match aac_of(data) {
            Some(info) => Some(InformationModel::Aac(info)),
            None => None,
        },
        codec_type::NON_A2DP => match vendor_of(data) {
            Some(vendor) => if is_opus(vendor) {
                match opus_of(vendor.value) {
                    Some(info) => Some(InformationModel::Opus(info)),
                    None => None,
                }
            } else {
                Some(InformationModel::Vendor(vendor))
            },
            None => None,
        },
        _ => None,
    }
}

impl InformationModel {
    /// The type of the codec.
    pub open spec fn kind(self) -> u8 {
        match self {
            InformationModel::Sbc(_) => codec_type::SBC,
            InformationModel::Aac(_) => codec_type::MPEG_2_4_AAC,
            InformationModel::Opus(_) => codec_type::NON_A2DP,
            InformationModel::Vendor(_) => codec_type::NON_A2DP,
        }
    }

    /// The wire form of this information.
    pub open spec fn wire(self) -> Seq<u8> {
        match self {
            InformationModel::Sbc(info) => info.wire(),
            InformationModel::Aac(info) => info.wire(),
            InformationModel::Opus(info) => info.vendor().wire(),
            InformationModel::Vendor(info) => info.wire(),
        }
    }
}

impl MediaCodecInformation {
    /// Decodes the information of a codec. Vendor-specific codecs that are
    /// known, as Opus is, are decoded further.
    pub fn parse(media_codec_type: u8, data: &[u8]) -> (r: Option<Self>)
        ensures
            models::opt_view(r) == information_of(media_codec_type, data@),
    {
        match media_codec_type {
            codec_type::SBC => match SbcMediaCodecInformation::parse(data) {
                Some(info) => Some(MediaCodecInformation::Sbc(info)),
                None => None,
            },
            codec_type::MPEG_2_4_AAC => match AacMediaCodecInformation::parse(data) {
                Some(info) => Some(MediaCodecInformation::Aac(info)),
                None => None,
            },
            codec_type::NON_A2DP => match VendorSpecificMediaCodecInformation::parse(data) {
                Some(vendor) => {
                    if vendor.vendor_id == OpusMediaCodecInformation::VENDOR_ID && vendor.codec_id
                        == OpusMediaCodecInformation::CODEC_ID {
                        match OpusMediaCodecInformation::parse_value(&vendor.value) {
                            Some(info) => Some(MediaCodecInformation::Opus(info)),
                            None => None,
                        }
                    } else {
                        Some(MediaCodecInformation::Vendor(vendor))
                    }
                },
                None => None,
            },
            _ => None,
        }
    }

    /// The type of the codec.
    pub fn codec_type(&self) -> (r: u8)
        ensures
            r == self@.kind(),
    {
        match self {
            MediaCodecInformation::Sbc(_) => codec_type::SBC,
            MediaCodecInformation::Aac(_) => codec_type::MPEG_2_4_AAC,
            MediaCodecInformation::Opus(_) => codec_type::NON_A2DP,
            MediaCodecInformation::Vendor(_) => codec_type::NON_A2DP,
        }
    }

    /// Encodes the information of the codec.
    pub fn to_bytes(&self) -> (r: Vec<u8>)
        ensures
            r@ == self@.wire(),
    {
        match self {
            MediaCodecInformation::Sbc(info) => {
                let encoded = info.to_bytes();
                bytes::copy(&encoded)
            },
            MediaCodecInformation::Aac(info) => {
                let encoded = info.to_bytes();
                bytes::copy(&encoded)
            },
            MediaCodecInformation::Opus(info) => info.to_vendor_information().to_bytes(),
            MediaCodecInformation::Vendor(info) => info.to_bytes(),
        }
    }

    /// This information as a media codec capability.
    pub fn to_capabilities(&self) -> (r: MediaCodecCapabilities)
        ensures
            r@ == (CodecModel {
                media_type: MediaType::Audio,
                media_codec_type: self@.kind(),
                media_codec_information: self@.wire(),
            }),
    {
        MediaCodecCapabilities {
            media_type: MediaType::Audio,
            media_codec_type: self.codec_type(),
            media_codec_information: self.to_bytes(),
        }
    }
}

// ---------------------------------------------------------------------------
// Laws
// ---------------------------------------------------------------------------

proof fn lemma_sbc_bits(f: u8, c: u8, b: u8, s: u8, a: u8)
    by (bit_vector)
    requires
        f < 0x10,
        c < 0x10,
        b < 0x10,
        s < 4,
        a < 4,
    ensures
        ((f << 4) | c) / 0x10 == f,
        ((f << 4) | c) % 0x10 == c,
        ((b << 4) | (s << 2) | a) / 0x10 == b,
        (((b << 4) | (s << 2) | a) / 4) % 4 == s,
        ((b << 4) | (s << 2) | a) % 4 == a,
{
}

proof fn lemma_channel_bits(low: u8, channels: u8)
    by (bit_vector)
    requires
        channels < 4,
        low % 0x10 == 0,
    ensures
        (low | (channels << 2)) / 0x10 == low / 0x10,
        ((low | (channels << 2)) / 4) % 4 == channels,
{
}

proof fn lemma_opus_bits(c: u8, f: u8, s: u8)
    by (bit_vector)
    requires
        c < 8,
        f < 4,
        s < 2,
    ensures
        (c | (f << 3) | (s << 7)) % 8 == c,
        ((c | (f << 3) | (s << 7)) / 8) % 4 == f,
        (c | (f << 3) | (s << 7)) / 0x80 == s,
{
}

/// Whether the fields of information fit the wire. Vendor-specific information
/// that says it is Opus is Opus information.
pub open spec fn fits(info: InformationModel) -> bool {
    match info {
        InformationModel::Sbc(i) => i.sampling_frequency < 0x10 && i.channel_mode < 0x10
            && i.block_length < 0x10 && i.subbands < 4 && i.allocation_method < 4,
        InformationModel::Aac(i) => i.sampling_frequency < 0x1000 && i.channels < 4 && i.bitrate
            < 0x80_0000,
        InformationModel::Opus(i) => i.channel_mode < 8 && i.frame_size < 4
            && i.sampling_frequency < 2,
        InformationModel::Vendor(i) => !is_opus(i),
    }
}

proof fn lemma_vendor_round_trip(v: VendorModel)
    ensures
        vendor_of(v.wire()) == Some(v),
{
    bytes::lemma_le32_round_trip(v.vendor_id);
    bytes::lemma_le16_round_trip(v.codec_id);
    assert(v.wire().skip(6) =~= v.value);
}

/// Codec information whose fields fit the wire is read back from its type and
/// bytes.
pub proof fn law_information_round_trip(info: InformationModel)
    requires
        fits(info),
    ensures
        information_of(info.kind(), info.wire()) == Some(info),
{
    match info {
        InformationModel::Sbc(i) => {
            lemma_sbc_bits(
                i.sampling_frequency,
                i.channel_mode,
                i.block_length,
                i.subbands,
                i.allocation_method,
            );
        },
        InformationModel::Aac(i) => {
            let low: u8 = ((i.sampling_frequency % 0x10) * 0x10) as u8;
            lemma_channel_bits(low, i.channels);
        },
        InformationModel::Opus(i) => {
            lemma_opus_bits(i.channel_mode, i.frame_size, i.sampling_frequency);
            lemma_vendor_round_trip(i.vendor());
        },
        InformationModel::Vendor(v) => {
            lemma_vendor_round_trip(v);
        },
    }
}

proof fn lemma_and_bits(a: u8, b: u8)
    by (bit_vector)
    ensures
        a & b == b & a,
        (a & b) & a == a & b,
        (a & b) & b == a & b,
        a & a == a,
{
}

/// What two capabilities have in common does not depend on who asks, and each
/// of them can do it. What is usable has itself in common with itself.
pub proof fn law_intersection(a: SbcMediaCodecInformation, b: SbcMediaCodecInformation)
    ensures
        common(a, b) == common(b, a),
        common(common(a, b), a) == common(a, b),
        common(common(a, b), b) == common(a, b),
        common(a, a) == a,
        a.minimum_bitpool_value <= common(a, b).minimum_bitpool_value,
        common(a, b).maximum_bitpool_value <= a.maximum_bitpool_value,
{
    lemma_and_bits(a.sampling_frequency, b.sampling_frequency);
    lemma_and_bits(a.channel_mode, b.channel_mode);
    lemma_and_bits(a.block_length, b.block_length);
    lemma_and_bits(a.subbands, b.subbands);
    lemma_and_bits(a.allocation_method, b.allocation_method);
}

} // verus!
