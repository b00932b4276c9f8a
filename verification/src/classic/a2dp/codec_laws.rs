//! What the bits of frames and of codec information mean.

use vstd::prelude::*;
use crate::bytes;
use crate::classic::a2dp::frame;
use crate::classic::a2dp::frame::{AacProfile, AdtsMpegVersion};
use crate::classic::a2dp::information;
use crate::classic::a2dp::information::{
    AacMediaCodecInformation,
    InformationModel,
    OpusMediaCodecInformation,
    SbcMediaCodecInformation,
    VendorModel,
};

verus! {

// ---------------------------------------------------------------------------
// SBC frames
// ---------------------------------------------------------------------------

/// How many bits an SBC frame has. The header has 32. There are four bits of
/// scale factor for each subband, for one channel in mono and for two
/// otherwise. Joint stereo has a bit for each subband that says whether it is
/// joined. Every block has as many bits as the bitpool says, and in dual
/// channel as many for each of the two channels.
pub open spec fn sbc_bits(mode: u8, blocks: int, subbands: int, bitpool: int) -> int {
    match mode {
        0 => 32 + 4 * subbands + blocks * bitpool,
        1 => 32 + 8 * subbands + 2 * (blocks * bitpool),
        2 => 32 + 8 * subbands + blocks * bitpool,
        _ => 32 + 8 * subbands + subbands + blocks * bitpool,
    }
}

/// An SBC frame is as long as its bits need bytes, in each of the four channel
/// modes: mono, dual channel, stereo and joint stereo. It is read where at least
/// so many bytes are there and the first is the sync word, with what its header
/// says, and it takes no byte more.
#[verifier::rlimit(50)]
pub proof fn law_sbc_frame_is_as_long_as_its_bits(
    data: Seq<u8>,
    rate: u8,
    quarter: int,
    mode: u8,
    method: int,
    eight: bool,
)
    requires
        data.len() >= 4,
        data[0] == 0x9C,
        0 <= rate < 4,
        0 <= quarter < 4,
        0 <= mode < 4,
        0 <= method < 2,
        data[1] == rate * 64 + quarter * 16 + mode * 4 + method * 2 + if eight {
            1int
        } else {
            0
        },
    ensures
        ({
            let blocks = 4 * (quarter + 1);
            let subbands: int = if eight {
                8
            } else {
                4
            };
            let bits = sbc_bits(mode, blocks, subbands, data[2] as int);
            match frame::sbc_frame_of(data) {
                Some(f) => {
                    &&& 8 * (f.payload.len() - 1) < bits <= 8 * f.payload.len()
                    &&& f.payload == data.take(f.payload.len() as int)
                    &&& f.payload.len() <= data.len()
                    &&& f.sampling_frequency == match rate {
                        0 => 16000int,
                        1 => 32000,
                        2 => 44100,
                        _ => 48000,
                    }
                    &&& f.block_count == blocks
                    &&& f.channel_mode == mode
                    &&& f.allocation_method == method
                    &&& f.subband_count == subbands
                    &&& f.bitpool == data[2]
                    &&& f.samples() == blocks * subbands
                },
                None => 8 * data.len() < bits,
            }
        }),
{
    let blocks = 4 * (quarter + 1);
    let subbands: int = if eight {
        8
    } else {
        4
    };
    lemma_sbc_header(data[1], rate, quarter, mode, method, eight);
    lemma_sbc_length(mode, blocks, subbands, data[2] as int);
    let f = frame::sbc_frame_with(data, frame::sbc_length_in(data));
    assert(f.block_count == blocks && f.subband_count == subbands && f.channel_mode == mode);
    assert(f.samples() == blocks * subbands) by {
        assert(subbands * blocks == blocks * subbands) by (nonlinear_arith);
    }
    assert(frame::sbc_length_in(data) == frame::sbc_frame_length(
        blocks,
        mode,
        subbands,
        data[2] as int,
    ));
}

proof fn lemma_sbc_header(
    byte: u8,
    rate: u8,
    quarter: int,
    mode: u8,
    method: int,
    eight: bool,
)
    requires
        rate < 4,
        0 <= quarter < 4,
        mode < 4,
        0 <= method < 2,
        byte == rate * 64 + quarter * 16 + mode * 4 + method * 2 + if eight {
            1int
        } else {
            0
        },
    ensures
        byte / 0x40 == rate,
        (byte / 0x10) % 4 == quarter,
        (byte / 4) % 4 == mode,
        (byte / 2) % 2 == method,
        (byte % 2 == 1) == eight,
{
}

proof fn lemma_sbc_length(mode: u8, blocks: int, subbands: int, bitpool: int)
    requires
        mode < 4,
        0 <= blocks,
        subbands == 4 || subbands == 8,
        0 <= bitpool,
    ensures
        ({
            let length = frame::sbc_frame_length(blocks, mode, subbands, bitpool);
            8 * (length - 1) < sbc_bits(mode, blocks, subbands, bitpool) <= 8 * length && length
                >= 4
        }),
{
    let product = blocks * bitpool;
    assert(blocks * 1 * bitpool == product) by (nonlinear_arith)
        requires
            product == blocks * bitpool,
    ;
    assert(blocks * 2 * bitpool == 2 * product) by (nonlinear_arith)
        requires
            product == blocks * bitpool,
    ;
    assert(product >= 0) by (nonlinear_arith)
        requires
            product == blocks * bitpool,
            blocks >= 0,
            bitpool >= 0,
    ;
    assert(4 * subbands * 1 == 4 * subbands && 4 * subbands * 2 == 8 * subbands);
}

/// Bytes that do not start with the sync word, or fewer than four, are no SBC
/// frame.
#[verifier::rlimit(50)]
pub proof fn law_sbc_frame_needs_its_header(data: Seq<u8>)
    requires
        data.len() < 4 || data[0] != 0x9C,
    ensures
        frame::sbc_frame_of(data) is None,
{
}

// ---------------------------------------------------------------------------
// ADTS frames
// ---------------------------------------------------------------------------

/// The sampling frequency with an index of the ADTS header.
pub open spec fn adts_rate(index: u8) -> int {
    match index {
        0 => 96000,
        1 => 88200,
        2 => 64000,
        3 => 48000,
        4 => 44100,
        5 => 32000,
        6 => 24000,
        7 => 22050,
        8 => 16000,
        9 => 12000,
        10 => 11025,
        11 => 8000,
        12 => 7350,
        _ => 0,
    }
}

/// An ADTS frame is read with what the bits of its header say: version, whether
/// a checksum is there, profile, frequency, channels, length and number of
/// blocks. Its length counts the header, and it takes no byte more.
#[verifier::rlimit(50)]
pub proof fn law_adts_header(
    data: Seq<u8>,
    mpeg_2: bool,
    unchecked: bool,
    profile: u8,
    index: u8,
    private: int,
    channels: int,
    copy: int,
    length: int,
    fullness: int,
    blocks: int,
)
    requires
        data.len() >= 7,
        0 <= profile < 4,
        0 <= index < 13,
        0 <= private < 2,
        0 <= channels < 8,
        0 <= copy < 16,
        0 <= length < 8192,
        0 <= fullness < 2048,
        1 <= blocks <= 4,
        data[0] == 0xFF,
        data[1] == 0xF0 + (if mpeg_2 {
            8int
        } else {
            0
        }) + if unchecked {
            1int
        } else {
            0
        },
        data[2] == profile * 64 + index * 4 + private * 2 + channels / 4,
        data[3] == (channels % 4) * 64 + copy * 4 + length / 2048,
        data[4] == (length / 8) % 256,
        data[5] == (length % 8) * 32 + fullness / 64,
        data[6] == (fullness % 64) * 4 + blocks - 1,
    ensures
        ({
            let header: int = if unchecked {
                7
            } else {
                9
            };
            match frame::aac_frame_of(data) {
                Some((f, taken)) => {
                    &&& header <= length <= data.len()
                    &&& taken == length
                    &&& f.mpeg_version == if mpeg_2 {
                        AdtsMpegVersion::Mpeg2
                    } else {
                        AdtsMpegVersion::Mpeg4
                    }
                    &&& f.profile == match profile {
                        0 => AacProfile::Main,
                        1 => AacProfile::Lc,
                        2 => AacProfile::Ssr,
                        _ => AacProfile::Ltp,
                    }
                    &&& f.sampling_frequency == adts_rate(index)
                    &&& f.channel_configuration == channels
                    &&& f.raw_data_block_count == blocks
                    &&& f.payload == data.subrange(header, length)
                    &&& unchecked ==> f.crc is None
                    &&& !unchecked ==> f.crc == Some((data[7] * 256 + data[8]) as u16)
                },
                None => length < header || data.len() < length,
            }
        }),
{
    lemma_adts_bits(data, profile, index, private, channels, copy, length, fullness, blocks);
    assert(data[1] / 0x10 == 0x0F);
    assert((data[1] / 2) % 4 == 0);
    assert(((data[1] / 8) % 2 == 1) == mpeg_2);
    assert((data[1] % 2 == 1) == unchecked);
    assert(frame::adts_frequency(data) == adts_rate(index));
}

proof fn lemma_adts_bits(
    data: Seq<u8>,
    profile: u8,
    index: u8,
    private: int,
    channels: int,
    copy: int,
    length: int,
    fullness: int,
    blocks: int,
)
    requires
        data.len() >= 7,
        0 <= profile < 4,
        0 <= index < 13,
        0 <= private < 2,
        0 <= channels < 8,
        0 <= copy < 16,
        0 <= length < 8192,
        0 <= fullness < 2048,
        1 <= blocks <= 4,
        data[2] == profile * 64 + index * 4 + private * 2 + channels / 4,
        data[3] == (channels % 4) * 64 + copy * 4 + length / 2048,
        data[4] == (length / 8) % 256,
        data[5] == (length % 8) * 32 + fullness / 64,
        data[6] == (fullness % 64) * 4 + blocks - 1,
    ensures
        data[2] / 64 == profile,
        (data[2] / 4) % 16 == index,
        data[2] % 2 == channels / 4,
        data[3] / 64 == channels % 4,
        data[3] % 4 == length / 2048,
        (data[3] % 4) * 2048 + data[4] * 8 + data[5] / 32 == length,
        data[6] % 4 + 1 == blocks,
{
    let c = channels / 4;
    assert(0 <= c < 2);
    assert(data[2] / 64 == profile);
    assert(data[2] / 4 == profile * 16 + index);
    assert((profile * 16 + index) % 16 == index);
    let top = length / 2048;
    assert(0 <= top < 4);
    assert(data[3] / 64 == channels % 4);
    assert(data[3] % 4 == top);
    assert(data[5] / 32 == length % 8);
    assert(length / 8 == top * 256 + (length / 8) % 256);
}

/// Other sync bits, another layer, or a frequency that is reserved are no ADTS
/// frame.
#[verifier::rlimit(50)]
pub proof fn law_adts_frame_needs_its_header(data: Seq<u8>)
    requires
        data.len() < 7 || data[0] != 0xFF || data[1] < 0xF0 || (data[1] / 2) % 4 != 0 || (data[2]
            / 4) % 16 >= 13,
    ensures
        frame::aac_frame_of(data) is None,
{
}

// ---------------------------------------------------------------------------
// Codec information
// ---------------------------------------------------------------------------

/// SBC information is read from its four bytes, each mask in its bits.
#[verifier::rlimit(50)]
pub proof fn law_sbc_information_bits(
    rates: u8,
    modes: u8,
    blocks: u8,
    subbands: u8,
    methods: u8,
    least: u8,
    most: u8,
)
    requires
        rates < 16,
        modes < 16,
        blocks < 16,
        subbands < 4,
        methods < 4,
    ensures
        information::information_of(
            0x00,
            seq![
                (rates * 16 + modes) as u8,
                (blocks * 16 + subbands * 4 + methods) as u8,
                least,
                most,
            ],
        ) == Some(
            InformationModel::Sbc(
                (SbcMediaCodecInformation {
                    sampling_frequency: rates,
                    channel_mode: modes,
                    block_length: blocks,
                    subbands,
                    allocation_method: methods,
                    minimum_bitpool_value: least,
                    maximum_bitpool_value: most,
                }),
            ),
        ),
{
}

/// AAC information is read from its six bytes: object types, a bit for each
/// rate over twelve bits, channels, and the bit rate behind the bit that says
/// whether it varies.
#[verifier::rlimit(50)]
pub proof fn law_aac_information_bits(
    objects: u8,
    rates: u16,
    channels: u8,
    vbr: bool,
    bitrate: u32,
)
    requires
        rates < 4096,
        channels < 4,
        bitrate < 0x80_0000,
    ensures
        information::information_of(
            0x02,
            seq![
                objects,
                (rates / 16) as u8,
                ((rates % 16) * 16 + channels * 4) as u8,
                (bitrate / 0x1_0000 + if vbr {
                    128int
                } else {
                    0
                }) as u8,
                ((bitrate / 256) % 256) as u8,
                (bitrate % 256) as u8,
            ],
        ) == Some(
            InformationModel::Aac(
                (AacMediaCodecInformation {
                    object_type: objects,
                    sampling_frequency: rates,
                    channels,
                    vbr,
                    bitrate,
                }),
            ),
        ),
{
    let third = ((rates % 16) * 16 + channels * 4) as u8;
    assert(third / 16 == rates % 16 && (third / 4) % 4 == channels);
    let high = bitrate / 0x1_0000;
    assert(high < 128);
    assert(bitrate == high * 0x1_0000 + ((bitrate / 256) % 256) * 256 + bitrate % 256);
}

/// Opus is the codec 1 of the vendor 0xE0, with one byte of information: the
/// channel mode below, the frame size above it, the frequency on top.
#[verifier::rlimit(50)]
pub proof fn law_opus_information_bits(channel_mode: u8, frame_size: u8, frequency: u8)
    requires
        channel_mode < 8,
        frame_size < 4,
        frequency < 2,
    ensures
        information::information_of(
            0xFF,
            seq![
                0xE0u8,
                0x00u8,
                0x00u8,
                0x00u8,
                0x01u8,
                0x00u8,
                (channel_mode + frame_size * 8 + frequency * 128) as u8,
            ],
        ) == Some(
            InformationModel::Opus(
                (OpusMediaCodecInformation {
                    channel_mode,
                    frame_size,
                    sampling_frequency: frequency,
                }),
            ),
        ),
{
    let byte = (channel_mode + frame_size * 8 + frequency * 128) as u8;
    let data = seq![0xE0u8, 0x00u8, 0x00u8, 0x00u8, 0x01u8, 0x00u8, byte];
    assert(data.skip(6) =~= seq![byte]);
    assert(bytes::le32(data, 0) == 0xE0);
    assert(bytes::le16(data, 4) == 1);
    assert(byte % 8 == channel_mode && (byte / 8) % 4 == frame_size && byte / 128 == frequency);
}

/// Any other vendor codec is kept as it came, and a type that is not supported
/// has no information.
#[verifier::rlimit(50)]
pub proof fn law_other_information(kind: u8, data: Seq<u8>)
    ensures
        kind != 0x00 && kind != 0x02 && kind != 0xFF ==> information::information_of(
            kind,
            data,
        ) is None,
        kind == 0xFF && data.len() >= 6 && !(data.take(6) =~= seq![
            0xE0u8,
            0x00u8,
            0x00u8,
            0x00u8,
            0x01u8,
            0x00u8,
        ]) ==> information::information_of(kind, data) == Some(
            InformationModel::Vendor(
                (VendorModel {
                    vendor_id: bytes::le32(data, 0),
                    codec_id: bytes::le16(data, 4),
                    value: data.skip(6),
                }),
            ),
        ),
{
    if kind == 0xFF && data.len() >= 6 {
        let v = information::vendor_of(data)->0;
        if information::is_opus(v) {
            assert(data.take(6) =~= seq![0xE0u8, 0x00u8, 0x00u8, 0x00u8, 0x01u8, 0x00u8]);
        }
    }
}

/// The bits of the SBC sampling rates.
#[verifier::rlimit(50)]
pub proof fn law_sbc_rate_flags(hz: u32)
    ensures
        information::frequency_flag(hz) == match hz {
            16000 => Some(0x08u8),
            32000 => Some(0x04u8),
            44100 => Some(0x02u8),
            48000 => Some(0x01u8),
            _ => None,
        },
{
}

proof fn lemma_common_bit(a: u8, b: u8, bit: u8)
    by (bit_vector)
    requires
        bit == 1 || bit == 2 || bit == 4 || bit == 8,
    ensures
        ((a & b) & bit != 0) == (a & bit != 0 && b & bit != 0),
{
}

/// What two capabilities have in common can do exactly what both can do: every
/// bit of every mask, and every bitpool value.
#[verifier::rlimit(50)]
pub proof fn law_common_is_what_both_can_do(
    a: SbcMediaCodecInformation,
    b: SbcMediaCodecInformation,
    bit: u8,
    bitpool: u8,
)
    requires
        bit == 1 || bit == 2 || bit == 4 || bit == 8,
    ensures
        ({
            let c = information::common(a, b);
            &&& (c.sampling_frequency & bit != 0) == (a.sampling_frequency & bit != 0
                && b.sampling_frequency & bit != 0)
            &&& (c.channel_mode & bit != 0) == (a.channel_mode & bit != 0 && b.channel_mode & bit
                != 0)
            &&& (c.block_length & bit != 0) == (a.block_length & bit != 0 && b.block_length & bit
                != 0)
            &&& (c.subbands & bit != 0) == (a.subbands & bit != 0 && b.subbands & bit != 0)
            &&& (c.allocation_method & bit != 0) == (a.allocation_method & bit != 0
                && b.allocation_method & bit != 0)
            &&& (c.minimum_bitpool_value <= bitpool <= c.maximum_bitpool_value) == (
            a.minimum_bitpool_value <= bitpool <= a.maximum_bitpool_value
                && b.minimum_bitpool_value <= bitpool <= b.maximum_bitpool_value)
        }),
{
    lemma_common_bit(a.sampling_frequency, b.sampling_frequency, bit);
    lemma_common_bit(a.channel_mode, b.channel_mode, bit);
    lemma_common_bit(a.block_length, b.block_length, bit);
    lemma_common_bit(a.subbands, b.subbands, bit);
    lemma_common_bit(a.allocation_method, b.allocation_method, bit);
}

/// Capabilities are usable if every mask offers something and so does the
/// range of the bitpool.
#[verifier::rlimit(50)]
pub proof fn law_usable(i: SbcMediaCodecInformation)
    ensures
        information::usable(i) == (i.sampling_frequency > 0 && i.channel_mode > 0
            && i.block_length > 0 && i.subbands > 0 && i.allocation_method > 0
            && i.maximum_bitpool_value >= i.minimum_bitpool_value),
{
}

} // verus!
