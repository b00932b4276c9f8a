//! Frames of SBC and of AAC in ADTS. Only the headers are read and written.

use vstd::prelude::*;
use crate::bytes;

verus! {

// ---------------------------------------------------------------------------
// SBC
// ---------------------------------------------------------------------------

/// The byte that starts an SBC frame.
pub const SBC_SYNC_WORD: u8 = 0x9C;

/// SBC sampling frequencies, by the 2-bit field of the frame header. Their
/// order is not that of the capability bits.
pub const SBC_SAMPLING_FREQUENCIES: [u32; 4] = [16000, 32000, 44100, 48000];

/// Mono, in a frame header.
pub const SBC_MONO_CHANNEL_MODE: u8 = 0x00;

/// Dual channel, in a frame header.
pub const SBC_DUAL_CHANNEL_MODE: u8 = 0x01;

/// Stereo, in a frame header.
pub const SBC_STEREO_CHANNEL_MODE: u8 = 0x02;

/// Joint stereo, in a frame header.
pub const SBC_JOINT_STEREO_CHANNEL_MODE: u8 = 0x03;

/// One SBC frame, with the parameters in its header.
#[derive(Debug, Clone, PartialEq, Eq)]
pub struct SbcFrame {
    /// Sampling frequency in Hz.
    pub sampling_frequency: u32,
    /// Number of blocks in the frame.
    pub block_count: u8,
    /// Channel mode (`SBC_*_CHANNEL_MODE`).
    pub channel_mode: u8,
    /// Bit allocation method (0 for loudness, 1 for SNR).
    pub allocation_method: u8,
    /// Number of subbands (4 or 8).
    pub subband_count: u8,
    /// Bitpool value.
    pub bitpool: u8,
    /// The bytes of the frame, with the header.
    pub payload: Vec<u8>,
}

/// The model of a [`SbcFrame`].
#[verifier::ext_equal]
pub struct SbcFrameModel {
    pub sampling_frequency: u32,
    pub block_count: u8,
    pub channel_mode: u8,
    pub allocation_method: u8,
    pub subband_count: u8,
    pub bitpool: u8,
    pub payload: Seq<u8>,
}

impl View for SbcFrame {
    type V = SbcFrameModel;

    open spec fn view(&self) -> SbcFrameModel {
        SbcFrameModel {
            sampling_frequency: self.sampling_frequency,
            block_count: self.block_count,
            channel_mode: self.channel_mode,
            allocation_method: self.allocation_method,
            subband_count: self.subband_count,
            bitpool: self.bitpool,
            payload: self.payload@,
        }
    }
}

/// The length of a frame: header, four bits of scale factor for each subband
/// and channel, one join bit for each subband in joint stereo, and the audio
/// samples. Mono and dual channel have a bitpool for each channel.
pub open spec fn sbc_frame_length(
    block_count: int,
    channel_mode: u8,
    subband_count: int,
    bitpool: int,
) -> int {
    let channels: int = if channel_mode == SBC_MONO_CHANNEL_MODE {
        1
    } else {
        2
    };
    let audio_bits = if channel_mode == SBC_MONO_CHANNEL_MODE || channel_mode
        == SBC_DUAL_CHANNEL_MODE {
        block_count * channels * bitpool
    } else if channel_mode == SBC_JOINT_STEREO_CHANNEL_MODE {
        subband_count + block_count * bitpool
    } else {
        block_count * bitpool
    };
    4 + (4 * subband_count * channels) / 8 + (audio_bits + 7) / 8
}

/// The frame that the first `length` bytes hold, by its header.
pub open spec fn sbc_frame_with(data: Seq<u8>, length: int) -> SbcFrameModel {
    SbcFrameModel {
        sampling_frequency: SBC_SAMPLING_FREQUENCIES@[(data[1] / 0x40) as int],
        block_count: (4 * (1 + (data[1] / 0x10) % 4)) as u8,
        channel_mode: (data[1] / 4) % 4,
        allocation_method: (data[1] / 2) % 2,
        subband_count: if data[1] % 2 == 1 {
            8
        } else {
            4
        },
        bitpool: data[2],
        payload: data.take(length),
    }
}

/// The length of the frame that starts data, by its header.
pub open spec fn sbc_length_in(data: Seq<u8>) -> int {
    let f = sbc_frame_with(data, 0);
    sbc_frame_length(
        f.block_count as int,
        f.channel_mode,
        f.subband_count as int,
        f.bitpool as int,
    )
}

/// The frame that starts data, if it is complete.
pub open spec fn sbc_frame_of(data: Seq<u8>) -> Option<SbcFrameModel> {
    if data.len() < 4 || data[0] != SBC_SYNC_WORD || data.len() < sbc_length_in(data) {
        None
    } else {
        Some(sbc_frame_with(data, sbc_length_in(data)))
    }
}

fn sbc_length(block_count: usize, channel_mode: u8, subband_count: usize, bitpool: usize) -> (r:
    usize)
    requires
        block_count <= 16,
        subband_count <= 8,
        bitpool <= 255,
    ensures
        r == sbc_frame_length(
            block_count as int,
            channel_mode,
            subband_count as int,
            bitpool as int,
        ),
{
    let channels: usize = if channel_mode == SBC_MONO_CHANNEL_MODE {
        1
    } else {
        2
    };
    assert(0 <= block_count * bitpool <= 16 * 255) by (nonlinear_arith)
        requires
            0 <= block_count <= 16,
            0 <= bitpool <= 255,
    ;
    assert(block_count * channels * bitpool == (block_count * bitpool) * channels)
        by (nonlinear_arith);
    let per_channel: usize = block_count * bitpool;
    let audio_bits: usize = if channel_mode == SBC_MONO_CHANNEL_MODE || channel_mode
        == SBC_DUAL_CHANNEL_MODE {
        per_channel * channels
    } else if channel_mode == SBC_JOINT_STEREO_CHANNEL_MODE {
        subband_count + per_channel
    } else {
        per_channel
    };
    4 + (4 * subband_count * channels) / 8 + (audio_bits + 7) / 8
}

impl SbcFrameModel {
    /// How many samples this frame decodes to.
    pub open spec fn samples(self) -> int {
        self.subband_count * self.block_count
    }

    /// Whether the bit rate of this frame is defined and fits 32 bits.
    pub open spec fn has_bitrate(self) -> bool {
        &&& self.samples() > 0
        &&& self.payload.len() * self.sampling_frequency <= u32::MAX
        &&& 8 * ((self.payload.len() * self.sampling_frequency) / self.samples()) <= u32::MAX
    }
}

impl SbcFrame {
    /// Parses the frame that starts `data`: the frame and what follows it.
    pub fn parse(data: &[u8]) -> (r: Option<(SbcFrame, &[u8])>)
        ensures
            match r {
                Some((frame, rest)) => sbc_frame_of(data@) == Some(frame@) && rest@ == data@.skip(
                    frame@.payload.len() as int,
                ),
                None => sbc_frame_of(data@) is None,
            },
    {
        if data.len() < 4 || data[0] != SBC_SYNC_WORD {
            return None;
        }
        let sampling_frequency: u32 = SBC_SAMPLING_FREQUENCIES[(data[1] / 0x40) as usize];
        let block_count: u8 = 4 * (1 + (data[1] / 0x10) % 4);
        let channel_mode: u8 = (data[1] / 4) % 4;
        let allocation_method: u8 = (data[1] / 2) % 2;
        let subband_count: u8 = if data[1] % 2 == 1 {
            8
        } else {
            4
        };
        let bitpool: u8 = data[2];
        let length: usize = sbc_length(
            block_count as usize,
            channel_mode,
            subband_count as usize,
            bitpool as usize,
        );
        if data.len() < length {
            return None;
        }
        let payload = bytes::copy_range(data, 0, length);
        let rest = bytes::range(data, length, data.len());
        assert(payload@ =~= data@.take(length as int));
        assert(rest@ =~= data@.skip(length as int));
        Some(
            (
                SbcFrame {
                    sampling_frequency,
                    block_count,
                    channel_mode,
                    allocation_method,
                    subband_count,
                    bitpool,
                    payload,
                },
                rest,
            ),
        )
    }

    /// How many samples this frame decodes to.
    pub fn sample_count(&self) -> (r: u32)
        ensures
            r == self@.samples(),
    {
        assert(0 <= self.subband_count * self.block_count <= 255 * 255) by (nonlinear_arith)
            requires
                0 <= self.subband_count <= 255,
                0 <= self.block_count <= 255,
        ;
        self.subband_count as u32 * self.block_count as u32
    }

    /// The bit rate in bits per second that the size of this frame implies.
    /// Frames that were parsed always have one.
    pub fn bitrate(&self) -> (r: u32)
        requires
            self@.has_bitrate(),
        ensures
            r == 8 * ((self@.payload.len() * self@.sampling_frequency) / self@.samples()),
    {
        let samples: u32 = self.sample_count();
        if self.sampling_frequency == 0 {
            proof {
                vstd::arithmetic::mul::lemma_mul_basics(self@.payload.len() as int);
                vstd::arithmetic::div_mod::lemma_div_basics(self@.samples());
            }
            return 0;
        }
        assert(self@.payload.len() <= u32::MAX) by {
            let n = self@.payload.len() as int;
            let f = self.sampling_frequency as int;
            assert(n <= n * f) by (nonlinear_arith)
                requires
                    n >= 0,
                    f >= 1,
            ;
        }
        8 * ((self.payload.len() as u32 * self.sampling_frequency) / samples)
    }
}

// ---------------------------------------------------------------------------
// AAC
// ---------------------------------------------------------------------------

/// AAC sampling frequencies, by the 4-bit index of the ADTS header. The last
/// three indices are reserved and stand as 0.
pub const ADTS_AAC_SAMPLING_FREQUENCIES: [u32; 16] = [
    96000,
    88200,
    64000,
    48000,
    44100,
    32000,
    24000,
    22050,
    16000,
    12000,
    11025,
    8000,
    7350,
    0,
    0,
    0,
];

/// The twelve set bits that start an ADTS frame.
pub const ADTS_SYNC_WORD: u16 = 0xFFF;

/// Length of an ADTS header without its checksum.
pub const ADTS_HEADER_LEN: usize = 7;

/// Length of the checksum, where there is one.
pub const ADTS_CRC_LEN: usize = 2;

/// Samples in a raw data block.
pub const AAC_SAMPLES_PER_RAW_DATA_BLOCK: u32 = 1024;

/// AAC profile in an ADTS header.
#[derive(Debug, Clone, Copy, PartialEq, Eq, Structural)]
pub enum AacProfile {
    /// Main profile.
    Main,
    /// Low Complexity.
    Lc,
    /// Scalable Sample Rate.
    Ssr,
    /// Long Term Prediction.
    Ltp,
}

/// The profile that the low two bits of a byte stand for.
pub open spec fn profile_of(bits: u8) -> AacProfile {
    match bits % 4 {
        0 => AacProfile::Main,
        1 => AacProfile::Lc,
        2 => AacProfile::Ssr,
        _ => AacProfile::Ltp,
    }
}

impl AacProfile {
    /// The two bits of this profile.
    pub open spec fn bits(self) -> u8 {
        match self {
            AacProfile::Main => 0,
            AacProfile::Lc => 1,
            AacProfile::Ssr => 2,
            AacProfile::Ltp => 3,
        }
    }

    /// The two bits of this profile.
    pub fn to_bits(self) -> (r: u8)
        ensures
            r == self.bits(),
    {
        match self {
            AacProfile::Main => 0,
            AacProfile::Lc => 1,
            AacProfile::Ssr => 2,
            AacProfile::Ltp => 3,
        }
    }

    fn from_bits(bits: u8) -> (r: Self)
        ensures
            r == profile_of(bits),
    {
        match bits % 4 {
            0 => AacProfile::Main,
            1 => AacProfile::Lc,
            2 => AacProfile::Ssr,
            _ => AacProfile::Ltp,
        }
    }
}

/// The MPEG standard that an ADTS header declares.
#[derive(Debug, Clone, Copy, PartialEq, Eq, Structural)]
pub enum AdtsMpegVersion {
    /// MPEG-4 (bit clear).
    Mpeg4,
    /// MPEG-2 (bit set).
    Mpeg2,
}

/// One AAC frame of an ADTS stream, with what its header declares. The raw
/// data blocks are not decoded.
#[derive(Debug, Clone, PartialEq, Eq)]
pub struct AacFrame {
    /// AAC profile.
    pub profile: AacProfile,
    /// MPEG-2 or MPEG-4.
    pub mpeg_version: AdtsMpegVersion,
    /// Sampling frequency in Hz.
    pub sampling_frequency: u32,
    /// Channel configuration. Zero says that the payload holds it (see
    /// [`Self::has_program_config_element`]).
    pub channel_configuration: u8,
    /// The checksum, where there is one. It is not verified: it covers the raw
    /// data blocks too.
    pub crc: Option<u16>,
    /// Raw data blocks in this frame, 1 to 4.
    pub raw_data_block_count: u8,
    /// The raw data blocks, without header and checksum.
    pub payload: Vec<u8>,
}

/// The model of an [`AacFrame`].
#[verifier::ext_equal]
pub struct AacFrameModel {
    pub profile: AacProfile,
    pub mpeg_version: AdtsMpegVersion,
    pub sampling_frequency: u32,
    pub channel_configuration: u8,
    pub crc: Option<u16>,
    pub raw_data_block_count: u8,
    pub payload: Seq<u8>,
}

impl View for AacFrame {
    type V = AacFrameModel;

    open spec fn view(&self) -> AacFrameModel {
        AacFrameModel {
            profile: self.profile,
            mpeg_version: self.mpeg_version,
            sampling_frequency: self.sampling_frequency,
            channel_configuration: self.channel_configuration,
            crc: self.crc,
            raw_data_block_count: self.raw_data_block_count,
            payload: self.payload@,
        }
    }
}

/// The length of the header, by the bit that says that there is no checksum.
pub open spec fn adts_header_length(second: u8) -> int {
    if second % 2 == 1 {
        7
    } else {
        9
    }
}

/// The length of the frame, in 13 bits over three bytes.
pub open spec fn adts_frame_length(data: Seq<u8>) -> int {
    (data[3] % 4) * 0x800 + data[4] * 8 + data[5] / 0x20
}

/// The sampling frequency, by its index; zero where that is reserved.
pub open spec fn adts_frequency(data: Seq<u8>) -> u32 {
    ADTS_AAC_SAMPLING_FREQUENCIES@[((data[2] / 4) % 0x10) as int]
}

/// The frame that starts data, and its length. It has to be complete, with the
/// sync word, layer 0, a sampling frequency, and a length that covers its own
/// header.
pub open spec fn aac_frame_of(data: Seq<u8>) -> Option<(AacFrameModel, int)> {
    let header = adts_header_length(data[1]);
    let length = adts_frame_length(data);
    if data.len() < 7 || data[0] != 0xFF || data[1] / 0x10 != 0x0F || (data[1] / 2) % 4 != 0
        || adts_frequency(data) == 0 || length < header || data.len() < length {
        None
    } else {
        Some(
            (
                AacFrameModel {
                    profile: profile_of(data[2] / 0x40),
                    mpeg_version: if (data[1] / 8) % 2 == 1 {
                        AdtsMpegVersion::Mpeg2
                    } else {
                        AdtsMpegVersion::Mpeg4
                    },
                    sampling_frequency: adts_frequency(data),
                    channel_configuration: ((data[2] % 2) * 4 + data[3] / 0x40) as u8,
                    crc: if data[1] % 2 == 1 {
                        None
                    } else {
                        Some(bytes::be16(data, 7))
                    },
                    raw_data_block_count: (data[6] % 4 + 1) as u8,
                    payload: data.subrange(header, length),
                },
                length,
            ),
        )
    }
}

/// The index of a sampling frequency, from an index on.
pub open spec fn frequency_index(frequency: u32, from: int) -> Option<int>
    decreases 13 - from,
{
    if from >= 13 {
        None
    } else if ADTS_AAC_SAMPLING_FREQUENCIES@[from] == frequency {
        Some(from)
    } else {
        frequency_index(frequency, from + 1)
    }
}

impl AacFrameModel {
    /// The length of header and checksum.
    pub open spec fn header_length(self) -> int {
        if self.crc is Some {
            9
        } else {
            7
        }
    }

    /// The length of the frame.
    pub open spec fn length(self) -> int {
        self.header_length() + self.payload.len()
    }

    /// Whether a header can describe this frame.
    pub open spec fn encodable(self) -> bool {
        &&& frequency_index(self.sampling_frequency, 0) is Some
        &&& self.channel_configuration <= 7
        &&& 1 <= self.raw_data_block_count <= 4
        &&& self.length() < 0x2000
    }

    /// The header: the buffer fullness has all bits set, as for variable rate.
    pub open spec fn header(self) -> Seq<u8> {
        let index = frequency_index(self.sampling_frequency, 0)->0;
        let length = self.length();
        seq![
            0xFFu8,
            (0xF0 + (if self.mpeg_version == AdtsMpegVersion::Mpeg2 {
                8int
            } else {
                0
            }) + (if self.crc is None {
                1int
            } else {
                0
            })) as u8,
            (self.profile.bits() * 0x40 + index * 4 + self.channel_configuration / 4) as u8,
            ((self.channel_configuration % 4) * 0x40 + length / 0x800) as u8,
            ((length / 8) % 0x100) as u8,
            ((length % 8) * 0x20 + 0x1F) as u8,
            (0xFC + self.raw_data_block_count - 1) as u8,
        ]
    }

    /// The wire form of this frame.
    pub open spec fn wire(self) -> Seq<u8> {
        match self.crc {
            Some(crc) => self.header() + bytes::be16_bytes(crc) + self.payload,
            None => self.header() + self.payload,
        }
    }
}

/// The first offset, from `from` on, at which a frame starts.
pub open spec fn sync_in(data: Seq<u8>, from: int) -> Option<int>
    decreases data.len() - from,
{
    if from + 1 >= data.len() {
        None
    } else if aac_frame_of(data.skip(from)) is Some {
        Some(from)
    } else {
        sync_in(data, from + 1)
    }
}

impl AacFrame {
    /// Parses the frame that starts `data`: the frame and what follows it.
    ///
    /// A stream that lost its place can be taken up again with
    /// [`Self::find_sync`].
    pub fn parse(data: &[u8]) -> (r: Option<(AacFrame, &[u8])>)
        ensures
            match r {
                Some((frame, rest)) => match aac_frame_of(data@) {
                    Some((f, length)) => frame@ == f && rest@ == data@.skip(length),
                    None => false,
                },
                None => aac_frame_of(data@) is None,
            },
    {
        if data.len() < ADTS_HEADER_LEN {
            return None;
        }
        let sync_word: u16 = data[0] as u16 * 0x10 + (data[1] / 0x10) as u16;
        if sync_word != ADTS_SYNC_WORD {
            return None;
        }
        if (data[1] / 2) % 4 != 0 {
            return None;
        }
        let mpeg_version = if (data[1] / 8) % 2 == 1 {
            AdtsMpegVersion::Mpeg2
        } else {
            AdtsMpegVersion::Mpeg4
        };
        // The bit is inverted: clear, it says that a checksum follows.
        let protection_absent = data[1] % 2 == 1;
        let header_len: usize = if protection_absent {
            ADTS_HEADER_LEN
        } else {
            ADTS_HEADER_LEN + ADTS_CRC_LEN
        };
        let profile = AacProfile::from_bits(data[2] / 0x40);
        let sampling_frequency: u32 = ADTS_AAC_SAMPLING_FREQUENCIES[((data[2] / 4)
            % 0x10) as usize];
        if sampling_frequency == 0 {
            return None;
        }
        let channel_configuration: u8 = (data[2] % 2) * 4 + data[3] / 0x40;
        let frame_length: usize = (data[3] % 4) as usize * 0x800 + data[4] as usize * 8 + (data[5]
            / 0x20) as usize;
        if frame_length < header_len || data.len() < frame_length {
            return None;
        }
        let crc: Option<u16> = if protection_absent {
            None
        } else {
            Some(bytes::read_be16(data, 7))
        };
        let raw_data_block_count: u8 = data[6] % 4 + 1;
        let payload = bytes::copy_range(data, header_len, frame_length);
        let rest = bytes::range(data, frame_length, data.len());
        assert(rest@ =~= data@.skip(frame_length as int));
        Some(
            (
                AacFrame {
                    profile,
                    mpeg_version,
                    sampling_frequency,
                    channel_configuration,
                    crc,
                    raw_data_block_count,
                    payload,
                },
                rest,
            ),
        )
    }

    /// Finds the offset of the next frame in `data`. The sync word alone turns
    /// up inside audio too, so an offset counts only if a frame can be parsed
    /// there.
    pub fn find_sync(data: &[u8]) -> (r: Option<usize>)
        ensures
            match r {
                Some(offset) => sync_in(data@, 0) == Some(offset as int),
                None => sync_in(data@, 0) is None,
            },
    {
        if data.len() == 0 {
            return None;
        }
        let mut offset: usize = 0;
        while offset < data.len() - 1
            invariant
                0 <= offset <= data@.len() - 1,
                sync_in(data@, offset as int) == sync_in(data@, 0),
            decreases data@.len() - offset,
        {
            let rest = bytes::range(data, offset, data.len());
            assert(rest@ =~= data@.skip(offset as int));
            if data[offset] == 0xFF && data[offset + 1] / 0x10 == 0x0F {
                if Self::parse(rest).is_some() {
                    return Some(offset);
                }
            }
            offset = offset + 1;
        }
        None
    }

    /// How many samples of each channel this frame decodes to.
    pub fn sample_count(&self) -> (r: u32)
        ensures
            r == 1024 * self@.raw_data_block_count,
    {
        AAC_SAMPLES_PER_RAW_DATA_BLOCK * self.raw_data_block_count as u32
    }

    /// How long this frame plays, in microseconds, in 32 bits. The sampling
    /// frequency must not be zero; it is not in frames that were parsed.
    pub fn duration_us(&self) -> (r: u32)
        requires
            self@.sampling_frequency > 0,
        ensures
            r == (1024 * self@.raw_data_block_count * 1000000 / self@.sampling_frequency as int)
                % 0x1_0000_0000,
    {
        let microseconds: u64 = self.sample_count() as u64 * 1000000
            / self.sampling_frequency as u64;
        (microseconds % 0x1_0000_0000) as u32
    }

    /// Whether the channel layout stands inside the payload.
    pub fn has_program_config_element(&self) -> (r: bool)
        ensures
            r == (self@.channel_configuration == 0),
    {
        self.channel_configuration == 0
    }

    fn find_frequency_index(frequency: u32) -> (r: Option<u8>)
        ensures
            match r {
                Some(index) => frequency_index(frequency, 0) == Some(index as int) && index < 13,
                None => frequency_index(frequency, 0) is None,
            },
    {
        let mut i: u8 = 0;
        while i < 13
            invariant
                i <= 13,
                frequency_index(frequency, i as int) == frequency_index(frequency, 0),
            decreases 13 - i,
        {
            if ADTS_AAC_SAMPLING_FREQUENCIES[i as usize] == frequency {
                return Some(i);
            }
            i = i + 1;
        }
        None
    }

    /// Encodes this frame: header, checksum where there is one, and payload.
    /// `None` if no header can describe it.
    pub fn to_bytes(&self) -> (r: Option<Vec<u8>>)
        ensures
            match r {
                Some(bytes) => self@.encodable() && bytes@ == self@.wire(),
                None => !self@.encodable(),
            },
    {
        let index: u8 = match Self::find_frequency_index(self.sampling_frequency) {
            Some(index) => index,
            None => {
                return None;
            },
        };
        if self.channel_configuration > 7 || self.raw_data_block_count < 1
            || self.raw_data_block_count > 4 {
            return None;
        }
        let header_len: usize = match self.crc {
            Some(_) => ADTS_HEADER_LEN + ADTS_CRC_LEN,
            None => ADTS_HEADER_LEN,
        };
        // The length has 13 bits.
        if self.payload.len() >= 0x2000 - header_len {
            return None;
        }
        let frame_length: usize = header_len + self.payload.len();
        let second: u8 = 0xF0 + (if self.mpeg_version == AdtsMpegVersion::Mpeg2 {
            8
        } else {
            0
        }) + (if self.crc.is_none() {
            1
        } else {
            0
        });
        let mut out: Vec<u8> = vec![
            0xFF,
            second,
            self.profile.to_bits() * 0x40 + index * 4 + self.channel_configuration / 4,
            (self.channel_configuration % 4) * 0x40 + (frame_length / 0x800) as u8,
            ((frame_length / 8) % 0x100) as u8,
            (frame_length % 8) as u8 * 0x20 + 0x1F,
            0xFC + (self.raw_data_block_count - 1),
        ];
        assert(out@ =~= self@.header());
        if let Some(crc) = self.crc {
            bytes::push_be16(&mut out, crc);
        }
        bytes::push_bytes(&mut out, &self.payload);
        Some(out)
    }
}

// ---------------------------------------------------------------------------
// Laws
// ---------------------------------------------------------------------------

proof fn lemma_audio_bits(block_count: int, bitpool: int)
    by (nonlinear_arith)
    requires
        0 <= block_count <= 16,
        0 <= bitpool <= 255,
    ensures
        0 <= block_count * bitpool <= 4080,
        0 <= block_count * 2 * bitpool <= 8160,
        0 <= block_count * 1 * bitpool <= 4080,
{
}

/// A frame that was parsed has a bit rate: it holds samples, and the rate fits
/// 32 bits.
pub proof fn law_parsed_sbc_frame_has_bitrate(data: Seq<u8>)
    requires
        sbc_frame_of(data) is Some,
    ensures
        (sbc_frame_of(data)->0).has_bitrate(),
        sbc_length_in(data) >= 6,
        (sbc_frame_of(data)->0).payload.len() == sbc_length_in(data),
{
    let f = sbc_frame_of(data)->0;
    lemma_audio_bits(f.block_count as int, f.bitpool as int);
    let n = sbc_length_in(data);
    assert(6 <= n <= 1037);
    let rate = f.sampling_frequency as int;
    assert(rate <= 48000);
    assert(0 <= n * rate <= 49776000) by (nonlinear_arith)
        requires
            0 <= n <= 1037,
            0 <= rate <= 48000,
    ;
    let s = f.samples();
    assert(s >= 16) by {
        let a = f.subband_count as int;
        let b = f.block_count as int;
        assert(a * b >= 16) by (nonlinear_arith)
            requires
                a >= 4,
                b >= 4,
        ;
    }
    let x = n * rate;
    assert(0 <= x / s <= x) by (nonlinear_arith)
        requires
            x >= 0,
            s >= 16,
    ;
}

proof fn lemma_frequency_index(index: int, from: int)
    requires
        0 <= from <= index < 13,
    ensures
        frequency_index(ADTS_AAC_SAMPLING_FREQUENCIES@[index], from) == Some(index),
    decreases index - from,
{
    if from < index {
        lemma_frequency_index(index, from + 1);
    }
}

proof fn lemma_frequency_index_found(frequency: u32, from: int)
    requires
        0 <= from,
        frequency_index(frequency, from) is Some,
    ensures
        from <= frequency_index(frequency, from)->0 < 13,
        ADTS_AAC_SAMPLING_FREQUENCIES@[frequency_index(frequency, from)->0] == frequency,
    decreases 13 - from,
{
    if ADTS_AAC_SAMPLING_FREQUENCIES@[from] != frequency {
        lemma_frequency_index_found(frequency, from + 1);
    }
}

proof fn lemma_length_field(channels: int, length: int)
    requires
        0 <= channels <= 7,
        0 <= length < 0x2000,
    ensures
        0 <= (channels % 4) * 0x40 + length / 0x800 < 0x100,
        ((channels % 4) * 0x40 + length / 0x800) / 0x40 == channels % 4,
        (((channels % 4) * 0x40 + length / 0x800) % 4) * 0x800 + ((length / 8) % 0x100) * 8 + ((
        length % 8) * 0x20 + 0x1F) / 0x20 == length,
{
    let high = length / 0x800;
    assert(0 <= high < 4);
    assert(((channels % 4) * 0x40 + high) % 4 == high);
    assert(length == high * 0x800 + (length % 0x800));
    assert((length / 8) % 0x100 == (length % 0x800) / 8);
}

proof fn lemma_header_fields(f: AacFrameModel)
    requires
        f.encodable(),
    ensures
        ({
            let h = f.header();
            &&& h[0] == 0xFF
            &&& h[1] / 0x10 == 0x0F
            &&& (h[1] / 2) % 4 == 0
            &&& ((h[1] / 8) % 2 == 1) == (f.mpeg_version == AdtsMpegVersion::Mpeg2)
            &&& (h[1] % 2 == 1) == (f.crc is None)
            &&& profile_of(h[2] / 0x40) == f.profile
            &&& (h[2] / 4) % 0x10 == frequency_index(f.sampling_frequency, 0)->0
            &&& (h[2] % 2) * 4 + h[3] / 0x40 == f.channel_configuration
            &&& h[6] % 4 + 1 == f.raw_data_block_count
            &&& adts_frame_length(h) == f.length()
        }),
{
    lemma_frequency_index_found(f.sampling_frequency, 0);
    lemma_length_field(f.channel_configuration as int, f.length());
}

/// A frame that a header can describe is read back from its bytes, whatever
/// follows.
pub proof fn law_aac_frame_round_trip(f: AacFrameModel, rest: Seq<u8>)
    requires
        f.encodable(),
    ensures
        aac_frame_of(f.wire() + rest) == Some((f, f.length())),
{
    let data = f.wire() + rest;
    lemma_frequency_index_found(f.sampling_frequency, 0);
    lemma_header_fields(f);
    let header = f.header();
    lemma_starts_with_header(f, rest);
    if let Some(crc) = f.crc {
        bytes::lemma_be16_round_trip(crc);
    }
    assert(adts_frame_length(data) == adts_frame_length(header));
    assert(adts_frequency(data) == adts_frequency(header));
}

proof fn lemma_starts_with_header(f: AacFrameModel, rest: Seq<u8>)
    ensures
        ({
            let data = f.wire() + rest;
            let h = f.header();
            &&& data[0] == h[0] && data[1] == h[1] && data[2] == h[2] && data[3] == h[3]
            &&& data[4] == h[4] && data[5] == h[5] && data[6] == h[6]
            &&& f.crc is Some ==> data[7] == bytes::be16_bytes(f.crc->0)[0] && data[8]
                == bytes::be16_bytes(f.crc->0)[1]
            &&& data.subrange(f.header_length(), f.length()) == f.payload
            &&& data.len() == f.length() + rest.len()
        }),
{
    let data = f.wire() + rest;
    assert(data.subrange(f.header_length(), f.length()) =~= f.payload);
}

/// A frame that was parsed can be encoded again, and is read back from that.
pub proof fn law_parsed_aac_frame_round_trip(data: Seq<u8>)
    requires
        aac_frame_of(data) is Some,
    ensures
        ({
            let f = (aac_frame_of(data)->0).0;
            &&& f.encodable()
            &&& f.sampling_frequency > 0
            &&& aac_frame_of(f.wire()) == Some((f, f.length()))
            &&& f.length() == (aac_frame_of(data)->0).1
        }),
{
    let f = (aac_frame_of(data)->0).0;
    let index = ((data[2] / 4) % 0x10) as int;
    assert(index < 13);
    lemma_frequency_index(index, 0);
    law_aac_frame_round_trip(f, seq![]);
    assert(f.wire() + seq![] =~= f.wire());
}

/// Where a frame is found, one can be parsed, and at no offset before.
pub proof fn law_sync_is_first_frame(data: Seq<u8>, i: int)
    requires
        0 <= i,
        i + 1 < data.len(),
    ensures
        match sync_in(data, 0) {
            Some(offset) => aac_frame_of(data.skip(offset)) is Some && (i < offset
                ==> aac_frame_of(data.skip(i)) is None),
            None => aac_frame_of(data.skip(i)) is None,
        },
{
    lemma_sync(data, 0, i);
}

proof fn lemma_sync(data: Seq<u8>, from: int, i: int)
    requires
        0 <= from,
        i + 1 < data.len(),
    ensures
        match sync_in(data, from) {
            Some(offset) => aac_frame_of(data.skip(offset)) is Some && (from <= i < offset
                ==> aac_frame_of(data.skip(i)) is None),
            None => from <= i ==> aac_frame_of(data.skip(i)) is None,
        },
    decreases data.len() - from,
{
    if from + 1 < data.len() {
        lemma_sync(data, from + 1, i);
    }
}

} // verus!
