//! Tests of the A2DP codec information, media frames and service records.

use simble::classic::a2dp::sbc::sampling_frequency;
use simble::classic::a2dp::{
    codec_type, make_audio_sink_service_sdp_records, make_audio_source_service_sdp_records,
    AacFrame, AacMediaCodecInformation, AacProfile, AdtsMpegVersion, MediaCodecInformation,
    OpusMediaCodecInformation, SbcFrame, SbcMediaCodecInformation,
    VendorSpecificMediaCodecInformation,
};
use simble::classic::avdtp::service::version_from;
use simble::classic::avdtp::{find_avdtp_service, MediaCodecCapabilities, MediaType};
use simble::classic::sdp::{DataElement, SdpClient, SdpServer, ServiceAttribute};

fn sbc(min: u8, max: u8) -> SbcMediaCodecInformation {
    SbcMediaCodecInformation {
        sampling_frequency: 0x3,
        channel_mode: 0xF,
        block_length: 0xF,
        subbands: 0x3,
        allocation_method: 0x3,
        minimum_bitpool_value: min,
        maximum_bitpool_value: max,
    }
}

fn aac_frame(crc: Option<u16>, payload: Vec<u8>) -> AacFrame {
    AacFrame {
        profile: AacProfile::Lc,
        mpeg_version: AdtsMpegVersion::Mpeg4,
        sampling_frequency: 44100,
        channel_configuration: 2,
        crc,
        raw_data_block_count: 1,
        payload,
    }
}

#[test]
fn sbc_information_is_packed_in_four_bytes() {
    let info = sbc(2, 53);
    assert_eq!(info.to_bytes(), [0x3F, 0xFF, 2, 53]);
    assert_eq!(SbcMediaCodecInformation::parse(&[0x3F, 0xFF, 2, 53]), Some(info));
    assert_eq!(SbcMediaCodecInformation::parse(&[0x3F, 0xFF, 2]), None);
    // Bytes behind the fourth are not part of it.
    assert_eq!(SbcMediaCodecInformation::parse(&[0x3F, 0xFF, 2, 53, 9]), Some(info));
}

#[test]
fn sbc_sampling_frequency_flags() {
    assert_eq!(
        SbcMediaCodecInformation::sampling_frequency_flag(44100),
        Some(sampling_frequency::SF_44100)
    );
    assert_eq!(SbcMediaCodecInformation::sampling_frequency_flag(16000), Some(8));
    assert_eq!(SbcMediaCodecInformation::sampling_frequency_flag(32000), Some(4));
    assert_eq!(SbcMediaCodecInformation::sampling_frequency_flag(48000), Some(1));
    assert_eq!(SbcMediaCodecInformation::sampling_frequency_flag(96000), None);
}

#[test]
fn sbc_intersection_keeps_what_both_have() {
    let mut other = sbc(10, 40);
    other.sampling_frequency = 0x6;
    let common = sbc(2, 53).intersect(&other).unwrap();
    assert_eq!(common.sampling_frequency, 0x2);
    assert_eq!(common.minimum_bitpool_value, 10);
    assert_eq!(common.maximum_bitpool_value, 40);
    assert_eq!(other.intersect(&sbc(2, 53)), Some(common));
}

#[test]
fn sbc_without_common_ground() {
    let mut other = sbc(2, 53);
    other.sampling_frequency = 0xC;
    assert_eq!(sbc(2, 53).intersect(&other), None);
    // Bitpool ranges that do not overlap.
    assert_eq!(sbc(2, 20).intersect(&sbc(21, 53)), None);
}

#[test]
fn aac_information_is_packed_in_six_bytes() {
    let info = AacMediaCodecInformation {
        object_type: 0x80,
        sampling_frequency: 0x018,
        channels: 0x3,
        vbr: true,
        bitrate: 0x04_2A99,
    };
    assert_eq!(info.to_bytes(), [0x80, 0x01, 0x8C, 0x84, 0x2A, 0x99]);
    assert_eq!(AacMediaCodecInformation::parse(&info.to_bytes()), Some(info));
    assert_eq!(AacMediaCodecInformation::parse(&[0x80, 0x01, 0x8C, 0x84, 0x2A]), None);
}

#[test]
fn vendor_information_is_little_endian() {
    let info = VendorSpecificMediaCodecInformation {
        vendor_id: 0x0000_012D,
        codec_id: 0x00AA,
        value: vec![0x3C, 0x07],
    };
    let bytes = vec![0x2D, 0x01, 0x00, 0x00, 0xAA, 0x00, 0x3C, 0x07];
    assert_eq!(info.to_bytes(), bytes);
    assert_eq!(VendorSpecificMediaCodecInformation::parse(&bytes), Some(info));
    assert_eq!(VendorSpecificMediaCodecInformation::parse(&bytes[..5]), None);
}

#[test]
fn opus_is_recognized_by_its_ids() {
    let opus = OpusMediaCodecInformation { channel_mode: 2, frame_size: 1, sampling_frequency: 1 };
    assert_eq!(opus.value_byte(), 0x8A);
    assert_eq!(OpusMediaCodecInformation::parse_value(&[0x8A]), Some(opus));
    assert_eq!(OpusMediaCodecInformation::parse_value(&[]), None);
    let bytes = opus.to_vendor_information().to_bytes();
    assert_eq!(bytes, vec![0xE0, 0x00, 0x00, 0x00, 0x01, 0x00, 0x8A]);
    assert_eq!(
        MediaCodecInformation::parse(codec_type::NON_A2DP, &bytes),
        Some(MediaCodecInformation::Opus(opus))
    );
}

#[test]
fn information_is_chosen_by_codec_type() {
    let info = MediaCodecInformation::Sbc(sbc(2, 53));
    assert_eq!(info.codec_type(), codec_type::SBC);
    assert_eq!(
        info.to_capabilities(),
        MediaCodecCapabilities {
            media_type: MediaType::Audio,
            media_codec_type: 0,
            media_codec_information: vec![0x3F, 0xFF, 2, 53],
        }
    );
    assert_eq!(MediaCodecInformation::parse(codec_type::SBC, &info.to_bytes()), Some(info));
    assert_eq!(MediaCodecInformation::parse(codec_type::ATRAC_FAMILY, &[0; 8]), None);
    let other = MediaCodecInformation::Vendor(VendorSpecificMediaCodecInformation {
        vendor_id: 0xE0,
        codec_id: 2,
        value: vec![1],
    });
    assert_eq!(other.codec_type(), codec_type::NON_A2DP);
    assert_eq!(
        MediaCodecInformation::parse(codec_type::NON_A2DP, &other.to_bytes()),
        Some(other)
    );
}

#[test]
fn sbc_frame_is_measured() {
    // 44.1 kHz, 16 blocks, joint stereo, loudness, 8 subbands, bitpool 53.
    let mut data = vec![0x9C, 0xBD, 53, 0x00];
    data.resize(119, 0x55);
    data.extend_from_slice(&[1, 2, 3]);
    let (frame, rest) = SbcFrame::parse(&data).unwrap();
    assert_eq!(frame.sampling_frequency, 44100);
    assert_eq!(frame.block_count, 16);
    assert_eq!(frame.channel_mode, 3);
    assert_eq!(frame.allocation_method, 0);
    assert_eq!(frame.subband_count, 8);
    assert_eq!(frame.bitpool, 53);
    assert_eq!(frame.payload, data[..119].to_vec());
    assert_eq!(rest, &[1, 2, 3]);
    assert_eq!(frame.sample_count(), 128);
    assert_eq!(frame.bitrate(), 327992);
    assert!(SbcFrame::parse(&data[..118]).is_none());
    data[0] = 0x9D;
    assert!(SbcFrame::parse(&data).is_none());
}

#[test]
fn sbc_mono_frame_is_measured() {
    // 16 kHz, 4 blocks, mono, SNR, 4 subbands, bitpool 3:
    // 4 + 2 + ceil(4 * 3 / 8) bytes.
    let data = [0x9C, 0x02, 3, 0, 0, 0, 0, 0];
    let (frame, rest) = SbcFrame::parse(&data).unwrap();
    assert_eq!(frame.sampling_frequency, 16000);
    assert_eq!(frame.allocation_method, 1);
    assert_eq!(frame.payload.len(), 8);
    assert_eq!(rest.len(), 0);
    assert_eq!(frame.sample_count(), 16);
    assert_eq!(frame.bitrate(), 64000);
}

#[test]
fn aac_frame_is_written_and_read_back() {
    let frame = aac_frame(None, vec![1, 2, 3]);
    let bytes = frame.to_bytes().unwrap();
    assert_eq!(bytes, vec![0xFF, 0xF1, 0x50, 0x80, 0x01, 0x5F, 0xFC, 1, 2, 3]);
    let (parsed, rest) = AacFrame::parse(&bytes).unwrap();
    assert_eq!(parsed, frame);
    assert!(rest.is_empty());
    assert_eq!(parsed.sample_count(), 1024);
    assert_eq!(parsed.duration_us(), 23219);
    assert!(!parsed.has_program_config_element());
}

#[test]
fn aac_checksum_is_not_payload() {
    let mut frame = aac_frame(Some(0xBEEF), vec![7]);
    frame.mpeg_version = AdtsMpegVersion::Mpeg2;
    frame.channel_configuration = 0;
    frame.raw_data_block_count = 4;
    let bytes = frame.to_bytes().unwrap();
    assert_eq!(&bytes[..2], &[0xFF, 0xF8]);
    assert_eq!(&bytes[7..], &[0xBE, 0xEF, 7]);
    let (parsed, _) = AacFrame::parse(&bytes).unwrap();
    assert_eq!(parsed, frame);
    assert_eq!(parsed.sample_count(), 4096);
    assert!(parsed.has_program_config_element());
}

#[test]
fn aac_frames_that_cannot_be_written() {
    let mut frame = aac_frame(None, vec![]);
    frame.sampling_frequency = 44000;
    assert_eq!(frame.to_bytes(), None);
    frame.sampling_frequency = 0;
    assert_eq!(frame.to_bytes(), None);
    frame = aac_frame(None, vec![]);
    frame.channel_configuration = 8;
    assert_eq!(frame.to_bytes(), None);
    frame = aac_frame(None, vec![]);
    frame.raw_data_block_count = 5;
    assert_eq!(frame.to_bytes(), None);
    frame.raw_data_block_count = 0;
    assert_eq!(frame.to_bytes(), None);
    // The length field has 13 bits.
    assert!(aac_frame(None, vec![0; 8184]).to_bytes().is_some());
    assert_eq!(aac_frame(None, vec![0; 8185]).to_bytes(), None);
}

#[test]
fn malformed_aac_frames() {
    let good = aac_frame(None, vec![1, 2, 3]).to_bytes().unwrap();
    assert!(AacFrame::parse(&good[..6]).is_none());
    assert!(AacFrame::parse(&good[..9]).is_none());
    // Sync word.
    let mut bad = good.clone();
    bad[1] = 0xE1;
    assert!(AacFrame::parse(&bad).is_none());
    // Layer.
    bad = good.clone();
    bad[1] = 0xF3;
    assert!(AacFrame::parse(&bad).is_none());
    // Reserved sampling frequency index.
    bad = good.clone();
    bad[2] = 0x74;
    assert!(AacFrame::parse(&bad).is_none());
    // A length that is shorter than the header.
    bad = good.clone();
    bad[4] = 0;
    bad[5] = 0xDF;
    assert!(AacFrame::parse(&bad).is_none());
}

#[test]
fn aac_sync_is_found_behind_noise() {
    let frame = aac_frame(None, vec![1, 2, 3]).to_bytes().unwrap();
    // A sync word that opens no frame is passed over.
    let mut stream = vec![0x00, 0xFF, 0xF7, 0x00];
    stream.extend_from_slice(&frame);
    assert_eq!(AacFrame::find_sync(&stream), Some(4));
    assert_eq!(AacFrame::find_sync(&stream[..12]), None);
    assert_eq!(AacFrame::find_sync(&[]), None);
    assert_eq!(AacFrame::find_sync(&frame), Some(0));
}

#[test]
fn record_version_is_found_again() {
    let source = make_audio_source_service_sdp_records(7, None);
    let sink = make_audio_sink_service_sdp_records(7, Some((1, 2)));
    assert_eq!(source[0], ServiceAttribute::new(0x0000, DataElement::unsigned_integer_32(7)));
    assert_eq!(source.len(), 5);
    assert_eq!(version_from(&[source]), Some((1, 3)));
    assert_eq!(version_from(&[sink]), Some((1, 2)));
    assert_eq!(version_from(&[]), None);
}

#[test]
fn registered_version_is_found() {
    let mut server = SdpServer::new();
    let mut client = SdpClient::new();
    assert_eq!(
        find_avdtp_service(&mut client, |bytes| server.handle_request(bytes, 64)),
        Ok(None)
    );
    server.service_records.insert(7, make_audio_sink_service_sdp_records(7, Some((1, 2))));
    assert_eq!(
        find_avdtp_service(&mut client, |bytes| server.handle_request(bytes, 64)),
        Ok(Some((1, 2)))
    );
}
