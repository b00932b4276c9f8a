//! Service records of audio sources and sinks.

use vstd::prelude::*;
use crate::classic::avdtp;
use crate::classic::sdp::attribute_id;
use crate::classic::sdp::element::{DataElement, ElementModel, SdpUuid};
use crate::classic::sdp::record::{AttributeModel, ServiceAttribute};
use crate::models;

verus! {

/// Audio Source service class UUID.
pub const AUDIO_SOURCE_SERVICE_UUID: u16 = 0x110A;

/// Audio Sink service class UUID.
pub const AUDIO_SINK_SERVICE_UUID: u16 = 0x110B;

/// A descriptor: a UUID and a number.
pub open spec fn descriptor(uuid: u16, value: int) -> ElementModel {
    ElementModel::Sequence(
        seq![
            ElementModel::Uuid(SdpUuid::Uuid16(uuid)),
            ElementModel::UnsignedInteger(value as u64, 2),
        ],
    )
}

/// The attributes of an audio service.
pub open spec fn record_attributes(handle: u32, service_class: u16, version: (u8, u8)) -> Seq<
    AttributeModel,
> {
    let number = version.0 * 0x100 + version.1;
    seq![
        AttributeModel {
            id: attribute_id::SERVICE_RECORD_HANDLE,
            value: ElementModel::UnsignedInteger(handle as u64, 4),
        },
        AttributeModel {
            id: attribute_id::BROWSE_GROUP_LIST,
            value: ElementModel::Sequence(
                seq![ElementModel::Uuid(SdpUuid::Uuid16(SdpUuid::SDP_PUBLIC_BROWSE_ROOT))],
            ),
        },
        AttributeModel {
            id: attribute_id::SERVICE_CLASS_ID_LIST,
            value: ElementModel::Sequence(
                seq![ElementModel::Uuid(SdpUuid::Uuid16(service_class))],
            ),
        },
        AttributeModel {
            id: attribute_id::PROTOCOL_DESCRIPTOR_LIST,
            value: ElementModel::Sequence(
                seq![
                    descriptor(SdpUuid::BT_L2CAP_PROTOCOL_ID, avdtp::AVDTP_PSM as int),
                    descriptor(avdtp::AVDTP_PROTOCOL_UUID, number),
                ],
            ),
        },
        AttributeModel {
            id: attribute_id::BLUETOOTH_PROFILE_DESCRIPTOR_LIST,
            value: ElementModel::Sequence(
                seq![descriptor(avdtp::ADVANCED_AUDIO_DISTRIBUTION_SERVICE_UUID, number)],
            ),
        },
    ]
}

fn make_descriptor(uuid: u16, value: u16) -> (r: DataElement)
    ensures
        r@ == descriptor(uuid, value as int),
{
    DataElement::sequence_of_2(DataElement::uuid_16(uuid), DataElement::unsigned_integer_16(value))
}

fn make_audio_service_sdp_records(
    service_record_handle: u32,
    service_class: u16,
    version: (u8, u8),
) -> (r: Vec<ServiceAttribute>)
    ensures
        models::seq_views(r@) == record_attributes(service_record_handle, service_class, version),
{
    let number: u16 = version.0 as u16 * 0x100 + version.1 as u16;
    let mut records: Vec<ServiceAttribute> = Vec::new();
    records.push(
        ServiceAttribute::new(
            attribute_id::SERVICE_RECORD_HANDLE,
            DataElement::unsigned_integer_32(service_record_handle),
        ),
    );
    records.push(
        ServiceAttribute::new(
            attribute_id::BROWSE_GROUP_LIST,
            DataElement::sequence_of_1(DataElement::uuid_16(SdpUuid::SDP_PUBLIC_BROWSE_ROOT)),
        ),
    );
    records.push(
        ServiceAttribute::new(
            attribute_id::SERVICE_CLASS_ID_LIST,
            DataElement::sequence_of_1(DataElement::uuid_16(service_class)),
        ),
    );
    records.push(
        ServiceAttribute::new(
            attribute_id::PROTOCOL_DESCRIPTOR_LIST,
            DataElement::sequence_of_2(
                make_descriptor(SdpUuid::BT_L2CAP_PROTOCOL_ID, avdtp::AVDTP_PSM),
                make_descriptor(avdtp::AVDTP_PROTOCOL_UUID, number),
            ),
        ),
    );
    records.push(
        ServiceAttribute::new(
            attribute_id::BLUETOOTH_PROFILE_DESCRIPTOR_LIST,
            DataElement::sequence_of_1(
                make_descriptor(avdtp::ADVANCED_AUDIO_DISTRIBUTION_SERVICE_UUID, number),
            ),
        ),
    );
    assert(models::seq_views(records@) =~= record_attributes(
        service_record_handle,
        service_class,
        version,
    ));
    records
}

/// The version, or the default one.
pub open spec fn version_or_default(version: Option<(u8, u8)>) -> (u8, u8) {
    match version {
        Some(version) => version,
        None => avdtp::DEFAULT_VERSION,
    }
}

fn or_default(version: Option<(u8, u8)>) -> (r: (u8, u8))
    ensures
        r == version_or_default(version),
{
    match version {
        Some(version) => version,
        None => avdtp::DEFAULT_VERSION,
    }
}

/// The service record of an audio source.
pub fn make_audio_source_service_sdp_records(
    service_record_handle: u32,
    version: Option<(u8, u8)>,
) -> (r: Vec<ServiceAttribute>)
    ensures
        models::seq_views(r@) == record_attributes(
            service_record_handle,
            AUDIO_SOURCE_SERVICE_UUID,
            version_or_default(version),
        ),
{
    make_audio_service_sdp_records(
        service_record_handle,
        AUDIO_SOURCE_SERVICE_UUID,
        or_default(version),
    )
}

/// The service record of an audio sink.
pub fn make_audio_sink_service_sdp_records(
    service_record_handle: u32,
    version: Option<(u8, u8)>,
) -> (r: Vec<ServiceAttribute>)
    ensures
        models::seq_views(r@) == record_attributes(
            service_record_handle,
            AUDIO_SINK_SERVICE_UUID,
            version_or_default(version),
        ),
{
    make_audio_service_sdp_records(
        service_record_handle,
        AUDIO_SINK_SERVICE_UUID,
        or_default(version),
    )
}

/// The version in the record of an audio service is the one that a search for
/// the service finds in it.
pub proof fn law_record_version_is_found(handle: u32, service_class: u16, version: (u8, u8))
    ensures
        avdtp::service::lists_version(
            seq![record_attributes(handle, service_class, version)],
            0,
        ) == Some(version),
{
    let attributes = record_attributes(handle, service_class, version);
    let number = version.0 * 0x100 + version.1;
    let profile = seq![descriptor(avdtp::ADVANCED_AUDIO_DISTRIBUTION_SERVICE_UUID, number)];
    assert(avdtp::service::descriptor_version(profile[0]) == Some(version));
    assert(avdtp::service::descriptors_version(profile, 0) == Some(version));
    assert(attributes[4].value.sequence() == Some(profile));
    assert(avdtp::service::attribute_version(attributes[4]) == Some(version));
    assert(avdtp::service::attributes_version(attributes, 4) == Some(version));
    assert(avdtp::service::attributes_version(attributes, 3) == Some(version));
    assert(avdtp::service::attributes_version(attributes, 2) == Some(version));
    assert(avdtp::service::attributes_version(attributes, 1) == Some(version));
    assert(avdtp::service::attributes_version(attributes, 0) == Some(version));
}

} // verus!
