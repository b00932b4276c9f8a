//! What the service records of the profiles say.

use vstd::prelude::*;
use crate::classic::a2dp;
use crate::classic::avrcp;
use crate::classic::hfp;
use crate::classic::hfp::values::ProfileVersion;
use crate::classic::hid;
use crate::classic::rfcomm;
use crate::classic::sdp::element::{ElementModel, SdpUuid};
use crate::classic::sdp::record::AttributeModel;

verus! {

/// Whether the attribute with an ID, and every one with it, has a value.
pub open spec fn holds(attributes: Seq<AttributeModel>, id: u16, value: ElementModel) -> bool {
    &&& exists|i: int|
        0 <= i < attributes.len() && (#[trigger] attributes[i]).id == id && attributes[i].value
            == value
    &&& forall|i: int|
        0 <= i < attributes.len() && (#[trigger] attributes[i]).id == id ==> attributes[i].value
            == value
}

/// An element for a 16-bit number.
pub open spec fn number(value: u64) -> ElementModel {
    ElementModel::UnsignedInteger(value, 2)
}

/// An element for a 16-bit UUID.
pub open spec fn uuid(value: u16) -> ElementModel {
    ElementModel::Uuid(SdpUuid::Uuid16(value))
}

/// A list of elements.
pub open spec fn list(items: Seq<ElementModel>) -> ElementModel {
    ElementModel::Sequence(items)
}

/// The record of a device says under which handle it stands, that it is a HID
/// device, where its two channels are, which subclass it has and how it reports.
pub proof fn law_hid_record(handle: u32, descriptor: Seq<u8>, subclass: u8)
    ensures
        ({
            let r = hid::service::record_attributes(handle, descriptor, subclass);
            &&& holds(r, 0x0000, ElementModel::UnsignedInteger(handle as u64, 4))
            &&& holds(r, 0x0001, ElementModel::Sequence(seq![uuid(0x1124)]))
            &&& holds(r, 0x0005, ElementModel::Sequence(seq![uuid(0x1002)]))
            &&& holds(
                r,
                0x0004,
                ElementModel::Sequence(
                    seq![
                        ElementModel::Sequence(seq![uuid(0x0100), number(0x0011)]),
                        ElementModel::Sequence(seq![uuid(0x0011)]),
                    ],
                ),
            )
            &&& holds(
                r,
                0x000D,
                ElementModel::Sequence(
                    seq![
                        ElementModel::Sequence(
                            seq![
                                ElementModel::Sequence(seq![uuid(0x0100), number(0x0013)]),
                                ElementModel::Sequence(seq![uuid(0x0011)]),
                            ],
                        ),
                    ],
                ),
            )
            &&& holds(
                r,
                0x0009,
                ElementModel::Sequence(
                    seq![ElementModel::Sequence(seq![uuid(0x1124), number(0x0101)])],
                ),
            )
            &&& holds(r, 0x0201, number(0x0111))
            &&& holds(r, 0x0202, ElementModel::UnsignedInteger(subclass as u64, 1))
            &&& holds(
                r,
                0x0206,
                ElementModel::Sequence(
                    seq![
                        ElementModel::Sequence(
                            seq![number(0x22), ElementModel::TextString(descriptor)],
                        ),
                    ],
                ),
            )
        }),
{
    let r = hid::service::record_attributes(handle, descriptor, subclass);
    assert(r.len() == 15);
    assert(r[0].id == 0x0000 && r[1].id == 0x0005 && r[2].id == 0x0001 && r[3].id == 0x0004);
    assert(r[4].id == 0x000D && r[5].id == 0x0009 && r[7].id == 0x0201 && r[8].id == 0x0202);
    assert(r[12].id == 0x0206);
}

/// The number of a version of the Hands-Free profile.
pub open spec fn hands_free_version(version: ProfileVersion) -> u64 {
    match version {
        ProfileVersion::V1_5 => 0x0105,
        ProfileVersion::V1_6 => 0x0106,
        ProfileVersion::V1_7 => 0x0107,
        ProfileVersion::V1_8 => 0x0108,
        ProfileVersion::V1_9 => 0x0109,
    }
}

/// The record of a side of the Hands-Free profile says which side it is, on
/// which RFCOMM channel it is found, in which version, and with which features.
pub proof fn law_hands_free_record(
    handle: u32,
    channel: u8,
    class: u16,
    version: ProfileVersion,
    features: u16,
)
    ensures
        ({
            let r = hfp::service::record_attributes(handle, channel, class, version, features);
            &&& holds(r, 0x0000, ElementModel::UnsignedInteger(handle as u64, 4))
            &&& holds(r, 0x0001, list(seq![uuid(class), uuid(0x1203)]))
            &&& holds(
                r,
                0x0004,
                list(
                    seq![
                        list(seq![uuid(0x0100)]),
                        list(seq![uuid(0x0003), ElementModel::UnsignedInteger(channel as u64, 1)]),
                    ],
                ),
            )
            &&& holds(
                r,
                0x0009,
                list(seq![list(seq![uuid(class), number(hands_free_version(version))])]),
            )
            &&& holds(r, 0x0311, number(features as u64))
        }),
        hfp::service::HANDSFREE_SERVICE == 0x111E,
        hfp::service::HANDSFREE_AUDIO_GATEWAY_SERVICE == 0x111F,
{
    let r = hfp::service::record_attributes(handle, channel, class, version, features);
    assert(r.len() == 5);
    assert(r[0].id == 0x0000 && r[1].id == 0x0001 && r[2].id == 0x0004);
    assert(r[3].id == 0x0009 && r[4].id == 0x0311);
}

/// The record of a service over RFCOMM says on which channel it is found, and
/// which service it is, where that is known.
pub proof fn law_rfcomm_record(handle: u32, channel: u8, class: Option<SdpUuid>)
    ensures
        ({
            let r = rfcomm::service::record_attributes(handle, channel, class);
            &&& holds(r, 0x0000, ElementModel::UnsignedInteger(handle as u64, 4))
            &&& holds(r, 0x0005, list(seq![uuid(0x1002)]))
            &&& holds(
                r,
                0x0004,
                list(
                    seq![
                        list(seq![uuid(0x0100)]),
                        list(seq![uuid(0x0003), ElementModel::UnsignedInteger(channel as u64, 1)]),
                    ],
                ),
            )
            &&& class is Some ==> holds(r, 0x0001, list(seq![ElementModel::Uuid(class->0)]))
            &&& class is None ==> forall|i: int|
                0 <= i < r.len() ==> (#[trigger] r[i]).id != 0x0001
        }),
{
    let r = rfcomm::service::record_attributes(handle, channel, class);
    assert(r[0].id == 0x0000 && r[1].id == 0x0005 && r[2].id == 0x0004);
    if class is Some {
        assert(r[3].id == 0x0001);
    }
}

/// The record of an audio service says whether it is a source or a sink, that
/// it is found over AVDTP, and in which version.
pub proof fn law_audio_record(handle: u32, class: u16, version: (u8, u8))
    ensures
        ({
            let r = a2dp::service::record_attributes(handle, class, version);
            let v = (version.0 * 256 + version.1) as u64;
            &&& holds(r, 0x0000, ElementModel::UnsignedInteger(handle as u64, 4))
            &&& holds(r, 0x0005, list(seq![uuid(0x1002)]))
            &&& holds(r, 0x0001, list(seq![uuid(class)]))
            &&& holds(
                r,
                0x0004,
                list(
                    seq![
                        list(seq![uuid(0x0100), number(0x0019)]),
                        list(seq![uuid(0x0019), number(v)]),
                    ],
                ),
            )
            &&& holds(r, 0x0009, list(seq![list(seq![uuid(0x110D), number(v)])]))
        }),
        a2dp::service::version_or_default(Some(version)) == version,
        a2dp::service::version_or_default(None) == (1u8, 3u8),
        a2dp::service::AUDIO_SOURCE_SERVICE_UUID == 0x110A,
        a2dp::service::AUDIO_SINK_SERVICE_UUID == 0x110B,
{
    let r = a2dp::service::record_attributes(handle, class, version);
    assert(r.len() == 5);
    assert(r[0].id == 0x0000 && r[1].id == 0x0005 && r[2].id == 0x0001);
    assert(r[3].id == 0x0004 && r[4].id == 0x0009);
}

/// The record of a remote control says which roles it has, that it is found over
/// AVCTP, in which versions of both, with which features, and, where it can be
/// browsed, where.
pub proof fn law_remote_control_record(
    handle: u32,
    classes: Seq<u16>,
    avctp_version: (u8, u8),
    avrcp_version: (u8, u8),
    features: u16,
    browsing: bool,
)
    ensures
        ({
            let r = avrcp::service::record_attributes(
                handle,
                classes,
                avctp_version,
                avrcp_version,
                features,
                browsing,
            );
            let transport = (avctp_version.0 * 256 + avctp_version.1) as u64;
            let profile = (avrcp_version.0 * 256 + avrcp_version.1) as u64;
            &&& holds(r, 0x0000, ElementModel::UnsignedInteger(handle as u64, 4))
            &&& holds(r, 0x0005, list(seq![uuid(0x1002)]))
            &&& holds(r, 0x0001, list(classes.map_values(|class: u16| uuid(class))))
            &&& holds(
                r,
                0x0004,
                list(
                    seq![
                        list(seq![uuid(0x0100), number(0x0017)]),
                        list(seq![uuid(0x0017), number(transport)]),
                    ],
                ),
            )
            &&& holds(r, 0x0009, list(seq![list(seq![uuid(0x110E), number(profile)])]))
            &&& holds(r, 0x0311, number(features as u64))
            &&& browsing ==> holds(
                r,
                0x000D,
                list(
                    seq![
                        list(seq![uuid(0x0100), number(0x001B)]),
                        list(seq![uuid(0x0017), number(transport)]),
                    ],
                ),
            )
            &&& !browsing ==> forall|i: int|
                0 <= i < r.len() ==> (#[trigger] r[i]).id != 0x000D
        }),
        avrcp::service::AV_REMOTE_CONTROL_TARGET_SERVICE_UUID == 0x110C,
        avrcp::service::AV_REMOTE_CONTROL_CONTROLLER_SERVICE_UUID == 0x110F,
        avrcp::service::DEFAULT_AVCTP_VERSION == (1u8, 4u8),
        avrcp::service::DEFAULT_AVRCP_VERSION == (1u8, 6u8),
{
    let r = avrcp::service::record_attributes(
        handle,
        classes,
        avctp_version,
        avrcp_version,
        features,
        browsing,
    );
    assert(r[0].id == 0x0000 && r[1].id == 0x0005 && r[2].id == 0x0001 && r[3].id == 0x0004);
    assert(r[4].id == 0x0009 && r[5].id == 0x0311);
    let names = r[2].value->Sequence_0;
    assert(names =~= classes.map_values(|class: u16| uuid(class)));
    if browsing {
        assert(r[6].id == 0x000D);
    }
}

} // verus!
