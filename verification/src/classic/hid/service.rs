//! The channels, and the service record that advertises a device.

use vstd::prelude::*;
use crate::bytes;
use crate::classic::hid::attribute_id;
use crate::classic::hid::{
    HIDP_PROTOCOL_ID,
    HID_CONTROL_PSM,
    HID_INTERRUPT_PSM,
    HID_PARSER_VERSION,
    HID_PROFILE_VERSION,
    HID_SERVICE_CLASS,
    REPORT_DESCRIPTOR_TYPE,
};
use crate::classic::sdp;
use crate::classic::sdp::client;
use crate::classic::sdp::element::{DataElement, ElementModel, SdpUuid};
use crate::classic::sdp::pdu::AttributeIdSpec;
use crate::classic::sdp::record::{AttributeModel, ServiceAttribute};
use crate::classic::sdp::SdpClient;
use crate::l2cap::classic;
use crate::l2cap::classic::{ChannelManagerModel, ClassicChannelManager, ClassicChannelSpec};
use crate::models;
use crate::packets::l2cap_signaling::ConnectionRequestHeader;
use crate::types::{SimbleError, SimbleErrorModel};

verus! {

// ---------------------------------------------------------------------------
// Channels
// ---------------------------------------------------------------------------

/// Accepts connections to both channels. Both roles do: either side may
/// connect again.
pub fn register_psms(manager: &mut ClassicChannelManager) -> (r: Result<(), SimbleError>)
    ensures
        r is Ok,
        final(manager)@ == (ChannelManagerModel {
            servers: old(manager)@.servers.insert(HID_CONTROL_PSM).insert(HID_INTERRUPT_PSM),
            ..old(manager)@
        }),
{
    match manager.register_server(HID_CONTROL_PSM) {
        Ok(_) => manager.register_server(HID_INTERRUPT_PSM),
        Err(why) => Err(why),
    }
}

/// Allocates the control channel, returning its local identifier and the
/// Connection Request to send. It comes before the interrupt channel.
pub fn connect_control_channel(manager: &mut ClassicChannelManager, mtu: u16) -> (r: Result<
    (u16, ConnectionRequestHeader),
    SimbleError,
>)
    ensures
        classic::connects(
            old(manager)@,
            (ClassicChannelSpec { psm: HID_CONTROL_PSM, mtu }),
            r,
            final(manager)@,
        ),
{
    manager.connect(&ClassicChannelSpec::with_mtu(HID_CONTROL_PSM, mtu))
}

/// Allocates the interrupt channel, in the same way.
pub fn connect_interrupt_channel(manager: &mut ClassicChannelManager, mtu: u16) -> (r: Result<
    (u16, ConnectionRequestHeader),
    SimbleError,
>)
    ensures
        classic::connects(
            old(manager)@,
            (ClassicChannelSpec { psm: HID_INTERRUPT_PSM, mtu }),
            r,
            final(manager)@,
        ),
{
    manager.connect(&ClassicChannelSpec::with_mtu(HID_INTERRUPT_PSM, mtu))
}

// ---------------------------------------------------------------------------
// Service record
// ---------------------------------------------------------------------------

/// A 16-bit UUID element.
pub open spec fn uuid(value: u16) -> ElementModel {
    ElementModel::Uuid(SdpUuid::Uuid16(value))
}

/// A 16-bit unsigned integer element.
pub open spec fn number(value: u16) -> ElementModel {
    ElementModel::UnsignedInteger(value as u64, 2)
}

/// A protocol descriptor list: L2CAP with a PSM, and HIDP.
pub open spec fn protocols(psm: u16) -> ElementModel {
    ElementModel::Sequence(
        seq![
            ElementModel::Sequence(seq![uuid(SdpUuid::BT_L2CAP_PROTOCOL_ID), number(psm)]),
            ElementModel::Sequence(seq![uuid(HIDP_PROTOCOL_ID)]),
        ],
    )
}

/// The attributes of any service: handle, browse group, class, protocols,
/// profile and language.
pub open spec fn common_attributes(handle: u32) -> Seq<AttributeModel> {
    seq![
        AttributeModel {
            id: sdp::attribute_id::SERVICE_RECORD_HANDLE,
            value: ElementModel::UnsignedInteger(handle as u64, 4),
        },
        AttributeModel {
            id: sdp::attribute_id::BROWSE_GROUP_LIST,
            value: ElementModel::Sequence(seq![uuid(SdpUuid::SDP_PUBLIC_BROWSE_ROOT)]),
        },
        AttributeModel {
            id: sdp::attribute_id::SERVICE_CLASS_ID_LIST,
            value: ElementModel::Sequence(seq![uuid(HID_SERVICE_CLASS)]),
        },
        AttributeModel {
            id: sdp::attribute_id::PROTOCOL_DESCRIPTOR_LIST,
            value: protocols(HID_CONTROL_PSM),
        },
        AttributeModel {
            id: sdp::attribute_id::ADDITIONAL_PROTOCOL_DESCRIPTOR_LIST,
            value: ElementModel::Sequence(seq![protocols(HID_INTERRUPT_PSM)]),
        },
        AttributeModel {
            id: sdp::attribute_id::BLUETOOTH_PROFILE_DESCRIPTOR_LIST,
            value: ElementModel::Sequence(
                seq![
                    ElementModel::Sequence(
                        seq![uuid(HID_SERVICE_CLASS), number(HID_PROFILE_VERSION)],
                    ),
                ],
            ),
        },
        AttributeModel {
            id: sdp::attribute_id::LANGUAGE_BASE_ATTRIBUTE_ID_LIST,
            value: ElementModel::Sequence(seq![number(0x656E), number(0x006A), number(0x0100)]),
        },
    ]
}

/// The attributes of a HID device.
pub open spec fn hid_attributes(report_descriptor: Seq<u8>, device_subclass: u8) -> Seq<
    AttributeModel,
> {
    seq![
        AttributeModel {
            id: attribute_id::HID_PARSER_VERSION,
            value: number(HID_PARSER_VERSION),
        },
        AttributeModel {
            id: attribute_id::HID_DEVICE_SUBCLASS,
            value: ElementModel::UnsignedInteger(device_subclass as u64, 1),
        },
        AttributeModel {
            id: attribute_id::HID_COUNTRY_CODE,
            value: ElementModel::UnsignedInteger(0, 1),
        },
        AttributeModel {
            id: attribute_id::HID_VIRTUAL_CABLE,
            value: ElementModel::Boolean(true),
        },
        AttributeModel {
            id: attribute_id::HID_RECONNECT_INITIATE,
            value: ElementModel::Boolean(true),
        },
        AttributeModel {
            id: attribute_id::HID_DESCRIPTOR_LIST,
            value: ElementModel::Sequence(
                seq![
                    ElementModel::Sequence(
                        seq![
                            number(REPORT_DESCRIPTOR_TYPE),
                            ElementModel::TextString(report_descriptor),
                        ],
                    ),
                ],
            ),
        },
        AttributeModel {
            id: attribute_id::HID_LANGID_BASE_LIST,
            value: ElementModel::Sequence(
                seq![ElementModel::Sequence(seq![number(0x0409), number(0x0100)])],
            ),
        },
        AttributeModel { id: attribute_id::HID_BOOT_DEVICE, value: ElementModel::Boolean(true) },
    ]
}

/// The attributes of the service record of a device.
pub open spec fn record_attributes(
    handle: u32,
    report_descriptor: Seq<u8>,
    device_subclass: u8,
) -> Seq<AttributeModel> {
    common_attributes(handle) + hid_attributes(report_descriptor, device_subclass)
}

fn make_protocols(psm: u16) -> (r: DataElement)
    ensures
        r@ == protocols(psm),
{
    DataElement::sequence_of_2(
        DataElement::sequence_of_2(
            DataElement::uuid_16(SdpUuid::BT_L2CAP_PROTOCOL_ID),
            DataElement::unsigned_integer_16(psm),
        ),
        DataElement::sequence_of_1(DataElement::uuid_16(HIDP_PROTOCOL_ID)),
    )
}

fn make_common_attributes(service_record_handle: u32) -> (r: Vec<ServiceAttribute>)
    ensures
        models::seq_views(r@) == common_attributes(service_record_handle),
{
    let mut records: Vec<ServiceAttribute> = Vec::new();
    records.push(
        ServiceAttribute::new(
            sdp::attribute_id::SERVICE_RECORD_HANDLE,
            DataElement::unsigned_integer_32(service_record_handle),
        ),
    );
    records.push(
        ServiceAttribute::new(
            sdp::attribute_id::BROWSE_GROUP_LIST,
            DataElement::sequence_of_1(DataElement::uuid_16(SdpUuid::SDP_PUBLIC_BROWSE_ROOT)),
        ),
    );
    records.push(
        ServiceAttribute::new(
            sdp::attribute_id::SERVICE_CLASS_ID_LIST,
            DataElement::sequence_of_1(DataElement::uuid_16(HID_SERVICE_CLASS)),
        ),
    );
    records.push(
        ServiceAttribute::new(
            sdp::attribute_id::PROTOCOL_DESCRIPTOR_LIST,
            make_protocols(HID_CONTROL_PSM),
        ),
    );
    records.push(
        ServiceAttribute::new(
            sdp::attribute_id::ADDITIONAL_PROTOCOL_DESCRIPTOR_LIST,
            DataElement::sequence_of_1(make_protocols(HID_INTERRUPT_PSM)),
        ),
    );
    records.push(
        ServiceAttribute::new(
            sdp::attribute_id::BLUETOOTH_PROFILE_DESCRIPTOR_LIST,
            DataElement::sequence_of_1(
                DataElement::sequence_of_2(
                    DataElement::uuid_16(HID_SERVICE_CLASS),
                    DataElement::unsigned_integer_16(HID_PROFILE_VERSION),
                ),
            ),
        ),
    );
    // English, UTF-8, primary language.
    records.push(
        ServiceAttribute::new(
            sdp::attribute_id::LANGUAGE_BASE_ATTRIBUTE_ID_LIST,
            DataElement::sequence_of_3(
                DataElement::unsigned_integer_16(0x656E),
                DataElement::unsigned_integer_16(0x006A),
                DataElement::unsigned_integer_16(0x0100),
            ),
        ),
    );
    assert(models::seq_views(records@) =~= common_attributes(service_record_handle));
    records
}

fn make_hid_attributes(report_descriptor: &[u8], device_subclass: u8) -> (r: Vec<ServiceAttribute>)
    ensures
        models::seq_views(r@) == hid_attributes(report_descriptor@, device_subclass),
{
    let mut records: Vec<ServiceAttribute> = Vec::new();
    records.push(
        ServiceAttribute::new(
            attribute_id::HID_PARSER_VERSION,
            DataElement::unsigned_integer_16(HID_PARSER_VERSION),
        ),
    );
    records.push(
        ServiceAttribute::new(
            attribute_id::HID_DEVICE_SUBCLASS,
            DataElement::unsigned_integer_8(device_subclass),
        ),
    );
    // The hardware is not localized.
    records.push(
        ServiceAttribute::new(
            attribute_id::HID_COUNTRY_CODE,
            DataElement::unsigned_integer_8(0x00),
        ),
    );
    records.push(
        ServiceAttribute::new(attribute_id::HID_VIRTUAL_CABLE, DataElement::boolean(true)),
    );
    records.push(
        ServiceAttribute::new(attribute_id::HID_RECONNECT_INITIATE, DataElement::boolean(true)),
    );
    records.push(
        ServiceAttribute::new(
            attribute_id::HID_DESCRIPTOR_LIST,
            DataElement::sequence_of_1(
                DataElement::sequence_of_2(
                    DataElement::unsigned_integer_16(REPORT_DESCRIPTOR_TYPE),
                    DataElement::text_string(bytes::copy(report_descriptor)),
                ),
            ),
        ),
    );
    // English (US), at the primary language.
    records.push(
        ServiceAttribute::new(
            attribute_id::HID_LANGID_BASE_LIST,
            DataElement::sequence_of_1(
                DataElement::sequence_of_2(
                    DataElement::unsigned_integer_16(0x0409),
                    DataElement::unsigned_integer_16(0x0100),
                ),
            ),
        ),
    );
    records.push(ServiceAttribute::new(attribute_id::HID_BOOT_DEVICE, DataElement::boolean(true)));
    assert(models::seq_views(records@) =~= hid_attributes(report_descriptor@, device_subclass));
    records
}

/// The service record of a device: it advertises the report descriptor and
/// both channels.
pub fn make_service_sdp_records(
    service_record_handle: u32,
    report_descriptor: &[u8],
    device_subclass: u8,
) -> (r: Vec<ServiceAttribute>)
    ensures
        models::seq_views(r@) == record_attributes(
            service_record_handle,
            report_descriptor@,
            device_subclass,
        ),
{
    let mut records = make_common_attributes(service_record_handle);
    let ghost first = models::seq_views(records@);
    let mut more = make_hid_attributes(report_descriptor, device_subclass);
    let ghost second = models::seq_views(more@);
    records.append(&mut more);
    assert(models::seq_views(records@) =~= first + second);
    records
}

// ---------------------------------------------------------------------------
// Reading records
// ---------------------------------------------------------------------------

/// The report descriptor in an entry of a descriptor list: the entry has the
/// type of report descriptors, and the descriptor as text.
pub open spec fn entry_descriptor(entry: ElementModel) -> Option<Seq<u8>> {
    match entry.sequence() {
        Some(pair) => if pair.len() < 2 {
            None
        } else {
            match (pair[0].unsigned(), pair[1]) {
                (Some((kind, _)), ElementModel::TextString(descriptor)) => if kind
                    == REPORT_DESCRIPTOR_TYPE {
                    Some(descriptor)
                } else {
                    None
                },
                _ => None,
            }
        },
        None => None,
    }
}

/// The first report descriptor among entries, from an index on.
pub open spec fn entries_descriptor(entries: Seq<ElementModel>, from: int) -> Option<Seq<u8>>
    decreases entries.len() - from,
{
    if from >= entries.len() {
        None
    } else {
        match entry_descriptor(entries[from]) {
            Some(descriptor) => Some(descriptor),
            None => entries_descriptor(entries, from + 1),
        }
    }
}

/// The first report descriptor in an attribute, if it is a descriptor list.
pub open spec fn attribute_descriptor(attribute: AttributeModel) -> Option<Seq<u8>> {
    if attribute.id != attribute_id::HID_DESCRIPTOR_LIST {
        None
    } else {
        match attribute.value.sequence() {
            Some(entries) => entries_descriptor(entries, 0),
            None => None,
        }
    }
}

/// The first report descriptor among attributes, from an index on.
pub open spec fn attributes_descriptor(attributes: Seq<AttributeModel>, from: int) -> Option<
    Seq<u8>,
>
    decreases attributes.len() - from,
{
    if from >= attributes.len() {
        None
    } else {
        match attribute_descriptor(attributes[from]) {
            Some(descriptor) => Some(descriptor),
            None => attributes_descriptor(attributes, from + 1),
        }
    }
}

/// The first report descriptor among attribute lists, from an index on.
pub open spec fn lists_descriptor(lists: Seq<Seq<AttributeModel>>, from: int) -> Option<Seq<u8>>
    decreases lists.len() - from,
{
    if from >= lists.len() {
        None
    } else {
        match attributes_descriptor(lists[from], 0) {
            Some(descriptor) => Some(descriptor),
            None => lists_descriptor(lists, from + 1),
        }
    }
}

fn find_in_entry(entry: &DataElement) -> (r: Option<Vec<u8>>)
    ensures
        models::opt_view(r) == entry_descriptor(entry@),
{
    match entry.as_sequence() {
        Some(pair) => {
            if pair.len() < 2 {
                return None;
            }
            let ghost all = models::seq_views(pair@);
            assert(all[0] == pair@[0]@ && all[1] == pair@[1]@);
            match (pair[0].as_unsigned_integer(), &pair[1]) {
                (Some((kind, _)), DataElement::TextString(descriptor)) => {
                    if kind == REPORT_DESCRIPTOR_TYPE as u64 {
                        Some(bytes::copy(descriptor))
                    } else {
                        None
                    }
                },
                _ => None,
            }
        },
        None => None,
    }
}

fn find_in_attribute(attribute: &ServiceAttribute) -> (r: Option<Vec<u8>>)
    ensures
        models::opt_view(r) == attribute_descriptor(attribute@),
{
    if attribute.id != attribute_id::HID_DESCRIPTOR_LIST {
        return None;
    }
    match attribute.value.as_sequence() {
        Some(entries) => {
            let ghost all = models::seq_views(entries@);
            let mut i: usize = 0;
            while i < entries.len()
                invariant
                    i <= entries@.len(),
                    entries_descriptor(all, i as int) == entries_descriptor(all, 0),
                decreases entries@.len() - i,
            {
                assert(all[i as int] == entries@[i as int]@);
                let found = find_in_entry(&entries[i]);
                if found.is_some() {
                    return found;
                }
                i = i + 1;
            }
            None
        },
        None => None,
    }
}

fn find_in_attributes(attributes: &[ServiceAttribute]) -> (r: Option<Vec<u8>>)
    ensures
        models::opt_view(r) == attributes_descriptor(models::seq_views(attributes@), 0),
{
    let ghost all = models::seq_views(attributes@);
    let mut i: usize = 0;
    while i < attributes.len()
        invariant
            i <= attributes@.len(),
            attributes_descriptor(all, i as int) == attributes_descriptor(all, 0),
        decreases attributes@.len() - i,
    {
        assert(all[i as int] == attributes@[i as int]@);
        let found = find_in_attribute(&attributes[i]);
        if found.is_some() {
            return found;
        }
        i = i + 1;
    }
    None
}

/// Finds the first report descriptor that attribute lists hold.
pub fn report_descriptor_from(lists: &[Vec<ServiceAttribute>]) -> (r: Option<Vec<u8>>)
    ensures
        models::opt_view(r) == lists_descriptor(client::list_views(lists@), 0),
{
    let ghost all = client::list_views(lists@);
    let mut i: usize = 0;
    while i < lists.len()
        invariant
            i <= lists@.len(),
            lists_descriptor(all, i as int) == lists_descriptor(all, 0),
        decreases lists@.len() - i,
    {
        assert(all[i as int] == models::seq_views(lists@[i as int]@));
        let found = find_in_attributes(&lists[i]);
        if found.is_some() {
            return found;
        }
        i = i + 1;
    }
    None
}

/// What a search for a device comes to.
pub open spec fn descriptor_in(
    found: Result<Seq<Seq<AttributeModel>>, SimbleErrorModel>,
) -> Result<Option<Seq<u8>>, SimbleErrorModel> {
    match found {
        Ok(lists) => Ok(lists_descriptor(lists, 0)),
        Err(why) => Err(why),
    }
}

/// The model of the result of a search for a device.
pub open spec fn descriptor_outcome(r: Result<Option<Vec<u8>>, SimbleError>) -> Result<
    Option<Seq<u8>>,
    SimbleErrorModel,
> {
    match r {
        Ok(descriptor) => Ok(models::opt_view(descriptor)),
        Err(why) => Err(why@),
    }
}

/// Searches for a device and returns its report descriptor, if there is one.
pub fn find_hid_report_descriptor(
    sdp_client: &mut SdpClient,
    transport: impl FnMut(&[u8]) -> Vec<u8>,
) -> (r: Result<Option<Vec<u8>>, SimbleError>)
    requires
        forall|request: &[u8]| call_requires(transport, (request,)),
    ensures
        exists|found: Result<Seq<Seq<AttributeModel>>, SimbleErrorModel>|
            #[trigger] client::search_attributes_gives(
                transport,
                old(sdp_client)@,
                seq![SdpUuid::Uuid16(HID_SERVICE_CLASS)],
                seq![AttributeIdSpec::Single(attribute_id::HID_DESCRIPTOR_LIST)],
                found,
                final(sdp_client)@,
            ) && descriptor_outcome(r) == descriptor_in(found),
{
    let uuids: Vec<SdpUuid> = vec![SdpUuid::Uuid16(HID_SERVICE_CLASS)];
    assert(uuids@ =~= seq![SdpUuid::Uuid16(HID_SERVICE_CLASS)]);
    let ids: Vec<AttributeIdSpec> = vec![
        AttributeIdSpec::Single(attribute_id::HID_DESCRIPTOR_LIST),
    ];
    assert(ids@ =~= seq![AttributeIdSpec::Single(attribute_id::HID_DESCRIPTOR_LIST)]);
    match sdp_client.search_attributes(&uuids, &ids, transport) {
        Ok(lists) => Ok(report_descriptor_from(&lists)),
        Err(why) => Err(why),
    }
}

/// The report descriptor in a service record is the one that a search finds in
/// it.
pub proof fn law_descriptor_is_found(handle: u32, report_descriptor: Seq<u8>, device_subclass: u8)
    ensures
        lists_descriptor(
            seq![record_attributes(handle, report_descriptor, device_subclass)],
            0,
        ) == Some(report_descriptor),
{
    let attributes = record_attributes(handle, report_descriptor, device_subclass);
    let a = attributes[12];
    let entries = a.value.sequence()->0;
    assert(entry_descriptor(entries[0]) == Some(report_descriptor));
    assert(entries_descriptor(entries, 0) == Some(report_descriptor));
    assert(attribute_descriptor(a) == Some(report_descriptor));
    assert(attributes_descriptor(attributes, 12) == Some(report_descriptor));
    reveal_with_fuel(attributes_descriptor, 13);
    assert(attributes_descriptor(attributes, 0) == Some(report_descriptor));
}

} // verus!
