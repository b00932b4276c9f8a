//! Service records of controllers and targets.

use vstd::prelude::*;
use crate::classic::avctp;
use crate::classic::avrcp::controller_features;
use crate::classic::avrcp::target_features;
use crate::classic::sdp::attribute_id;
use crate::classic::sdp::client;
use crate::classic::sdp::element::{DataElement, ElementModel, SdpUuid};
use crate::classic::sdp::pdu::AttributeIdSpec;
use crate::classic::sdp::record;
use crate::classic::sdp::record::{AttributeModel, ServiceAttribute};
use crate::classic::sdp::SdpClient;
use crate::models;
use crate::types::{SimbleError, SimbleErrorModel};

verus! {

/// A/V Remote Control service class UUID.
pub const AV_REMOTE_CONTROL_SERVICE_UUID: u16 = 0x110E;

/// A/V Remote Control Target service class UUID.
pub const AV_REMOTE_CONTROL_TARGET_SERVICE_UUID: u16 = 0x110C;

/// A/V Remote Control Controller service class UUID.
pub const AV_REMOTE_CONTROL_CONTROLLER_SERVICE_UUID: u16 = 0x110F;

/// AVCTP protocol UUID, for protocol descriptor lists.
pub const AVCTP_PROTOCOL_UUID: u16 = 0x0017;

/// ID of the SupportedFeatures attribute.
pub const SUPPORTED_FEATURES_ATTRIBUTE_ID: u16 = 0x0311;

/// Default AVCTP version advertised: 1.4.
pub const DEFAULT_AVCTP_VERSION: (u8, u8) = (1, 4);

/// Default AVRCP version advertised: 1.6.
pub const DEFAULT_AVRCP_VERSION: (u8, u8) = (1, 6);

/// A version as a number: the major version in the high byte.
pub open spec fn version_number(version: (u8, u8)) -> u16 {
    (version.0 * 0x100 + version.1) as u16
}

/// The version that the low 16 bits of a number stand for.
pub open spec fn version_of(value: u16) -> (u8, u8) {
    ((value / 0x100) as u8, (value % 0x100) as u8)
}

fn version_to_u16(version: (u8, u8)) -> (r: u16)
    ensures
        r == version_number(version),
{
    (version.0 as u16) * 0x100 + version.1 as u16
}

fn version_from_u16(value: u16) -> (r: (u8, u8))
    ensures
        r == version_of(value),
{
    ((value / 0x100) as u8, (value % 0x100) as u8)
}

/// Versions are read back from their numbers.
pub proof fn law_version_round_trip(version: (u8, u8), value: u16)
    ensures
        version_of(version_number(version)) == version,
        version_number(version_of(value)) == value,
{
}

// ---------------------------------------------------------------------------
// Building records
// ---------------------------------------------------------------------------

/// A descriptor: a UUID and a number.
pub open spec fn descriptor(uuid: u16, value: u16) -> ElementModel {
    ElementModel::Sequence(
        seq![
            ElementModel::Uuid(SdpUuid::Uuid16(uuid)),
            ElementModel::UnsignedInteger(value as u64, 2),
        ],
    )
}

/// A protocol descriptor list: L2CAP with a PSM, and AVCTP with its version.
pub open spec fn protocols(psm: u16, avctp_version: (u8, u8)) -> ElementModel {
    ElementModel::Sequence(
        seq![
            descriptor(SdpUuid::BT_L2CAP_PROTOCOL_ID, psm),
            descriptor(AVCTP_PROTOCOL_UUID, version_number(avctp_version)),
        ],
    )
}

/// The attributes of a service record.
pub open spec fn record_attributes(
    handle: u32,
    classes: Seq<u16>,
    avctp_version: (u8, u8),
    avrcp_version: (u8, u8),
    features: u16,
    browsing: bool,
) -> Seq<AttributeModel> {
    let common = seq![
        AttributeModel {
            id: attribute_id::SERVICE_RECORD_HANDLE,
            value: ElementModel::UnsignedInteger(handle as u64, 4),
        },
        AttributeModel {
            id: attribute_id::BROWSE_GROUP_LIST,
            value: ElementModel::Sequence(
                seq![ElementModel::Uuid(SdpUuid::Uuid16(SdpUuid::SDP_PUBLIC_BROWSE_ROOT))],
            ),
        },
        AttributeModel {
            id: attribute_id::SERVICE_CLASS_ID_LIST,
            value: ElementModel::Sequence(
                Seq::new(
                    classes.len(),
                    |i: int| ElementModel::Uuid(SdpUuid::Uuid16(classes[i])),
                ),
            ),
        },
        AttributeModel {
            id: attribute_id::PROTOCOL_DESCRIPTOR_LIST,
            value: protocols(avctp::AVCTP_PSM, avctp_version),
        },
        AttributeModel {
            id: attribute_id::BLUETOOTH_PROFILE_DESCRIPTOR_LIST,
            value: ElementModel::Sequence(
                seq![descriptor(AV_REMOTE_CONTROL_SERVICE_UUID, version_number(avrcp_version))],
            ),
        },
        AttributeModel {
            id: SUPPORTED_FEATURES_ATTRIBUTE_ID,
            value: ElementModel::UnsignedInteger(features as u64, 2),
        },
    ];
    if browsing {
        common.push(
            AttributeModel {
                id: attribute_id::ADDITIONAL_PROTOCOL_DESCRIPTOR_LIST,
                value: protocols(avctp::AVCTP_BROWSING_PSM, avctp_version),
            },
        )
    } else {
        common
    }
}

fn make_descriptor(uuid: u16, value: u16) -> (r: DataElement)
    ensures
        r@ == descriptor(uuid, value),
{
    DataElement::sequence_of_2(DataElement::uuid_16(uuid), DataElement::unsigned_integer_16(value))
}

fn make_protocols(psm: u16, avctp_version: (u8, u8)) -> (r: DataElement)
    ensures
        r@ == protocols(psm, avctp_version),
{
    DataElement::sequence_of_2(
        make_descriptor(SdpUuid::BT_L2CAP_PROTOCOL_ID, psm),
        make_descriptor(AVCTP_PROTOCOL_UUID, version_to_u16(avctp_version)),
    )
}

fn make_class_list(classes: &[u16]) -> (r: DataElement)
    ensures
        r@ == ElementModel::Sequence(
            Seq::new(classes@.len(), |i: int| ElementModel::Uuid(SdpUuid::Uuid16(classes@[i]))),
        ),
{
    let mut items: Vec<DataElement> = Vec::new();
    let mut i: usize = 0;
    while i < classes.len()
        invariant
            i <= classes@.len(),
            items@.len() == i,
            forall|j: int|
                0 <= j < i ==> (#[trigger] items@[j])@ == ElementModel::Uuid(
                    SdpUuid::Uuid16(classes@[j]),
                ),
        decreases classes@.len() - i,
    {
        items.push(DataElement::uuid_16(classes[i]));
        i = i + 1;
    }
    assert(models::seq_views(items@) =~= Seq::new(
        classes@.len(),
        |i: int| ElementModel::Uuid(SdpUuid::Uuid16(classes@[i])),
    ));
    DataElement::sequence(items)
}

fn make_service_attributes(
    service_record_handle: u32,
    classes: &[u16],
    avctp_version: (u8, u8),
    avrcp_version: (u8, u8),
    supported_features: u16,
    browsing: bool,
) -> (r: Vec<ServiceAttribute>)
    ensures
        models::seq_views(r@) == record_attributes(
            service_record_handle,
            classes@,
            avctp_version,
            avrcp_version,
            supported_features,
            browsing,
        ),
{
    let mut attributes: Vec<ServiceAttribute> = Vec::new();
    attributes.push(
        ServiceAttribute::new(
            attribute_id::SERVICE_RECORD_HANDLE,
            DataElement::unsigned_integer_32(service_record_handle),
        ),
    );
    attributes.push(
        ServiceAttribute::new(
            attribute_id::BROWSE_GROUP_LIST,
            DataElement::sequence_of_1(DataElement::uuid_16(SdpUuid::SDP_PUBLIC_BROWSE_ROOT)),
        ),
    );
    attributes.push(
        ServiceAttribute::new(attribute_id::SERVICE_CLASS_ID_LIST, make_class_list(classes)),
    );
    attributes.push(
        ServiceAttribute::new(
            attribute_id::PROTOCOL_DESCRIPTOR_LIST,
            make_protocols(avctp::AVCTP_PSM, avctp_version),
        ),
    );
    attributes.push(
        ServiceAttribute::new(
            attribute_id::BLUETOOTH_PROFILE_DESCRIPTOR_LIST,
            DataElement::sequence_of_1(
                make_descriptor(AV_REMOTE_CONTROL_SERVICE_UUID, version_to_u16(avrcp_version)),
            ),
        ),
    );
    attributes.push(
        ServiceAttribute::new(
            SUPPORTED_FEATURES_ATTRIBUTE_ID,
            DataElement::unsigned_integer_16(supported_features),
        ),
    );
    if browsing {
        attributes.push(
            ServiceAttribute::new(
                attribute_id::ADDITIONAL_PROTOCOL_DESCRIPTOR_LIST,
                make_protocols(avctp::AVCTP_BROWSING_PSM, avctp_version),
            ),
        );
    }
    assert(models::seq_views(attributes@) =~= record_attributes(
        service_record_handle,
        classes@,
        avctp_version,
        avrcp_version,
        supported_features,
        browsing,
    ));
    attributes
}

/// The service record of a controller.
#[derive(Debug, Clone, Copy, PartialEq, Eq)]
pub struct ControllerServiceRecord {
    /// Service record handle.
    pub service_record_handle: u32,
    /// Advertised AVCTP version: major and minor.
    pub avctp_version: (u8, u8),
    /// Advertised AVRCP version: major and minor.
    pub avrcp_version: (u8, u8),
    /// SupportedFeatures bitmask (see `controller_features`).
    pub supported_features: u16,
}

impl ControllerServiceRecord {
    /// A record with the default versions.
    pub fn new(service_record_handle: u32, supported_features: u16) -> (r: Self)
        ensures
            r == (ControllerServiceRecord {
                service_record_handle,
                avctp_version: DEFAULT_AVCTP_VERSION,
                avrcp_version: DEFAULT_AVRCP_VERSION,
                supported_features,
            }),
    {
        ControllerServiceRecord {
            service_record_handle,
            avctp_version: DEFAULT_AVCTP_VERSION,
            avrcp_version: DEFAULT_AVRCP_VERSION,
            supported_features,
        }
    }

    /// Renders this record as a service attribute list.
    pub fn to_service_attributes(&self) -> (r: Vec<ServiceAttribute>)
        ensures
            models::seq_views(r@) == record_attributes(
                self.service_record_handle,
                seq![AV_REMOTE_CONTROL_SERVICE_UUID, AV_REMOTE_CONTROL_CONTROLLER_SERVICE_UUID],
                self.avctp_version,
                self.avrcp_version,
                self.supported_features,
                self.supported_features & controller_features::SUPPORTS_BROWSING != 0,
            ),
    {
        let classes: Vec<u16> = vec![
            AV_REMOTE_CONTROL_SERVICE_UUID,
            AV_REMOTE_CONTROL_CONTROLLER_SERVICE_UUID,
        ];
        assert(classes@ =~= seq![
            AV_REMOTE_CONTROL_SERVICE_UUID,
            AV_REMOTE_CONTROL_CONTROLLER_SERVICE_UUID,
        ]);
        make_service_attributes(
            self.service_record_handle,
            &classes,
            self.avctp_version,
            self.avrcp_version,
            self.supported_features,
            self.supported_features & controller_features::SUPPORTS_BROWSING != 0,
        )
    }
}

/// The service record of a target.
#[derive(Debug, Clone, Copy, PartialEq, Eq)]
pub struct TargetServiceRecord {
    /// Service record handle.
    pub service_record_handle: u32,
    /// Advertised AVCTP version: major and minor.
    pub avctp_version: (u8, u8),
    /// Advertised AVRCP version: major and minor.
    pub avrcp_version: (u8, u8),
    /// SupportedFeatures bitmask (see `target_features`).
    pub supported_features: u16,
}

impl TargetServiceRecord {
    /// A record with the default versions.
    pub fn new(service_record_handle: u32, supported_features: u16) -> (r: Self)
        ensures
            r == (TargetServiceRecord {
                service_record_handle,
                avctp_version: DEFAULT_AVCTP_VERSION,
                avrcp_version: DEFAULT_AVRCP_VERSION,
                supported_features,
            }),
    {
        TargetServiceRecord {
            service_record_handle,
            avctp_version: DEFAULT_AVCTP_VERSION,
            avrcp_version: DEFAULT_AVRCP_VERSION,
            supported_features,
        }
    }

    /// Renders this record as a service attribute list.
    pub fn to_service_attributes(&self) -> (r: Vec<ServiceAttribute>)
        ensures
            models::seq_views(r@) == record_attributes(
                self.service_record_handle,
                seq![AV_REMOTE_CONTROL_TARGET_SERVICE_UUID],
                self.avctp_version,
                self.avrcp_version,
                self.supported_features,
                self.supported_features & target_features::SUPPORTS_BROWSING != 0,
            ),
    {
        let classes: Vec<u16> = vec![AV_REMOTE_CONTROL_TARGET_SERVICE_UUID];
        assert(classes@ =~= seq![AV_REMOTE_CONTROL_TARGET_SERVICE_UUID]);
        make_service_attributes(
            self.service_record_handle,
            &classes,
            self.avctp_version,
            self.avrcp_version,
            self.supported_features,
            self.supported_features & target_features::SUPPORTS_BROWSING != 0,
        )
    }
}

// ---------------------------------------------------------------------------
// Reading records
// ---------------------------------------------------------------------------

/// What a list of attributes says of a service: handle, AVCTP version, AVRCP
/// version and features.
pub struct ServiceFacts {
    pub handle: u32,
    pub avctp_version: (u8, u8),
    pub avrcp_version: (u8, u8),
    pub features: u16,
}

/// What a list of attributes says of a service, with defaults for what is
/// absent; where an attribute occurs twice, the later one counts.
pub open spec fn facts_of(attributes: Seq<AttributeModel>) -> ServiceFacts
    decreases attributes.len(),
{
    if attributes.len() == 0 {
        ServiceFacts {
            handle: 0,
            avctp_version: DEFAULT_AVCTP_VERSION,
            avrcp_version: DEFAULT_AVRCP_VERSION,
            features: 0,
        }
    } else {
        let before = facts_of(attributes.drop_last());
        let attribute = attributes.last();
        match attribute.id {
            attribute_id::SERVICE_RECORD_HANDLE => match attribute.value.unsigned() {
                Some((v, _)) => ServiceFacts { handle: v as u32, ..before },
                None => before,
            },
            attribute_id::PROTOCOL_DESCRIPTOR_LIST => match record::unsigned_in(
                attribute.value,
                1,
                1,
            ) {
                Some(v) => ServiceFacts { avctp_version: version_of(v as u16), ..before },
                None => before,
            },
            attribute_id::BLUETOOTH_PROFILE_DESCRIPTOR_LIST => match record::unsigned_in(
                attribute.value,
                0,
                1,
            ) {
                Some(v) => ServiceFacts { avrcp_version: version_of(v as u16), ..before },
                None => before,
            },
            SUPPORTED_FEATURES_ATTRIBUTE_ID => match attribute.value.unsigned() {
                Some((v, _)) => ServiceFacts { features: v as u16, ..before },
                None => before,
            },
            _ => before,
        }
    }
}

/// Reads what a list of attributes says of a service.
fn parse_service_record(attributes: &[ServiceAttribute]) -> (r: ServiceFacts)
    ensures
        r == facts_of(models::seq_views(attributes@)),
{
    let ghost all = models::seq_views(attributes@);
    let mut facts = ServiceFacts {
        handle: 0,
        avctp_version: DEFAULT_AVCTP_VERSION,
        avrcp_version: DEFAULT_AVRCP_VERSION,
        features: 0,
    };
    let mut i: usize = 0;
    while i < attributes.len()
        invariant
            i <= attributes@.len(),
            facts == facts_of(all.take(i as int)),
        decreases attributes@.len() - i,
    {
        assert(all.take(i + 1).drop_last() =~= all.take(i as int));
        assert(all.take(i + 1).last() == attributes@[i as int]@);
        let value = &attributes[i].value;
        match attributes[i].id {
            attribute_id::SERVICE_RECORD_HANDLE => {
                if let Some((v, _)) = value.as_unsigned_integer() {
                    facts.handle = v as u32;
                }
            },
            attribute_id::PROTOCOL_DESCRIPTOR_LIST => {
                if let Some(v) = record::find_unsigned_in(value, 1, 1) {
                    facts.avctp_version = version_from_u16(v as u16);
                }
            },
            attribute_id::BLUETOOTH_PROFILE_DESCRIPTOR_LIST => {
                if let Some(v) = record::find_unsigned_in(value, 0, 1) {
                    facts.avrcp_version = version_from_u16(v as u16);
                }
            },
            SUPPORTED_FEATURES_ATTRIBUTE_ID => {
                if let Some((v, _)) = value.as_unsigned_integer() {
                    facts.features = v as u16;
                }
            },
            _ => {},
        }
        i = i + 1;
    }
    assert(all.take(i as int) =~= all);
    facts
}

/// The record of a controller with these attributes.
pub open spec fn controller_of(attributes: Seq<AttributeModel>) -> ControllerServiceRecord {
    let facts = facts_of(attributes);
    ControllerServiceRecord {
        service_record_handle: facts.handle,
        avctp_version: facts.avctp_version,
        avrcp_version: facts.avrcp_version,
        supported_features: facts.features,
    }
}

/// The record of a target with these attributes.
pub open spec fn target_of(attributes: Seq<AttributeModel>) -> TargetServiceRecord {
    let facts = facts_of(attributes);
    TargetServiceRecord {
        service_record_handle: facts.handle,
        avctp_version: facts.avctp_version,
        avrcp_version: facts.avrcp_version,
        supported_features: facts.features,
    }
}

/// Reads the records of controllers from attribute lists.
pub fn controllers_from(lists: &[Vec<ServiceAttribute>]) -> (r: Vec<ControllerServiceRecord>)
    ensures
        r@ == client::list_views(lists@).map_values(
            |attributes: Seq<AttributeModel>| controller_of(attributes),
        ),
{
    let mut out: Vec<ControllerServiceRecord> = Vec::new();
    let mut i: usize = 0;
    while i < lists.len()
        invariant
            i <= lists@.len(),
            out@.len() == i,
            forall|j: int|
                0 <= j < i ==> #[trigger] out@[j] == controller_of(models::seq_views(lists@[j]@)),
        decreases lists@.len() - i,
    {
        let facts = parse_service_record(&lists[i]);
        out.push(
            ControllerServiceRecord {
                service_record_handle: facts.handle,
                avctp_version: facts.avctp_version,
                avrcp_version: facts.avrcp_version,
                supported_features: facts.features,
            },
        );
        i = i + 1;
    }
    assert(out@ =~= client::list_views(lists@).map_values(
        |attributes: Seq<AttributeModel>| controller_of(attributes),
    ));
    out
}

/// Reads the records of targets from attribute lists.
pub fn targets_from(lists: &[Vec<ServiceAttribute>]) -> (r: Vec<TargetServiceRecord>)
    ensures
        r@ == client::list_views(lists@).map_values(
            |attributes: Seq<AttributeModel>| target_of(attributes),
        ),
{
    let mut out: Vec<TargetServiceRecord> = Vec::new();
    let mut i: usize = 0;
    while i < lists.len()
        invariant
            i <= lists@.len(),
            out@.len() == i,
            forall|j: int|
                0 <= j < i ==> #[trigger] out@[j] == target_of(models::seq_views(lists@[j]@)),
        decreases lists@.len() - i,
    {
        let facts = parse_service_record(&lists[i]);
        out.push(
            TargetServiceRecord {
                service_record_handle: facts.handle,
                avctp_version: facts.avctp_version,
                avrcp_version: facts.avrcp_version,
                supported_features: facts.features,
            },
        );
        i = i + 1;
    }
    assert(out@ =~= client::list_views(lists@).map_values(
        |attributes: Seq<AttributeModel>| target_of(attributes),
    ));
    out
}

/// The attributes that a search asks for.
pub open spec fn searched_attributes() -> Seq<AttributeIdSpec> {
    seq![
        AttributeIdSpec::Single(attribute_id::SERVICE_RECORD_HANDLE),
        AttributeIdSpec::Single(attribute_id::PROTOCOL_DESCRIPTOR_LIST),
        AttributeIdSpec::Single(attribute_id::BLUETOOTH_PROFILE_DESCRIPTOR_LIST),
        AttributeIdSpec::Single(SUPPORTED_FEATURES_ATTRIBUTE_ID),
    ]
}

fn find_service_records(
    sdp_client: &mut SdpClient,
    service_class: u16,
    transport: impl FnMut(&[u8]) -> Vec<u8>,
) -> (r: Result<Vec<Vec<ServiceAttribute>>, SimbleError>)
    requires
        forall|request: &[u8]| call_requires(transport, (request,)),
    ensures
        client::search_attributes_gives(
            transport,
            old(sdp_client)@,
            seq![SdpUuid::Uuid16(service_class)],
            searched_attributes(),
            client::lists_outcome(r),
            final(sdp_client)@,
        ),
{
    let uuids: Vec<SdpUuid> = vec![SdpUuid::Uuid16(service_class)];
    assert(uuids@ =~= seq![SdpUuid::Uuid16(service_class)]);
    let ids: Vec<AttributeIdSpec> = vec![
        AttributeIdSpec::Single(attribute_id::SERVICE_RECORD_HANDLE),
        AttributeIdSpec::Single(attribute_id::PROTOCOL_DESCRIPTOR_LIST),
        AttributeIdSpec::Single(attribute_id::BLUETOOTH_PROFILE_DESCRIPTOR_LIST),
        AttributeIdSpec::Single(SUPPORTED_FEATURES_ATTRIBUTE_ID),
    ];
    assert(ids@ =~= searched_attributes());
    sdp_client.search_attributes(&uuids, &ids, transport)
}

/// What a search for controllers comes to.
pub open spec fn controllers_in(found: Result<Seq<Seq<AttributeModel>>, SimbleErrorModel>) -> Result<
    Seq<ControllerServiceRecord>,
    SimbleErrorModel,
> {
    match found {
        Ok(lists) => Ok(
            lists.map_values(|attributes: Seq<AttributeModel>| controller_of(attributes)),
        ),
        Err(why) => Err(why),
    }
}

/// What a search for targets comes to.
pub open spec fn targets_in(found: Result<Seq<Seq<AttributeModel>>, SimbleErrorModel>) -> Result<
    Seq<TargetServiceRecord>,
    SimbleErrorModel,
> {
    match found {
        Ok(lists) => Ok(lists.map_values(|attributes: Seq<AttributeModel>| target_of(attributes))),
        Err(why) => Err(why),
    }
}

/// The model of both sides of a search for records.
pub open spec fn found_records<T>(r: Result<Vec<T>, SimbleError>) -> Result<
    Seq<T>,
    SimbleErrorModel,
> {
    match r {
        Ok(records) => Ok(records@),
        Err(why) => Err(why@),
    }
}

/// Searches for controllers.
pub fn find_controller_services(
    sdp_client: &mut SdpClient,
    transport: impl FnMut(&[u8]) -> Vec<u8>,
) -> (r: Result<Vec<ControllerServiceRecord>, SimbleError>)
    requires
        forall|request: &[u8]| call_requires(transport, (request,)),
    ensures
        exists|found: Result<Seq<Seq<AttributeModel>>, SimbleErrorModel>|
            #[trigger] client::search_attributes_gives(
                transport,
                old(sdp_client)@,
                seq![SdpUuid::Uuid16(AV_REMOTE_CONTROL_CONTROLLER_SERVICE_UUID)],
                searched_attributes(),
                found,
                final(sdp_client)@,
            ) && found_records(r) == controllers_in(found),
{
    let lists = find_service_records(
        sdp_client,
        AV_REMOTE_CONTROL_CONTROLLER_SERVICE_UUID,
        transport,
    );
    match lists {
        Ok(lists) => Ok(controllers_from(&lists)),
        Err(why) => Err(why),
    }
}

/// Searches for targets.
pub fn find_target_services(
    sdp_client: &mut SdpClient,
    transport: impl FnMut(&[u8]) -> Vec<u8>,
) -> (r: Result<Vec<TargetServiceRecord>, SimbleError>)
    requires
        forall|request: &[u8]| call_requires(transport, (request,)),
    ensures
        exists|found: Result<Seq<Seq<AttributeModel>>, SimbleErrorModel>|
            #[trigger] client::search_attributes_gives(
                transport,
                old(sdp_client)@,
                seq![SdpUuid::Uuid16(AV_REMOTE_CONTROL_TARGET_SERVICE_UUID)],
                searched_attributes(),
                found,
                final(sdp_client)@,
            ) && found_records(r) == targets_in(found),
{
    let lists = find_service_records(sdp_client, AV_REMOTE_CONTROL_TARGET_SERVICE_UUID, transport);
    match lists {
        Ok(lists) => Ok(targets_from(&lists)),
        Err(why) => Err(why),
    }
}

// ---------------------------------------------------------------------------
// Laws
// ---------------------------------------------------------------------------

/// What a service record says is read back from its attributes.
pub proof fn law_service_record_round_trip(
    handle: u32,
    classes: Seq<u16>,
    avctp_version: (u8, u8),
    avrcp_version: (u8, u8),
    features: u16,
    browsing: bool,
)
    ensures
        facts_of(
            record_attributes(handle, classes, avctp_version, avrcp_version, features, browsing),
        ) == (ServiceFacts { handle, avctp_version, avrcp_version, features }),
{
    let all = record_attributes(handle, classes, avctp_version, avrcp_version, features, browsing);
    law_version_round_trip(avctp_version, 0);
    law_version_round_trip(avrcp_version, 0);
    let common = record_attributes(handle, classes, avctp_version, avrcp_version, features, false);
    if browsing {
        assert(all.drop_last() =~= common);
    }
    assert(facts_of(all) == facts_of(common));
    let s5 = common.drop_last();
    let s4 = s5.drop_last();
    let s3 = s4.drop_last();
    let s2 = s3.drop_last();
    let s1 = s2.drop_last();
    assert(s1.drop_last() =~= seq![]);
    assert(facts_of(s1).handle == handle);
    assert(facts_of(s2) == facts_of(s1));
    assert(facts_of(s3) == facts_of(s2));
    assert(facts_of(s4) == (ServiceFacts { avctp_version, ..facts_of(s1) }));
    assert(facts_of(s5) == (ServiceFacts { avrcp_version, ..facts_of(s4) }));
}

} // verus!
