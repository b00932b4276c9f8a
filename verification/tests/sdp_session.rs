//! Client and server of service discovery.

use simble::classic::sdp::{
    error_code, AttributeIdSpec, DataElement, SdpClient, SdpPdu, SdpServer, SdpUuid,
    ServiceAttribute,
};
use simble::types::{SimbleError, Uuid};

fn record(handle: u32, class: u16) -> Vec<ServiceAttribute> {
    vec![
        ServiceAttribute::new(0x0000, DataElement::unsigned_integer_32(handle)),
        ServiceAttribute::new(
            0x0001,
            DataElement::sequence(vec![DataElement::uuid(SdpUuid::Uuid16(class))]),
        ),
        ServiceAttribute::new(0x0100, DataElement::text_string(vec![b'x'; 100])),
    ]
}

fn server() -> SdpServer {
    let mut server = SdpServer::new();
    server.service_records.insert(0x10001, record(0x10001, 0x110A));
    server.service_records.insert(0x10002, record(0x10002, 0x110B));
    server
}

#[test]
fn services_are_found_by_uuid() {
    let mut server = server();
    let mut client = SdpClient::new();
    let found = client
        .search_services(&[SdpUuid::Uuid16(0x110B)], |bytes| server.handle_request(bytes, 672))
        .unwrap();
    assert_eq!(found, vec![0x10002]);
    let found = client
        .search_services(&[SdpUuid::Uuid16(0x1234)], |bytes| server.handle_request(bytes, 672))
        .unwrap();
    assert!(found.is_empty());
    // All of the UUIDs have to be there.
    let both = [SdpUuid::Uuid16(0x110A), SdpUuid::Uuid16(0x110B)];
    let found = client
        .search_services(&both, |bytes| server.handle_request(bytes, 672))
        .unwrap();
    assert!(found.is_empty());
    let mut attributes = record(0x10003, 0x110A);
    attributes.push(ServiceAttribute::new(0x0200, DataElement::uuid(SdpUuid::Uuid16(0x110B))));
    server.service_records.insert(0x10003, attributes);
    let found = client
        .search_services(&both, |bytes| server.handle_request(bytes, 672))
        .unwrap();
    assert_eq!(found, vec![0x10003]);
    let found = client
        .search_services(&[], |bytes| server.handle_request(bytes, 672))
        .unwrap();
    assert!(found.is_empty());
}

#[test]
fn attributes_are_read_back() {
    let mut server = server();
    let mut client = SdpClient::new();
    let attributes = client
        .get_attributes(0x10001, &[AttributeIdSpec::Range(0, 0xFFFF)], |bytes| {
            server.handle_request(bytes, 672)
        })
        .unwrap();
    assert_eq!(attributes, record(0x10001, 0x110A));
    let attributes = client
        .get_attributes(0x10001, &[AttributeIdSpec::Single(1)], |bytes| {
            server.handle_request(bytes, 672)
        })
        .unwrap();
    assert_eq!(attributes, record(0x10001, 0x110A)[1..2].to_vec());
}

#[test]
fn long_answers_are_continued() {
    let mut server = server();
    let mut client = SdpClient::new();
    let mut rounds = 0;
    let lists = client
        .search_attributes(
            &[SdpUuid::Uuid16(0x110A)],
            &[AttributeIdSpec::Range(0, 0xFFFF)],
            |bytes| {
                rounds += 1;
                server.handle_request(bytes, 48)
            },
        )
        .unwrap();
    assert_eq!(lists, vec![record(0x10001, 0x110A)]);
    assert!(rounds > 1);
}

#[test]
fn requests_that_fail() {
    let mut server = server();
    let mut client = SdpClient::new();
    // A record that is not there.
    assert!(matches!(
        client.get_attributes(7, &[AttributeIdSpec::Single(1)], |bytes| server
            .handle_request(bytes, 672)),
        Err(SimbleError::DeviceError(_))
    ));
    // Bytes that are no answer.
    assert!(matches!(
        client.search_services(&[SdpUuid::Uuid16(1)], |_| vec![1, 2, 3]),
        Err(SimbleError::PacketParseError(_))
    ));
    // Bytes that are no request.
    assert_eq!(
        SdpPdu::parse(&server.handle_request(&[0x02, 0, 5], 672)),
        Some(SdpPdu::ErrorResponse {
            transaction_id: 0,
            error_code: error_code::INVALID_REQUEST_SYNTAX,
        })
    );
}

#[test]
fn pdus_are_written_and_read_back() {
    let pdu = SdpPdu::ServiceSearchRequest {
        transaction_id: 0x0102,
        service_search_pattern: DataElement::sequence(vec![DataElement::uuid(SdpUuid::Uuid16(
            0x0100,
        ))]),
        maximum_service_record_count: 0xFFFF,
        continuation_state: vec![0],
    };
    let bytes = pdu.to_bytes();
    assert_eq!(bytes, vec![2, 1, 2, 0, 8, 0x35, 3, 0x19, 1, 0, 0xFF, 0xFF, 0]);
    assert_eq!(pdu.transaction_id(), 0x0102);
    assert_eq!(SdpPdu::parse(&bytes), Some(pdu));
    assert_eq!(SdpPdu::parse(&bytes[..6]), None);
}

#[test]
fn uuids_come_from_other_layers() {
    assert_eq!(SdpUuid::from(Uuid::Uuid16(0x1234)), SdpUuid::Uuid16(0x1234));
}

#[test]
fn elements_that_are_no_elements() {
    assert_eq!(DataElement::from_bytes(&[]), None);
    // An integer of two bytes with one.
    assert_eq!(DataElement::from_bytes(&[0x09, 1]), None);
    // A reserved type.
    assert_eq!(DataElement::from_bytes(&[0x48]), None);
    // A URL that is no text.
    assert_eq!(DataElement::from_bytes(&[0x45, 2, b'a', 0xFF]), None);
    assert_eq!(
        DataElement::from_bytes(&[0x45, 3, b'a', 0xC3, 0xA9]),
        Some(DataElement::url("a\u{E9}"))
    );
}

#[test]
fn attributes_are_the_same_at_every_mtu() {
    let mut record = record(0x10004, 0x110A);
    // Not in the order of the IDs.
    record.insert(0, ServiceAttribute::new(0x0311, DataElement::unsigned_integer_16(7)));
    let ids = [
        AttributeIdSpec::Single(0x0311),
        AttributeIdSpec::Range(0x0001, 0x0200),
        AttributeIdSpec::Single(0x0999),
    ];
    for mtu in [64, 65, 100, 672, 0xFFFF] {
        let mut server = SdpServer::new();
        server.service_records.insert(0x10004, record.clone());
        let mut client = SdpClient::new();
        let attributes = client
            .get_attributes(0x10004, &ids, |bytes| server.handle_request(bytes, mtu))
            .unwrap();
        assert_eq!(
            attributes,
            vec![record[2].clone(), record[3].clone(), record[0].clone()]
        );
    }
}

#[test]
fn answers_fit_the_mtu() {
    for mtu in [11, 12, 15, 16, 48, 64, 672] {
        let mut server = server();
        let pattern = DataElement::sequence(vec![DataElement::uuid(SdpUuid::Uuid16(0x110A))]);
        let all = DataElement::sequence(vec![DataElement::unsigned_integer_32(0x0000_FFFF)]);
        let requests = vec![
            SdpPdu::ServiceSearchRequest {
                transaction_id: 1,
                service_search_pattern: pattern,
                maximum_service_record_count: 0xFFFF,
                continuation_state: vec![0],
            },
            SdpPdu::ServiceAttributeRequest {
                transaction_id: 2,
                service_record_handle: 0x10001,
                maximum_attribute_byte_count: 0xFFFF,
                attribute_id_list: all,
                continuation_state: vec![0],
            },
        ];
        for request in requests {
            assert!(server.handle_request(&request.to_bytes(), mtu).len() <= mtu as usize);
        }
        assert!(server.handle_request(&[1, 2, 3], mtu).len() <= mtu as usize);
    }
}
