//! Service discovery.

use simble::classic::sdp::{DataElement, SdpUuid};

#[test]
fn test_data_element_round_trip_scalars() {
    for element in [
        DataElement::nil(),
        DataElement::unsigned_integer_8(12),
        DataElement::unsigned_integer_16(1234),
        DataElement::unsigned_integer_32(0x123456),
        DataElement::unsigned_integer_64(0x1_2345_6789),
        DataElement::signed_integer_8(-12),
        DataElement::signed_integer_16(-1234),
        DataElement::signed_integer_32(-0x123456),
        DataElement::boolean(true),
        DataElement::boolean(false),
        DataElement::uuid(SdpUuid::Uuid16(1234)),
        DataElement::uuid(SdpUuid::Uuid32(123_456_789)),
        DataElement::text_string(b"hello".to_vec()),
        DataElement::url("http://example.com"),
    ] {
        let bytes = element.to_bytes();
        let (parsed, consumed) = DataElement::parse(&bytes).expect("parse");
        assert_eq!(consumed, bytes.len());
        assert_eq!(parsed, element);
    }
}

#[test]
fn test_data_element_uuid_128_round_trip() {
    let uuid = SdpUuid::Uuid128([
        0xC6, 0xAF, 0x7A, 0x66, 0x03, 0x0B, 0xA6, 0xA6, 0xDC, 0x4D, 0xBE, 0x09, 0x2C, 0x51,
        0xA3, 0x61,
    ]);
    let element = DataElement::uuid(uuid);
    let bytes = element.to_bytes();
    assert_eq!(DataElement::from_bytes(&bytes), Some(element));
}

#[test]
fn test_data_element_large_text_string_round_trip() {
    let text = vec![b'h'; 20000];
    let element = DataElement::text_string(text);
    let bytes = element.to_bytes();
    assert_eq!(DataElement::from_bytes(&bytes), Some(element));
}

#[test]
fn test_data_element_sequence_and_alternative_round_trip() {
    let seq = DataElement::sequence(vec![
        DataElement::boolean(true),
        DataElement::text_string(b"hello".to_vec()),
    ]);
    assert_eq!(DataElement::from_bytes(&seq.to_bytes()), Some(seq));

    let alt = DataElement::alternative(vec![
        DataElement::boolean(true),
        DataElement::text_string(b"hello".to_vec()),
    ]);
    assert_eq!(DataElement::from_bytes(&alt.to_bytes()), Some(alt));
}

#[test]
fn uuids_keep_their_byte_order_on_the_wire() {
    let uuid = SdpUuid::Uuid128([0, 1, 2, 3, 4, 5, 6, 7, 8, 9, 10, 11, 12, 13, 14, 15]);
    let wire = vec![0x1C, 0, 1, 2, 3, 4, 5, 6, 7, 8, 9, 10, 11, 12, 13, 14, 15];
    assert_eq!(DataElement::uuid(uuid).to_bytes(), wire);
    assert_eq!(DataElement::from_bytes(&wire), Some(DataElement::uuid(uuid)));
    assert_eq!(DataElement::uuid(SdpUuid::Uuid16(0x1234)).to_bytes(), vec![0x19, 0x12, 0x34]);
    assert_eq!(
        DataElement::uuid(SdpUuid::Uuid32(0x0123_4567)).to_bytes(),
        vec![0x1A, 0x01, 0x23, 0x45, 0x67]
    );
}
