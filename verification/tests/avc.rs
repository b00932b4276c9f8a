//! Tests of the AV/C frames.

use simble::classic::avc::{
    CommandFrame, CommandType, Frame, PassThrough, ResponseCode, ResponseFrame, VendorDependent,
};

#[test]
fn frame_types_have_numbers() {
    for value in 0..=255u8 {
        if let Some(kind) = CommandType::from_u8(value) {
            assert_eq!(kind.as_u8(), value);
            assert!(value < 5);
        }
        if let Some(code) = ResponseCode::from_u8(value) {
            assert_eq!(code.as_u8(), value);
            assert!(value >= 8 && value < 16);
        }
    }
    assert_eq!(CommandType::from_u8(5), None);
    assert_eq!(ResponseCode::from_u8(7), None);
    assert_eq!(ResponseCode::from_u8(14), None);
}

#[test]
fn vendor_command_is_written_and_read_back() {
    let frame =
        CommandFrame::vendor_dependent(CommandType::Status, 0x09, 0, 0x001958, vec![0x10, 0x00]);
    let bytes = frame.to_bytes();
    assert_eq!(bytes, vec![0x01, 0x48, 0x00, 0x00, 0x19, 0x58, 0x10, 0x00]);
    assert_eq!(Frame::parse(&bytes), Some(Frame::Command(frame.clone())));
    assert_eq!(
        frame.as_vendor_dependent(),
        Some(VendorDependent { company_id: 0x001958, data: vec![0x10, 0x00] })
    );
    assert_eq!(frame.as_pass_through(), None);
}

#[test]
fn pass_through_response_is_written_and_read_back() {
    let key = PassThrough { pressed: false, operation_id: 0x44, operation_data: vec![] };
    let frame = ResponseFrame::pass_through(ResponseCode::Accepted, 0x09, 0, &key);
    let bytes = frame.to_bytes();
    assert_eq!(bytes, vec![0x09, 0x48, 0x7C, 0xC4, 0x00]);
    assert_eq!(Frame::parse(&bytes), Some(Frame::Response(frame.clone())));
    assert_eq!(frame.as_pass_through(), Some(key));
    assert_eq!(frame.as_vendor_dependent(), None);
}

#[test]
fn extended_subunit_ids_are_read() {
    // ID 5 says that one more byte follows.
    match Frame::parse(&[0x00, 0x4D, 0x10, 0x7C, 0xAA]) {
        Some(Frame::Command(frame)) => {
            assert_eq!(frame.subunit_type, 0x09);
            assert_eq!(frame.subunit_id, 5 + 0x10);
            assert_eq!(frame.opcode, 0x7C);
            assert_eq!(frame.operands, vec![0xAA]);
        }
        other => panic!("{:?}", other),
    }
}

#[test]
fn malformed_frames() {
    assert_eq!(Frame::parse(&[]), None);
    assert_eq!(Frame::parse(&[0x00]), None);
    // No opcode.
    assert_eq!(Frame::parse(&[0x00, 0x48]), None);
    // The high nibble of the first byte is zero in every frame.
    assert_eq!(Frame::parse(&[0x10, 0x48, 0x00]), None);
    // Numbers that are no command type and no response code.
    assert_eq!(Frame::parse(&[0x06, 0x48, 0x00]), None);
    assert_eq!(Frame::parse(&[0x0E, 0x48, 0x00]), None);
}

#[test]
fn malformed_operands() {
    assert_eq!(VendorDependent::parse(&[0x00, 0x19]), None);
    assert_eq!(PassThrough::parse(&[0x44]), None);
    assert_eq!(PassThrough::parse(&[0x44, 2, 1]), None);
    assert_eq!(
        PassThrough::parse(&[0xC4, 1, 7, 9]),
        Some(PassThrough { pressed: false, operation_id: 0x44, operation_data: vec![7] })
    );
    // The company ID is cut to 24 bits.
    assert_eq!(
        VendorDependent { company_id: 0xAB00_1958, data: vec![] }.to_operands(),
        vec![0x00, 0x19, 0x58]
    );
}
