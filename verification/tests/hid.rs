//! HID transactions.

use simble::classic::hid::{
    control_command, handshake_code, protocol_mode, report_type, HidMessage,
};

#[test]
fn test_get_report_round_trip_without_buffer_size() {
    let msg = HidMessage::GetReport {
        report_type: report_type::INPUT,
        report_id: 2,
        buffer_size: None,
    };
    let bytes = msg.to_bytes();
    assert_eq!(bytes, vec![0x41, 0x02]);
    assert_eq!(HidMessage::parse(&bytes), Some(msg));
}

#[test]
fn test_get_report_round_trip_with_buffer_size() {
    let msg = HidMessage::GetReport {
        report_type: report_type::FEATURE,
        report_id: 1,
        buffer_size: Some(0x1234),
    };
    let bytes = msg.to_bytes();
    assert_eq!(bytes, vec![0x4B, 0x01, 0x34, 0x12]);
    assert_eq!(HidMessage::parse(&bytes), Some(msg));
}

#[test]
fn test_set_report_and_data_round_trip() {
    let msg = HidMessage::SetReport {
        report_type: report_type::OUTPUT,
        payload: vec![0x01, 0xAA, 0xBB],
    };
    let bytes = msg.to_bytes();
    assert_eq!(bytes[0], 0x52);
    assert_eq!(HidMessage::parse(&bytes), Some(msg));

    let msg = HidMessage::Data {
        report_type: report_type::INPUT,
        payload: vec![0x01, 0x02],
    };
    let bytes = msg.to_bytes();
    assert_eq!(bytes[0], 0xA1);
    assert_eq!(HidMessage::parse(&bytes), Some(msg));
}

#[test]
fn test_handshake_control_and_protocol_round_trips() {
    for msg in [
        HidMessage::Handshake {
            result_code: handshake_code::ERR_INVALID_REPORT_ID,
        },
        HidMessage::Control {
            operation: control_command::SUSPEND,
        },
        HidMessage::GetProtocol,
        HidMessage::SetProtocol {
            mode: protocol_mode::BOOT,
        },
    ] {
        assert_eq!(HidMessage::parse(&msg.to_bytes()), Some(msg));
    }
}

#[test]
fn test_parse_rejects_reserved_type_and_truncation() {
    // 0x2- and 0x3- are reserved message types.
    assert_eq!(HidMessage::parse(&[0x20]), None);
    assert_eq!(HidMessage::parse(&[]), None);
    // GET_REPORT missing its report ID byte.
    assert_eq!(HidMessage::parse(&[0x41]), None);
    // GET_REPORT with the buffer-size flag but a truncated size field.
    assert_eq!(HidMessage::parse(&[0x49, 0x01, 0x34]), None);
}
