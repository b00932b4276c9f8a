//! Host and device of the HID profile.

use simble::classic::hid::service::{find_hid_report_descriptor, report_descriptor_from};
use simble::classic::hid::{
    connect_control_channel, connect_interrupt_channel, handshake_code, make_service_sdp_records,
    protocol_mode, receive_interrupt, register_psms, report_type, HidDevice, HidDeviceEvent,
    HidHost, HidHostEvent, InterruptData,
};
use simble::classic::sdp::{SdpClient, SdpServer};
use simble::l2cap::classic::ClassicChannelManager;
use simble::types::SimbleError;

fn error<T>(text: &str) -> Result<T, SimbleError> {
    Err(SimbleError::PacketParseError(text.to_string()))
}

#[test]
fn stored_report_is_read_back() {
    let host = HidHost::new();
    let mut device = HidDevice::new();
    device.put_report(report_type::FEATURE, 1, vec![0]);
    let (answer, events) =
        device.receive_control(&host.set_report(report_type::FEATURE, 1, &[7, 8])).unwrap();
    assert_eq!(
        events,
        vec![HidDeviceEvent::ReportSet {
            report_type: report_type::FEATURE,
            report_id: 1,
            data: vec![7, 8],
        }]
    );
    assert_eq!(
        host.receive_control(&answer.unwrap()),
        Ok(vec![HidHostEvent::Handshake(handshake_code::SUCCESSFUL)])
    );
    assert_eq!(device.report(report_type::FEATURE, 1), Some(&[7u8, 8][..]));

    let (answer, _) =
        device.receive_control(&host.get_report(report_type::FEATURE, 1, None)).unwrap();
    assert_eq!(
        host.receive_control(&answer.unwrap()),
        Ok(vec![HidHostEvent::ControlData {
            report_type: report_type::FEATURE,
            payload: vec![1, 7, 8],
        }])
    );
    // The host takes no more than it has room for.
    let (answer, _) =
        device.receive_control(&host.get_report(report_type::FEATURE, 1, Some(2))).unwrap();
    assert_eq!(answer.unwrap()[1..], [1, 7]);
}

#[test]
fn undeclared_report_is_refused() {
    let host = HidHost::new();
    let mut device = HidDevice::new();
    for request in [
        host.get_report(report_type::INPUT, 9, None),
        host.set_report(report_type::INPUT, 9, &[1]),
    ] {
        let (answer, events) = device.receive_control(&request).unwrap();
        assert!(events.is_empty());
        assert_eq!(
            host.receive_control(&answer.unwrap()),
            Ok(vec![HidHostEvent::Handshake(handshake_code::ERR_INVALID_REPORT_ID)])
        );
    }
    assert_eq!(device.report(report_type::INPUT, 9), None);
    // A report to store has an ID.
    let (answer, _) = device.receive_control(&[0x51]).unwrap();
    assert_eq!(answer, Some(vec![handshake_code::ERR_INVALID_PARAMETER]));
}

#[test]
fn protocol_mode_is_read_back() {
    let host = HidHost::new();
    let mut device = HidDevice::new();
    let (answer, events) =
        device.receive_control(&host.set_protocol(protocol_mode::BOOT)).unwrap();
    assert_eq!(answer, Some(vec![0x00]));
    assert_eq!(events, vec![HidDeviceEvent::ProtocolSet(protocol_mode::BOOT)]);
    let (answer, _) = device.receive_control(&host.get_protocol()).unwrap();
    assert_eq!(
        host.receive_control(&answer.unwrap()),
        Ok(vec![HidHostEvent::ControlData {
            report_type: report_type::OTHER,
            payload: vec![protocol_mode::BOOT],
        }])
    );
}

#[test]
fn control_operations_are_reported() {
    let host = HidHost::new();
    let mut device = HidDevice::new();
    assert_eq!(
        device.receive_control(&host.suspend()),
        Ok((None, vec![HidDeviceEvent::Suspend]))
    );
    assert_eq!(
        device.receive_control(&host.exit_suspend()),
        Ok((None, vec![HidDeviceEvent::ExitSuspend]))
    );
    assert_eq!(
        device.receive_control(&host.virtual_cable_unplug()),
        Ok((None, vec![HidDeviceEvent::VirtualCableUnplug]))
    );
    assert_eq!(
        host.receive_control(&device.virtual_cable_unplug()),
        Ok(vec![HidHostEvent::VirtualCableUnplug])
    );
}

#[test]
fn malformed_bytes_are_answered_by_the_device_and_an_error_at_the_host() {
    let host = HidHost::new();
    let mut device = HidDevice::new();
    assert_eq!(device.receive_control(&[]), error("HID: empty control PDU"));
    assert_eq!(
        device.receive_control(&[0xF0]),
        Ok((Some(vec![handshake_code::ERR_UNSUPPORTED_REQUEST]), vec![]))
    );
    assert_eq!(host.receive_control(&[]), error("HID: empty control PDU"));
    assert_eq!(host.receive_control(&[0xF0]), error("HID: malformed control PDU"));
    // Requests are for devices.
    assert_eq!(host.receive_control(&host.get_protocol()), Ok(vec![]));
}

#[test]
fn reports_go_over_the_interrupt_channel() {
    let host = HidHost::new();
    let device = HidDevice::new();
    assert_eq!(
        receive_interrupt(&device.send_input_report(vec![1, 2])),
        Ok(Some(InterruptData { report_type: report_type::INPUT, payload: vec![1, 2] }))
    );
    assert_eq!(
        receive_interrupt(&host.send_output_report(vec![3])),
        Ok(Some(InterruptData { report_type: report_type::OUTPUT, payload: vec![3] }))
    );
    assert_eq!(receive_interrupt(&host.suspend()), Ok(None));
    assert_eq!(receive_interrupt(&[]), error("HID: malformed interrupt PDU"));
}

#[test]
fn descriptor_is_found() {
    let record = make_service_sdp_records(1, &[0x05, 0x01, 0x09, 0x06], 0xC0);
    assert_eq!(report_descriptor_from(&[record]), Some(vec![0x05, 0x01, 0x09, 0x06]));
    assert_eq!(report_descriptor_from(&[]), None);
}

#[test]
fn both_channels_have_a_psm() {
    let mut manager = ClassicChannelManager::new();
    assert!(register_psms(&mut manager).is_ok());
    assert!(manager.is_server_registered(0x0011) && manager.is_server_registered(0x0013));
    assert_eq!(connect_control_channel(&mut manager, 48).unwrap().1.psm, 0x0011);
    assert_eq!(connect_interrupt_channel(&mut manager, 48).unwrap().1.psm, 0x0013);
}

#[test]
fn report_descriptor_is_found_in_parts() {
    let descriptor: Vec<u8> = (0..1000).map(|i| (i % 251) as u8).collect();
    for mtu in [64, 672, 2000] {
        let mut server = SdpServer::new();
        server.service_records.insert(9, make_service_sdp_records(9, &descriptor, 0x40));
        let mut client = SdpClient::new();
        assert_eq!(
            find_hid_report_descriptor(&mut client, |bytes| server.handle_request(bytes, mtu)),
            Ok(Some(descriptor.clone()))
        );
    }
}
