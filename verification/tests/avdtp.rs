//! Tests of the AVDTP messages and the stream state machine.

use simble::classic::avdtp::{
    connect_channel, error_code, register_server, service_category, signal_identifier,
    write_message, AssembledMessage, AvdtpEvent, MediaCodecCapabilities, MediaType, Message,
    MessageAssembler, MessageType, Protocol, SepInfo, ServiceCapability, StreamEndPointType,
    StreamState,
};
use simble::l2cap::classic::{ClassicChannelManager, ClassicChannelSpec};
use simble::types::SimbleError;

fn codec() -> MediaCodecCapabilities {
    MediaCodecCapabilities {
        media_type: MediaType::Audio,
        media_codec_type: 0,
        media_codec_information: vec![0x3F, 0xFF, 2, 53],
    }
}

/// A source and a sink with one endpoint each.
fn pair() -> (Protocol, Protocol) {
    let mut source = Protocol::new(48);
    let mut sink = Protocol::new(48);
    assert_eq!(source.add_source(codec(), true), 1);
    assert_eq!(sink.add_sink(codec()), 1);
    (source, sink)
}

/// Hands packets to `to`, and its answers to `from`.
fn exchange(
    from: &mut Protocol,
    to: &mut Protocol,
    packets: Vec<Vec<u8>>,
) -> (Vec<AvdtpEvent>, Vec<AvdtpEvent>) {
    let mut at_from = Vec::new();
    let mut at_to = Vec::new();
    for packet in packets {
        let (answers, mut events) = to.receive(&packet);
        at_to.append(&mut events);
        for answer in answers {
            let (more, mut events) = from.receive(&answer);
            assert!(more.is_empty());
            at_from.append(&mut events);
        }
    }
    (at_from, at_to)
}

fn configured() -> (Protocol, Protocol) {
    let (mut source, mut sink) = pair();
    let packets = source
        .set_configuration(1, 1, vec![ServiceCapability::media_transport(), codec().to_capability()])
        .unwrap();
    let (at_source, at_sink) = exchange(&mut source, &mut sink, packets);
    assert_eq!(at_source, vec![AvdtpEvent::StreamConfigured { seid: 1 }]);
    assert_eq!(at_sink, vec![AvdtpEvent::StreamConfigured { seid: 1 }]);
    (source, sink)
}

fn opened() -> (Protocol, Protocol) {
    let (mut source, mut sink) = configured();
    let packets = source.open(1).unwrap();
    let (at_source, at_sink) = exchange(&mut source, &mut sink, packets);
    assert_eq!(at_source, vec![AvdtpEvent::StreamOpened { seid: 1 }]);
    assert_eq!(at_sink, vec![AvdtpEvent::StreamOpened { seid: 1 }]);
    (source, sink)
}

fn state_of(protocol: &Protocol) -> StreamState {
    protocol.get_local_endpoint_by_seid(1).unwrap().state
}

/// What the sink answers to a command, read back.
fn answer(protocol: &mut Protocol, command: &Message) -> Option<Message> {
    let (answers, _) = protocol.receive(&write_message(9, command, 48)[0]);
    let packet = answers.first()?;
    assert_eq!(packet[0] >> 4, 9);
    let assembled = MessageAssembler::new().on_pdu(packet)?;
    Message::parse(assembled.signal_identifier, assembled.message_type, &assembled.payload)
}

fn rejected(signal_identifier: u8, error_code: u8) -> Option<Message> {
    Some(Message::Reject { signal_identifier, error_code })
}

#[test]
fn endpoint_numbers_round_trip() {
    for value in 0..=255u8 {
        if let Some(kind) = MediaType::from_u8(value) {
            assert_eq!(kind.as_u8(), value);
        }
        if let Some(kind) = StreamEndPointType::from_u8(value) {
            assert_eq!(kind.as_u8(), value);
        }
    }
    assert_eq!(MediaType::from_u8(3), None);
    assert_eq!(StreamEndPointType::from_u8(2), None);
}

#[test]
fn capability_list_is_written_and_read_back() {
    let list = vec![
        ServiceCapability::media_transport(),
        codec().to_capability(),
        ServiceCapability::delay_reporting(),
    ];
    let bytes = ServiceCapability::serialize_list(&list);
    assert_eq!(bytes, vec![1, 0, 7, 6, 0, 0, 0x3F, 0xFF, 2, 53, 8, 0]);
    assert_eq!(ServiceCapability::parse_list(&bytes), Some(list));
    assert_eq!(ServiceCapability::parse_list(&[1]), None);
    assert_eq!(ServiceCapability::parse_list(&[7, 3, 0, 0]), None);
    assert_eq!(ServiceCapability::parse_list(&[]), Some(vec![]));
}

#[test]
fn codec_capability_is_read_back() {
    let capability = codec().to_capability();
    assert_eq!(capability.service_category, service_category::MEDIA_CODEC);
    assert_eq!(MediaCodecCapabilities::from_capability(&capability), Some(codec()));
    assert_eq!(
        MediaCodecCapabilities::from_capability(&ServiceCapability::media_transport()),
        None
    );
}

#[test]
fn endpoint_information_is_packed_in_two_bytes() {
    let info = SepInfo {
        seid: 3,
        in_use: true,
        media_type: MediaType::Audio,
        tsep: StreamEndPointType::Sink,
    };
    assert_eq!(info.to_bytes(), [0x0E, 0x08]);
    assert_eq!(SepInfo::parse(&[0x0E, 0x08]), Some(info));
    assert_eq!(SepInfo::parse(&[0x0E]), None);
    assert_eq!(SepInfo::parse(&[0x0E, 0x30]), None);
}

#[test]
fn messages_are_written_and_read_back() {
    let messages = vec![
        Message::DiscoverCommand,
        Message::GetCapabilitiesCommand { acp_seid: 5 },
        Message::SetConfigurationCommand {
            acp_seid: 1,
            int_seid: 2,
            capabilities: vec![codec().to_capability()],
        },
        Message::SetConfigurationReject { service_category: 7, error_code: 0x29 },
        Message::StartCommand { acp_seids: vec![1, 2] },
        Message::StartReject { acp_seid: 2, error_code: 0x31 },
        Message::SecurityControlCommand { acp_seid: 1, data: vec![9, 8] },
        Message::DelayReportCommand { acp_seid: 1, delay: 0x1234 },
        Message::Reject { signal_identifier: 6, error_code: 0x31 },
        Message::GeneralReject { signal_identifier: 0x3F },
    ];
    for message in messages {
        assert_eq!(
            Message::parse(
                message.signal_identifier(),
                message.message_type(),
                &message.to_payload()
            ),
            Some(message)
        );
    }
    assert_eq!(
        Message::DelayReportCommand { acp_seid: 1, delay: 0x1234 }.to_payload(),
        vec![0x04, 0x12, 0x34]
    );
    assert_eq!(Message::parse(signal_identifier::OPEN, MessageType::Command, &[]), None);
    assert_eq!(Message::parse(0x20, MessageType::Command, &[]), None);
}

#[test]
fn message_that_fits_is_one_packet() {
    let message = Message::SecurityControlCommand { acp_seid: 1, data: vec![0; 45] };
    // Two bytes of header and 46 of payload.
    let packets = write_message(2, &message, 48);
    assert_eq!(packets.len(), 1);
    assert_eq!(&packets[0][..3], &[0x20, 0x0B, 0x04]);
    assert_eq!(packets[0].len(), 48);
}

#[test]
fn long_message_is_cut_into_packets() {
    let message = Message::SecurityControlCommand { acp_seid: 1, data: (1..10).collect() };
    let packets = write_message(2, &message, 7);
    assert_eq!(
        packets,
        vec![
            vec![0x24, 0x0B, 3, 0x04, 1, 2, 3],
            vec![0x28, 4, 5, 6, 7],
            vec![0x2C, 8, 9],
        ]
    );
    let mut assembler = MessageAssembler::new();
    assert_eq!(assembler.on_pdu(&packets[0]), None);
    assert_eq!(assembler.on_pdu(&packets[1]), None);
    assert_eq!(
        assembler.on_pdu(&packets[2]),
        Some(AssembledMessage {
            transaction_label: 2,
            signal_identifier: 0x0B,
            message_type: MessageType::Command,
            payload: message.to_payload(),
        })
    );
}

#[test]
fn packets_out_of_sequence_are_dropped() {
    let message = Message::SecurityControlCommand { acp_seid: 1, data: (1..10).collect() };
    let packets = write_message(2, &message, 7);
    let mut assembler = MessageAssembler::new();
    assert_eq!(assembler.on_pdu(&[]), None);
    assembler = MessageAssembler::new();
    // Too early an end.
    assert_eq!(assembler.on_pdu(&packets[0]), None);
    assert_eq!(assembler.on_pdu(&packets[2]), None);
    assert_eq!(assembler.on_pdu(&packets[1]), None);
    // No start.
    assembler = MessageAssembler::new();
    assert_eq!(assembler.on_pdu(&packets[1]), None);
    assert_eq!(assembler.on_pdu(&packets[2]), None);
}

#[test]
fn endpoints_are_discovered() {
    let (mut source, mut sink) = pair();
    assert_eq!(sink.add_source(codec(), false), 2);
    let packets = source.discover().unwrap();
    assert_eq!(packets, vec![vec![0x00, 0x01]]);
    let (at_source, _) = exchange(&mut source, &mut sink, packets);
    assert_eq!(
        at_source,
        vec![AvdtpEvent::EndpointsDiscovered(vec![
            SepInfo {
                seid: 1,
                in_use: false,
                media_type: MediaType::Audio,
                tsep: StreamEndPointType::Sink,
            },
            SepInfo {
                seid: 2,
                in_use: false,
                media_type: MediaType::Audio,
                tsep: StreamEndPointType::Source,
            },
        ])]
    );
    assert!(source.find_remote_sink_by_codec(MediaType::Audio, 0, 0, 0).is_none());
    let packets = source.get_capabilities(1).unwrap();
    let (at_source, _) = exchange(&mut source, &mut sink, packets);
    assert_eq!(
        at_source,
        vec![AvdtpEvent::CapabilitiesReceived {
            seid: 1,
            capabilities: vec![ServiceCapability::media_transport(), codec().to_capability()],
        }]
    );
    let found = source.find_remote_sink_by_codec(MediaType::Audio, 0, 0, 0).unwrap();
    assert_eq!(found.seid, 1);
    assert!(source.find_remote_sink_by_codec(MediaType::Audio, 2, 0, 0).is_none());
    assert!(source.find_remote_sink_by_codec(MediaType::Video, 0, 0, 0).is_none());
}

#[test]
fn sinks_with_a_vendor_codec_are_found_by_its_ids() {
    let (mut source, mut sink) = (Protocol::new(48), Protocol::new(48));
    sink.add_sink(MediaCodecCapabilities {
        media_type: MediaType::Audio,
        media_codec_type: 0xFF,
        media_codec_information: vec![0xE0, 0, 0, 0, 1, 0, 0x8A],
    });
    let packets = source.discover().unwrap();
    exchange(&mut source, &mut sink, packets);
    let packets = source.get_capabilities(1).unwrap();
    exchange(&mut source, &mut sink, packets);
    assert!(source.find_remote_sink_by_codec(MediaType::Audio, 0xFF, 0xE0, 1).is_some());
    assert!(source.find_remote_sink_by_codec(MediaType::Audio, 0xFF, 0xE0, 2).is_none());
    assert!(source.find_remote_sink_by_codec(MediaType::Audio, 0xFF, 0xE1, 1).is_none());
}

#[test]
fn stream_goes_through_its_states_on_both_sides() {
    let (mut source, mut sink) = opened();
    assert_eq!(sink.get_local_endpoint_by_seid(1).unwrap().remote_seid, Some(1));
    assert!(sink.get_local_endpoint_by_seid(1).unwrap().in_use());

    let packets = source.start(&[1]).unwrap();
    let (at_source, at_sink) = exchange(&mut source, &mut sink, packets);
    assert_eq!(at_source, vec![AvdtpEvent::StreamStarted { seid: 1 }]);
    assert_eq!(at_sink, vec![AvdtpEvent::StreamStarted { seid: 1 }]);
    assert_eq!(state_of(&source), StreamState::Streaming);
    assert_eq!(state_of(&sink), StreamState::Streaming);

    let packets = source.suspend(&[1]).unwrap();
    let (at_source, at_sink) = exchange(&mut source, &mut sink, packets);
    assert_eq!(at_source, vec![AvdtpEvent::StreamSuspended { seid: 1 }]);
    assert_eq!(at_sink, vec![AvdtpEvent::StreamSuspended { seid: 1 }]);
    assert_eq!(state_of(&source), StreamState::Open);
    assert_eq!(state_of(&sink), StreamState::Open);

    let packets = source.close(1).unwrap();
    let (at_source, at_sink) = exchange(&mut source, &mut sink, packets);
    assert_eq!(at_source, vec![AvdtpEvent::StreamClosed { seid: 1 }]);
    assert_eq!(at_sink, vec![AvdtpEvent::StreamClosed { seid: 1 }]);
    assert_eq!(state_of(&source), StreamState::Idle);
    assert_eq!(state_of(&sink), StreamState::Idle);
    assert_eq!(sink.get_local_endpoint_by_seid(1).unwrap().remote_seid, None);
}

#[test]
fn stream_can_be_aborted() {
    let (mut source, mut sink) = opened();
    let packets = source.abort(1).unwrap();
    let (at_source, at_sink) = exchange(&mut source, &mut sink, packets);
    assert_eq!(at_source, vec![AvdtpEvent::StreamAborted { seid: 1 }]);
    assert_eq!(at_sink, vec![AvdtpEvent::StreamAborted { seid: 1 }]);
    assert_eq!(state_of(&sink), StreamState::Idle);
    // An abort is accepted for any endpoint, known or not.
    assert_eq!(
        answer(&mut sink, &Message::AbortCommand { acp_seid: 9 }),
        Some(Message::AbortResponse)
    );
}

#[test]
fn reconfiguration_keeps_other_categories() {
    let (mut source, mut sink) = opened();
    let mut other = codec();
    other.media_codec_information = vec![0x21, 0x15, 2, 40];
    let packets = source.reconfigure(1, vec![other.to_capability()]).unwrap();
    let (at_source, at_sink) = exchange(&mut source, &mut sink, packets);
    assert_eq!(at_source, vec![AvdtpEvent::StreamReconfigured { seid: 1 }]);
    assert_eq!(at_sink, vec![AvdtpEvent::StreamReconfigured { seid: 1 }]);
    let packets = source.get_configuration(1).unwrap();
    let (at_source, _) = exchange(&mut source, &mut sink, packets);
    match &at_source[0] {
        AvdtpEvent::ConfigurationReceived { seid, capabilities } => {
            assert_eq!(*seid, 1);
            assert_eq!(capabilities.len(), 2);
            assert!(capabilities.contains(&ServiceCapability::media_transport()));
            assert!(capabilities.contains(&other.to_capability()));
        }
        event => panic!("{:?}", event),
    }
}

#[test]
fn refused_commands_change_nothing() {
    let (_, mut sink) = pair();
    assert_eq!(
        answer(&mut sink, &Message::OpenCommand { acp_seid: 1 }),
        rejected(signal_identifier::OPEN, error_code::BAD_STATE)
    );
    assert_eq!(
        answer(&mut sink, &Message::OpenCommand { acp_seid: 7 }),
        rejected(signal_identifier::OPEN, error_code::BAD_ACP_SEID)
    );
    assert_eq!(
        answer(&mut sink, &Message::GetCapabilitiesCommand { acp_seid: 7 }),
        rejected(signal_identifier::GET_CAPABILITIES, error_code::BAD_ACP_SEID)
    );
    assert_eq!(
        answer(&mut sink, &Message::CloseCommand { acp_seid: 1 }),
        rejected(signal_identifier::CLOSE, error_code::BAD_STATE)
    );
    assert_eq!(
        answer(&mut sink, &Message::GetConfigurationCommand { acp_seid: 1 }),
        rejected(signal_identifier::GET_CONFIGURATION, error_code::BAD_STATE)
    );
    assert_eq!(state_of(&sink), StreamState::Idle);
}

#[test]
fn start_is_all_or_nothing() {
    let (_, mut sink) = opened();
    assert_eq!(sink.add_sink(codec()), 2);
    // The second endpoint is not open.
    assert_eq!(
        answer(&mut sink, &Message::StartCommand { acp_seids: vec![1, 2] }),
        Some(Message::StartReject { acp_seid: 2, error_code: error_code::BAD_STATE })
    );
    assert_eq!(state_of(&sink), StreamState::Open);
}

#[test]
fn endpoint_in_use_is_not_configured_again() {
    let (_, mut sink) = configured();
    match answer(
        &mut sink,
        &Message::SetConfigurationCommand { acp_seid: 1, int_seid: 4, capabilities: vec![] },
    ) {
        Some(Message::SetConfigurationReject { error_code, .. }) => {
            assert_eq!(error_code, error_code::SEP_IN_USE)
        }
        other => panic!("{:?}", other),
    }
    assert_eq!(sink.get_local_endpoint_by_seid(1).unwrap().remote_seid, Some(1));
}

#[test]
fn unknown_signal_is_rejected() {
    let (mut source, mut sink) = pair();
    let (answers, events) = sink.receive(&[0x50, 0x2A]);
    assert_eq!(answers, vec![vec![0x51, 0x2A]]);
    assert!(events.is_empty());
    // The reserved signal is not answered.
    assert_eq!(sink.receive(&[0x50, 0x00]), (vec![], vec![]));
    // Answers that nothing waits for are passed over.
    assert_eq!(source.receive(&[0x52, 0x06]), (vec![], vec![]));
}

#[test]
fn rejects_are_reported() {
    let (mut source, mut sink) = pair();
    let packets = source.get_capabilities(6).unwrap();
    let (at_source, _) = exchange(&mut source, &mut sink, packets);
    assert_eq!(
        at_source,
        vec![AvdtpEvent::CommandRejected {
            signal_identifier: signal_identifier::GET_ALL_CAPABILITIES,
            error_code: error_code::BAD_ACP_SEID,
        }]
    );
}

#[test]
fn reports_are_handed_on() {
    let (_, mut sink) = configured();
    let delay = write_message(3, &Message::DelayReportCommand { acp_seid: 1, delay: 1500 }, 48);
    assert_eq!(
        sink.receive(&delay[0]),
        (vec![vec![0x32, 0x0D]], vec![AvdtpEvent::DelayReport { seid: 1, delay: 1500 }])
    );
    let data =
        write_message(4, &Message::SecurityControlCommand { acp_seid: 1, data: vec![7] }, 48);
    assert_eq!(
        sink.receive(&data[0]),
        (
            vec![vec![0x42, 0x0B]],
            vec![AvdtpEvent::SecurityControl { seid: 1, data: vec![7] }]
        )
    );
}

#[test]
fn transaction_labels_run_out() {
    let mut protocol = Protocol::new(48);
    for label in 0..16u8 {
        assert_eq!(protocol.discover().unwrap(), vec![vec![label << 4, 0x01]]);
    }
    assert!(matches!(protocol.discover(), Err(SimbleError::DeviceError(_))));
    // An answer frees its label.
    protocol.receive(&[0x52, 0x01]);
    assert_eq!(protocol.discover().unwrap(), vec![vec![0x50, 0x01]]);
}

#[test]
fn commands_need_the_right_state() {
    let (mut source, _) = pair();
    assert!(matches!(source.open(1), Err(SimbleError::DeviceError(_))));
    assert!(matches!(
        source.set_configuration(1, 9, vec![]),
        Err(SimbleError::DeviceError(_))
    ));
}

#[test]
fn channel_uses_the_signaling_psm() {
    let mut manager = ClassicChannelManager::new();
    assert!(register_server(&mut manager).is_ok());
    let (cid, request) = connect_channel(&mut manager, 672).unwrap();
    assert_eq!((request.psm, request.source_cid), (0x0019, cid));
    assert_eq!(manager.channel(cid), Some(ClassicChannelSpec { psm: 0x0019, mtu: 672 }));
}

#[test]
fn dropped_packets_do_not_lose_the_next_message() {
    let message = Message::SecurityControlCommand { acp_seid: 1, data: (1..10).collect() };
    let packets = write_message(2, &message, 7);
    let mut assembler = MessageAssembler::new();
    // Neither an empty packet nor ones that continue nothing count.
    assert_eq!(assembler.on_pdu(&[]), None);
    assert_eq!(assembler.on_pdu(&packets[1]), None);
    assert_eq!(assembler.on_pdu(&packets[2]), None);
    assert_eq!(assembler.on_pdu(&packets[0]), None);
    assert_eq!(assembler.on_pdu(&packets[1]), None);
    assert_eq!(
        assembler.on_pdu(&packets[2]).map(|assembled| assembled.payload),
        Some(message.to_payload())
    );
}

#[test]
fn suspend_is_all_or_nothing() {
    let (mut source, mut sink) = opened();
    assert_eq!(sink.add_sink(codec()), 2);
    let packets = source.start(&[1]).unwrap();
    exchange(&mut source, &mut sink, packets);
    assert_eq!(state_of(&sink), StreamState::Streaming);
    // The second endpoint is not streaming, so the first one goes on.
    assert!(matches!(
        answer(&mut sink, &Message::SuspendCommand { acp_seids: vec![1, 2] }),
        Some(Message::SuspendReject { acp_seid: 2, .. })
    ));
    assert_eq!(state_of(&sink), StreamState::Streaming);
}

#[test]
fn commands_change_only_the_streams_they_name() {
    let (_, mut sink) = opened();
    assert_eq!(sink.add_sink(codec()), 2);
    let configure = Message::SetConfigurationCommand {
        acp_seid: 2,
        int_seid: 5,
        capabilities: vec![codec().to_capability()],
    };
    assert_eq!(answer(&mut sink, &configure), Some(Message::SetConfigurationResponse));
    assert_eq!(state_of(&sink), StreamState::Open);
    let second = |sink: &Protocol| sink.get_local_endpoint_by_seid(2).unwrap().state;
    assert_eq!(second(&sink), StreamState::Configured);
    let start = Message::StartCommand { acp_seids: vec![1] };
    assert_eq!(answer(&mut sink, &start), Some(Message::StartResponse));
    assert_eq!(state_of(&sink), StreamState::Streaming);
    assert_eq!(second(&sink), StreamState::Configured);
    let abort = Message::AbortCommand { acp_seid: 2 };
    assert_eq!(answer(&mut sink, &abort), Some(Message::AbortResponse));
    assert_eq!(state_of(&sink), StreamState::Streaming);
    assert_eq!(second(&sink), StreamState::Idle);
}
