//! Hands-Free and Audio Gateway talking to each other.

use simble::classic::at::{parse_parameters, AtResponse};
use simble::classic::hfp::framing::{command_bytes, response_bytes};
use simble::classic::hfp::indicator::parse_one_cind_indicator;
use simble::classic::hfp::service::{find_ag_sdp_record, find_hf_sdp_record, record_from};
use simble::classic::hfp::{
    ag_feature, hf_feature, make_ag_sdp_records, make_hf_sdp_records, parse_call_infos,
    parse_network_operator, AgConfiguration, AgIndicator, AgIndicatorState, AgProtocol,
    AudioCodec, AudioConnectionState, CallHoldOperation, CallInfo, CallInfoDirection,
    CallInfoMode, CallInfoMultiParty, CallInfoStatus, CallLineIdentification, CmeError,
    HfConfiguration, HfIndicator, HfIndicatorState, HfProtocol, HfpEvent, ProfileVersion,
    VoiceRecognitionState,
};
use simble::classic::sdp::{SdpClient, SdpServer};
use simble::types::SimbleError;

fn hf_configuration() -> HfConfiguration {
    HfConfiguration {
        supported_hf_features: hf_feature::THREE_WAY_CALLING
            | hf_feature::CODEC_NEGOTIATION
            | hf_feature::HF_INDICATORS,
        supported_hf_indicators: vec![HfIndicator::EnhancedSafety, HfIndicator::BatteryLevel],
        supported_audio_codecs: vec![AudioCodec::Cvsd, AudioCodec::Msbc],
    }
}

fn ag_configuration() -> AgConfiguration {
    AgConfiguration {
        supported_ag_features: ag_feature::THREE_WAY_CALLING
            | ag_feature::CODEC_NEGOTIATION
            | ag_feature::HF_INDICATORS,
        supported_ag_indicators: vec![
            AgIndicatorState::call(),
            AgIndicatorState::callsetup(),
            AgIndicatorState::signal(),
        ],
        supported_hf_indicators: vec![HfIndicator::BatteryLevel],
        supported_ag_call_hold_operations: vec![
            CallHoldOperation::ReleaseAllHeldCalls,
            CallHoldOperation::ReleaseSpecificCall,
        ],
        supported_audio_codecs: vec![AudioCodec::Cvsd, AudioCodec::Msbc, AudioCodec::Lc3Swb],
    }
}

/// Hands lines back and forth until nobody sends any more. The first list of
/// events is that of the Hands-Free.
fn talk(
    hf: &mut HfProtocol,
    ag: &mut AgProtocol,
    to_ag: Vec<Vec<u8>>,
) -> (Vec<HfpEvent>, Vec<HfpEvent>) {
    let mut to_ag = to_ag;
    let mut at_hf = Vec::new();
    let mut at_ag = Vec::new();
    while !to_ag.is_empty() {
        let mut to_hf = Vec::new();
        for line in to_ag {
            let (mut sent, mut events) = ag.receive(&line);
            to_hf.append(&mut sent);
            at_ag.append(&mut events);
        }
        to_ag = Vec::new();
        for line in to_hf {
            let (mut sent, mut events) = hf.receive(&line);
            to_ag.append(&mut sent);
            at_hf.append(&mut events);
        }
    }
    (at_hf, at_ag)
}

fn connected() -> (HfProtocol, AgProtocol) {
    let mut hf = HfProtocol::new(hf_configuration());
    let mut ag = AgProtocol::new(ag_configuration());
    let first = hf.start_slc();
    assert_eq!(first, b"AT+BRSF=386\r".to_vec());
    let (at_hf, at_ag) = talk(&mut hf, &mut ag, vec![first]);
    assert!(at_hf.contains(&HfpEvent::SlcComplete));
    assert!(at_ag.contains(&HfpEvent::SlcComplete));
    (hf, ag)
}

fn completed(command: &str) -> HfpEvent {
    HfpEvent::CommandCompleted { command: command.to_string(), ok: true, responses: vec![] }
}

fn call(index: u32, number: Option<&str>, kind: Option<u8>) -> CallInfo {
    CallInfo {
        index,
        direction: CallInfoDirection::MobileTerminated,
        status: CallInfoStatus::Incoming,
        mode: CallInfoMode::Voice,
        multi_party: CallInfoMultiParty::NotInConference,
        number: number.map(|s| s.to_string()),
        kind,
    }
}

#[test]
fn lines_are_framed() {
    assert_eq!(command_bytes("ATA"), b"ATA\r".to_vec());
    assert_eq!(response_bytes("OK"), b"\r\nOK\r\n".to_vec());
}

#[test]
fn connection_with_every_step_completes() {
    let (hf, ag) = connected();
    assert!(hf.slc_initialized);
    assert!(hf.supports_ag_feature(ag_feature::HF_INDICATORS));
    assert!(ag.supports_hf_feature(hf_feature::CODEC_NEGOTIATION));
    assert_eq!(hf.ag_indicators.len(), 3);
    assert_eq!(ag.hf_audio_codecs, vec![AudioCodec::Cvsd, AudioCodec::Msbc]);
    assert!(ag.indicator_report_enabled);
    assert!(!hf.has_pending_command());
}

#[test]
fn lines_may_arrive_in_pieces() {
    let (mut hf, mut ag) = connected();
    let bytes = ag.set_speaker_volume(9);
    assert_eq!(bytes, b"\r\n+VGS: 9\r\n".to_vec());
    let mut events = Vec::new();
    for byte in &bytes {
        events.append(&mut hf.receive(&[*byte]).1);
    }
    assert_eq!(events, vec![HfpEvent::SpeakerVolume(9)]);
    let bytes = ag.set_microphone_volume(4);
    assert_eq!(hf.receive(&bytes), (vec![], vec![HfpEvent::MicrophoneVolume(4)]));
}

#[test]
fn ring_arrives() {
    let (mut hf, ag) = connected();
    assert_eq!(hf.receive(&ag.send_ring()), (vec![], vec![HfpEvent::Ring]));
}

#[test]
fn indicator_update_arrives() {
    let (mut hf, mut ag) = connected();
    let bytes = ag.update_ag_indicator(AgIndicator::Call, 1).unwrap();
    assert_eq!(bytes, b"\r\n+CIEV: 1,1\r\n".to_vec());
    let (_, events) = hf.receive(&bytes);
    match &events[..] {
        [HfpEvent::AgIndicatorUpdated(state)] => {
            assert_eq!(state.indicator, AgIndicator::Call);
            assert_eq!(state.current_status, 1);
        }
        other => panic!("{:?}", other),
    }
    assert_eq!(hf.ag_indicators[0].current_status, 1);
    // An indicator that this side does not have.
    assert!(matches!(
        ag.update_ag_indicator(AgIndicator::Roam, 1),
        Err(SimbleError::DeviceError(_))
    ));
}

#[test]
fn codec_is_agreed_and_audio_opened() {
    let (mut hf, mut ag) = connected();
    let request = hf.setup_audio_connection();
    let (at_hf, at_ag) = talk(&mut hf, &mut ag, vec![request]);
    // The widest codec that both sides have.
    assert!(at_hf.contains(&HfpEvent::CodecNegotiated(AudioCodec::Msbc)));
    assert_eq!(
        at_ag,
        vec![
            HfpEvent::CodecConnectionRequested,
            HfpEvent::AudioConnectionState(AudioConnectionState::Negotiating),
            HfpEvent::CodecNegotiated(AudioCodec::Msbc),
            HfpEvent::AudioConnectionState(AudioConnectionState::Connecting),
            HfpEvent::AudioConnectionRequested(AudioCodec::Msbc),
        ]
    );
    assert_eq!(ag.negotiated_codec(), AudioCodec::Msbc);
    // Audio is started once.
    assert_eq!(ag.start_audio_connection(), (vec![], vec![]));
    assert_eq!(
        ag.on_audio_connected(),
        vec![HfpEvent::AudioConnectionState(AudioConnectionState::Connected)]
    );
    assert_eq!(
        hf.on_audio_connected(),
        vec![HfpEvent::AudioConnectionState(AudioConnectionState::Connected)]
    );
    assert_eq!(hf.audio_state(), AudioConnectionState::Connected);
    assert_eq!(
        ag.on_audio_disconnected(),
        vec![HfpEvent::AudioConnectionState(AudioConnectionState::Disconnected)]
    );
    assert_eq!(
        hf.on_audio_disconnected(),
        vec![HfpEvent::AudioConnectionState(AudioConnectionState::Disconnected)]
    );
    assert_eq!(ag.audio_state(), AudioConnectionState::Disconnected);
}

#[test]
fn audio_without_negotiation_uses_the_codec_that_everybody_has() {
    let mut configuration = ag_configuration();
    configuration.supported_ag_features = 0;
    let mut ag = AgProtocol::new(configuration);
    assert_eq!(
        ag.start_audio_connection(),
        (
            vec![],
            vec![
                HfpEvent::AudioConnectionState(AudioConnectionState::Connecting),
                HfpEvent::AudioConnectionRequested(AudioCodec::Cvsd),
            ]
        )
    );
}

#[test]
fn unasked_codec_opens_no_audio() {
    let (_, mut ag) = connected();
    assert_eq!(
        ag.receive(b"AT+BCS=1\r"),
        (vec![response_bytes("OK")], vec![HfpEvent::CodecNegotiated(AudioCodec::Cvsd)])
    );
    assert_eq!(ag.audio_state(), AudioConnectionState::Disconnected);
    assert_eq!(ag.receive(b"AT+BCS=9\r"), (vec![response_bytes("ERROR")], vec![]));
}

#[test]
fn calls_are_answered_dialled_and_ended() {
    let (mut hf, mut ag) = connected();
    let line = hf.answer_incoming_call();
    let (at_hf, at_ag) = talk(&mut hf, &mut ag, vec![line]);
    assert_eq!((at_hf, at_ag), (vec![completed("ATA")], vec![HfpEvent::Answer]));

    let line = hf.dial("5551234");
    assert_eq!(line, b"ATD5551234;\r".to_vec());
    let (_, at_ag) = talk(&mut hf, &mut ag, vec![line]);
    assert_eq!(at_ag, vec![HfpEvent::Dial("5551234".to_string())]);

    let line = hf.terminate_call();
    let (at_hf, at_ag) = talk(&mut hf, &mut ag, vec![line]);
    assert_eq!((at_hf, at_ag), (vec![completed("AT+CHUP")], vec![HfpEvent::HangUp]));
}

#[test]
fn call_hold_arrives() {
    let (mut hf, mut ag) = connected();
    // There is no such call yet.
    let line = hf.hold_call(CallHoldOperation::ReleaseSpecificCall, Some(2));
    assert_eq!(line, b"AT+CHLD=12\r".to_vec());
    let (_, at_ag) = talk(&mut hf, &mut ag, vec![line]);
    assert!(at_ag.is_empty());

    ag.calls = vec![call(2, None, None)];
    let line = hf.hold_call(CallHoldOperation::ReleaseSpecificCall, Some(2));
    let (_, at_ag) = talk(&mut hf, &mut ag, vec![line]);
    assert_eq!(
        at_ag,
        vec![HfpEvent::CallHold {
            operation: CallHoldOperation::ReleaseSpecificCall,
            call_index: Some(2),
        }]
    );
    // An operation that this side does not have.
    let line = hf.hold_call(CallHoldOperation::ConnectTwoCalls, None);
    let (at_hf, at_ag) = talk(&mut hf, &mut ag, vec![line]);
    assert!(at_ag.is_empty());
    assert_eq!(
        at_hf,
        vec![HfpEvent::CommandCompleted {
            command: "AT+CHLD=4".to_string(),
            ok: false,
            responses: vec![],
        }]
    );
}

#[test]
fn voice_recognition_and_hf_indicators_arrive() {
    let (mut hf, mut ag) = connected();
    let line = hf.set_voice_recognition(VoiceRecognitionState::Enable);
    let (_, at_ag) = talk(&mut hf, &mut ag, vec![line]);
    assert_eq!(at_ag, vec![HfpEvent::VoiceRecognition(VoiceRecognitionState::Enable)]);

    let line = hf.set_hf_indicator(HfIndicator::BatteryLevel, 80);
    assert_eq!(line, b"AT+BIEV=2,80\r".to_vec());
    let (_, at_ag) = talk(&mut hf, &mut ag, vec![line]);
    let mut state = HfIndicatorState::new(HfIndicator::BatteryLevel);
    state.current_status = 80;
    assert_eq!(at_ag, vec![HfpEvent::HfIndicatorUpdated(state)]);
}

#[test]
fn calls_are_listed() {
    let (mut hf, mut ag) = connected();
    ag.calls = vec![call(1, Some("5551234"), Some(129)), call(2, None, None)];
    let line = hf.query_current_calls();
    let (answers, _) = ag.receive(&line);
    assert_eq!(answers[0], b"\r\n+CLCC: 1,1,4,0,0,\"5551234\",129\r\n".to_vec());
    let mut events = Vec::new();
    for answer in answers {
        events.append(&mut hf.receive(&answer).1);
    }
    match &events[..] {
        [HfpEvent::CommandCompleted { ok: true, responses, .. }] => {
            assert_eq!(parse_call_infos(responses), ag.calls)
        }
        other => panic!("{:?}", other),
    }
}

#[test]
fn operator_is_named_once_its_format_is_selected() {
    let (mut hf, mut ag) = connected();
    ag.network_operator = "Carrier".to_string();
    let line = hf.query_network_operator();
    let (at_hf, _) = talk(&mut hf, &mut ag, vec![line]);
    assert!(matches!(&at_hf[..], [HfpEvent::CommandCompleted { ok: false, .. }]));

    let line = hf.select_operator_format();
    talk(&mut hf, &mut ag, vec![line]);
    let line = hf.query_network_operator();
    let (at_hf, _) = talk(&mut hf, &mut ag, vec![line]);
    match &at_hf[..] {
        [HfpEvent::CommandCompleted { ok: true, responses, .. }] => {
            assert_eq!(parse_network_operator(responses), Some("Carrier".to_string()))
        }
        other => panic!("{:?}", other),
    }
}

#[test]
fn caller_is_identified() {
    let (mut hf, mut ag) = connected();
    let caller = CallLineIdentification {
        number: "5551234".to_string(),
        kind: 129,
        subaddr: Some(String::new()),
        satype: None,
        alpha: Some("Mum".to_string()),
        cli_validity: None,
    };
    assert_eq!(caller.to_clip_string(), "\"5551234\",129,\"\",,\"Mum\"");
    let bytes = ag.send_cli_notification(&caller);
    assert_eq!(hf.receive(&bytes), (vec![], vec![HfpEvent::CliNotification(caller.clone())]));

    let parameters = parse_parameters(caller.to_clip_string().as_bytes()).unwrap();
    assert_eq!(CallLineIdentification::parse_from(&parameters), Ok(caller));
    assert_eq!(
        CallLineIdentification::parse_from(&[]).unwrap_err().to_text(),
        "AT parsing error: CLIP: missing number"
    );
    assert_eq!(
        CallLineIdentification::parse_from(&parameters[..1]).unwrap_err().to_text(),
        "AT parsing error: CLIP: missing type"
    );
}

#[test]
fn unknown_commands_are_refused() {
    let (_, mut ag) = connected();
    assert_eq!(ag.receive(b"AT+NONE\r"), (vec![response_bytes("ERROR")], vec![]));
}

#[test]
fn errors_carry_their_code_when_asked_for() {
    let (_, mut ag) = connected();
    assert_eq!(ag.receive(b"AT+COPS?\r").0, vec![response_bytes("ERROR")]);
    assert_eq!(ag.receive(b"AT+CMEE=1\r").0, vec![response_bytes("OK")]);
    assert_eq!(CmeError::OperationNotAllowed.to_value(), 3);
    assert_eq!(ag.receive(b"AT+COPS?\r").0, vec![response_bytes("+CME ERROR: 3")]);
}

#[test]
fn refused_step_ends_the_procedure() {
    let mut hf = HfProtocol::new(hf_configuration());
    hf.start_slc();
    let (sent, events) = hf.receive(&response_bytes("ERROR"));
    assert!(sent.is_empty());
    assert!(!events.contains(&HfpEvent::SlcComplete));
    assert!(!hf.slc_initialized);
    assert!(!hf.has_pending_command());
}

#[test]
fn values_have_numbers_and_codes() {
    for codec in [AudioCodec::Cvsd, AudioCodec::Msbc, AudioCodec::Lc3Swb] {
        assert_eq!(AudioCodec::from_value(codec.to_value()), Some(codec));
    }
    assert_eq!(AudioCodec::from_value(4), None);
    assert_eq!(HfIndicator::from_value(3), None);
    assert_eq!(
        CallHoldOperation::from_code("2x"),
        Some(CallHoldOperation::HoldAllCallsExcept)
    );
    assert_eq!(CallHoldOperation::from_code("5"), None);
    assert_eq!(AgIndicator::from_wire_name("battchg"), Some(AgIndicator::BatteryCharge));
    assert_eq!(AgIndicator::from_wire_name("none"), None);
    assert_eq!(CallInfoMode::from_value(9), Some(CallInfoMode::Unknown));
    assert_eq!(CallInfoStatus::from_value(6), None);
    assert_eq!(ProfileVersion::from_value(ProfileVersion::V1_8.to_value()), Some(ProfileVersion::V1_8));
}

#[test]
fn malformed_call_lines_are_passed_over() {
    let lines = [
        AtResponse::parse_from(b"+CLCC: 1,0,0,0,0").unwrap(),
        AtResponse::parse_from(b"+CLCC: 1,0,0").unwrap(),
        AtResponse::parse_from(b"+CLCC: 1,7,0,0,0").unwrap(),
    ];
    let calls = parse_call_infos(&lines);
    assert_eq!(calls.len(), 1);
    assert_eq!(calls[0].direction, CallInfoDirection::MobileOriginated);
    assert_eq!(calls[0].number, None);
}

#[test]
fn records_are_found() {
    let hf = make_hf_sdp_records(1, 3, &hf_configuration(), ProfileVersion::V1_8);
    let ag = make_ag_sdp_records(2, 4, &ag_configuration(), ProfileVersion::V1_8);
    let (channel, version, _) = record_from(&[hf.clone()], false).unwrap();
    assert_eq!((channel, version), (3, ProfileVersion::V1_8));
    let (channel, version, _) = record_from(&[ag.clone()], false).unwrap();
    assert_eq!((channel, version), (4, ProfileVersion::V1_8));
    // A gateway is passed over where a Hands-Free is looked for.
    assert_eq!(record_from(&[ag.clone(), hf], true).unwrap().0, 3);
    assert_eq!(record_from(&[ag], true), None);
}

#[test]
fn registered_records_are_found() {
    let features = hf_feature::EC_NR
        | hf_feature::REMOTE_VOLUME_CONTROL
        | hf_feature::ENHANCED_VOICE_RECOGNITION_STATUS
        | hf_feature::VOICE_RECOGNITION_TEXT
        | hf_feature::HF_INDICATORS;
    let configuration = HfConfiguration { supported_hf_features: features, ..hf_configuration() };
    for mtu in [64, 672] {
        let mut server = SdpServer::new();
        server
            .service_records
            .insert(1, make_hf_sdp_records(1, 3, &configuration, ProfileVersion::V1_8));
        let mut client = SdpClient::new();
        assert_eq!(
            find_hf_sdp_record(&mut client, |bytes| server.handle_request(bytes, mtu)),
            Ok(Some((3, ProfileVersion::V1_8, 0xF1)))
        );
        server
            .service_records
            .insert(2, make_ag_sdp_records(2, 4, &ag_configuration(), ProfileVersion::V1_8));
        let (channel, version, _) =
            find_ag_sdp_record(&mut client, |bytes| server.handle_request(bytes, mtu))
                .unwrap()
                .unwrap();
        assert_eq!((channel, version), (4, ProfileVersion::V1_8));
    }
}

#[test]
fn indicators_with_gaps_are_read_back() {
    for values in [vec![0, 1], vec![7], vec![0, 2, 5], vec![0, u32::MAX], vec![3, 4, 5, 9]] {
        let state = AgIndicatorState {
            indicator: AgIndicator::Signal,
            supported_values: values.into_iter().collect(),
            current_status: 3,
            enabled: false,
        };
        let parameters = parse_parameters(state.on_test_text().as_bytes()).unwrap();
        assert_eq!(parameters.len(), 1);
        assert_eq!(
            parse_one_cind_indicator(&parameters[0]),
            Some(AgIndicatorState { current_status: 0, enabled: true, ..state })
        );
    }
}
