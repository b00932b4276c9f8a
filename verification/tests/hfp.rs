//! The Hands-Free profile.

use simble::classic::at::parse_parameters;
use simble::classic::hfp::framing::{extract_command_lines, extract_response_lines};
use simble::classic::hfp::indicator::parse_one_cind_indicator;
use simble::classic::hfp::{
    AgConfiguration, AgIndicator, AgIndicatorState, AgProtocol, HfConfiguration, HfProtocol,
    HfpEvent,
};

#[test]
fn test_extract_response_lines_batched() {
    let mut buffer = b"\r\n+BIND: (1,2)\r\n\r\nOK\r\n".to_vec();
    let lines = extract_response_lines(&mut buffer);
    assert_eq!(lines, vec![b"+BIND: (1,2)".to_vec(), b"OK".to_vec()]);
    assert!(buffer.is_empty());
}

#[test]
fn test_extract_response_lines_partial_kept() {
    let mut buffer = b"\r\nOK\r\n\r\n+CIEV".to_vec();
    let lines = extract_response_lines(&mut buffer);
    assert_eq!(lines, vec![b"OK".to_vec()]);
    assert_eq!(buffer, b"\r\n+CIEV".to_vec());
}

#[test]
fn test_extract_command_lines_batched() {
    let mut buffer = b"ATA\rAT+CHUP\r".to_vec();
    let lines = extract_command_lines(&mut buffer);
    assert_eq!(lines, vec![b"ATA".to_vec(), b"AT+CHUP".to_vec()]);
    assert!(buffer.is_empty());
}

#[test]
fn test_ag_indicator_state_on_test_text_contiguous_and_sparse() {
    assert_eq!(AgIndicatorState::call().on_test_text(), "(\"call\",(0-1))");
    let sparse = AgIndicatorState {
        indicator: AgIndicator::Signal,
        supported_values: [0u32, 2, 4].into_iter().collect(),
        current_status: 0,
        enabled: true,
    };
    assert_eq!(sparse.on_test_text(), "(\"signal\",(0,2,4))");
}

#[test]
fn test_parse_one_cind_indicator_round_trip() {
    let state = AgIndicatorState::callsetup();
    let text = state.on_test_text();
    let params =
        parse_parameters(text.as_bytes()).expect("valid parameters");
    let parsed = parse_one_cind_indicator(&params[0]).expect("parses");
    assert_eq!(parsed.indicator, AgIndicator::CallSetup);
    assert_eq!(parsed.supported_values, state.supported_values);
}

#[test]
fn test_slc_end_to_end_minimal_features() {
    let mut hf = HfProtocol::new(HfConfiguration {
        supported_hf_features: 0,
        supported_hf_indicators: Vec::new(),
        supported_audio_codecs: Vec::new(),
    });
    let mut ag = AgProtocol::new(AgConfiguration {
        supported_ag_features: 0,
        supported_ag_indicators: vec![AgIndicatorState::call()],
        supported_hf_indicators: Vec::new(),
        supported_ag_call_hold_operations: Vec::new(),
        supported_audio_codecs: Vec::new(),
    });

    let mut to_ag = vec![hf.start_slc()];
    let mut slc_complete = false;
    for _ in 0..10 {
        let mut to_hf = Vec::new();
        for line in to_ag.drain(..) {
            let (out, _) = ag.receive(&line);
            to_hf.extend(out);
        }
        let mut next_to_ag = Vec::new();
        for line in to_hf {
            let (out, events) = hf.receive(&line);
            next_to_ag.extend(out);
            if events.contains(&HfpEvent::SlcComplete) {
                slc_complete = true;
            }
        }
        to_ag = next_to_ag;
        if slc_complete && to_ag.is_empty() {
            break;
        }
    }
    assert!(slc_complete);
    assert!(hf.slc_initialized);
    assert_eq!(hf.ag_indicators.len(), 1);
    assert_eq!(hf.ag_indicators[0].indicator, AgIndicator::Call);
}
