//! The events that callers see are those that the models speak of.

use vstd::prelude::*;
use crate::classic::avc::ResponseCode;
use crate::classic::avctp::{AvctpEvent, AvctpEventModel};
use crate::classic::avdtp::protocol::AvdtpEvent;
use crate::classic::avdtp::state::EventModel as StreamEventModel;
use crate::classic::avrcp::protocol::AvrcpEvent;
use crate::classic::avrcp::state::AvrcpEventModel;
use crate::classic::hfp::event::{EventModel, HfpEvent};
use crate::classic::hfp::values::{
    AudioCodec,
    AudioConnectionState,
    CallHoldOperation,
    VoiceRecognitionState,
};
use crate::classic::hid::device::{DeviceEventModel, HidDeviceEvent};
use crate::classic::hid::host::{HidHostEvent, HostEventModel};
use crate::classic::rfcomm::multiplexer::MultiplexerEvent;
use crate::classic::rfcomm::state::SessionEvent;

verus! {

/// Events of the Hands-Free profile.
pub proof fn law_hands_free_events(
    level: u8,
    codec: AudioCodec,
    state: AudioConnectionState,
    voice: VoiceRecognitionState,
    operation: CallHoldOperation,
    call_index: Option<u32>,
    number: String,
    codecs: Vec<AudioCodec>,
)
    ensures
        HfpEvent::SlcComplete@ == EventModel::SlcComplete,
        HfpEvent::Ring@ == EventModel::Ring,
        HfpEvent::Answer@ == EventModel::Answer,
        HfpEvent::HangUp@ == EventModel::HangUp,
        HfpEvent::CodecConnectionRequested@ == EventModel::CodecConnectionRequested,
        HfpEvent::SpeakerVolume(level)@ == EventModel::SpeakerVolume(level),
        HfpEvent::MicrophoneVolume(level)@ == EventModel::MicrophoneVolume(level),
        HfpEvent::CodecNegotiated(codec)@ == EventModel::CodecNegotiated(codec),
        HfpEvent::AudioConnectionRequested(codec)@ == EventModel::AudioConnectionRequested(codec),
        HfpEvent::AudioConnectionState(state)@ == EventModel::AudioConnectionState(state),
        HfpEvent::VoiceRecognition(voice)@ == EventModel::VoiceRecognition(voice),
        HfpEvent::Dial(number)@ == EventModel::Dial(number@),
        HfpEvent::SupportedAudioCodecs(codecs)@ == EventModel::SupportedAudioCodecs(codecs@),
        (HfpEvent::CallHold { operation, call_index })@ == (EventModel::CallHold {
            operation,
            call_index,
        }),
{
}

/// Events of remote control.
pub proof fn law_remote_control_events(
    operation_id: u8,
    pressed: bool,
    data: Vec<u8>,
    volume: u8,
    scope: u8,
    uid: u64,
    uid_counter: u16,
    response: ResponseCode,
    song_length: u32,
    song_position: u32,
    pid: u16,
)
    ensures
        (AvrcpEvent::KeyEvent { operation_id, pressed, data })@ == (AvrcpEventModel::KeyEvent {
            operation_id,
            pressed,
            data: data@,
        }),
        (AvrcpEvent::VolumeSet { volume })@ == (AvrcpEventModel::VolumeSet { volume }),
        (AvrcpEvent::VolumeAccepted { volume })@ == (AvrcpEventModel::VolumeAccepted { volume }),
        (AvrcpEvent::PlayItemRequested { scope, uid, uid_counter })@ == (
        AvrcpEventModel::PlayItemRequested { scope, uid, uid_counter }),
        (AvrcpEvent::PassThroughResponse { response, operation_id, pressed })@ == (
        AvrcpEventModel::PassThroughResponse { response, operation_id, pressed }),
        (AvrcpEvent::PlayStatusReceived { song_length, song_position, play_status: scope })@ == (
        AvrcpEventModel::PlayStatusReceived { song_length, song_position, play_status: scope }),
        (AvrcpEvent::CommandRejected { pdu_id: scope, status_code: volume })@ == (
        AvrcpEventModel::CommandRejected { pdu_id: scope, status_code: volume }),
        (AvrcpEvent::CommandNotImplemented { pdu_id: scope })@ == (
        AvrcpEventModel::CommandNotImplemented { pdu_id: scope }),
        (AvrcpEvent::NotificationRegistered { event_id: scope })@ == (
        AvrcpEventModel::NotificationRegistered { event_id: scope }),
        (AvrcpEvent::PlayItemCompleted { status: scope })@ == (
        AvrcpEventModel::PlayItemCompleted { status: scope }),
        (AvrcpEvent::InvalidPid { pid })@ == (AvrcpEventModel::InvalidPid { pid }),
        AvrcpEvent::AppSettingsAccepted@ == AvrcpEventModel::AppSettingsAccepted,
{
}

/// Events of streams.
pub proof fn law_stream_events(seid: u8, delay: u16, data: Vec<u8>, signal: u8, error: u8)
    ensures
        (AvdtpEvent::StreamConfigured { seid })@ == (StreamEventModel::StreamConfigured { seid }),
        (AvdtpEvent::StreamReconfigured { seid })@ == (StreamEventModel::StreamReconfigured {
            seid,
        }),
        (AvdtpEvent::StreamOpened { seid })@ == (StreamEventModel::StreamOpened { seid }),
        (AvdtpEvent::StreamStarted { seid })@ == (StreamEventModel::StreamStarted { seid }),
        (AvdtpEvent::StreamSuspended { seid })@ == (StreamEventModel::StreamSuspended { seid }),
        (AvdtpEvent::StreamClosed { seid })@ == (StreamEventModel::StreamClosed { seid }),
        (AvdtpEvent::StreamAborted { seid })@ == (StreamEventModel::StreamAborted { seid }),
        (AvdtpEvent::DelayReport { seid, delay })@ == (StreamEventModel::DelayReport {
            seid,
            delay,
        }),
        (AvdtpEvent::SecurityControl { seid, data })@ == (StreamEventModel::SecurityControl {
            seid,
            data: data@,
        }),
        (AvdtpEvent::CommandRejected { signal_identifier: signal, error_code: error })@ == (
        StreamEventModel::CommandRejected { signal_identifier: signal, error_code: error }),
{
}

/// Events of the transport of remote control.
pub proof fn law_transport_events(transaction_label: u8, pid: u16, payload: Vec<u8>)
    ensures
        (AvctpEvent::Command { transaction_label, pid, payload })@ == (AvctpEventModel::Command {
            transaction_label,
            pid,
            payload: payload@,
        }),
        (AvctpEvent::Response { transaction_label, pid, payload })@ == (AvctpEventModel::Response {
            transaction_label,
            pid,
            payload: payload@,
        }),
        (AvctpEvent::InvalidPid { transaction_label, pid })@ == (AvctpEventModel::InvalidPid {
            transaction_label,
            pid,
        }),
{
}

/// Events of serial channels.
pub proof fn law_serial_events(dlci: u8, data: Vec<u8>)
    ensures
        MultiplexerEvent::Started@ == SessionEvent::Started,
        MultiplexerEvent::Disconnected@ == SessionEvent::Disconnected,
        MultiplexerEvent::DlcOpened(dlci)@ == SessionEvent::DlcOpened(dlci),
        MultiplexerEvent::DlcOpenRejected(dlci)@ == SessionEvent::DlcOpenRejected(dlci),
        MultiplexerEvent::DlcClosed(dlci)@ == SessionEvent::DlcClosed(dlci),
        MultiplexerEvent::DataReceived(dlci, data)@ == SessionEvent::DataReceived(dlci, data@),
{
}

/// Events of devices and hosts.
pub proof fn law_device_events(mode: u8, report_type: u8, report_id: u8, data: Vec<u8>)
    ensures
        HidDeviceEvent::Suspend@ == DeviceEventModel::Suspend,
        HidDeviceEvent::ExitSuspend@ == DeviceEventModel::ExitSuspend,
        HidDeviceEvent::VirtualCableUnplug@ == DeviceEventModel::VirtualCableUnplug,
        HidDeviceEvent::ProtocolSet(mode)@ == DeviceEventModel::ProtocolSet(mode),
        (HidDeviceEvent::ReportSet { report_type, report_id, data })@ == (
        DeviceEventModel::ReportSet { report_type, report_id, data: data@ }),
        (HidDeviceEvent::ControlData { report_type, payload: data })@ == (
        DeviceEventModel::ControlData { report_type, payload: data@ }),
        HidHostEvent::Handshake(mode)@ == HostEventModel::Handshake(mode),
        HidHostEvent::VirtualCableUnplug@ == HostEventModel::VirtualCableUnplug,
        (HidHostEvent::ControlData { report_type, payload: data })@ == (
        HostEventModel::ControlData { report_type, payload: data@ }),
{
}

} // verus!
