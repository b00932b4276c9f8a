//! Tests of the AVRCP commands, responses and the connection.

use simble::classic::avc::{CommandType, ResponseCode};
use simble::classic::avrcp::service::{
    controllers_from, find_controller_services, find_target_services, targets_from,
};
use simble::classic::avrcp::{
    event_id, media_attribute_id, pdu_id, play_status, status_code, write_pdu, ApplicationSetting,
    AvrcpEvent, BrowseableItem, CapabilityList, Command, ControllerServiceRecord, Event,
    FolderItem, MediaAttribute, MediaElementItem, MediaPlayerItem, PduAssembler, Protocol,
    Response, SettingText, TargetServiceRecord, MAXIMUM_VOLUME, NO_TRACK_UID,
};
use simble::classic::sdp::{SdpClient, SdpServer};
use simble::types::SimbleError;

fn attribute(attribute_id: u32, value: &str) -> MediaAttribute {
    MediaAttribute { attribute_id, character_set_id: 0x6A, value: value.to_string() }
}

/// Hands packets back and forth until nobody sends any more. The first list of
/// events is that of `from`.
fn talk(
    from: &mut Protocol,
    to: &mut Protocol,
    packets: Vec<Vec<u8>>,
) -> (Vec<AvrcpEvent>, Vec<AvrcpEvent>) {
    let mut at_from = Vec::new();
    let mut at_to = Vec::new();
    let mut packets = packets;
    while !packets.is_empty() {
        let mut answers = Vec::new();
        for packet in packets {
            let (mut sent, mut events) = to.receive(&packet);
            answers.append(&mut sent);
            at_to.append(&mut events);
        }
        packets = Vec::new();
        for answer in answers {
            let (mut sent, mut events) = from.receive(&answer);
            packets.append(&mut sent);
            at_from.append(&mut events);
        }
    }
    (at_from, at_to)
}

#[test]
fn commands_are_written_and_read_back() {
    let commands = vec![
        Command::GetCapabilities { capability_id: 3 },
        Command::ListPlayerApplicationSettingValues { attribute_id: 2 },
        Command::GetCurrentPlayerApplicationSettingValue { attribute_ids: vec![1, 2] },
        Command::SetPlayerApplicationSettingValue {
            settings: vec![ApplicationSetting { attribute_id: 1, value_id: 2 }],
        },
        Command::GetPlayerApplicationSettingValueText { attribute_id: 1, value_ids: vec![1, 2] },
        Command::InformDisplayableCharacterSet { character_set_ids: vec![0x6A, 3] },
        Command::GetElementAttributes { identifier: 0, attribute_ids: vec![1, 7] },
        Command::GetPlayStatus,
        Command::RegisterNotification { event_id: 5, playback_interval: 10 },
        Command::SetAbsoluteVolume { volume: 0x40 },
        Command::GetFolderItems { scope: 1, start_item: 0, end_item: 9, attribute_ids: vec![1] },
        Command::ChangePath { uid_counter: 1, direction: 1, folder_uid: 0x0102030405060708 },
        Command::Search { character_set_id: 0x6A, search_string: "abc".to_string() },
        Command::PlayItem { scope: 3, uid: 7, uid_counter: 2 },
    ];
    for command in commands {
        assert_eq!(
            Command::parse(command.pdu_id(), &command.to_parameters()),
            Some(command)
        );
    }
    assert_eq!(
        Command::RegisterNotification { event_id: 5, playback_interval: 10 }.to_parameters(),
        vec![5, 0, 0, 0, 10]
    );
    assert_eq!(
        Command::Search { character_set_id: 0x6A, search_string: "abc".to_string() }
            .to_parameters(),
        vec![0, 0x6A, 0, 3, b'a', b'b', b'c']
    );
}

#[test]
fn malformed_commands() {
    assert_eq!(Command::parse(pdu_id::GET_CAPABILITIES, &[]), None);
    assert_eq!(Command::parse(pdu_id::REGISTER_NOTIFICATION, &[5, 0, 0]), None);
    // A count that promises more than there is.
    assert_eq!(
        Command::parse(pdu_id::GET_CURRENT_PLAYER_APPLICATION_SETTING_VALUE, &[2, 1]),
        None
    );
    assert_eq!(Command::parse(0x99, &[]), None);
}

#[test]
fn responses_are_written_and_read_back() {
    let responses = vec![
        Response::GetCapabilities { capabilities: CapabilityList::EventIds(vec![1, 2, 13]) },
        Response::GetCapabilities { capabilities: CapabilityList::CompanyIds(vec![0x001958]) },
        Response::GetPlayerApplicationSettingAttributeText {
            entries: vec![SettingText { id: 1, character_set_id: 0x6A, text: "Shuffle".into() }],
        },
        Response::GetElementAttributes { attributes: vec![attribute(1, "Song"), attribute(2, "")] },
        Response::GetPlayStatus { song_length: 1000, song_position: 10, play_status: 1 },
        Response::RegisterNotification { event: Event::TrackChanged { uid: 9 } },
        Response::SetBrowsedPlayer {
            status: 4,
            uid_counter: 1,
            number_of_items: 3,
            character_set_id: 0x6A,
            folder_names: vec!["a".into(), "bc".into()],
        },
        Response::GetFolderItems {
            status: 4,
            uid_counter: 1,
            items: vec![
                BrowseableItem::MediaPlayer(MediaPlayerItem {
                    player_id: 1,
                    major_player_type: 1,
                    player_sub_type: 0,
                    play_status: 1,
                    features: 0x0102030405060708090A0B0C0D0E0F10,
                    character_set_id: 0x6A,
                    displayable_name: "Player".into(),
                }),
                BrowseableItem::Folder(FolderItem {
                    folder_uid: 2,
                    folder_type: 1,
                    is_playable: true,
                    character_set_id: 0x6A,
                    displayable_name: "Folder".into(),
                }),
                BrowseableItem::MediaElement(MediaElementItem {
                    media_element_uid: 3,
                    media_type: 0,
                    character_set_id: 0x6A,
                    displayable_name: "Track".into(),
                    attributes: vec![attribute(1, "Track")],
                }),
            ],
        },
        Response::ChangePath { status: 4, number_of_items: 7 },
        Response::PlayItem { status: 4 },
    ];
    for response in responses {
        assert_eq!(
            Response::parse(response.pdu_id(), &response.to_parameters()),
            Some(response)
        );
    }
    assert_eq!(
        Response::GetPlayStatus { song_length: 0x01020304, song_position: 5, play_status: 1 }
            .to_parameters(),
        vec![1, 2, 3, 4, 0, 0, 0, 5, 1]
    );
    assert_eq!(Response::parse(pdu_id::GET_PLAY_STATUS, &[0; 8]), None);
}

#[test]
fn bytes_that_are_no_text_are_replaced() {
    let parameters = [1, 0, 0, 0, 1, 0, 0x6A, 0, 3, b'A', 0xFF, 0xC3];
    assert_eq!(
        Response::parse(pdu_id::GET_ELEMENT_ATTRIBUTES, &parameters),
        Some(Response::GetElementAttributes {
            attributes: vec![attribute(1, "A\u{FFFD}\u{FFFD}")],
        })
    );
    let parameters = [1, 0, 0, 0, 1, 0, 0x6A, 0, 3, b'A', 0xC3, 0xA9];
    assert_eq!(
        Response::parse(pdu_id::GET_ELEMENT_ATTRIBUTES, &parameters),
        Some(Response::GetElementAttributes { attributes: vec![attribute(1, "A\u{E9}")] })
    );
}

#[test]
fn events_are_written_and_read_back() {
    let events = vec![
        Event::PlaybackStatusChanged { play_status: 2 },
        Event::TrackChanged { uid: NO_TRACK_UID },
        Event::PlaybackPosChanged { playback_position: 77 },
        Event::PlayerApplicationSettingChanged {
            settings: vec![ApplicationSetting { attribute_id: 3, value_id: 1 }],
        },
        Event::NowPlayingContentChanged,
        Event::AddressedPlayerChanged { player_id: 1, uid_counter: 2 },
        Event::VolumeChanged { volume: 0x7F },
        Event::Generic { event_id: event_id::BATT_STATUS_CHANGED, data: vec![3] },
    ];
    for event in events {
        let bytes = event.to_bytes();
        assert_eq!(bytes[0], event.event_id());
        assert_eq!(Event::parse(&bytes), Some(event));
    }
    assert_eq!(Event::parse(&[]), None);
    assert_eq!(Event::parse(&[event_id::TRACK_CHANGED, 0, 0]), None);
}

#[test]
fn long_parameters_are_cut_and_put_together() {
    let packets = write_pdu(0x20, &[1, 2, 3, 4, 5], 2);
    assert_eq!(
        packets,
        vec![
            vec![0x20, 1, 0, 2, 1, 2],
            vec![0x20, 2, 0, 2, 3, 4],
            vec![0x20, 3, 0, 1, 5],
        ]
    );
    let mut assembler = PduAssembler::new();
    assert!(!assembler.in_progress());
    assert_eq!(assembler.on_pdu(&packets[0]), None);
    assert!(assembler.in_progress());
    assert_eq!(assembler.on_pdu(&packets[1]), None);
    assert_eq!(assembler.on_pdu(&packets[2]), Some((0x20, vec![1, 2, 3, 4, 5])));
    assert!(!assembler.in_progress());
    assert_eq!(write_pdu(0x30, &[], 2), vec![vec![0x30, 0, 0, 0]]);
    assert_eq!(assembler.on_pdu(&[0x30, 0, 0, 0]), Some((0x30, vec![])));
}

#[test]
fn packets_of_another_pdu_are_dropped() {
    let mut assembler = PduAssembler::new();
    assert_eq!(assembler.on_pdu(&[0x20, 2, 0, 1, 9]), None);
    assert_eq!(assembler.on_pdu(&[0x20, 1, 0, 1, 9]), None);
    assert_eq!(assembler.on_pdu(&[0x21, 3, 0, 1, 9]), None);
    assert_eq!(assembler.on_pdu(&[0x20, 0, 0]), None);
}

#[test]
fn keys_are_reported_and_answered() {
    let (mut controller, mut target) = (Protocol::new(48), Protocol::new(48));
    let packets = controller.send_key_event(0x44, true).unwrap();
    assert_eq!(packets, vec![vec![0x00, 0x11, 0x0E, 0x00, 0x48, 0x7C, 0x44, 0x00]]);
    let (at_controller, at_target) = talk(&mut controller, &mut target, packets);
    assert_eq!(
        at_target,
        vec![AvrcpEvent::KeyEvent { operation_id: 0x44, pressed: true, data: vec![] }]
    );
    assert_eq!(
        at_controller,
        vec![AvrcpEvent::PassThroughResponse {
            response: ResponseCode::Accepted,
            operation_id: 0x44,
            pressed: true,
        }]
    );
}

#[test]
fn play_status_is_asked_for() {
    let (mut controller, mut target) = (Protocol::new(48), Protocol::new(48));
    target.set_song_length(180_000);
    target.set_song_position(1_500);
    target.playback_status = play_status::PLAYING;
    assert_eq!((target.song_length(), target.song_position()), (180_000, 1_500));
    let packets = controller.get_play_status().unwrap();
    assert_eq!(
        packets,
        vec![vec![
            0x00, 0x11, 0x0E, 0x01, 0x48, 0x00, 0x00, 0x19, 0x58, 0x30, 0x00, 0x00, 0x00
        ]]
    );
    let (at_controller, _) = talk(&mut controller, &mut target, packets);
    assert_eq!(
        at_controller,
        vec![AvrcpEvent::PlayStatusReceived {
            song_length: 180_000,
            song_position: 1_500,
            play_status: play_status::PLAYING,
        }]
    );
}

#[test]
fn capabilities_are_asked_for() {
    let (mut controller, mut target) = (Protocol::new(48), Protocol::new(48));
    target.supported_events = vec![event_id::TRACK_CHANGED, event_id::VOLUME_CHANGED];
    let packets = controller.get_supported_events().unwrap();
    let (at_controller, _) = talk(&mut controller, &mut target, packets);
    assert_eq!(at_controller, vec![AvrcpEvent::SupportedEventsReceived(vec![2, 13])]);
    let packets = controller.get_supported_company_ids().unwrap();
    let (at_controller, _) = talk(&mut controller, &mut target, packets);
    assert_eq!(at_controller, vec![AvrcpEvent::SupportedCompanyIdsReceived(vec![0x001958])]);
    let packets = controller
        .send_avrcp_command(CommandType::Status, &Command::GetCapabilities { capability_id: 9 })
        .unwrap();
    let (at_controller, _) = talk(&mut controller, &mut target, packets);
    assert_eq!(
        at_controller,
        vec![AvrcpEvent::CommandRejected {
            pdu_id: pdu_id::GET_CAPABILITIES,
            status_code: status_code::INVALID_PARAMETER,
        }]
    );
}

#[test]
fn attributes_are_selected_by_id() {
    let (mut controller, mut target) = (Protocol::new(200), Protocol::new(200));
    target.element_attributes = vec![
        attribute(media_attribute_id::TITLE, "Song"),
        attribute(media_attribute_id::ARTIST_NAME, "Band"),
        attribute(media_attribute_id::PLAYING_TIME, "0"),
    ];
    let packets = controller.get_element_attributes(0, &[media_attribute_id::ARTIST_NAME]).unwrap();
    let (at_controller, _) = talk(&mut controller, &mut target, packets);
    assert_eq!(
        at_controller,
        vec![AvrcpEvent::ElementAttributesReceived(vec![attribute(2, "Band")])]
    );
    let packets = controller.get_element_attributes(0, &[]).unwrap();
    let (at_controller, _) = talk(&mut controller, &mut target, packets);
    assert_eq!(
        at_controller,
        vec![AvrcpEvent::ElementAttributesReceived(target.element_attributes.clone())]
    );
    // A length that is known is the playing time.
    target.set_song_length(180_000);
    let packets = controller.get_element_attributes(0, &[media_attribute_id::PLAYING_TIME]).unwrap();
    let (at_controller, _) = talk(&mut controller, &mut target, packets);
    assert_eq!(
        at_controller,
        vec![AvrcpEvent::ElementAttributesReceived(vec![attribute(7, "180000")])]
    );
}

#[test]
fn long_response_is_asked_for_piece_by_piece() {
    let (mut controller, mut target) = (Protocol::new(48), Protocol::new(48));
    assert_eq!(target.maximum_parameter_size(), 35);
    let long = "x".repeat(100);
    target.element_attributes = vec![attribute(1, &long)];
    let packets = controller.get_element_attributes(0, &[]).unwrap();
    let (answers, _) = target.receive(&packets[0]);
    assert_eq!(answers.len(), 1);
    assert!(target.has_pending_continuation());
    let (requests, events) = controller.receive(&answers[0]);
    assert!(events.is_empty());
    assert_eq!(controller.continuations_requested(), 1);
    let (at_controller, _) = talk(&mut controller, &mut target, requests);
    assert_eq!(
        at_controller,
        vec![AvrcpEvent::ElementAttributesReceived(vec![attribute(1, &long)])]
    );
    // 109 bytes of parameters in pieces of 35.
    assert_eq!(controller.continuations_requested(), 3);
    assert!(!target.has_pending_continuation());
}

#[test]
fn foreign_continuation_is_rejected() {
    let (mut controller, mut target) = (Protocol::new(48), Protocol::new(48));
    for command in [
        Command::RequestContinuingResponse { continuing_pdu_id: 0x20 },
        Command::AbortContinuingResponse { continuing_pdu_id: 0x20 },
    ] {
        let packets = controller.send_avrcp_command(CommandType::Control, &command).unwrap();
        let (at_controller, _) = talk(&mut controller, &mut target, packets);
        assert_eq!(
            at_controller,
            vec![AvrcpEvent::CommandRejected {
                pdu_id: command.pdu_id(),
                status_code: status_code::INVALID_PARAMETER,
            }]
        );
    }
}

#[test]
fn response_can_be_aborted() {
    let (mut controller, mut target) = (Protocol::new(48), Protocol::new(48));
    target.element_attributes = vec![attribute(1, &"x".repeat(100))];
    let packets = controller.get_element_attributes(0, &[]).unwrap();
    target.receive(&packets[0]);
    assert!(target.has_pending_continuation());
    let packets = controller
        .send_avrcp_command(
            CommandType::Control,
            &Command::AbortContinuingResponse { continuing_pdu_id: pdu_id::GET_ELEMENT_ATTRIBUTES },
        )
        .unwrap();
    let (at_controller, _) = talk(&mut controller, &mut target, packets);
    assert_eq!(
        at_controller,
        vec![AvrcpEvent::ResponseReceived { response: Response::AbortContinuingResponse }]
    );
    assert!(!target.has_pending_continuation());
}

#[test]
fn settings_are_set_and_read_back() {
    let (mut controller, mut target) = (Protocol::new(48), Protocol::new(48));
    target.supported_player_app_settings = vec![(1, vec![1, 2]), (2, vec![1, 2, 3])];
    let settings = vec![ApplicationSetting { attribute_id: 2, value_id: 3 }];

    let packets = controller.list_player_app_setting_attributes().unwrap();
    let (at_controller, _) = talk(&mut controller, &mut target, packets);
    assert_eq!(at_controller, vec![AvrcpEvent::AppSettingAttributesReceived(vec![1, 2])]);
    let packets = controller.list_player_app_setting_values(2).unwrap();
    let (at_controller, _) = talk(&mut controller, &mut target, packets);
    assert_eq!(
        at_controller,
        vec![AvrcpEvent::AppSettingValuesReceived { attribute_id: 2, value_ids: vec![1, 2, 3] }]
    );
    // Nothing is set yet.
    let packets = controller.get_current_player_app_settings(&[2]).unwrap();
    let (at_controller, _) = talk(&mut controller, &mut target, packets);
    assert_eq!(
        at_controller,
        vec![AvrcpEvent::CommandNotImplemented {
            pdu_id: pdu_id::GET_CURRENT_PLAYER_APPLICATION_SETTING_VALUE,
        }]
    );
    let packets = controller.set_player_app_settings(&settings).unwrap();
    let (at_controller, at_target) = talk(&mut controller, &mut target, packets);
    assert_eq!(at_controller, vec![AvrcpEvent::AppSettingsAccepted]);
    assert_eq!(at_target, vec![AvrcpEvent::PlayerAppSettingsSet { settings: settings.clone() }]);
    let packets = controller.get_current_player_app_settings(&[2]).unwrap();
    let (at_controller, _) = talk(&mut controller, &mut target, packets);
    assert_eq!(at_controller, vec![AvrcpEvent::CurrentAppSettingsReceived(settings)]);
}

#[test]
fn volume_is_set() {
    let (mut controller, mut target) = (Protocol::new(48), Protocol::new(48));
    let packets = controller.set_absolute_volume(0x40).unwrap();
    let (at_controller, at_target) = talk(&mut controller, &mut target, packets);
    assert_eq!(at_controller, vec![AvrcpEvent::VolumeAccepted { volume: 0x40 }]);
    assert_eq!(at_target, vec![AvrcpEvent::VolumeSet { volume: 0x40 }]);
    assert_eq!(target.volume, 0x40);
}

#[test]
fn item_is_played() {
    let (mut controller, mut target) = (Protocol::new(48), Protocol::new(48));
    let packets = controller.play_item(3, 77, 1).unwrap();
    let (at_controller, at_target) = talk(&mut controller, &mut target, packets);
    assert_eq!(
        at_controller,
        vec![AvrcpEvent::PlayItemCompleted { status: status_code::OPERATION_COMPLETED }]
    );
    assert_eq!(
        at_target,
        vec![AvrcpEvent::PlayItemRequested { scope: 3, uid: 77, uid_counter: 1 }]
    );
}

#[test]
fn registration_is_consumed_once() {
    let (mut controller, mut target) = (Protocol::new(48), Protocol::new(48));
    target.supported_events = vec![event_id::TRACK_CHANGED];
    target.set_current_track_uid(5);
    assert_eq!(target.current_track_uid(), 5);
    // Nobody has registered.
    assert!(target.notify_track_changed(6).is_empty());

    let packets = controller.register_notification(event_id::TRACK_CHANGED, 0).unwrap();
    let (at_controller, at_target) = talk(&mut controller, &mut target, packets);
    assert_eq!(
        at_controller,
        vec![AvrcpEvent::NotificationReceived {
            event: Event::TrackChanged { uid: 5 },
            interim: true,
        }]
    );
    assert_eq!(
        at_target,
        vec![AvrcpEvent::NotificationRegistered { event_id: event_id::TRACK_CHANGED }]
    );

    let packets = target.notify_track_changed(6);
    assert_eq!(packets.len(), 1);
    assert_eq!(
        controller.receive(&packets[0]),
        (
            vec![],
            vec![AvrcpEvent::NotificationReceived {
                event: Event::TrackChanged { uid: 6 },
                interim: false,
            }]
        )
    );
    assert!(target.notify_track_changed(7).is_empty());
}

#[test]
fn unsupported_event_is_declined() {
    let (mut controller, mut target) = (Protocol::new(48), Protocol::new(48));
    let packets = controller.register_notification(event_id::VOLUME_CHANGED, 0).unwrap();
    let (at_controller, at_target) = talk(&mut controller, &mut target, packets);
    assert_eq!(
        at_controller,
        vec![AvrcpEvent::CommandNotImplemented { pdu_id: pdu_id::REGISTER_NOTIFICATION }]
    );
    assert!(at_target.is_empty());
    assert!(target.notify_volume_changed(3).is_empty());
}

#[test]
fn command_without_an_answer_is_rejected() {
    let (mut controller, mut target) = (Protocol::new(48), Protocol::new(48));
    let packets = controller
        .send_avrcp_command(CommandType::Control, &Command::SetAddressedPlayer { player_id: 1 })
        .unwrap();
    let (at_controller, _) = talk(&mut controller, &mut target, packets);
    assert_eq!(
        at_controller,
        vec![AvrcpEvent::CommandRejected {
            pdu_id: pdu_id::SET_ADDRESSED_PLAYER,
            status_code: status_code::INVALID_PARAMETER,
        }]
    );
}

#[test]
fn frames_for_other_subunits_are_echoed() {
    let mut target = Protocol::new(48);
    // Subunit type 1, ID 0.
    assert_eq!(
        target.receive(&[0x00, 0x11, 0x0E, 0x01, 0x08, 0x30, 0xAA]),
        (vec![vec![0x02, 0x11, 0x0E, 0x08, 0x08, 0x30, 0xAA]], vec![])
    );
}

#[test]
fn stray_response_is_dropped() {
    let mut controller = Protocol::new(48);
    assert_eq!(
        controller.receive(&[0x02, 0x11, 0x0E, 0x09, 0x48, 0x7C, 0x44, 0x00]),
        (vec![], vec![])
    );
}

#[test]
fn labels_are_unique() {
    let mut controller = Protocol::new(48);
    for label in 0..16u8 {
        assert_eq!(controller.send_key_event(0x44, true).unwrap()[0][0], label << 4);
    }
    assert!(matches!(controller.send_key_event(0x44, true), Err(SimbleError::DeviceError(_))));
    controller.receive(&[0x32, 0x11, 0x0E, 0x09, 0x48, 0x7C, 0x44, 0x00]);
    assert_eq!(controller.send_key_event(0x44, false).unwrap()[0][0], 0x30);
}

#[test]
fn unknown_profile_is_reported() {
    let mut controller = Protocol::new(48);
    // No command is in flight.
    assert_eq!(controller.receive(&[0x03, 0x11, 0x0E]), (vec![], vec![]));
    controller.get_play_status().unwrap();
    assert_eq!(
        controller.receive(&[0x03, 0x11, 0x0E]),
        (vec![], vec![AvrcpEvent::InvalidPid { pid: 0x110E }])
    );
    assert_eq!(controller.receive(&[0x03, 0x11, 0x0E]), (vec![], vec![]));
}

#[test]
fn service_records_are_read_back() {
    let controller = ControllerServiceRecord::new(1, 0x0003);
    assert_eq!(controllers_from(&[controller.to_service_attributes()]), vec![controller]);
    let target = TargetServiceRecord::new(2, 0x0041);
    assert_eq!(targets_from(&[target.to_service_attributes()]), vec![target]);
    assert_eq!((target.avctp_version, target.avrcp_version), ((1, 4), (1, 6)));
}

#[test]
fn volume_stays_in_its_range() {
    let (mut controller, mut target) = (Protocol::new(48), Protocol::new(48));
    let packets = controller.set_absolute_volume(0xFF).unwrap();
    let (at_controller, at_target) = talk(&mut controller, &mut target, packets);
    assert_eq!(at_controller, vec![AvrcpEvent::VolumeAccepted { volume: 0x7F }]);
    assert_eq!(at_target, vec![AvrcpEvent::VolumeSet { volume: 0x7F }]);
    assert_eq!(target.volume, MAXIMUM_VOLUME);
    let packets = controller.set_absolute_volume(0x80).unwrap();
    talk(&mut controller, &mut target, packets);
    assert_eq!(target.volume, 0);
}

#[test]
fn attributes_arrive_in_pieces_of_one_byte() {
    let (mut controller, mut target) = (Protocol::new(14), Protocol::new(14));
    assert_eq!(target.maximum_parameter_size(), 1);
    target.element_attributes = vec![attribute(1, "Song"), attribute(2, "Artist")];
    let packets = controller.get_element_attributes(0, &[]).unwrap();
    let (at_controller, at_target) = talk(&mut controller, &mut target, packets);
    assert_eq!(
        at_controller,
        vec![AvrcpEvent::ElementAttributesReceived(vec![
            attribute(1, "Song"),
            attribute(2, "Artist"),
        ])]
    );
    assert!(at_target.is_empty());
    assert!(!target.has_pending_continuation());
    // A count, two headers of eight bytes, and ten bytes of text.
    assert_eq!(controller.continuations_requested(), 26);
}

#[test]
fn registered_services_are_found() {
    let controller = ControllerServiceRecord::new(1, 0x0041);
    let target = TargetServiceRecord::new(2, 0x0041);
    for mtu in [64, 672] {
        let mut server = SdpServer::new();
        server.service_records.insert(1, controller.to_service_attributes());
        server.service_records.insert(2, target.to_service_attributes());
        let mut client = SdpClient::new();
        assert_eq!(
            find_controller_services(&mut client, |bytes| server.handle_request(bytes, mtu)),
            Ok(vec![controller])
        );
        assert_eq!(
            find_target_services(&mut client, |bytes| server.handle_request(bytes, mtu)),
            Ok(vec![target])
        );
    }
}

#[test]
fn parameters_that_are_cut_short_are_refused() {
    let commands = vec![
        Command::GetPlayerApplicationSettingValueText { attribute_id: 1, value_ids: vec![1, 2] },
        Command::InformDisplayableCharacterSet { character_set_ids: vec![0x6A, 3] },
        Command::GetElementAttributes { identifier: 0, attribute_ids: vec![1, 7] },
        Command::RegisterNotification { event_id: 5, playback_interval: 10 },
        Command::GetFolderItems { scope: 1, start_item: 0, end_item: 9, attribute_ids: vec![1] },
        Command::Search { character_set_id: 0x6A, search_string: "abc".to_string() },
        Command::PlayItem { scope: 3, uid: 7, uid_counter: 2 },
    ];
    for command in commands {
        let parameters = command.to_parameters();
        for kept in 0..parameters.len() {
            assert_eq!(Command::parse(command.pdu_id(), &parameters[..kept]), None);
        }
    }
    let responses = vec![
        Response::GetCapabilities { capabilities: CapabilityList::CompanyIds(vec![0x001958]) },
        Response::GetElementAttributes { attributes: vec![attribute(1, "Song"), attribute(2, "")] },
        Response::GetPlayerApplicationSettingAttributeText {
            entries: vec![SettingText { id: 1, character_set_id: 0x6A, text: "Shuffle".into() }],
        },
        Response::SetBrowsedPlayer {
            status: 4,
            uid_counter: 1,
            number_of_items: 3,
            character_set_id: 0x6A,
            folder_names: vec!["a".into(), "bc".into()],
        },
        Response::RegisterNotification { event: Event::TrackChanged { uid: 9 } },
        Response::ChangePath { status: 4, number_of_items: 7 },
    ];
    for response in responses {
        let parameters = response.to_parameters();
        for kept in 0..parameters.len() {
            assert_eq!(Response::parse(response.pdu_id(), &parameters[..kept]), None);
        }
    }
}
