//! Tests of the AVCTP messages and transactions.

use simble::classic::avctp::{
    connect_browsing_channel, connect_control_channel, register_browsing_server,
    register_control_server, write_message, AvctpEvent, Message, MessageAssembler, Protocol,
};
use simble::l2cap::classic::{ClassicChannelManager, ClassicChannelSpec};

#[test]
fn short_message_is_one_packet() {
    assert_eq!(
        write_message(4, true, false, 0x110E, &[1, 2], 48),
        vec![vec![0x40, 0x11, 0x0E, 1, 2]]
    );
    assert_eq!(
        write_message(4, false, true, 0x110E, &[], 48),
        vec![vec![0x43, 0x11, 0x0E]]
    );
    // Exactly the MTU.
    assert_eq!(write_message(0, true, false, 0x110E, &[0; 45], 48).len(), 1);
    assert_eq!(write_message(0, true, false, 0x110E, &[0; 46], 48).len(), 2);
}

#[test]
fn long_message_is_cut_and_put_together() {
    let payload: Vec<u8> = (0..12).collect();
    let packets = write_message(5, false, false, 0x110E, &payload, 8);
    assert_eq!(
        packets,
        vec![
            vec![0x56, 3, 0x11, 0x0E, 0, 1, 2, 3],
            vec![0x5A, 4, 5, 6, 7, 8, 9, 10],
            vec![0x5E, 11],
        ]
    );
    let mut assembler = MessageAssembler::new();
    assert_eq!(assembler.on_pdu(&packets[0]), None);
    assert_eq!(assembler.on_pdu(&packets[1]), None);
    assert_eq!(
        assembler.on_pdu(&packets[2]),
        Some(Message {
            transaction_label: 5,
            is_command: false,
            ipid: false,
            pid: 0x110E,
            payload,
        })
    );
}

#[test]
fn broken_fragments_are_dropped() {
    let payload: Vec<u8> = (0..12).collect();
    let packets = write_message(5, true, false, 0x110E, &payload, 8);
    // An end that comes too early.
    let mut assembler = MessageAssembler::new();
    assert_eq!(assembler.on_pdu(&packets[0]), None);
    assert_eq!(assembler.on_pdu(&packets[2]), None);
    assert_eq!(assembler.on_pdu(&packets[1]), None);
    // Another label in the middle.
    assembler = MessageAssembler::new();
    assert_eq!(assembler.on_pdu(&packets[0]), None);
    assert_eq!(assembler.on_pdu(&[0x68, 4, 5, 6]), None);
    assert_eq!(assembler.on_pdu(&packets[1]), None);
    assert_eq!(assembler.on_pdu(&packets[2]), None);
    // A command cannot say that a PID is unknown.
    assert_eq!(assembler.on_pdu(&[0x41, 0x11, 0x0E]), None);
    // Too short.
    assert_eq!(assembler.on_pdu(&[]), None);
    assert_eq!(assembler.on_pdu(&[0x40, 0x11]), None);
    // A single packet interrupts a message.
    assert_eq!(assembler.on_pdu(&packets[0]), None);
    assert!(assembler.on_pdu(&[0x40, 0x11, 0x0E, 9]).is_some());
    assert_eq!(assembler.on_pdu(&packets[1]), None);
}

#[test]
fn commands_arrive_where_the_pid_is_registered() {
    let sender = Protocol::new(48);
    let mut receiver = Protocol::new(48);
    let packets = sender.send_command(3, 0x110E, &[1, 2, 3]);

    // An unknown PID is answered, and the sender hears of it.
    let (answers, events) = receiver.receive(&packets[0]);
    assert_eq!(answers, vec![vec![0x33, 0x11, 0x0E]]);
    assert!(events.is_empty());
    let mut sender = sender;
    assert_eq!(
        sender.receive(&answers[0]),
        (vec![], vec![AvctpEvent::InvalidPid { transaction_label: 3, pid: 0x110E }])
    );

    receiver.register_pid(0x110E);
    receiver.register_pid(0x110E);
    assert_eq!(
        receiver.receive(&packets[0]),
        (
            vec![],
            vec![AvctpEvent::Command {
                transaction_label: 3,
                pid: 0x110E,
                payload: vec![1, 2, 3],
            }]
        )
    );
    let packets = receiver.send_response(3, 0x110E, &[4]);
    assert_eq!(
        sender.receive(&packets[0]),
        (
            vec![],
            vec![AvctpEvent::Response { transaction_label: 3, pid: 0x110E, payload: vec![4] }]
        )
    );
}

#[test]
fn peer_mtu_decides_where_messages_are_cut() {
    let mut protocol = Protocol::new(48);
    assert_eq!(protocol.send_command(0, 0x110E, &[0; 10]).len(), 1);
    protocol.set_peer_mtu(8);
    assert_eq!(protocol.send_command(0, 0x110E, &[0; 10]).len(), 2);
    assert_eq!(protocol.send_ipid_response(2, 0x110E), vec![vec![0x23, 0x11, 0x0E]]);
}

#[test]
fn channels_use_the_transport_psms() {
    let mut manager = ClassicChannelManager::new();
    assert!(register_control_server(&mut manager).is_ok());
    assert!(register_browsing_server(&mut manager).is_ok());
    assert!(manager.is_server_registered(0x0017));
    assert!(manager.is_server_registered(0x001B));
    assert!(!manager.is_server_registered(0x0019));
    let (first, request) = connect_control_channel(&mut manager, 672).unwrap();
    assert_eq!(request.psm, 0x0017);
    assert_eq!(request.source_cid, first);
    let (second, request) = connect_browsing_channel(&mut manager, 100).unwrap();
    assert_eq!(request.psm, 0x001B);
    assert_ne!(first, second);
    assert_eq!(manager.channel(first), Some(ClassicChannelSpec { psm: 0x0017, mtu: 672 }));
    assert_eq!(manager.channel(second), Some(ClassicChannelSpec { psm: 0x001B, mtu: 100 }));
    assert_eq!(manager.channel(1), None);
}
