//! What passes over the channel, byte by byte: what a target does with each
//! packet of a controller, and what a controller reports of each answer.

use vstd::prelude::*;
use crate::bytes;
use crate::classic::avc;
use crate::classic::avc::{
    CommandFrameModel,
    CommandType,
    PassThroughModel,
    ResponseCode,
    ResponseFrameModel,
};
use crate::classic::avctp;
use crate::classic::avrcp::assembler;
use crate::classic::avrcp::codec_laws;
use crate::classic::avrcp::command::CommandModel;
use crate::classic::avrcp::event::EventModel;
use crate::classic::avrcp::items;
use crate::classic::avrcp::items::{ApplicationSetting, CapabilityModel, MediaAttributeModel};
use crate::classic::avrcp::protocol;
use crate::classic::avrcp::protocol_laws;
use crate::classic::avrcp::response::ResponseModel;
use crate::classic::avrcp::state;
use crate::classic::avrcp::state::{AvrcpEventModel, ConnectionModel, Pending, Step};
use crate::classic::avrcp::wire;

verus! {

// ---------------------------------------------------------------------------
// Packets
// ---------------------------------------------------------------------------

/// The packet of a vendor-dependent command to the panel: the transport header
/// with the label, the PID, the command type, the subunit, the opcode, the
/// company, and a whole PDU.
pub open spec fn command_packet(label: u8, ctype: u8, id: u8, parameters: Seq<u8>) -> Seq<u8> {
    seq![
        label << 4,
        0x11u8,
        0x0Eu8,
        ctype,
        0x48u8,
        0x00u8,
        0x00u8,
        0x19u8,
        0x58u8,
        id,
        0x00u8,
        (parameters.len() / 256) as u8,
        (parameters.len() % 256) as u8,
    ] + parameters
}

/// The packet of the answer to such a command, with a response code in place
/// of the command type.
pub open spec fn answer_packet(label: u8, code: u8, id: u8, parameters: Seq<u8>) -> Seq<u8> {
    seq![
        (label << 4) | 2,
        0x11u8,
        0x0Eu8,
        code,
        0x48u8,
        0x00u8,
        0x00u8,
        0x19u8,
        0x58u8,
        id,
        0x00u8,
        (parameters.len() / 256) as u8,
        (parameters.len() % 256) as u8,
    ] + parameters
}

/// Whether a connection takes packets on a label: nothing is half-received.
pub open spec fn takes(m: ConnectionModel, label: u8) -> bool {
    &&& label < 16
    &&& m.avctp.assembler == avctp::idle_assembler()
    &&& m.avctp.registered_pids.contains(0x110Eu16)
    &&& !m.command_assemblers.contains_key(label)
    &&& !m.response_assemblers.contains_key(label)
}

/// Whether parameters of a length fit in one packet, with 13 bytes before them,
/// and in the 512 bytes of a frame.
pub open spec fn fits(m: ConnectionModel, length: int) -> bool {
    &&& 13 + length <= m.avctp.peer_mtu
    &&& 13 + length <= m.peer_mtu
    &&& 13 + length <= 512
}

/// Whether a packet makes a connection come to a state, send packets, and
/// report events.
pub open spec fn leads_to(
    m: ConnectionModel,
    packet: Seq<u8>,
    after: ConnectionModel,
    outgoing: Seq<Seq<u8>>,
    events: Seq<AvrcpEventModel>,
) -> bool {
    let step = state::receive(m, packet);
    step.state == after && step.outgoing == outgoing && step.events == events
}

proof fn lemma_header(label: u8)
    by (bit_vector)
    requires
        label < 16,
    ensures
        (label << 4) | (0u8 << 2) | (0u8 << 1) | 0u8 == label << 4,
        (label << 4) | (0u8 << 2) | (1u8 << 1) | 0u8 == (label << 4) | 2,
        (label << 4) >> 4 == label,
        ((label << 4) >> 2) & 3 == 0,
        ((label << 4) >> 1) & 1 == 0,
        (label << 4) & 1 == 0,
        ((label << 4) | 2) >> 4 == label,
        (((label << 4) | 2) >> 2) & 3 == 0,
        (((label << 4) | 2) >> 1) & 1 == 1,
        ((label << 4) | 2) & 1 == 0,
{
}

proof fn lemma_panel()
    by (bit_vector)
    ensures
        (9u8 << 3) | (0u8 & 0x07) == 0x48,
{
}

/// A single packet is received as what it carries.
#[verifier::rlimit(50)]
proof fn lemma_received(m: ConnectionModel, label: u8, frame: Seq<u8>)
    requires
        takes(m, label),
    ensures
        ({
            let step = state::receive(m, seq![label << 4, 0x11u8, 0x0Eu8] + frame);
            let heard = state::on_command(m, label, frame);
            step == Step { state: heard.state, outgoing: heard.outgoing, events: heard.events }
        }),
        ({
            let step = state::receive(m, seq![(label << 4) | 2, 0x11u8, 0x0Eu8] + frame);
            let heard = state::on_response(m, label, frame);
            step == Step { state: heard.state, outgoing: heard.outgoing, events: heard.events }
        }),
{
    lemma_header(label);
    reveal(state::on_transport_event);
    let none: Seq<Seq<u8>> = seq![];
    let asked = seq![label << 4, 0x11u8, 0x0Eu8] + frame;
    let told = seq![(label << 4) | 2, 0x11u8, 0x0Eu8] + frame;
    assert(asked.skip(3) =~= frame);
    assert(told.skip(3) =~= frame);
    assert(bytes::be16(asked, 1) == 0x110E);
    assert(bytes::be16(told, 1) == 0x110E);
    assert((ConnectionModel {
        avctp: avctp::ProtocolModel { assembler: avctp::idle_assembler(), ..m.avctp },
        ..m
    }) == m);
    assert(none + state::on_command(m, label, frame).outgoing =~= state::on_command(
        m,
        label,
        frame,
    ).outgoing);
    assert(none + state::on_response(m, label, frame).outgoing =~= state::on_response(
        m,
        label,
        frame,
    ).outgoing);
}

/// A message that fits goes out in one packet.
proof fn lemma_one_packet(m: ConnectionModel, label: u8, frame: Seq<u8>)
    requires
        label < 16,
        3 + frame.len() <= m.avctp.peer_mtu,
    ensures
        avctp::command_packets(m.avctp, label, 0x110E, frame) =~= seq![
            seq![label << 4, 0x11u8, 0x0Eu8] + frame,
        ],
        avctp::response_packets(m.avctp, label, 0x110E, frame) =~= seq![
            seq![(label << 4) | 2, 0x11u8, 0x0Eu8] + frame,
        ],
{
    lemma_header(label);
    assert(bytes::be16_bytes(0x110E) =~= seq![0x11u8, 0x0Eu8]);
    assert(seq![label << 4] + seq![0x11u8, 0x0Eu8] + frame =~= seq![label << 4, 0x11u8, 0x0Eu8]
        + frame);
    assert(seq![(label << 4) | 2] + seq![0x11u8, 0x0Eu8] + frame =~= seq![
        (label << 4) | 2,
        0x11u8,
        0x0Eu8,
    ] + frame);
}

// ---------------------------------------------------------------------------
// Keys
// ---------------------------------------------------------------------------

/// The byte that names a key and says whether it is pressed: a release has the
/// top bit set.
pub open spec fn key_byte(operation_id: u8, pressed: bool) -> u8 {
    if pressed {
        operation_id
    } else {
        operation_id | 0x80
    }
}

proof fn lemma_key_byte(id: u8)
    by (bit_vector)
    requires
        id < 0x80,
    ensures
        0x00u8 | (id & 0x7F) == id,
        0x80u8 | (id & 0x7F) == id | 0x80,
{
}

/// What a controller sends for a key is one packet with the key and whether it
/// is pressed.
#[verifier::rlimit(50)]
pub proof fn law_key_packet(m: ConnectionModel, operation_id: u8, pressed: bool)
    requires
        operation_id < 0x80,
        m.avctp.peer_mtu >= 8,
        !m.pending.contains_key((m.next_transaction % 16) as u8),
    ensures
        ({
            let label = (m.next_transaction % 16) as u8;
            let (after, sent) = state::send_frame(
                m,
                Pending::PassThrough { operation_id, pressed },
                state::key_frame(operation_id, pressed),
            );
            &&& sent is Ok
            &&& sent->Ok_0 == seq![
                seq![
                    label << 4,
                    0x11u8,
                    0x0Eu8,
                    0x00u8,
                    0x48u8,
                    0x7Cu8,
                    key_byte(operation_id, pressed),
                    0x00u8,
                ],
            ]
            &&& after.pending == m.pending.insert(
                label,
                Pending::PassThrough { operation_id, pressed },
            )
        }),
{
    let label = (m.next_transaction % 16) as u8;
    lemma_key_byte(operation_id);
    lemma_panel();
    let frame = state::key_frame(operation_id, pressed);
    assert(frame =~= seq![0x00u8, 0x48u8, 0x7Cu8, key_byte(operation_id, pressed), 0x00u8]);
    lemma_one_packet(m, label, frame);
    assert(seq![label << 4, 0x11u8, 0x0Eu8] + frame =~= seq![
        label << 4,
        0x11u8,
        0x0Eu8,
        0x00u8,
        0x48u8,
        0x7Cu8,
        key_byte(operation_id, pressed),
        0x00u8,
    ]);
}

/// The packet of a key makes a target report one event, with that key, whether it
/// was pressed or released, and the data behind it, and answer with the same key
/// under the code that is set for keys. Nothing else changes.
#[verifier::rlimit(50)]
pub proof fn law_key_is_reported(
    m: ConnectionModel,
    label: u8,
    operation_id: u8,
    pressed: bool,
    data: Seq<u8>,
)
    requires
        takes(m, label),
        operation_id < 0x80,
        data.len() <= 255,
        m.avctp.peer_mtu >= 8 + data.len(),
    ensures
        leads_to(
            m,
            seq![
                label << 4,
                0x11u8,
                0x0Eu8,
                0x00u8,
                0x48u8,
                0x7Cu8,
                key_byte(operation_id, pressed),
                data.len() as u8,
            ] + data,
            m,
            seq![
                seq![
                    (label << 4) | 2,
                    0x11u8,
                    0x0Eu8,
                    m.key_event_response.code(),
                    0x48u8,
                    0x7Cu8,
                    key_byte(operation_id, pressed),
                    data.len() as u8,
                ] + data,
            ],
            seq![AvrcpEventModel::KeyEvent { operation_id, pressed, data }],
        ),
{
    let key = PassThroughModel { pressed, operation_id, operation_data: data };
    let frame = CommandFrameModel {
        ctype: CommandType::Control,
        subunit_type: avc::subunit_type::PANEL,
        subunit_id: 0,
        opcode: avc::opcode::PASS_THROUGH,
        operands: key.operands(),
    };
    let reply = ResponseFrameModel {
        response: m.key_event_response,
        subunit_type: avc::subunit_type::PANEL,
        subunit_id: 0,
        opcode: avc::opcode::PASS_THROUGH,
        operands: key.operands(),
    };
    lemma_key_byte(operation_id);
    lemma_panel();
    avc::law_command_frame_round_trip(frame);
    avc::law_pass_through_round_trip(key);
    let k = key_byte(operation_id, pressed);
    assert(frame.bytes() =~= seq![0x00u8, 0x48u8, 0x7Cu8, k, data.len() as u8] + data);
    assert(reply.bytes() =~= seq![
        m.key_event_response.code(),
        0x48u8,
        0x7Cu8,
        k,
        data.len() as u8,
    ] + data);
    lemma_received(m, label, frame.bytes());
    lemma_one_packet(m, label, reply.bytes());
    assert(seq![label << 4, 0x11u8, 0x0Eu8] + frame.bytes() =~= seq![
        label << 4,
        0x11u8,
        0x0Eu8,
        0x00u8,
        0x48u8,
        0x7Cu8,
        k,
        data.len() as u8,
    ] + data);
    assert(seq![(label << 4) | 2, 0x11u8, 0x0Eu8] + reply.bytes() =~= seq![
        (label << 4) | 2,
        0x11u8,
        0x0Eu8,
        m.key_event_response.code(),
        0x48u8,
        0x7Cu8,
        k,
        data.len() as u8,
    ] + data);
    reveal(state::on_command);
    reveal(state::key_command);
}

/// The answer to a key is reported to the controller with the code of the
/// answer, the key and whether it was pressed, and its label is free again.
#[verifier::rlimit(50)]
pub proof fn law_key_answer_is_reported(
    m: ConnectionModel,
    label: u8,
    code: ResponseCode,
    operation_id: u8,
    pressed: bool,
)
    requires
        takes(m, label),
        m.pending.contains_key(label),
        m.pending[label] == (Pending::PassThrough { operation_id, pressed }),
    ensures
        leads_to(
            m,
            seq![
                (label << 4) | 2,
                0x11u8,
                0x0Eu8,
                code.code(),
                0x48u8,
                0x7Cu8,
                key_byte(operation_id, pressed),
                0x00u8,
            ],
            ConnectionModel { pending: m.pending.remove(label), ..m },
            seq![],
            seq![AvrcpEventModel::PassThroughResponse { response: code, operation_id, pressed }],
        ),
{
    let k = key_byte(operation_id, pressed);
    let reply = ResponseFrameModel {
        response: code,
        subunit_type: avc::subunit_type::PANEL,
        subunit_id: 0,
        opcode: avc::opcode::PASS_THROUGH,
        operands: seq![k, 0x00u8],
    };
    lemma_panel();
    avc::law_response_frame_round_trip(reply);
    assert(reply.bytes() =~= seq![code.code(), 0x48u8, 0x7Cu8, k, 0x00u8]);
    lemma_received(m, label, reply.bytes());
    assert(seq![(label << 4) | 2, 0x11u8, 0x0Eu8] + reply.bytes() =~= seq![
        (label << 4) | 2,
        0x11u8,
        0x0Eu8,
        code.code(),
        0x48u8,
        0x7Cu8,
        k,
        0x00u8,
    ]);
    reveal(state::on_response);
    reveal(state::key_response);
}

// ---------------------------------------------------------------------------
// Commands at the target
// ---------------------------------------------------------------------------

/// The command types that PDUs come with: control, status and notify.
pub open spec fn carries_pdus(ctype: u8) -> bool {
    ctype == 0 || ctype == 1 || ctype == 3
}

/// A connection with what it held back of a response that a new answer to the
/// same command supersedes dropped.
pub open spec fn superseded(m: ConnectionModel, id: u8) -> ConnectionModel {
    if m.continuation is Some && m.continuation->0.pdu_id == id {
        ConnectionModel { continuation: None, ..m }
    } else {
        m
    }
}

/// A command packet makes a target do what the command is for.
#[verifier::rlimit(50)]
proof fn lemma_command(m: ConnectionModel, label: u8, ctype: u8, c: CommandModel)
    requires
        takes(m, label),
        carries_pdus(ctype),
        codec_laws::fits_command(c),
        c.parameters().len() <= 0xFFFF,
    ensures
        state::receive(m, command_packet(label, ctype, c.id(), c.parameters())) == (Step {
            state: state::run_command(m, label, c.id(), c).state,
            outgoing: state::run_command(m, label, c.id(), c).outgoing,
            events: state::run_command(m, label, c.id(), c).events,
        }),
{
    let kind = if ctype == 0 {
        CommandType::Control
    } else if ctype == 1 {
        CommandType::Status
    } else {
        CommandType::Notify
    };
    let frame = state::command_frame(kind, c);
    lemma_panel();
    assert(frame =~= seq![ctype, 0x48u8, 0x00u8, 0x00u8, 0x19u8, 0x58u8, c.id(), 0x00u8]
        + bytes::be16_bytes(c.parameters().len() as u16) + c.parameters());
    assert(seq![label << 4, 0x11u8, 0x0Eu8] + frame =~= command_packet(
        label,
        ctype,
        c.id(),
        c.parameters(),
    ));
    lemma_received(m, label, frame);
    protocol_laws::law_command_arrives(m, label, kind, c);
}

/// An answer that fits goes out in one packet.
#[verifier::rlimit(50)]
proof fn lemma_answer(
    m: ConnectionModel,
    label: u8,
    code: ResponseCode,
    id: u8,
    parameters: Seq<u8>,
)
    requires
        label < 16,
        fits(m, parameters.len() as int),
    ensures
        state::respond(m, label, code, id, parameters) == (
            superseded(m, id),
            seq![answer_packet(label, code.code(), id, parameters)],
        ),
{
    reveal(state::respond);
    lemma_panel();
    let pdu = assembler::pdu_packet(id, 0, parameters);
    let frame = ResponseFrameModel {
        response: code,
        subunit_type: avc::subunit_type::PANEL,
        subunit_id: 0,
        opcode: avc::opcode::VENDOR_DEPENDENT,
        operands: avc::vendor_operands(0x001958, pdu),
    };
    assert(frame.bytes() =~= seq![
        code.code(),
        0x48u8,
        0x00u8,
        0x00u8,
        0x19u8,
        0x58u8,
        id,
        0x00u8,
    ] + bytes::be16_bytes(parameters.len() as u16) + parameters);
    assert(frame.bytes().len() == 10 + parameters.len());
    lemma_one_packet(m, label, frame.bytes());
    assert(seq![(label << 4) | 2, 0x11u8, 0x0Eu8] + frame.bytes() =~= answer_packet(
        label,
        code.code(),
        id,
        parameters,
    ));
    assert(state::respond(m, label, code, id, parameters).0 =~= superseded(m, id));
}

/// A volume that a controller sets is taken in its low seven bits: it is kept,
/// accepted with the volume that was taken, and reported once.
#[verifier::rlimit(50)]
pub proof fn law_volume_is_taken(
    m: ConnectionModel,
    label: u8,
    ctype: u8,
    volume: u8,
)
    requires
        takes(m, label),
        carries_pdus(ctype),
        fits(m, 1),
    ensures
        leads_to(
            m,
            command_packet(label, ctype, 0x50, seq![volume]),
            ConnectionModel { volume: volume % 128, ..superseded(m, 0x50) },
            seq![answer_packet(label, 0x09, 0x50, seq![volume % 128])],
            seq![AvrcpEventModel::VolumeSet { volume: volume % 128 }],
        ),
{
    let c = CommandModel::SetAbsoluteVolume { volume };
    let louder = ConnectionModel { volume: volume % 128, ..m };
    lemma_command(m, label, ctype, c);
    reveal(state::run_command);
    lemma_answer(louder, label, ResponseCode::Accepted, 0x50, seq![volume % 128]);
    assert(c.parameters() =~= seq![volume]);
    assert(superseded(louder, 0x50) =~= (ConnectionModel {
        volume: volume % 128,
        ..superseded(m, 0x50)
    }));
}

/// A request for the supported events is answered with all of them, behind their
/// count.
#[verifier::rlimit(50)]
pub proof fn law_supported_events_are_answered(
    m: ConnectionModel,
    label: u8,
    ctype: u8,
)
    requires
        takes(m, label),
        carries_pdus(ctype),
        m.supported_events.len() <= 255,
        fits(m, 2 + m.supported_events.len() as int),
    ensures
        leads_to(
            m,
            command_packet(label, ctype, 0x10, seq![0x03u8]),
            superseded(m, 0x10),
            seq![
                answer_packet(
                    label,
                    0x0C,
                    0x10,
                    seq![0x03u8, m.supported_events.len() as u8] + m.supported_events,
                ),
            ],
            seq![],
        ),
{
    let c = CommandModel::GetCapabilities { capability_id: 3 };
    lemma_command(m, label, ctype, c);
    reveal(state::run_command);
    lemma_answer(
        m,
        label,
        ResponseCode::ImplementedOrStable,
        0x10,
        seq![0x03u8, m.supported_events.len() as u8] + m.supported_events,
    );
    assert(c.parameters() =~= seq![0x03u8]);
    assert(CapabilityModel::EventIds(m.supported_events).bytes() =~= seq![
        0x03u8,
        m.supported_events.len() as u8,
    ] + m.supported_events);
}

/// A request for the companies is answered with each in three bytes, behind their
/// count.
#[verifier::rlimit(50)]
pub proof fn law_company_is_answered(
    m: ConnectionModel,
    label: u8,
    ctype: u8,
    company: u32,
)
    requires
        takes(m, label),
        carries_pdus(ctype),
        m.supported_company_ids =~= seq![company],
        fits(m, 5),
    ensures
        leads_to(
            m,
            command_packet(label, ctype, 0x10, seq![0x02u8]),
            superseded(m, 0x10),
            seq![
                answer_packet(
                    label,
                    0x0C,
                    0x10,
                    seq![0x02u8, 0x01u8] + bytes::be24_bytes(company),
                ),
            ],
            seq![],
        ),
{
    let c = CommandModel::GetCapabilities { capability_id: 2 };
    lemma_command(m, label, ctype, c);
    reveal(state::run_command);
    lemma_answer(
        m,
        label,
        ResponseCode::ImplementedOrStable,
        0x10,
        seq![0x02u8, 0x01u8] + bytes::be24_bytes(company),
    );
    assert(c.parameters() =~= seq![0x02u8]);
    let ids = m.supported_company_ids;
    assert(ids.drop_last() =~= seq![]);
    assert(wire::u24s_bytes(ids.drop_last()) =~= seq![]);
    assert(CapabilityModel::CompanyIds(ids).bytes() =~= seq![0x02u8, 0x01u8] + bytes::be24_bytes(
        company,
    ));
}

/// A request for another capability is rejected as an invalid parameter.
#[verifier::rlimit(50)]
pub proof fn law_other_capabilities_are_rejected(
    m: ConnectionModel,
    label: u8,
    ctype: u8,
    capability: u8,
)
    requires
        takes(m, label),
        carries_pdus(ctype),
        capability != 2,
        capability != 3,
        fits(m, 1),
    ensures
        leads_to(
            m,
            command_packet(label, ctype, 0x10, seq![capability]),
            superseded(m, 0x10),
            seq![answer_packet(label, 0x0A, 0x10, seq![0x01u8])],
            seq![],
        ),
{
    let c = CommandModel::GetCapabilities { capability_id: capability };
    lemma_command(m, label, ctype, c);
    reveal(state::run_command);
    lemma_answer(m, label, ResponseCode::Rejected, 0x10, seq![0x01u8]);
    assert(c.parameters() =~= seq![capability]);
}

/// The play status is answered with the length of the track, the position in it
/// and the status.
#[verifier::rlimit(50)]
pub proof fn law_play_status_is_answered(
    m: ConnectionModel,
    label: u8,
    ctype: u8,
)
    requires
        takes(m, label),
        carries_pdus(ctype),
        fits(m, 9),
    ensures
        leads_to(
            m,
            command_packet(label, ctype, 0x30, seq![]),
            superseded(m, 0x30),
            seq![answer_packet(label, 0x0C, 0x30, bytes::be32_bytes(m.song_length)
                + bytes::be32_bytes(m.song_position) + seq![m.playback_status])],
            seq![],
        ),
{
    let c = CommandModel::GetPlayStatus;
    lemma_command(m, label, ctype, c);
    reveal(state::run_command);
    lemma_answer(m, label, ResponseCode::ImplementedOrStable, 0x30, bytes::be32_bytes(m.song_length)
                + bytes::be32_bytes(m.song_position) + seq![m.playback_status]);
    assert(c.parameters() =~= seq![]);
}

/// A request for the settings is answered with the attribute of each that is
/// supported, behind their count.
#[verifier::rlimit(50)]
pub proof fn law_setting_attributes_are_answered(
    m: ConnectionModel,
    label: u8,
    ctype: u8,
)
    requires
        takes(m, label),
        carries_pdus(ctype),
        m.supported_player_app_settings.len() <= 255,
        fits(m, 1 + m.supported_player_app_settings.len() as int),
    ensures
        leads_to(
            m,
            command_packet(label, ctype, 0x11, seq![]),
            superseded(m, 0x11),
            seq![
                answer_packet(
                    label,
                    0x0C,
                    0x11,
                    seq![m.supported_player_app_settings.len() as u8]
                        + m.supported_player_app_settings.map_values(|s: (u8, Seq<u8>)| s.0),
                ),
            ],
            seq![],
        ),
{
    let c = CommandModel::ListPlayerApplicationSettingAttributes;
    lemma_command(m, label, ctype, c);
    reveal(state::run_command);
    lemma_answer(
        m,
        label,
        ResponseCode::ImplementedOrStable,
        0x11,
        seq![m.supported_player_app_settings.len() as u8]
            + m.supported_player_app_settings.map_values(|s: (u8, Seq<u8>)| s.0),
    );
    assert(c.parameters() =~= seq![]);
    assert(state::setting_ids(m.supported_player_app_settings)
        =~= m.supported_player_app_settings.map_values(|s: (u8, Seq<u8>)| s.0));
}

/// The values of the first supported setting of an attribute are its values.
proof fn lemma_setting_values(supported: Seq<(u8, Seq<u8>)>, i: int)
    requires
        0 <= i < supported.len(),
        forall|j: int| 0 <= j < i ==> (#[trigger] supported[j]).0 != supported[i].0,
    ensures
        state::setting_values(supported, supported[i].0) == supported[i].1,
    decreases i,
{
    if i > 0 {
        assert(supported[0].0 != supported[i].0);
        let rest = supported.skip(1);
        assert forall|j: int| 0 <= j < i - 1 implies (#[trigger] rest[j]).0 != rest[i - 1].0 by {
            assert(rest[j] == supported[j + 1]);
        }
        lemma_setting_values(rest, i - 1);
    }
}

/// A request for the values of a supported setting is answered with those of that
/// setting, behind their count.
#[verifier::rlimit(50)]
pub proof fn law_setting_values_are_answered(
    m: ConnectionModel,
    label: u8,
    ctype: u8,
    i: int,
)
    requires
        takes(m, label),
        carries_pdus(ctype),
        0 <= i < m.supported_player_app_settings.len(),
        forall|j: int|
            0 <= j < i ==> (#[trigger] m.supported_player_app_settings[j]).0
                != m.supported_player_app_settings[i].0,
        m.supported_player_app_settings[i].1.len() <= 255,
        fits(m, 1 + m.supported_player_app_settings[i].1.len() as int),
    ensures
        leads_to(
            m,
            command_packet(label, ctype, 0x12, seq![m.supported_player_app_settings[i].0]),
            superseded(m, 0x12),
            seq![
                answer_packet(
                    label,
                    0x0C,
                    0x12,
                    seq![m.supported_player_app_settings[i].1.len() as u8]
                        + m.supported_player_app_settings[i].1,
                ),
            ],
            seq![],
        ),
{
    let c = CommandModel::ListPlayerApplicationSettingValues {
        attribute_id: m.supported_player_app_settings[i].0,
    };
    lemma_command(m, label, ctype, c);
    reveal(state::run_command);
    lemma_answer(
        m,
        label,
        ResponseCode::ImplementedOrStable,
        0x12,
        seq![m.supported_player_app_settings[i].1.len() as u8]
            + m.supported_player_app_settings[i].1,
    );
    assert(c.parameters() =~= seq![m.supported_player_app_settings[i].0]);
    lemma_setting_values(m.supported_player_app_settings, i);
}

/// A request to play an item is answered as completed and reported once, with the
/// scope, the item and the counter that it names.
#[verifier::rlimit(50)]
pub proof fn law_play_item_is_requested(
    m: ConnectionModel,
    label: u8,
    ctype: u8,
    scope: u8,
    uid: u64,
    uid_counter: u16,
)
    requires
        takes(m, label),
        carries_pdus(ctype),
        fits(m, 1),
    ensures
        leads_to(
            m,
            command_packet(label, ctype, 0x74, seq![scope]
                + bytes::be64_bytes(uid) + bytes::be16_bytes(uid_counter)),
            superseded(m, 0x74),
            seq![answer_packet(label, 0x0C, 0x74, seq![0x04u8])],
            seq![AvrcpEventModel::PlayItemRequested { scope, uid, uid_counter }],
        ),
{
    let c = CommandModel::PlayItem { scope, uid, uid_counter };
    lemma_command(m, label, ctype, c);
    reveal(state::run_command);
    lemma_answer(m, label, ResponseCode::ImplementedOrStable, 0x74, seq![0x04u8]);
}

/// A registration for an event that is not supported is answered as not
/// implemented, and nobody is registered.
#[verifier::rlimit(50)]
pub proof fn law_unsupported_event_is_declined(
    m: ConnectionModel,
    label: u8,
    ctype: u8,
    event: u8,
    interval: u32,
)
    requires
        takes(m, label),
        carries_pdus(ctype),
        !m.supported_events.contains(event),
        fits(m, 0),
    ensures
        leads_to(
            m,
            command_packet(label, ctype, 0x31, seq![event]
                + bytes::be32_bytes(interval)),
            superseded(m, 0x31),
            seq![answer_packet(label, 0x08, 0x31, seq![])],
            seq![],
        ),
{
    let c = CommandModel::RegisterNotification { event_id: event, playback_interval: interval };
    lemma_command(m, label, ctype, c);
    reveal(state::run_command);
    lemma_answer(m, label, ResponseCode::NotImplemented, 0x31, seq![]);
    reveal(state::register);
}

/// How things stand, as the interim answer to a registration says it: the
/// status, the track, the settings, the player, its counter or the volume, by
/// the number of the event.
pub open spec fn standing(m: ConnectionModel, event: u8) -> Option<Seq<u8>> {
    if event == 0x01 {
        Some(seq![m.playback_status])
    } else if event == 0x02 {
        Some(bytes::be64_bytes(m.current_track_uid))
    } else if event == 0x08 {
        Some(items::setting_list_bytes(m.player_app_settings))
    } else if event == 0x09 || event == 0x0A {
        Some(seq![])
    } else if event == 0x0B {
        Some(bytes::be16_bytes(m.addressed_player_id) + bytes::be16_bytes(m.uid_counter))
    } else if event == 0x0C {
        Some(bytes::be16_bytes(m.uid_counter))
    } else if event == 0x0D {
        Some(seq![m.volume])
    } else {
        None
    }
}

/// A registration for a supported event is answered at once with how things
/// stand, its label is kept for the event, and it is reported once.
#[verifier::rlimit(50)]
pub proof fn law_registration_is_answered(
    m: ConnectionModel,
    label: u8,
    ctype: u8,
    event: u8,
    interval: u32,
)
    requires
        takes(m, label),
        carries_pdus(ctype),
        m.supported_events.contains(event),
        standing(m, event) is Some,
        fits(m, 1 + standing(m, event)->0.len() as int),
    ensures
        leads_to(
            m,
            command_packet(label, ctype, 0x31, seq![event] + bytes::be32_bytes(interval)),
            ConnectionModel {
                notification_listeners: m.notification_listeners.insert(event, label),
                ..superseded(m, 0x31)
            },
            seq![answer_packet(label, 0x0F, 0x31, seq![event] + standing(m, event)->0)],
            seq![AvrcpEventModel::NotificationRegistered { event_id: event }],
        ),
{
    let c = CommandModel::RegisterNotification { event_id: event, playback_interval: interval };
    lemma_command(m, label, ctype, c);
    reveal(state::run_command);
    reveal(state::register);
    lemma_answer(
        m,
        label,
        ResponseCode::Interim,
        0x31,
        seq![event] + standing(m, event)->0,
    );
    assert(state::snapshot(m, event) is Some);
    assert(state::snapshot(m, event)->0.bytes() =~= seq![event] + standing(m, event)->0);
}

/// A change of an event goes out on the label that registered for it, which is
/// then forgotten; without a registration nothing goes out.
#[verifier::rlimit(50)]
pub proof fn law_change_is_sent_to_the_listener(m: ConnectionModel, e: EventModel, label: u8)
    requires
        label < 16,
        fits(m, e.bytes().len() as int),
        m.notification_listeners.contains_key(e.id()) ==> m.notification_listeners[e.id()]
            == label,
    ensures
        m.notification_listeners.contains_key(e.id()) ==> state::notify(m, e) == (
            (ConnectionModel {
                notification_listeners: m.notification_listeners.remove(e.id()),
                ..superseded(m, 0x31)
            }),
            seq![answer_packet(label, 0x0D, 0x31, e.bytes())],
        ),
        !m.notification_listeners.contains_key(e.id()) ==> state::notify(m, e) == (
            m,
            Seq::<Seq<u8>>::empty(),
        ),
{
    let without = ConnectionModel {
        notification_listeners: m.notification_listeners.remove(e.id()),
        ..m
    };
    lemma_answer(without, label, ResponseCode::Changed, 0x31, e.bytes());
}

/// The bytes of an event start with its number, and go on with what changed.
#[verifier::rlimit(50)]
pub proof fn law_event_bytes(
    status: u8,
    uid: u64,
    position: u32,
    player_id: u16,
    uid_counter: u16,
    volume: u8,
    setting: ApplicationSetting,
)
    ensures
        (EventModel::PlaybackStatusChanged { play_status: status }).bytes() == seq![0x01u8, status],
        (EventModel::TrackChanged { uid }).bytes() == seq![0x02u8] + bytes::be64_bytes(uid),
        (EventModel::PlaybackPosChanged { playback_position: position }).bytes() == seq![0x05u8]
            + bytes::be32_bytes(position),
        (EventModel::PlayerApplicationSettingChanged { settings: seq![setting] }).bytes() == seq![
            0x08u8,
            0x01u8,
            setting.attribute_id,
            setting.value_id,
        ],
        EventModel::NowPlayingContentChanged.bytes() == seq![0x09u8],
        EventModel::AvailablePlayersChanged.bytes() == seq![0x0Au8],
        (EventModel::AddressedPlayerChanged { player_id, uid_counter }).bytes() == seq![0x0Bu8]
            + bytes::be16_bytes(player_id) + bytes::be16_bytes(uid_counter),
        (EventModel::UidsChanged { uid_counter }).bytes() == seq![0x0Cu8] + bytes::be16_bytes(
            uid_counter,
        ),
        (EventModel::VolumeChanged { volume }).bytes() == seq![0x0Du8, volume],
{
    let settings = seq![setting];
    assert(settings.drop_last() =~= seq![]);
    assert(items::settings_bytes(settings.drop_last()) =~= seq![]);
    assert(EventModel::PlayerApplicationSettingChanged { settings }.bytes() =~= seq![
        0x08u8,
        0x01u8,
        setting.attribute_id,
        setting.value_id,
    ]);
    assert(EventModel::PlaybackStatusChanged { play_status: status }.bytes() =~= seq![
        0x01u8,
        status,
    ]);
    assert(EventModel::NowPlayingContentChanged.bytes() =~= seq![0x09u8]);
    assert(EventModel::AvailablePlayersChanged.bytes() =~= seq![0x0Au8]);
    assert(EventModel::AddressedPlayerChanged { player_id, uid_counter }.bytes() =~= seq![0x0Bu8]
        + bytes::be16_bytes(player_id) + bytes::be16_bytes(uid_counter));
    assert(EventModel::VolumeChanged { volume }.bytes() =~= seq![0x0Du8, volume]);
}

/// The first setting of an attribute stands where it stands.
proof fn lemma_setting_index(settings: Seq<ApplicationSetting>, i: int)
    requires
        0 <= i < settings.len(),
        forall|j: int|
            0 <= j < i ==> (#[trigger] settings[j]).attribute_id != settings[i].attribute_id,
    ensures
        state::setting_index(settings, settings[i].attribute_id) == Some(i),
    decreases i,
{
    if i > 0 {
        assert(settings[0].attribute_id != settings[i].attribute_id);
        let rest = settings.skip(1);
        assert forall|j: int| 0 <= j < i - 1 implies (#[trigger] rest[j]).attribute_id
            != rest[i - 1].attribute_id by {
            assert(rest[j] == settings[j + 1]);
        }
        lemma_setting_index(rest, i - 1);
    }
}

/// An attribute that is not set stands nowhere.
proof fn lemma_no_setting_index(settings: Seq<ApplicationSetting>, id: u8)
    requires
        forall|j: int| 0 <= j < settings.len() ==> (#[trigger] settings[j]).attribute_id != id,
    ensures
        state::setting_index(settings, id) is None,
    decreases settings.len(),
{
    if settings.len() > 0 {
        assert(settings[0].attribute_id != id);
        let rest = settings.skip(1);
        assert forall|j: int| 0 <= j < rest.len() implies (#[trigger] rest[j]).attribute_id
            != id by {
            assert(rest[j] == settings[j + 1]);
        }
        lemma_no_setting_index(rest, id);
    }
}

/// A setting that is set replaces the one of its attribute, or comes behind the
/// others where there is none. It is answered as done and reported once.
#[verifier::rlimit(50)]
pub proof fn law_setting_is_taken(
    m: ConnectionModel,
    label: u8,
    ctype: u8,
    setting: ApplicationSetting,
    i: int,
)
    requires
        takes(m, label),
        carries_pdus(ctype),
        fits(m, 0),
        0 <= i <= m.player_app_settings.len(),
        forall|j: int|
            0 <= j < i ==> (#[trigger] m.player_app_settings[j]).attribute_id
                != setting.attribute_id,
        i < m.player_app_settings.len() ==> m.player_app_settings[i].attribute_id
            == setting.attribute_id,
    ensures
        leads_to(
            m,
            command_packet(
                label,
                ctype,
                0x14,
                seq![0x01u8, setting.attribute_id, setting.value_id],
            ),
            ConnectionModel {
                player_app_settings: if i < m.player_app_settings.len() {
                    m.player_app_settings.update(i, setting)
                } else {
                    m.player_app_settings.push(setting)
                },
                ..superseded(m, 0x14)
            },
            seq![answer_packet(label, 0x0C, 0x14, seq![])],
            seq![AvrcpEventModel::PlayerAppSettingsSet { settings: seq![setting] }],
        ),
{
    let settings = seq![setting];
    let c = CommandModel::SetPlayerApplicationSettingValue { settings };
    assert(settings.drop_last() =~= seq![]);
    assert(items::settings_bytes(settings.drop_last()) =~= seq![]);
    assert(c.parameters() =~= seq![0x01u8, setting.attribute_id, setting.value_id]);
    lemma_command(m, label, ctype, c);
    reveal(state::run_command);
    if i < m.player_app_settings.len() {
        lemma_setting_index(m.player_app_settings, i);
    } else {
        lemma_no_setting_index(m.player_app_settings, setting.attribute_id);
    }
    let after = state::with_settings(m.player_app_settings, settings);
    assert(state::with_settings(m.player_app_settings, settings.drop_last())
        == m.player_app_settings);
    assert(after == state::with_setting(m.player_app_settings, setting));
    let set = ConnectionModel { player_app_settings: after, ..m };
    lemma_answer(set, label, ResponseCode::ImplementedOrStable, 0x14, seq![]);
    assert(superseded(set, 0x14) =~= (ConnectionModel {
        player_app_settings: after,
        ..superseded(m, 0x14)
    }));
}

/// A setting that is asked for is answered with its attribute and its value;
/// without a setting of the attribute the answer says that it is not
/// implemented.
#[verifier::rlimit(50)]
pub proof fn law_setting_is_answered(
    m: ConnectionModel,
    label: u8,
    ctype: u8,
    attribute: u8,
    i: int,
)
    requires
        takes(m, label),
        carries_pdus(ctype),
        fits(m, 3),
        0 <= i <= m.player_app_settings.len(),
        forall|j: int|
            0 <= j < i ==> (#[trigger] m.player_app_settings[j]).attribute_id != attribute,
        i < m.player_app_settings.len() ==> m.player_app_settings[i].attribute_id == attribute,
    ensures
        leads_to(
            m,
            command_packet(label, ctype, 0x13, seq![0x01u8, attribute]),
            superseded(m, 0x13),
            if i < m.player_app_settings.len() {
                seq![
                    answer_packet(
                        label,
                        0x0C,
                        0x13,
                        seq![0x01u8, attribute, m.player_app_settings[i].value_id],
                    ),
                ]
            } else {
                seq![answer_packet(label, 0x08, 0x13, seq![])]
            },
            seq![],
        ),
{
    let ids = seq![attribute];
    let c = CommandModel::GetCurrentPlayerApplicationSettingValue { attribute_ids: ids };
    assert(c.parameters() =~= seq![0x01u8, attribute]);
    lemma_command(m, label, ctype, c);
    reveal(state::run_command);
    assert(ids.drop_last() =~= seq![]);
    assert(state::current_settings(m.player_app_settings, ids.drop_last()) == Some(
        Seq::<ApplicationSetting>::empty(),
    ));
    if i < m.player_app_settings.len() {
        let setting = m.player_app_settings[i];
        lemma_setting_index(m.player_app_settings, i);
        let settings = seq![setting];
        assert(Seq::empty().push(setting) =~= settings);
        assert(settings.drop_last() =~= seq![]);
        assert(items::settings_bytes(settings.drop_last()) =~= seq![]);
        let answer = seq![0x01u8, attribute, setting.value_id];
        assert(items::setting_list_bytes(settings) =~= answer);
        lemma_answer(m, label, ResponseCode::ImplementedOrStable, 0x13, answer);
    } else {
        lemma_no_setting_index(m.player_app_settings, attribute);
        lemma_answer(m, label, ResponseCode::NotImplemented, 0x13, seq![]);
    }
}

/// Whether a target does nothing for a command.
pub open spec fn is_unserved(c: CommandModel) -> bool {
    ||| c is GetPlayerApplicationSettingAttributeText
    ||| c is GetPlayerApplicationSettingValueText
    ||| c is InformDisplayableCharacterSet
    ||| c is InformBatteryStatusOfCt
    ||| c is SetAddressedPlayer
    ||| c is SetBrowsedPlayer
    ||| c is GetFolderItems
    ||| c is ChangePath
    ||| c is GetItemAttributes
    ||| c is GetTotalNumberOfItems
    ||| c is Search
    ||| c is AddToNowPlaying
}

/// A command that a target does not serve is rejected as an invalid parameter,
/// and changes nothing.
#[verifier::rlimit(50)]
pub proof fn law_unserved_command_is_rejected(
    m: ConnectionModel,
    label: u8,
    ctype: u8,
    c: CommandModel,
)
    requires
        takes(m, label),
        carries_pdus(ctype),
        is_unserved(c),
        codec_laws::fits_command(c),
        c.parameters().len() <= 0xFFFF,
        fits(m, 1),
    ensures
        leads_to(
            m,
            command_packet(label, ctype, c.id(), c.parameters()),
            superseded(m, c.id()),
            seq![answer_packet(label, 0x0A, c.id(), seq![0x01u8])],
            seq![],
        ),
{
    lemma_command(m, label, ctype, c);
    reveal(state::run_command);
    lemma_answer(m, label, ResponseCode::Rejected, c.id(), seq![0x01u8]);
}

/// The rest of a response that is held back is dropped when the controller
/// gives it up, and that is accepted.
#[verifier::rlimit(50)]
pub proof fn law_abort_drops_the_rest(m: ConnectionModel, label: u8, ctype: u8, id: u8)
    requires
        takes(m, label),
        carries_pdus(ctype),
        m.continuation is Some,
        m.continuation->0.pdu_id == id,
        fits(m, 0),
    ensures
        leads_to(
            m,
            command_packet(label, ctype, 0x41, seq![id]),
            ConnectionModel { continuation: None, ..m },
            seq![answer_packet(label, 0x09, 0x41, seq![])],
            seq![],
        ),
{
    let c = CommandModel::AbortContinuingResponse { continuing_pdu_id: id };
    assert(c.parameters() =~= seq![id]);
    lemma_command(m, label, ctype, c);
    reveal(state::run_command);
    let without = ConnectionModel { continuation: None, ..m };
    lemma_answer(without, label, ResponseCode::Accepted, 0x41, seq![]);
}

/// A new connection has no volume, no track and nothing to play, and accepts
/// keys.
#[verifier::rlimit(50)]
pub proof fn law_new_connection(peer_mtu: u16)
    ensures
        ({
            let m = protocol::new_connection(peer_mtu);
            &&& m.volume == 0
            &&& m.playback_status == 0
            &&& m.song_length == 0xFFFF_FFFF
            &&& m.song_position == 0xFFFF_FFFF
            &&& m.current_track_uid == 0xFFFF_FFFF_FFFF_FFFF
            &&& m.uid_counter == 0
            &&& m.addressed_player_id == 0
            &&& m.supported_company_ids == seq![0x001958u32]
            &&& m.supported_events.len() == 0
            &&& m.element_attributes.len() == 0
            &&& m.player_app_settings.len() == 0
            &&& m.supported_player_app_settings.len() == 0
            &&& m.key_event_response == ResponseCode::Accepted
            &&& m.peer_mtu == peer_mtu
            &&& m.avctp.peer_mtu == peer_mtu
            &&& forall|label: u8| label < 16 ==> #[trigger] takes(m, label)
        }),
{
    let m = protocol::new_connection(peer_mtu);
    assert(m.avctp.registered_pids[0] == 0x110E);
}

/// The attributes that are served for a list of IDs are those with one of the
/// IDs, in the order of the track; for an empty list, all of them.
#[verifier::rlimit(50)]
pub proof fn law_attributes_are_selected(list: Seq<MediaAttributeModel>, ids: Seq<u32>)
    ensures
        ids.len() == 0 ==> state::selected_attributes(list, ids) == list,
        ids.len() > 0 ==> state::selected_attributes(list, ids) == list.filter(
            |a: MediaAttributeModel| ids.contains(a.attribute_id),
        ),
    decreases list.len(),
{
    reveal(Seq::filter);
    if ids.len() > 0 && list.len() > 0 {
        law_attributes_are_selected(list.drop_last(), ids);
    } else if ids.len() > 0 {
        assert(list.filter(|a: MediaAttributeModel| ids.contains(a.attribute_id)) =~= list);
    }
}

// ---------------------------------------------------------------------------
// Answers at the controller
// ---------------------------------------------------------------------------

/// An answer packet is reported as the events of its code.
#[verifier::rlimit(50)]
proof fn lemma_heard(
    m: ConnectionModel,
    label: u8,
    code: ResponseCode,
    id: u8,
    parameters: Seq<u8>,
    attribute_id: Option<u8>,
)
    requires
        takes(m, label),
        parameters.len() <= 0xFFFF,
        m.pending.contains_key(label),
        m.pending[label] == (Pending::Vendor { pdu_id: id, attribute_id }),
    ensures
        state::receive(m, answer_packet(label, code.code(), id, parameters)) == (Step {
            state: if code == ResponseCode::Interim {
                m
            } else {
                ConnectionModel { pending: m.pending.remove(label), ..m }
            },
            outgoing: seq![],
            events: state::response_events(code, id, parameters, attribute_id),
        }),
{
    reveal(state::on_response);
    reveal(state::vendor_response);
    reveal(state::dispatch_response);
    let packet = assembler::pdu_packet(id, 0, parameters);
    let frame = ResponseFrameModel {
        response: code,
        subunit_type: avc::subunit_type::PANEL,
        subunit_id: 0,
        opcode: avc::opcode::VENDOR_DEPENDENT,
        operands: avc::vendor_operands(0x001958, packet),
    };
    lemma_panel();
    assert(frame.bytes() =~= seq![
        code.code(),
        0x48u8,
        0x00u8,
        0x00u8,
        0x19u8,
        0x58u8,
        id,
        0x00u8,
    ] + bytes::be16_bytes(parameters.len() as u16) + parameters);
    assert(seq![(label << 4) | 2, 0x11u8, 0x0Eu8] + frame.bytes() =~= answer_packet(
        label,
        code.code(),
        id,
        parameters,
    ));
    lemma_received(m, label, frame.bytes());
    avc::law_response_frame_round_trip(frame);
    avc::law_vendor_dependent_round_trip(0x001958, packet);
    protocol_laws::lemma_single_packet(id, parameters);
    assert(state::keep_assembly(
        m.response_assemblers,
        label,
        code,
        assembler::empty_assembler(),
    ) =~= m.response_assemblers);
}

/// A rejection is reported with the command that was rejected and the status
/// that says why, and frees the label.
#[verifier::rlimit(50)]
pub proof fn law_rejection_is_reported(
    m: ConnectionModel,
    label: u8,
    id: u8,
    attribute_id: Option<u8>,
    status: u8,
)
    requires
        takes(m, label),
        m.pending.contains_key(label),
        m.pending[label] == (Pending::Vendor { pdu_id: id, attribute_id }),
    ensures
        leads_to(
            m,
            answer_packet(label, 0x0A, id, seq![status]),
            ConnectionModel { pending: m.pending.remove(label), ..m },
            seq![],
            seq![AvrcpEventModel::CommandRejected { pdu_id: id, status_code: status }],
        ),
{
    lemma_heard(m, label, ResponseCode::Rejected, id, seq![status], attribute_id);
    reveal(state::response_events);
}

/// An answer that says that a command is not implemented is reported with the
/// command, and frees the label.
#[verifier::rlimit(50)]
pub proof fn law_missing_command_is_reported(
    m: ConnectionModel,
    label: u8,
    id: u8,
    attribute_id: Option<u8>,
)
    requires
        takes(m, label),
        m.pending.contains_key(label),
        m.pending[label] == (Pending::Vendor { pdu_id: id, attribute_id }),
    ensures
        leads_to(
            m,
            answer_packet(label, 0x08, id, seq![]),
            ConnectionModel { pending: m.pending.remove(label), ..m },
            seq![],
            seq![AvrcpEventModel::CommandNotImplemented { pdu_id: id }],
        ),
{
    lemma_heard(m, label, ResponseCode::NotImplemented, id, seq![], attribute_id);
    reveal(state::response_events);
}

/// A notification is reported as interim while its label stays in flight, and
/// as a change when it frees the label.
#[verifier::rlimit(50)]
pub proof fn law_notification_is_reported(
    m: ConnectionModel,
    label: u8,
    attribute_id: Option<u8>,
    event: EventModel,
)
    requires
        takes(m, label),
        m.pending.contains_key(label),
        m.pending[label] == (Pending::Vendor { pdu_id: 0x31, attribute_id }),
        codec_laws::fits_event(event),
        event.bytes().len() <= 0xFFFF,
    ensures
        leads_to(
            m,
            answer_packet(label, 0x0F, 0x31, event.bytes()),
            m,
            seq![],
            seq![AvrcpEventModel::NotificationReceived { event, interim: true }],
        ),
        leads_to(
            m,
            answer_packet(label, 0x0D, 0x31, event.bytes()),
            ConnectionModel { pending: m.pending.remove(label), ..m },
            seq![],
            seq![AvrcpEventModel::NotificationReceived { event, interim: false }],
        ),
{
    lemma_heard(m, label, ResponseCode::Interim, 0x31, event.bytes(), attribute_id);
    lemma_heard(m, label, ResponseCode::Changed, 0x31, event.bytes(), attribute_id);
    reveal(state::response_events);
    codec_laws::law_response_round_trip(ResponseModel::RegisterNotification { event });
}

/// The events of a target are reported as it lists them.
#[verifier::rlimit(50)]
pub proof fn law_supported_events_are_reported(
    m: ConnectionModel,
    label: u8,
    attribute_id: Option<u8>,
    events: Seq<u8>,
)
    requires
        takes(m, label),
        m.pending.contains_key(label),
        m.pending[label] == (Pending::Vendor { pdu_id: 0x10, attribute_id }),
        events.len() <= 255,
    ensures
        leads_to(
            m,
            answer_packet(label, 0x0C, 0x10, seq![0x03u8, events.len() as u8] + events),
            ConnectionModel { pending: m.pending.remove(label), ..m },
            seq![],
            seq![AvrcpEventModel::SupportedEventsReceived(events)],
        ),
{
    let r = ResponseModel::GetCapabilities { capabilities: CapabilityModel::EventIds(events) };
    let parameters = seq![0x03u8, events.len() as u8] + events;
    assert(r.parameters() =~= parameters);
    lemma_heard(m, label, ResponseCode::ImplementedOrStable, 0x10, parameters, attribute_id);
    reveal(state::response_events);
    codec_laws::law_response_round_trip(r);
}

/// The play status is reported with the length, the position and the status that
/// the target answers.
#[verifier::rlimit(50)]
pub proof fn law_play_status_is_reported(
    m: ConnectionModel,
    label: u8,
    attribute_id: Option<u8>,
    song_length: u32,
    song_position: u32,
    play_status: u8,
)
    requires
        takes(m, label),
        m.pending.contains_key(label),
        m.pending[label] == (Pending::Vendor { pdu_id: 0x30, attribute_id }),
    ensures
        leads_to(
            m,
            answer_packet(label, 0x0C, 0x30, bytes::be32_bytes(song_length) + bytes::be32_bytes(
                song_position,
            ) + seq![play_status]),
            ConnectionModel { pending: m.pending.remove(label), ..m },
            seq![],
            seq![
                AvrcpEventModel::PlayStatusReceived { song_length, song_position, play_status },
            ],
        ),
{
    let r = ResponseModel::GetPlayStatus { song_length, song_position, play_status };
    let parameters = bytes::be32_bytes(song_length) + bytes::be32_bytes(
                song_position,
            ) + seq![play_status];
    assert(r.parameters() =~= parameters);
    lemma_heard(m, label, ResponseCode::ImplementedOrStable, 0x30, parameters, attribute_id);
    reveal(state::response_events);
    codec_laws::law_response_round_trip(r);
}

/// The attributes of the settings are reported as the target lists them.
#[verifier::rlimit(50)]
pub proof fn law_setting_attributes_are_reported(
    m: ConnectionModel,
    label: u8,
    attribute_id: Option<u8>,
    ids: Seq<u8>,
)
    requires
        takes(m, label),
        m.pending.contains_key(label),
        m.pending[label] == (Pending::Vendor { pdu_id: 0x11, attribute_id }),
        ids.len() <= 255,
    ensures
        leads_to(
            m,
            answer_packet(label, 0x0C, 0x11, seq![ids.len() as u8] + ids),
            ConnectionModel { pending: m.pending.remove(label), ..m },
            seq![],
            seq![AvrcpEventModel::AppSettingAttributesReceived(ids)],
        ),
{
    let r = ResponseModel::ListPlayerApplicationSettingAttributes { attribute_ids: ids };
    let parameters = seq![ids.len() as u8] + ids;
    assert(r.parameters() =~= parameters);
    lemma_heard(m, label, ResponseCode::ImplementedOrStable, 0x11, parameters, attribute_id);
    reveal(state::response_events);
    codec_laws::law_response_round_trip(r);
}

/// The values of a setting are reported with the attribute that was asked for.
#[verifier::rlimit(50)]
pub proof fn law_setting_values_are_reported(
    m: ConnectionModel,
    label: u8,
    attribute_id: Option<u8>,
    ids: Seq<u8>,
    asked: u8,
)
    requires
        takes(m, label),
        m.pending.contains_key(label),
        m.pending[label] == (Pending::Vendor { pdu_id: 0x12, attribute_id }),
        ids.len() <= 255,
        attribute_id == Some(asked),
    ensures
        leads_to(
            m,
            answer_packet(label, 0x0C, 0x12, seq![ids.len() as u8] + ids),
            ConnectionModel { pending: m.pending.remove(label), ..m },
            seq![],
            seq![
                AvrcpEventModel::AppSettingValuesReceived { attribute_id: asked, value_ids: ids },
            ],
        ),
{
    let r = ResponseModel::ListPlayerApplicationSettingValues { value_ids: ids };
    let parameters = seq![ids.len() as u8] + ids;
    assert(r.parameters() =~= parameters);
    lemma_heard(m, label, ResponseCode::ImplementedOrStable, 0x12, parameters, attribute_id);
    reveal(state::response_events);
    codec_laws::law_response_round_trip(r);
}

/// A setting is reported with its attribute and its value.
#[verifier::rlimit(50)]
pub proof fn law_current_setting_is_reported(
    m: ConnectionModel,
    label: u8,
    attribute_id: Option<u8>,
    setting: ApplicationSetting,
)
    requires
        takes(m, label),
        m.pending.contains_key(label),
        m.pending[label] == (Pending::Vendor { pdu_id: 0x13, attribute_id }),
    ensures
        leads_to(
            m,
            answer_packet(label, 0x0C, 0x13, seq![1u8, setting.attribute_id, setting.value_id]),
            ConnectionModel { pending: m.pending.remove(label), ..m },
            seq![],
            seq![AvrcpEventModel::CurrentAppSettingsReceived(seq![setting])],
        ),
{
    let r = ResponseModel::GetCurrentPlayerApplicationSettingValue { settings: seq![setting] };
    let parameters = seq![1u8, setting.attribute_id, setting.value_id];
    assert(seq![setting].drop_last() =~= seq![]);
    assert(items::settings_bytes(seq![setting].drop_last()) =~= seq![]);
    assert(items::setting_list_bytes(seq![setting]) =~= parameters);
    assert(r.parameters() =~= parameters);
    lemma_heard(m, label, ResponseCode::ImplementedOrStable, 0x13, parameters, attribute_id);
    reveal(state::response_events);
    codec_laws::law_response_round_trip(r);
}

/// The acceptance of settings is reported.
#[verifier::rlimit(50)]
pub proof fn law_settings_acceptance_is_reported(
    m: ConnectionModel,
    label: u8,
    attribute_id: Option<u8>,
)
    requires
        takes(m, label),
        m.pending.contains_key(label),
        m.pending[label] == (Pending::Vendor { pdu_id: 0x14, attribute_id }),
    ensures
        leads_to(
            m,
            answer_packet(label, 0x0C, 0x14, Seq::<u8>::empty()),
            ConnectionModel { pending: m.pending.remove(label), ..m },
            seq![],
            seq![AvrcpEventModel::AppSettingsAccepted],
        ),
{
    let r = ResponseModel::SetPlayerApplicationSettingValue;
    let parameters = Seq::<u8>::empty();
    assert(r.parameters() =~= parameters);
    lemma_heard(m, label, ResponseCode::ImplementedOrStable, 0x14, parameters, attribute_id);
    reveal(state::response_events);
    codec_laws::law_response_round_trip(r);
}

/// The acceptance of a volume is reported with the volume that was taken.
#[verifier::rlimit(50)]
pub proof fn law_volume_acceptance_is_reported(
    m: ConnectionModel,
    label: u8,
    attribute_id: Option<u8>,
    volume: u8,
)
    requires
        takes(m, label),
        m.pending.contains_key(label),
        m.pending[label] == (Pending::Vendor { pdu_id: 0x50, attribute_id }),
    ensures
        leads_to(
            m,
            answer_packet(label, 0x09, 0x50, seq![volume]),
            ConnectionModel { pending: m.pending.remove(label), ..m },
            seq![],
            seq![AvrcpEventModel::VolumeAccepted { volume }],
        ),
{
    let r = ResponseModel::SetAbsoluteVolume { volume };
    let parameters = seq![volume];
    assert(r.parameters() =~= parameters);
    lemma_heard(m, label, ResponseCode::Accepted, 0x50, parameters, attribute_id);
    reveal(state::response_events);
    codec_laws::law_response_round_trip(r);
}

/// The answer to a request to play an item is reported with its status.
#[verifier::rlimit(50)]
pub proof fn law_play_item_answer_is_reported(
    m: ConnectionModel,
    label: u8,
    attribute_id: Option<u8>,
    status: u8,
)
    requires
        takes(m, label),
        m.pending.contains_key(label),
        m.pending[label] == (Pending::Vendor { pdu_id: 0x74, attribute_id }),
    ensures
        leads_to(
            m,
            answer_packet(label, 0x0C, 0x74, seq![status]),
            ConnectionModel { pending: m.pending.remove(label), ..m },
            seq![],
            seq![AvrcpEventModel::PlayItemCompleted { status }],
        ),
{
    let r = ResponseModel::PlayItem { status };
    let parameters = seq![status];
    assert(r.parameters() =~= parameters);
    lemma_heard(m, label, ResponseCode::ImplementedOrStable, 0x74, parameters, attribute_id);
    reveal(state::response_events);
    codec_laws::law_response_round_trip(r);
}

/// A refusal of the channel itself is reported with the PID that was refused,
/// and frees the label.
#[verifier::rlimit(50)]
pub proof fn law_refused_pid_is_reported(m: ConnectionModel, label: u8)
    requires
        takes(m, label),
        m.pending.contains_key(label),
    ensures
        leads_to(
            m,
            seq![(label << 4) | 3, 0x11u8, 0x0Eu8],
            ConnectionModel { pending: m.pending.remove(label), ..m },
            seq![],
            seq![AvrcpEventModel::InvalidPid { pid: 0x110E }],
        ),
{
    lemma_refusal_header(label);
    reveal(state::on_transport_event);
    let packet = seq![(label << 4) | 3, 0x11u8, 0x0Eu8];
    assert(bytes::be16(packet, 1) == 0x110E);
    assert((ConnectionModel {
        avctp: avctp::ProtocolModel { assembler: avctp::idle_assembler(), ..m.avctp },
        ..m
    }) == m);
    let step = state::receive(m, packet);
    assert(step.outgoing =~= seq![]);
}

proof fn lemma_refusal_header(label: u8)
    by (bit_vector)
    requires
        label < 16,
    ensures
        ((label << 4) | 3) >> 4 == label,
        (((label << 4) | 3) >> 2) & 3 == 0,
        (((label << 4) | 3) >> 1) & 1 == 1,
        ((label << 4) | 3) & 1 == 1,
{
}

// ---------------------------------------------------------------------------
// Other frames
// ---------------------------------------------------------------------------

proof fn lemma_subunit(kind: u8, id: u8)
    by (bit_vector)
    requires
        kind < 32,
        id < 8,
    ensures
        (kind << 3) | (id & 0x07) == (kind << 3) | id,
        (0x1Fu8 << 3) | (7u8 & 0x07) == 0xFF,
{
}

/// A key that is sent to the unit as a whole is reported as one that is sent to
/// the panel, and the answer comes from the panel.
#[verifier::rlimit(50)]
pub proof fn law_key_to_the_unit_is_reported(
    m: ConnectionModel,
    label: u8,
    operation_id: u8,
    pressed: bool,
)
    requires
        takes(m, label),
        operation_id < 0x80,
        m.avctp.peer_mtu >= 8,
    ensures
        leads_to(
            m,
            seq![
                label << 4,
                0x11u8,
                0x0Eu8,
                0x00u8,
                0xFFu8,
                0x7Cu8,
                key_byte(operation_id, pressed),
                0x00u8,
            ],
            m,
            seq![
                seq![
                    (label << 4) | 2,
                    0x11u8,
                    0x0Eu8,
                    m.key_event_response.code(),
                    0x48u8,
                    0x7Cu8,
                    key_byte(operation_id, pressed),
                    0x00u8,
                ],
            ],
            seq![AvrcpEventModel::KeyEvent { operation_id, pressed, data: seq![] }],
        ),
{
    let key = PassThroughModel { pressed, operation_id, operation_data: seq![] };
    let frame = CommandFrameModel {
        ctype: CommandType::Control,
        subunit_type: avc::subunit_type::UNIT,
        subunit_id: 7,
        opcode: avc::opcode::PASS_THROUGH,
        operands: key.operands(),
    };
    let reply = ResponseFrameModel {
        response: m.key_event_response,
        subunit_type: avc::subunit_type::PANEL,
        subunit_id: 0,
        opcode: avc::opcode::PASS_THROUGH,
        operands: key.operands(),
    };
    lemma_key_byte(operation_id);
    lemma_panel();
    lemma_subunit(0x1F, 7);
    avc::law_command_frame_round_trip(frame);
    avc::law_pass_through_round_trip(key);
    let k = key_byte(operation_id, pressed);
    assert(frame.bytes() =~= seq![0x00u8, 0xFFu8, 0x7Cu8, k, 0x00u8]);
    assert(reply.bytes() =~= seq![m.key_event_response.code(), 0x48u8, 0x7Cu8, k, 0x00u8]);
    lemma_received(m, label, frame.bytes());
    lemma_one_packet(m, label, reply.bytes());
    assert(seq![label << 4, 0x11u8, 0x0Eu8] + frame.bytes() =~= seq![
        label << 4,
        0x11u8,
        0x0Eu8,
        0x00u8,
        0xFFu8,
        0x7Cu8,
        k,
        0x00u8,
    ]);
    assert(seq![(label << 4) | 2, 0x11u8, 0x0Eu8] + reply.bytes() =~= seq![
        (label << 4) | 2,
        0x11u8,
        0x0Eu8,
        m.key_event_response.code(),
        0x48u8,
        0x7Cu8,
        k,
        0x00u8,
    ]);
    reveal(state::on_command);
    reveal(state::key_command);
}

/// A command for anything but the panel and the unit, or with an opcode that is
/// neither a key nor of a vendor, comes back as not implemented, with the same
/// subunit, opcode and operands. Nothing changes.
#[verifier::rlimit(50)]
pub proof fn law_other_frames_come_back(
    m: ConnectionModel,
    label: u8,
    ctype: CommandType,
    kind: u8,
    id: u8,
    opcode: u8,
    operands: Seq<u8>,
)
    requires
        takes(m, label),
        kind < 32,
        kind != 0x1E,
        id <= 4 || id == 7,
        !(kind == 0x1F && id == 7) && !(kind == 0x09 && id == 0) || (opcode != 0x00 && opcode
            != 0x7C),
        6 + operands.len() <= m.avctp.peer_mtu,
    ensures
        leads_to(
            m,
            seq![label << 4, 0x11u8, 0x0Eu8, ctype.code(), (kind << 3) | id, opcode] + operands,
            m,
            seq![
                seq![(label << 4) | 2, 0x11u8, 0x0Eu8, 0x08u8, (kind << 3) | id, opcode] + operands,
            ],
            seq![],
        ),
{
    let frame = CommandFrameModel {
        ctype,
        subunit_type: kind,
        subunit_id: id as u16,
        opcode,
        operands,
    };
    let reply = ResponseFrameModel {
        response: ResponseCode::NotImplemented,
        subunit_type: kind,
        subunit_id: id as u16,
        opcode,
        operands,
    };
    lemma_subunit(kind, id);
    avc::law_command_frame_round_trip(frame);
    assert(frame.bytes() =~= seq![ctype.code(), (kind << 3) | id, opcode] + operands);
    assert(reply.bytes() =~= seq![0x08u8, (kind << 3) | id, opcode] + operands);
    lemma_received(m, label, frame.bytes());
    lemma_one_packet(m, label, reply.bytes());
    assert(seq![label << 4, 0x11u8, 0x0Eu8] + frame.bytes() =~= seq![
        label << 4,
        0x11u8,
        0x0Eu8,
        ctype.code(),
        (kind << 3) | id,
        opcode,
    ] + operands);
    assert(seq![(label << 4) | 2, 0x11u8, 0x0Eu8] + reply.bytes() =~= seq![
        (label << 4) | 2,
        0x11u8,
        0x0Eu8,
        0x08u8,
        (kind << 3) | id,
        opcode,
    ] + operands);
    reveal(state::on_command);
}

/// A command of another company is dropped.
#[verifier::rlimit(50)]
pub proof fn law_other_companies_are_ignored(
    m: ConnectionModel,
    label: u8,
    ctype: CommandType,
    company: u32,
    data: Seq<u8>,
)
    requires
        takes(m, label),
        company < 0x100_0000,
        company != 0x001958,
    ensures
        leads_to(
            m,
            seq![label << 4, 0x11u8, 0x0Eu8, ctype.code(), 0x48u8, 0x00u8] + (bytes::be24_bytes(
                company,
            ) + data),
            m,
            seq![],
            seq![],
        ),
{
    let frame = CommandFrameModel {
        ctype,
        subunit_type: avc::subunit_type::PANEL,
        subunit_id: 0,
        opcode: avc::opcode::VENDOR_DEPENDENT,
        operands: avc::vendor_operands(company, data),
    };
    lemma_panel();
    avc::law_command_frame_round_trip(frame);
    avc::law_vendor_dependent_round_trip(company, data);
    assert(frame.bytes() =~= seq![ctype.code(), 0x48u8, 0x00u8] + (bytes::be24_bytes(company)
        + data));
    lemma_received(m, label, frame.bytes());
    assert(seq![label << 4, 0x11u8, 0x0Eu8] + frame.bytes() =~= seq![
        label << 4,
        0x11u8,
        0x0Eu8,
        ctype.code(),
        0x48u8,
        0x00u8,
    ] + (bytes::be24_bytes(company) + data));
    reveal(state::on_command);
    reveal(state::vendor_command);
}

/// As many bytes of parameters go in a packet as fit beside 13 others in the
/// MTU, and in 512 bytes; at least one.
#[verifier::rlimit(50)]
pub proof fn law_room_for_parameters(m: ConnectionModel)
    ensures
        m.peer_mtu <= 14 ==> state::parameter_size(m) == 1,
        14 <= m.peer_mtu <= 512 ==> state::parameter_size(m) + 13 == m.peer_mtu,
        m.peer_mtu >= 512 ==> state::parameter_size(m) == 499,
{
}

/// A command that fits goes out in one packet under the next label, which then
/// stands for the command, and for the attribute where the values of one are
/// asked for.
#[verifier::rlimit(50)]
pub proof fn law_command_is_sent(m: ConnectionModel, ctype: CommandType, c: CommandModel)
    requires
        13 + c.parameters().len() <= m.avctp.peer_mtu,
        !m.pending.contains_key((m.next_transaction % 16) as u8),
    ensures
        ({
            let label = (m.next_transaction % 16) as u8;
            let (after, sent) = state::send_command(m, ctype, c);
            &&& sent is Ok
            &&& sent->Ok_0 == seq![command_packet(label, ctype.code(), c.id(), c.parameters())]
            &&& after == (ConnectionModel {
                pending: m.pending.insert(
                    label,
                    Pending::Vendor {
                        pdu_id: c.id(),
                        attribute_id: if c is ListPlayerApplicationSettingValues {
                            Some(c->ListPlayerApplicationSettingValues_attribute_id)
                        } else {
                            None
                        },
                    },
                ),
                next_transaction: ((label + 1) % 16) as u8,
                ..m
            })
        }),
{
    let label = (m.next_transaction % 16) as u8;
    let frame = state::command_frame(ctype, c);
    lemma_panel();
    assert(frame =~= seq![ctype.code(), 0x48u8, 0x00u8, 0x00u8, 0x19u8, 0x58u8, c.id(), 0x00u8]
        + bytes::be16_bytes(c.parameters().len() as u16) + c.parameters());
    assert(frame.len() == 10 + c.parameters().len());
    lemma_one_packet(m, label, frame);
    assert(seq![label << 4, 0x11u8, 0x0Eu8] + frame =~= command_packet(
        label,
        ctype.code(),
        c.id(),
        c.parameters(),
    ));
}

/// An answer to another command than the one that its label stands for is not
/// reported, and frees the label.
#[verifier::rlimit(50)]
pub proof fn law_mismatched_answer_is_dropped(
    m: ConnectionModel,
    label: u8,
    code: ResponseCode,
    id: u8,
    parameters: Seq<u8>,
)
    requires
        takes(m, label),
        parameters.len() <= 0xFFFF,
        m.pending.contains_key(label),
        m.pending[label] matches Pending::Vendor { pdu_id, .. } ==> pdu_id != id,
    ensures
        leads_to(
            m,
            answer_packet(label, code.code(), id, parameters),
            ConnectionModel { pending: m.pending.remove(label), ..m },
            seq![],
            seq![],
        ),
{
    reveal(state::on_response);
    reveal(state::vendor_response);
    reveal(state::dispatch_response);
    let packet = assembler::pdu_packet(id, 0, parameters);
    let frame = ResponseFrameModel {
        response: code,
        subunit_type: avc::subunit_type::PANEL,
        subunit_id: 0,
        opcode: avc::opcode::VENDOR_DEPENDENT,
        operands: avc::vendor_operands(0x001958, packet),
    };
    lemma_panel();
    assert(frame.bytes() =~= seq![
        code.code(),
        0x48u8,
        0x00u8,
        0x00u8,
        0x19u8,
        0x58u8,
        id,
        0x00u8,
    ] + bytes::be16_bytes(parameters.len() as u16) + parameters);
    assert(seq![(label << 4) | 2, 0x11u8, 0x0Eu8] + frame.bytes() =~= answer_packet(
        label,
        code.code(),
        id,
        parameters,
    ));
    lemma_received(m, label, frame.bytes());
    avc::law_response_frame_round_trip(frame);
    avc::law_vendor_dependent_round_trip(0x001958, packet);
    protocol_laws::lemma_single_packet(id, parameters);
    assert(state::keep_assembly(
        m.response_assemblers,
        label,
        code,
        assembler::empty_assembler(),
    ) =~= m.response_assemblers);
}

/// A PDU that comes as an inquiry is rejected as an invalid command, whatever it
/// is.
#[verifier::rlimit(50)]
pub proof fn law_inquiries_are_rejected(
    m: ConnectionModel,
    label: u8,
    general: bool,
    id: u8,
    parameters: Seq<u8>,
)
    requires
        takes(m, label),
        parameters.len() <= 0xFFFF,
        fits(m, 1),
    ensures
        leads_to(
            m,
            command_packet(
                label,
                if general {
                    4
                } else {
                    2
                },
                id,
                parameters,
            ),
            superseded(m, id),
            seq![answer_packet(label, 0x0A, id, seq![0x00u8])],
            seq![],
        ),
{
    reveal(state::on_command);
    reveal(state::vendor_command);
    reveal(state::dispatch_command);
    let kind = if general {
        CommandType::GeneralInquiry
    } else {
        CommandType::SpecificInquiry
    };
    let packet = assembler::pdu_packet(id, 0, parameters);
    let frame = CommandFrameModel {
        ctype: kind,
        subunit_type: avc::subunit_type::PANEL,
        subunit_id: 0,
        opcode: avc::opcode::VENDOR_DEPENDENT,
        operands: avc::vendor_operands(0x001958, packet),
    };
    lemma_panel();
    assert(frame.bytes() =~= seq![
        kind.code(),
        0x48u8,
        0x00u8,
        0x00u8,
        0x19u8,
        0x58u8,
        id,
        0x00u8,
    ] + bytes::be16_bytes(parameters.len() as u16) + parameters);
    assert(seq![label << 4, 0x11u8, 0x0Eu8] + frame.bytes() =~= command_packet(
        label,
        kind.code(),
        id,
        parameters,
    ));
    lemma_received(m, label, frame.bytes());
    avc::law_command_frame_round_trip(frame);
    avc::law_vendor_dependent_round_trip(0x001958, packet);
    protocol_laws::lemma_single_packet(id, parameters);
    assert(state::keep_assembly(
        m.command_assemblers,
        label,
        kind,
        assembler::empty_assembler(),
    ) =~= m.command_assemblers);
    lemma_answer(m, label, ResponseCode::Rejected, id, seq![0x00u8]);
}

/// The company of a target is reported as it names it.
#[verifier::rlimit(50)]
pub proof fn law_company_is_reported(
    m: ConnectionModel,
    label: u8,
    attribute_id: Option<u8>,
    company: u32,
)
    requires
        takes(m, label),
        m.pending.contains_key(label),
        m.pending[label] == (Pending::Vendor { pdu_id: 0x10, attribute_id }),
        company < 0x100_0000,
    ensures
        leads_to(
            m,
            answer_packet(label, 0x0C, 0x10, seq![0x02u8, 0x01u8] + bytes::be24_bytes(company)),
            ConnectionModel { pending: m.pending.remove(label), ..m },
            seq![],
            seq![AvrcpEventModel::SupportedCompanyIdsReceived(seq![company])],
        ),
{
    let ids = seq![company];
    let r = ResponseModel::GetCapabilities { capabilities: CapabilityModel::CompanyIds(ids) };
    let parameters = seq![0x02u8, 0x01u8] + bytes::be24_bytes(company);
    assert(ids.drop_last() =~= seq![]);
    assert(wire::u24s_bytes(ids.drop_last()) =~= seq![]);
    assert(r.parameters() =~= parameters);
    lemma_heard(m, label, ResponseCode::ImplementedOrStable, 0x10, parameters, attribute_id);
    reveal(state::response_events);
    codec_laws::law_response_round_trip(r);
}

/// Whether an answer is reported as it is, without an event of its own.
pub open spec fn is_reported_whole(r: ResponseModel) -> bool {
    ||| r is GetPlayerApplicationSettingAttributeText
    ||| r is GetPlayerApplicationSettingValueText
    ||| r is InformDisplayableCharacterSet
    ||| r is InformBatteryStatusOfCt
    ||| r is AbortContinuingResponse
    ||| r is SetAddressedPlayer
    ||| r is SetBrowsedPlayer
    ||| r is GetFolderItems
    ||| r is ChangePath
    ||| r is GetItemAttributes
    ||| r is GetTotalNumberOfItems
    ||| r is Search
    ||| r is AddToNowPlaying
}

/// An answer about browsing, or another without an event of its own, is reported
/// whole.
#[verifier::rlimit(50)]
pub proof fn law_other_answers_are_reported(
    m: ConnectionModel,
    label: u8,
    attribute_id: Option<u8>,
    r: ResponseModel,
)
    requires
        takes(m, label),
        is_reported_whole(r),
        codec_laws::fits_response(r),
        r.parameters().len() <= 0xFFFF,
        m.pending.contains_key(label),
        m.pending[label] == (Pending::Vendor { pdu_id: r.id(), attribute_id }),
    ensures
        leads_to(
            m,
            answer_packet(label, 0x0C, r.id(), r.parameters()),
            ConnectionModel { pending: m.pending.remove(label), ..m },
            seq![],
            seq![AvrcpEventModel::ResponseReceived { response: r }],
        ),
{
    lemma_heard(
        m,
        label,
        ResponseCode::ImplementedOrStable,
        r.id(),
        r.parameters(),
        attribute_id,
    );
    reveal(state::response_events);
    codec_laws::law_response_round_trip(r);
}

} // verus!
