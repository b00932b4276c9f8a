//! What holds of every connection.

use vstd::prelude::*;
use crate::classic::avc;
use crate::classic::avc::{
    CommandFrameModel,
    CommandType,
    FrameModel,
    ResponseCode,
    ResponseFrameModel,
};
use crate::classic::avctp;
use crate::classic::avrcp::assembler;
use crate::classic::avrcp::codec_laws;
use crate::classic::avrcp::command::CommandModel;
use crate::classic::avrcp::event::EventModel;
use crate::classic::avrcp::items::{ApplicationSetting, MediaAttributeModel};
use crate::classic::avrcp::media_attribute_id;
use crate::classic::avrcp::pdu_id;
use crate::classic::avrcp::protocol;
use crate::classic::avrcp::response;
use crate::classic::avrcp::response::ResponseModel;
use crate::classic::avrcp::state;
use crate::classic::avrcp::state::{
    AvrcpEventModel,
    ConnectionModel,
    ContinuationModel,
    Pending,
    Step,
};
use crate::classic::avrcp::status_code;
use crate::classic::avrcp::{
    BLUETOOTH_SIG_COMPANY_ID,
    MAXIMUM_VOLUME,
    PLAYBACK_POSITION_UNAVAILABLE,
};
use crate::text;

verus! {

// ---------------------------------------------------------------------------
// Transaction labels
// ---------------------------------------------------------------------------

proof fn lemma_free_label(pending: Map<u8, Pending>, next: u8, tried: int)
    requires
        0 <= tried <= 16,
    ensures
        match state::free_label(pending, next, tried) {
            Some(label) => label < 16 && !pending.contains_key(label),
            None => forall|k: int|
                tried <= k < 16 ==> pending.contains_key(
                    #[trigger] (((next % 16 + k) % 16) as u8),
                ),
        },
    decreases 16 - tried,
{
    if tried < 16 {
        lemma_free_label(pending, next, tried + 1);
    }
}

/// A command goes out on a label below 16 that was not in flight; it is
/// refused exactly when all sixteen labels are in flight, and then nothing
/// changes.
pub proof fn law_labels_are_unique(m: ConnectionModel, pending: Pending, frame: Seq<u8>)
    ensures
        ({
            let (after, r) = state::send_frame(m, pending, frame);
            let full = forall|label: u8| label < 16 ==> m.pending.contains_key(label);
            &&& r is Err <==> full
            &&& full ==> after == m && r == Err::<Seq<Seq<u8>>, crate::types::SimbleErrorModel>(
                state::labels_exhausted(),
            )
            &&& !full ==> exists|label: u8|
                label < 16 && !m.pending.contains_key(label) && after.pending
                    == #[trigger] m.pending.insert(label, pending)
        }),
{
    lemma_free_label(m.pending, m.next_transaction, 0);
    match state::free_label(m.pending, m.next_transaction, 0) {
        Some(label) => {
            assert(!m.pending.contains_key(label));
        },
        None => {
            assert forall|label: u8| label < 16 implies m.pending.contains_key(label) by {
                let first = m.next_transaction % 16;
                let k = if label >= first {
                    label - first
                } else {
                    label - first + 16
                };
                assert(((m.next_transaction % 16 + k) % 16) as u8 == label);
            }
        },
    }
}

// ---------------------------------------------------------------------------
// Cut responses
// ---------------------------------------------------------------------------

/// The PDU packets that a target sends when it answers and the controller
/// then asks for the rest `n` times.
pub open spec fn pulled(m: ConnectionModel, label: u8, id: u8, n: nat) -> Seq<Seq<Seq<u8>>>
    decreases n,
{
    if n == 0 {
        seq![]
    } else {
        let (after, sent) = state::continue_with(m, label, id);
        seq![sent] + pulled(after, label, id, (n - 1) as nat)
    }
}

/// The state after the controller asked for the rest `n` times.
pub open spec fn after_pulls(m: ConnectionModel, label: u8, id: u8, n: nat) -> ConnectionModel
    decreases n,
{
    if n == 0 {
        m
    } else {
        after_pulls(state::continue_with(m, label, id).0, label, id, (n - 1) as nat)
    }
}

proof fn lemma_pulls(m: ConnectionModel, label: u8, c: ContinuationModel)
    requires
        m.continuation == Some(c),
        c.remaining.len() > 0,
    ensures
        pulled(m, label, c.pdu_id, c.remaining.len()) == Seq::new(
            c.remaining.len(),
            |i: int| state::wrapped(m, label, c.response_code, c.remaining[i]),
        ),
        after_pulls(m, label, c.pdu_id, c.remaining.len()).continuation is None,
    decreases c.remaining.len(),
{
    reveal(state::continue_with);
    let n = c.remaining.len();
    let (after, sent) = state::continue_with(m, label, c.pdu_id);
    let whole = Seq::new(
        n,
        |i: int| state::wrapped(m, label, c.response_code, c.remaining[i]),
    );
    reveal_with_fuel(pulled, 2);
    reveal_with_fuel(after_pulls, 2);
    if n == 1 {
        assert(pulled(m, label, c.pdu_id, n) =~= whole);
    } else {
        let rest = ContinuationModel { remaining: c.remaining.skip(1), ..c };
        lemma_pulls(after, label, rest);
        let tail = Seq::new(
            rest.remaining.len(),
            |i: int| state::wrapped(after, label, rest.response_code, rest.remaining[i]),
        );
        assert forall|i: int| 0 <= i < tail.len() implies tail[i] == whole[i + 1] by {
            assert(rest.remaining[i] == c.remaining[i + 1]);
        }
        assert(pulled(m, label, c.pdu_id, n) =~= whole);
    }
}

/// A response that does not fit in one frame is handed over whole: the first
/// packet goes out at once, and each request for the rest is answered with the
/// next packet, under the PDU ID and the response code of the response, until
/// nothing is held back. The packets are those that an assembler puts together
/// to the PDU.
pub proof fn law_cut_response_is_handed_over_whole(
    m: ConnectionModel,
    label: u8,
    code: ResponseCode,
    id: u8,
    parameters: Seq<u8>,
)
    requires
        parameters.len() > state::parameter_size(m),
    ensures
        ({
            let (after, sent) = state::respond(m, label, code, id, parameters);
            let packets = assembler::pdu_packets(id, parameters, state::parameter_size(m));
            &&& sent == state::wrapped(m, label, code, packets[0])
            &&& pulled(after, label, id, (packets.len() - 1) as nat) == Seq::new(
                (packets.len() - 1) as nat,
                |i: int| state::wrapped(m, label, code, packets[i + 1]),
            )
            &&& after_pulls(after, label, id, (packets.len() - 1) as nat).continuation is None
            &&& assembler::feed_pdus(assembler::empty_assembler(), packets) == (
                assembler::empty_assembler(),
                seq![(id, parameters)],
            )
        }),
{
    reveal(state::respond);
    let size = state::parameter_size(m);
    let (after, sent) = state::respond(m, label, code, id, parameters);
    let packets = assembler::pdu_packets(id, parameters, size);
    assert(packets.len() > 1) by {
        assert(assembler::pdu_tail(id, parameters.skip(size), size).len() > 0);
    }
    let c = ContinuationModel { pdu_id: id, response_code: code, remaining: packets.skip(1) };
    assert(after.continuation == Some(c));
    lemma_pulls(after, label, c);
    assert(Seq::new(
        c.remaining.len(),
        |i: int| state::wrapped(after, label, c.response_code, c.remaining[i]),
    ) =~= Seq::new(
        (packets.len() - 1) as nat,
        |i: int| state::wrapped(m, label, code, packets[i + 1]),
    )) by {
        assert forall|i: int| 0 <= i < c.remaining.len() implies state::wrapped(
            after,
            label,
            c.response_code,
            c.remaining[i],
        ) == state::wrapped(m, label, code, packets[i + 1]) by {
            assert(c.remaining[i] == packets[i + 1]);
        }
    }
    assembler::law_pdu_reassembly(assembler::empty_assembler(), id, parameters, size);
}

/// Asking for the rest of a response that is not held, or aborting it, is
/// rejected, and what is held stays held.
pub proof fn law_foreign_continuation_is_rejected(m: ConnectionModel, label: u8, id: u8)
    requires
        m.continuation is None || m.continuation->0.pdu_id != id,
    ensures
        state::continue_with(m, label, id) == state::reject(
            m,
            label,
            pdu_id::REQUEST_CONTINUING_RESPONSE,
            status_code::INVALID_PARAMETER,
        ),
        state::abort_continuation(m, label, id) == state::reject(
            m,
            label,
            pdu_id::ABORT_CONTINUING_RESPONSE,
            status_code::INVALID_PARAMETER,
        ),
        m.continuation is Some && m.continuation->0.pdu_id != pdu_id::REQUEST_CONTINUING_RESPONSE
            ==> state::continue_with(m, label, id).0.continuation == m.continuation,
{
    reveal(state::continue_with);
    reveal(state::respond);
}

/// A short answer to one PDU leaves the held-back tail of another PDU alone.
pub proof fn law_short_answer_keeps_other_tail(
    m: ConnectionModel,
    label: u8,
    code: ResponseCode,
    id: u8,
    parameters: Seq<u8>,
)
    requires
        parameters.len() <= state::parameter_size(m),
        m.continuation is Some,
        m.continuation->0.pdu_id != id,
    ensures
        state::respond(m, label, code, id, parameters).0 == m,
{
    reveal(state::respond);
}

// ---------------------------------------------------------------------------
// Notifications
// ---------------------------------------------------------------------------

/// A registration is good for one notification: the first one goes out on the
/// label that registered, and a second one is not sent until the event is
/// registered again.
pub proof fn law_registration_is_consumed_once(m: ConnectionModel, e: EventModel, again: EventModel)
    requires
        again.id() == e.id(),
    ensures
        m.notification_listeners.contains_key(e.id()) ==> state::notify(m, e).1 == state::respond(
            m,
            m.notification_listeners[e.id()],
            ResponseCode::Changed,
            pdu_id::REGISTER_NOTIFICATION,
            e.bytes(),
        ).1,
        !m.notification_listeners.contains_key(e.id()) ==> state::notify(m, e) == (
            m,
            Seq::<Seq<u8>>::empty(),
        ),
        state::notify(state::notify(m, e).0, again) == (
            state::notify(m, e).0,
            Seq::<Seq<u8>>::empty(),
        ),
{
    reveal(state::respond);
}

/// Registering for a supported event that is modeled remembers the listener
/// and answers with a snapshot of how things stand; one that is not supported
/// is declined and remembered nowhere.
pub proof fn law_registration(m: ConnectionModel, label: u8, id: u8)
    ensures
        m.supported_events.contains(id) && state::snapshot(m, id) is Some ==> {
            let step = state::register(m, label, id);
            &&& step.state.notification_listeners == m.notification_listeners.insert(id, label)
            &&& step.outgoing == state::respond(
                m,
                label,
                ResponseCode::Interim,
                pdu_id::REGISTER_NOTIFICATION,
                state::snapshot(m, id)->0.bytes(),
            ).1
        },
        !m.supported_events.contains(id) ==> state::register(m, label, id) == state::sending(
            state::decline(m, label, pdu_id::REGISTER_NOTIFICATION),
        ) && state::register(m, label, id).state.notification_listeners
            == m.notification_listeners,
{
    reveal(state::register);
    reveal(state::respond);
}

// ---------------------------------------------------------------------------
// Both ends
// ---------------------------------------------------------------------------

proof fn lemma_vendor_frame(ctype: CommandType, operands: Seq<u8>)
    ensures
        avc::frame_of(
            CommandFrameModel {
                ctype,
                subunit_type: avc::subunit_type::PANEL,
                subunit_id: 0,
                opcode: avc::opcode::VENDOR_DEPENDENT,
                operands,
            }.bytes(),
        ) == Some(
            FrameModel::Command(
                CommandFrameModel {
                    ctype,
                    subunit_type: avc::subunit_type::PANEL,
                    subunit_id: 0,
                    opcode: avc::opcode::VENDOR_DEPENDENT,
                    operands,
                },
            ),
        ),
{
    avc::law_command_frame_round_trip(
        CommandFrameModel {
            ctype,
            subunit_type: avc::subunit_type::PANEL,
            subunit_id: 0,
            opcode: avc::opcode::VENDOR_DEPENDENT,
            operands,
        },
    );
}

/// A command that a controller sends arrives at a target as that command: the
/// target does what it does for the command. The command fits its fields and
/// its parameters a 16-bit length, and the target is not in the middle of a
/// command on the same label.
pub proof fn law_command_arrives(
    m: ConnectionModel,
    label: u8,
    ctype: CommandType,
    c: CommandModel,
)
    requires
        codec_laws::fits_command(c),
        c.parameters().len() <= 0xFFFF,
        !m.command_assemblers.contains_key(label),
        ctype == CommandType::Control || ctype == CommandType::Status || ctype
            == CommandType::Notify,
    ensures
        state::on_command(m, label, state::command_frame(ctype, c)) == state::run_command(
            m,
            label,
            c.id(),
            c,
        ),
{
    reveal(state::on_command);
    reveal(state::vendor_command);
    reveal(state::dispatch_command);
    let packet = assembler::pdu_packet(c.id(), assembler::PDU_SINGLE, c.parameters());
    lemma_vendor_frame(ctype, avc::vendor_operands(BLUETOOTH_SIG_COMPANY_ID, packet));
    avc::law_vendor_dependent_round_trip(BLUETOOTH_SIG_COMPANY_ID, packet);
    lemma_single_packet(c.id(), c.parameters());
    codec_laws::law_command_round_trip(c);
    assert(m.command_assemblers.remove(label) =~= m.command_assemblers);
    assert(state::keep_assembly(
        m.command_assemblers,
        label,
        ctype,
        assembler::empty_assembler(),
    ) =~= m.command_assemblers);
}

/// A stable or accepted response that fits in one packet arrives at a
/// controller as that response: it is reported once, and its label is free
/// again. The label stands for the command that is answered, and the
/// controller is not in the middle of a response on it.
pub proof fn law_response_arrives(
    m: ConnectionModel,
    label: u8,
    code: ResponseCode,
    r: ResponseModel,
    attribute_id: Option<u8>,
)
    requires
        codec_laws::fits_response(r),
        r.parameters().len() <= 0xFFFF,
        !m.response_assemblers.contains_key(label),
        m.pending.contains_key(label),
        m.pending[label] == (Pending::Vendor { pdu_id: r.id(), attribute_id }),
        code == ResponseCode::ImplementedOrStable || code == ResponseCode::Accepted,
    ensures
        state::on_response(
            m,
            label,
            ResponseFrameModel {
                response: code,
                subunit_type: avc::subunit_type::PANEL,
                subunit_id: 0,
                opcode: avc::opcode::VENDOR_DEPENDENT,
                operands: avc::vendor_operands(
                    BLUETOOTH_SIG_COMPANY_ID,
                    assembler::pdu_packet(r.id(), assembler::PDU_SINGLE, r.parameters()),
                ),
            }.bytes(),
        ) == (Step {
            state: ConnectionModel { pending: m.pending.remove(label), ..m },
            outgoing: seq![],
            events: seq![state::response_event(r, attribute_id)],
        }),
{
    reveal(state::on_response);
    reveal(state::vendor_response);
    reveal(state::dispatch_response);
    reveal(state::response_events);
    let packet = assembler::pdu_packet(r.id(), assembler::PDU_SINGLE, r.parameters());
    let frame = ResponseFrameModel {
        response: code,
        subunit_type: avc::subunit_type::PANEL,
        subunit_id: 0,
        opcode: avc::opcode::VENDOR_DEPENDENT,
        operands: avc::vendor_operands(BLUETOOTH_SIG_COMPANY_ID, packet),
    };
    avc::law_response_frame_round_trip(frame);
    avc::law_vendor_dependent_round_trip(BLUETOOTH_SIG_COMPANY_ID, packet);
    lemma_single_packet(r.id(), r.parameters());
    codec_laws::law_response_round_trip(r);
    assert(state::keep_assembly(
        m.response_assemblers,
        label,
        code,
        assembler::empty_assembler(),
    ) =~= m.response_assemblers);
}

/// An empty assembler completes a PDU that comes in one packet.
pub proof fn lemma_single_packet(id: u8, parameters: Seq<u8>)
    requires
        parameters.len() <= 0xFFFF,
    ensures
        assembler::assemble_pdu(
            assembler::empty_assembler(),
            assembler::pdu_packet(id, assembler::PDU_SINGLE, parameters),
        ) == (assembler::empty_assembler(), Some((id, parameters))),
{
    let packet = assembler::pdu_packet(id, assembler::PDU_SINGLE, parameters);
    assert(0u8 & 3 == 0) by (bit_vector);
    crate::bytes::lemma_be16_round_trip(parameters.len() as u16);
    assert(packet.subrange(4, 4 + parameters.len() as int) =~= parameters);
    assert(Seq::<u8>::empty() + parameters =~= parameters);
}

/// A command changes of the media-player state only what it sets: the volume
/// or the application settings. It puts no label in flight and frees none.
pub proof fn law_only_set_commands_change_the_player(
    m: ConnectionModel,
    label: u8,
    id: u8,
    c: CommandModel,
)
    ensures
        ({
            let after = state::run_command(m, label, id, c).state;
            &&& !(c is SetAbsoluteVolume) ==> after.volume == m.volume
            &&& !(c is SetPlayerApplicationSettingValue) ==> after.player_app_settings
                == m.player_app_settings
            &&& after.element_attributes == m.element_attributes
            &&& after.supported_events == m.supported_events
            &&& after.playback_status == m.playback_status
            &&& after.current_track_uid == m.current_track_uid
            &&& after.pending == m.pending
        }),
{
    reveal(state::run_command);
    reveal(state::register);
    reveal(state::continue_with);
    reveal(state::respond);
}

/// A setting that was set is what a read of it gives back.
pub proof fn law_setting_is_read_back(
    settings: Seq<ApplicationSetting>,
    s: ApplicationSetting,
)
    ensures
        state::current_settings(state::with_setting(settings, s), seq![s.attribute_id]) == Some(
            seq![s],
        ),
    decreases settings.len(),
{
    let after = state::with_setting(settings, s);
    lemma_setting_index_after(settings, s);
    let ids = seq![s.attribute_id];
    assert(ids.drop_last() =~= seq![]);
    assert(state::current_settings(after, ids.drop_last()) =~= Some(seq![]));
    let i = state::setting_index(after, s.attribute_id)->0;
    assert(after[i] == s);
    assert(Seq::empty().push(after[i]) =~= seq![s]);
}

proof fn lemma_setting_index_after(
    settings: Seq<ApplicationSetting>,
    s: ApplicationSetting,
)
    ensures
        ({
            let after = state::with_setting(settings, s);
            let i = state::setting_index(after, s.attribute_id);
            i is Some && 0 <= i->0 < after.len() && after[i->0] == s
        }),
    decreases settings.len(),
{
    let after = state::with_setting(settings, s);
    if settings.len() == 0 {
        assert(after[0] == s);
    } else if settings[0].attribute_id == s.attribute_id {
        assert(after[0] == s);
    } else {
        let rest = settings.skip(1);
        lemma_setting_index_after(rest, s);
        lemma_setting_index_bound(rest, s.attribute_id);
        assert(after[0] == settings[0]);
        assert(after.skip(1) =~= state::with_setting(rest, s));
    }
}

proof fn lemma_setting_index_bound(
    settings: Seq<ApplicationSetting>,
    id: u8,
)
    ensures
        state::setting_index(settings, id) matches Some(i) ==> 0 <= i < settings.len(),
    decreases settings.len(),
{
    if settings.len() > 0 && settings[0].attribute_id != id {
        lemma_setting_index_bound(settings.skip(1), id);
    }
}

/// A volume that a controller sets is stored, accepted and reported, and the
/// accepted response says that volume.
pub proof fn law_volume_is_set(m: ConnectionModel, label: u8, volume: u8)
    requires
        volume <= MAXIMUM_VOLUME,
    ensures
        ({
            let step = state::run_command(
                m,
                label,
                pdu_id::SET_ABSOLUTE_VOLUME,
                CommandModel::SetAbsoluteVolume { volume },
            );
            &&& step.state.volume == volume
            &&& step.events == seq![AvrcpEventModel::VolumeSet { volume }]
            &&& step.outgoing == state::wrapped(
                m,
                label,
                ResponseCode::Accepted,
                assembler::pdu_packet(
                    pdu_id::SET_ABSOLUTE_VOLUME,
                    assembler::PDU_SINGLE,
                    seq![volume],
                ),
            )
            &&& response::response_of(pdu_id::SET_ABSOLUTE_VOLUME, seq![volume]) == Some(
                ResponseModel::SetAbsoluteVolume { volume },
            )
        }),
{
    assert(state::volume_in(volume) == volume);
    reveal(state::run_command);
    reveal(state::respond);
    reveal(response::response_of);
}

/// Whether the volume of a connection is in its range.
pub open spec fn volume_is_valid(m: ConnectionModel) -> bool {
    m.volume <= MAXIMUM_VOLUME
}

/// The volume starts in its range, and no command leaves it outside.
pub proof fn law_command_keeps_volume_valid(
    peer_mtu: u16,
    m: ConnectionModel,
    label: u8,
    kind: CommandType,
    id: u8,
    parameters: Seq<u8>,
)
    requires
        volume_is_valid(m),
    ensures
        volume_is_valid(protocol::new_connection(peer_mtu)),
        volume_is_valid(state::dispatch_command(m, label, kind, id, parameters).state),
{
    reveal(state::dispatch_command);
    reveal(state::run_command);
    reveal(state::register);
    reveal(state::continue_with);
    reveal(state::respond);
}

proof fn lemma_frames_keep_volume_valid(m: ConnectionModel, label: u8, payload: Seq<u8>)
    requires
        volume_is_valid(m),
    ensures
        volume_is_valid(state::on_command(m, label, payload).state),
        volume_is_valid(state::on_response(m, label, payload).state),
{
    reveal(state::on_command);
    reveal(state::on_response);
    reveal(state::key_command);
    reveal(state::key_response);
    reveal(state::vendor_command);
    reveal(state::vendor_response);
    reveal(state::dispatch_response);
    if let Some(FrameModel::Command(frame)) = avc::frame_of(payload) {
        if let Some(vendor) = avc::vendor_of(frame.operands) {
            let (kind, before) = state::assembly(m.command_assemblers, label, frame.ctype);
            let (a, complete) = assembler::assemble_pdu(before, vendor.data);
            let next = ConnectionModel {
                command_assemblers: state::keep_assembly(m.command_assemblers, label, kind, a),
                ..m
            };
            if let Some((id, parameters)) = complete {
                law_command_keeps_volume_valid(0, next, label, kind, id, parameters);
            }
        }
    }
}

/// Whatever arrives, the volume stays in its range.
pub proof fn law_volume_stays_valid(m: ConnectionModel, pdu: Seq<u8>)
    requires
        volume_is_valid(m),
    ensures
        volume_is_valid(state::receive(m, pdu).state),
{
    reveal(state::on_transport_event);
    let (transport, message) = avctp::assemble(m.avctp.assembler, pdu);
    let next = ConnectionModel {
        avctp: avctp::ProtocolModel { assembler: transport, ..m.avctp },
        ..m
    };
    if message is Some {
        lemma_frames_keep_volume_valid(next, message->0.transaction_label, message->0.payload);
    }
}

proof fn lemma_selected(list: Seq<MediaAttributeModel>, ids: Seq<u32>)
    ensures
        forall|i: int|
            0 <= i < state::selected_attributes(list, ids).len() ==> list.contains(
                #[trigger] state::selected_attributes(list, ids)[i],
            ),
    decreases list.len(),
{
    if ids.len() != 0 && list.len() != 0 {
        let before = state::selected_attributes(list.drop_last(), ids);
        lemma_selected(list.drop_last(), ids);
        assert forall|i: int| 0 <= i < state::selected_attributes(list, ids).len() implies list
            .contains(#[trigger] state::selected_attributes(list, ids)[i]) by {
            if i < before.len() {
                assert(list.drop_last().contains(before[i]));
                let k = choose|k: int|
                    0 <= k < list.drop_last().len() && list.drop_last()[k] == before[i];
                assert(list[k] == before[i]);
            } else {
                assert(list[list.len() - 1] == list.last());
            }
        }
    }
}

/// The length of a track, once it is known, is what the play status says and
/// what the playing time says wherever that attribute is served.
pub proof fn law_song_length_is_served(
    m: ConnectionModel,
    label: u8,
    identifier: u64,
    attribute_ids: Seq<u32>,
)
    requires
        m.song_length != PLAYBACK_POSITION_UNAVAILABLE,
    ensures
        state::run_command(m, label, pdu_id::GET_PLAY_STATUS, CommandModel::GetPlayStatus)
            == state::sending(
            state::answer(
                m,
                label,
                ResponseModel::GetPlayStatus {
                    song_length: m.song_length,
                    song_position: m.song_position,
                    play_status: m.playback_status,
                },
            ),
        ),
        exists|attributes: Seq<MediaAttributeModel>|
            state::run_command(
                m,
                label,
                pdu_id::GET_ELEMENT_ATTRIBUTES,
                CommandModel::GetElementAttributes { identifier, attribute_ids },
            ) == state::sending(
                state::answer(m, label, ResponseModel::GetElementAttributes { attributes }),
            ) && forall|i: int|
                0 <= i < attributes.len() && (#[trigger] attributes[i]).attribute_id
                    == media_attribute_id::PLAYING_TIME ==> attributes[i].value == text::decimal(
                    m.song_length as nat,
                ),
{
    reveal(state::run_command);
    let served = state::served_attributes(m.element_attributes, m.song_length);
    let attributes = state::selected_attributes(served, attribute_ids);
    lemma_selected(served, attribute_ids);
    assert forall|i: int|
        0 <= i < attributes.len() && (#[trigger] attributes[i]).attribute_id
            == media_attribute_id::PLAYING_TIME implies attributes[i].value == text::decimal(
        m.song_length as nat,
    ) by {
        assert(served.contains(attributes[i]));
        let k = choose|k: int| 0 <= k < served.len() && served[k] == attributes[i];
        assert(served[k] == state::served_attribute(m.element_attributes[k], m.song_length));
    }
    assert(state::run_command(
        m,
        label,
        pdu_id::GET_ELEMENT_ATTRIBUTES,
        CommandModel::GetElementAttributes { identifier, attribute_ids },
    ) == state::sending(
        state::answer(m, label, ResponseModel::GetElementAttributes { attributes }),
    ));
}

/// A command frame for another subunit, or with another opcode, is echoed with
/// the code that says that it is not implemented, and changes nothing.
pub proof fn law_unsupported_frame_is_echoed(
    m: ConnectionModel,
    label: u8,
    payload: Seq<u8>,
    frame: CommandFrameModel,
)
    requires
        avc::frame_of(payload) == Some(FrameModel::Command(frame)),
        !state::addressed(frame) || (frame.opcode != avc::opcode::VENDOR_DEPENDENT && frame.opcode
            != avc::opcode::PASS_THROUGH),
    ensures
        state::on_command(m, label, payload) == (Step {
            state: m,
            outgoing: state::echo(m, label, frame),
            events: seq![],
        }),
{
    reveal(state::on_command);
}

/// A response on a label that is not in flight is dropped.
pub proof fn law_stray_response_is_dropped(m: ConnectionModel, label: u8, payload: Seq<u8>)
    requires
        !m.pending.contains_key(label),
    ensures
        state::on_response(m, label, payload) == state::idle(m),
{
    reveal(state::on_response);
}

/// A label stays in flight only behind an interim answer: any other complete
/// response frees it.
pub proof fn law_final_response_frees_the_label(
    m: ConnectionModel,
    label: u8,
    code: ResponseCode,
    id: u8,
    parameters: Seq<u8>,
)
    requires
        code != ResponseCode::Interim,
    ensures
        state::dispatch_response(m, label, code, id, parameters).state.pending
            == m.pending.remove(label),
{
    reveal(state::dispatch_response);
}

// ---------------------------------------------------------------------------
// What a peer can pile up
// ---------------------------------------------------------------------------

/// Whether everything that is kept by transaction label is kept under one of
/// the sixteen.
pub open spec fn labels_are_small(m: ConnectionModel) -> bool {
    &&& m.avctp.assembler.transaction_label < 16
    &&& forall|label: u8| #[trigger]
        m.command_assemblers.contains_key(label) ==> label < 16
    &&& forall|label: u8| #[trigger]
        m.response_assemblers.contains_key(label) ==> label < 16
}

/// A new connection keeps nothing under any label.
pub proof fn law_new_connection_has_small_labels(peer_mtu: u16)
    ensures
        labels_are_small(protocol::new_connection(peer_mtu)),
{
}

proof fn lemma_command_keeps_assemblers(
    m: ConnectionModel,
    label: u8,
    kind: CommandType,
    id: u8,
    parameters: Seq<u8>,
)
    ensures
        ({
            let after = state::dispatch_command(m, label, kind, id, parameters).state;
            &&& after.command_assemblers == m.command_assemblers
            &&& after.response_assemblers == m.response_assemblers
            &&& after.avctp == m.avctp
        }),
{
    reveal(state::dispatch_command);
    reveal(state::run_command);
    reveal(state::register);
    reveal(state::continue_with);
    reveal(state::respond);
}

proof fn lemma_response_keeps_assemblers(
    m: ConnectionModel,
    label: u8,
    kind: ResponseCode,
    id: u8,
    parameters: Seq<u8>,
)
    ensures
        ({
            let after = state::dispatch_response(m, label, kind, id, parameters).state;
            &&& after.command_assemblers == m.command_assemblers
            &&& after.response_assemblers == m.response_assemblers
            &&& after.avctp == m.avctp
        }),
{
    reveal(state::dispatch_response);
}

proof fn lemma_frames_keep_labels_small(m: ConnectionModel, label: u8, payload: Seq<u8>)
    requires
        labels_are_small(m),
        label < 16,
    ensures
        labels_are_small(state::on_command(m, label, payload).state),
        labels_are_small(state::on_response(m, label, payload).state),
{
    reveal(state::on_command);
    reveal(state::on_response);
    reveal(state::key_command);
    reveal(state::key_response);
    match avc::frame_of(payload) {
        Some(FrameModel::Command(frame)) => {
            reveal(state::vendor_command);
            if let Some(vendor) = avc::vendor_of(frame.operands) {
                let (kind, before) = state::assembly(m.command_assemblers, label, frame.ctype);
                let (a, complete) = assembler::assemble_pdu(before, vendor.data);
                let next = ConnectionModel {
                    command_assemblers: state::keep_assembly(
                        m.command_assemblers,
                        label,
                        kind,
                        a,
                    ),
                    ..m
                };
                assert(labels_are_small(next));
                if let Some((id, parameters)) = complete {
                    lemma_command_keeps_assemblers(next, label, kind, id, parameters);
                }
            }
        },
        Some(FrameModel::Response(frame)) => {
            reveal(state::vendor_response);
            if let Some(vendor) = avc::vendor_of(frame.operands) {
                let (kind, before) = state::assembly(m.response_assemblers, label, frame.response);
                let (a, complete) = assembler::assemble_pdu(before, vendor.data);
                let next = ConnectionModel {
                    response_assemblers: state::keep_assembly(
                        m.response_assemblers,
                        label,
                        kind,
                        a,
                    ),
                    ..m
                };
                assert(labels_are_small(next));
                if let Some((id, parameters)) = complete {
                    lemma_response_keeps_assemblers(next, label, kind, id, parameters);
                }
            }
        },
        None => {},
    }
}

/// However a peer behaves, part-assembled commands and responses are kept under
/// sixteen labels at most.
pub proof fn law_labels_stay_small(m: ConnectionModel, pdu: Seq<u8>)
    requires
        labels_are_small(m),
    ensures
        labels_are_small(state::receive(m, pdu).state),
{
    reveal(state::on_transport_event);
    if pdu.len() > 0 {
        let first = pdu[0];
        assert(first >> 4 < 16) by (bit_vector);
    }
    let (transport, message) = avctp::assemble(m.avctp.assembler, pdu);
    assert(transport.transaction_label < 16);
    assert(message is Some ==> message->0.transaction_label < 16);
    let next = ConnectionModel {
        avctp: avctp::ProtocolModel { assembler: transport, ..m.avctp },
        ..m
    };
    assert(labels_are_small(next));
    if message is Some {
        lemma_frames_keep_labels_small(next, message->0.transaction_label, message->0.payload);
    }
}

} // verus!
