//! What holds of connections as a whole.

use vstd::prelude::*;
use crate::classic::avdtp::assembler;
use crate::classic::avdtp::assembler::AssembledModel;
use crate::classic::avdtp::capability::CapabilityModel;
use crate::classic::avdtp::error_code;
use crate::classic::avdtp::message;
use crate::classic::avdtp::message::{MessageModel, MessageType};
use crate::classic::avdtp::signal_identifier;
use crate::classic::avdtp::state;
use crate::classic::avdtp::state::{
    EventModel,
    LocalModel,
    PendingModel,
    ProtocolModel,
    Step,
    StreamState,
};

verus! {

// ---------------------------------------------------------------------------
// Transactions
// ---------------------------------------------------------------------------

proof fn lemma_free_label(p: ProtocolModel, offset: int)
    requires
        state::well_formed(p),
        0 <= offset <= 16,
    ensures
        match state::free_label(p, offset) {
            Some(label) => label < 16 && !p.pending.contains_key(label),
            None => forall|k: int|
                offset <= k < 16 ==> #[trigger] p.pending.contains_key(
                    ((p.next_transaction + k) % 16) as u8,
                ),
        },
    decreases 16 - offset,
{
    if offset < 16 {
        lemma_free_label(p, offset + 1);
    }
}

/// A command takes a transaction label that nothing was pending for, and keeps
/// what is pending under the others. It fails only when all sixteen labels are
/// taken, and then changes nothing.
pub proof fn law_labels_are_unique(p: ProtocolModel, pending: PendingModel, m: MessageModel)
    requires
        state::well_formed(p),
    ensures
        match state::sent(p, pending, m) {
            (after, Ok(packets)) => exists|label: u8|
                {
                    &&& label < 16
                    &&& !p.pending.contains_key(label)
                    &&& after.pending == #[trigger] p.pending.insert(label, pending)
                    &&& packets == assembler::message_packets(label, m, p.peer_mtu)
                },
            (after, Err(_)) => after == p && forall|label: u8|
                label < 16 ==> #[trigger] p.pending.contains_key(label),
        },
{
    lemma_free_label(p, 0);
    match state::free_label(p, 0) {
        Some(label) => {
            assert(state::sent(p, pending, m).0.pending == p.pending.insert(label, pending));
        },
        None => {
            assert forall|label: u8| label < 16 implies #[trigger] p.pending.contains_key(label) by {
                let k = (label + 16 - p.next_transaction) % 16;
                assert((p.next_transaction + k) % 16 == label);
                assert(p.pending.contains_key(((p.next_transaction + k) % 16) as u8));
            }
        },
    }
}

/// An answer to a pending command frees its label; an answer that nothing is
/// pending for changes and reports nothing.
pub proof fn law_answers_free_labels(p: ProtocolModel, m: AssembledModel)
    ensures
        state::on_response(p, m).0.pending == p.pending.remove(m.transaction_label),
        !p.pending.contains_key(m.transaction_label) ==> state::on_response(p, m) == (
            p,
            Seq::<EventModel>::empty(),
        ),
{
    if !p.pending.contains_key(m.transaction_label) {
        assert(p.pending.remove(m.transaction_label) =~= p.pending);
    }
}

/// A reject of a pending command is reported with the error code that it
/// carries, and changes no endpoint.
pub proof fn law_rejects_are_reported(p: ProtocolModel, label: u8, error_code: u8)
    requires
        p.pending.contains_key(label),
    ensures
        ({
            let signal = state::pending_signal(p.pending[label], p.version);
            let payload = match signal {
                signal_identifier::SET_CONFIGURATION => seq![0u8, error_code],
                signal_identifier::RECONFIGURE => seq![0u8, error_code],
                signal_identifier::START => seq![0u8, error_code],
                signal_identifier::SUSPEND => seq![0u8, error_code],
                _ => seq![error_code],
            };
            let m = AssembledModel {
                transaction_label: label,
                signal_identifier: signal,
                message_type: MessageType::ResponseReject,
                payload,
            };
            state::on_response(p, m) == (
                ProtocolModel { pending: p.pending.remove(label), ..p },
                seq![EventModel::CommandRejected { signal_identifier: signal, error_code }],
            )
        }),
{
}

// ---------------------------------------------------------------------------
// Commands
// ---------------------------------------------------------------------------

/// A signal above the known ones draws a general reject that repeats it, and
/// changes nothing.
pub proof fn law_unknown_signal_is_rejected(p: ProtocolModel, m: AssembledModel)
    requires
        m.signal_identifier > signal_identifier::DELAYREPORT,
    ensures
        state::on_command(p, m) == (Step {
            state: p,
            outgoing: assembler::message_packets(
                m.transaction_label,
                MessageModel::GeneralReject { signal_identifier: m.signal_identifier },
                p.peer_mtu,
            ),
            events: seq![],
        }),
{
}

/// A command to abort is always accepted, and leaves the endpoint idle.
pub proof fn law_abort_is_accepted(local: Seq<LocalModel>, acp_seid: u8)
    ensures
        match state::handled(local, MessageModel::AbortCommand { acp_seid }) {
            Some(h) => h.response == MessageModel::AbortResponse && (state::known(local, acp_seid)
                ==> state::at(h.local, acp_seid).state == StreamState::Idle),
            None => false,
        },
{
}

/// A command that is refused changes no endpoint and reports nothing.
pub proof fn law_refused_command_changes_nothing(local: Seq<LocalModel>, m: MessageModel)
    ensures
        match state::handled(local, m) {
            Some(h) => h.response.kind() == MessageType::ResponseReject ==> h.local == local
                && h.events == Seq::<EventModel>::empty(),
            None => true,
        },
{
}

/// Every command with a payload that fits is answered, and the answer is one to
/// the same signal: it accepts or rejects.
pub proof fn law_commands_are_answered(local: Seq<LocalModel>, m: MessageModel)
    requires
        m.kind() == MessageType::Command,
    ensures
        match state::handled(local, m) {
            Some(h) => h.response.signal() == m.signal() && (h.response.kind()
                == MessageType::ResponseAccept || h.response.kind()
                == MessageType::ResponseReject),
            None => false,
        },
{
}

/// A command to start or suspend several endpoints changes all of them or none.
pub proof fn law_start_and_suspend_are_all_or_nothing(local: Seq<LocalModel>, seids: Seq<u8>, i: int)
    requires
        0 <= i < seids.len(),
    ensures
        ({
            let h = state::on_start(local, seids);
            if h.response == MessageModel::StartResponse {
                state::known(local, seids[i]) && state::at(local, seids[i]).state
                    == StreamState::Open && state::at(h.local, seids[i]).state
                    == StreamState::Streaming
            } else {
                h.local == local
            }
        }),
        ({
            let h = state::on_suspend(local, seids);
            if h.response == MessageModel::SuspendResponse {
                state::known(local, seids[i]) && state::at(local, seids[i]).state
                    == StreamState::Streaming && state::at(h.local, seids[i]).state
                    == StreamState::Open
            } else {
                h.local == local
            }
        }),
{
    if state::first_refused(local, seids, StreamState::Open, 0) is None {
        lemma_none_refused(local, seids, StreamState::Open, 0, i);
        lemma_states_set(local, seids, StreamState::Streaming, i);
    }
    if state::first_refused(local, seids, StreamState::Streaming, 0) is None {
        lemma_none_refused(local, seids, StreamState::Streaming, 0, i);
        lemma_states_set(local, seids, StreamState::Open, i);
    }
}

proof fn lemma_none_refused(
    local: Seq<LocalModel>,
    seids: Seq<u8>,
    expected: StreamState,
    from: int,
    i: int,
)
    requires
        0 <= from <= i < seids.len(),
        state::first_refused(local, seids, expected, from) is None,
    ensures
        state::known(local, seids[i]),
        state::at(local, seids[i]).state == expected,
    decreases seids.len() - from,
{
    if from < i {
        lemma_none_refused(local, seids, expected, from + 1, i);
    }
}

proof fn lemma_states_set(local: Seq<LocalModel>, seids: Seq<u8>, state: StreamState, i: int)
    requires
        0 <= i < seids.len(),
        state::known(local, seids[i]),
    ensures
        state::with_states(local, seids, state).len() == local.len(),
        state::at(state::with_states(local, seids, state), seids[i]).state == state,
    decreases seids.len(),
{
    lemma_states_keep_len(local, seids.drop_last(), state);
    if i < seids.len() - 1 {
        lemma_states_set(local, seids.drop_last(), state, i);
    }
}

proof fn lemma_states_keep_len(local: Seq<LocalModel>, seids: Seq<u8>, state: StreamState)
    ensures
        state::with_states(local, seids, state).len() == local.len(),
    decreases seids.len(),
{
    if seids.len() > 0 {
        lemma_states_keep_len(local, seids.drop_last(), state);
    }
}

// ---------------------------------------------------------------------------
// The stream state machine
// ---------------------------------------------------------------------------

/// Whether a command is for the endpoint with a SEID.
pub open spec fn names(m: MessageModel, seid: u8) -> bool {
    match m {
        MessageModel::SetConfigurationCommand { acp_seid, .. } => acp_seid == seid,
        MessageModel::ReconfigureCommand { acp_seid, .. } => acp_seid == seid,
        MessageModel::OpenCommand { acp_seid } => acp_seid == seid,
        MessageModel::StartCommand { acp_seids } => acp_seids.contains(seid),
        MessageModel::SuspendCommand { acp_seids } => acp_seids.contains(seid),
        MessageModel::CloseCommand { acp_seid } => acp_seid == seid,
        MessageModel::AbortCommand { acp_seid } => acp_seid == seid,
        _ => false,
    }
}

/// The state that a command takes a stream to from another one, if the command
/// is for streams in that state.
pub open spec fn next_state(m: MessageModel, from: StreamState) -> Option<StreamState> {
    match (m, from) {
        (MessageModel::SetConfigurationCommand { .. }, StreamState::Idle) => Some(
            StreamState::Configured,
        ),
        (MessageModel::ReconfigureCommand { .. }, StreamState::Open) => Some(StreamState::Open),
        (MessageModel::OpenCommand { .. }, StreamState::Configured) => Some(StreamState::Open),
        (MessageModel::StartCommand { .. }, StreamState::Open) => Some(StreamState::Streaming),
        (MessageModel::SuspendCommand { .. }, StreamState::Streaming) => Some(StreamState::Open),
        (MessageModel::CloseCommand { .. }, StreamState::Open) => Some(StreamState::Idle),
        (MessageModel::CloseCommand { .. }, StreamState::Streaming) => Some(StreamState::Idle),
        (MessageModel::AbortCommand { .. }, _) => Some(StreamState::Idle),
        _ => None,
    }
}

/// A command that is accepted takes each endpoint that it names to the next
/// state of the stream state machine: from idle to configured, from configured
/// to open, between open and streaming, and back to idle. It leaves every
/// other endpoint as it is. A command that is refused leaves all as they are,
/// and so does one that names no endpoint in particular.
pub proof fn law_streams_follow_the_state_machine(
    local: Seq<LocalModel>,
    m: MessageModel,
    seid: u8,
)
    requires
        state::known(local, seid),
    ensures
        match state::handled(local, m) {
            Some(h) => {
                let before = state::at(local, seid);
                let after = state::at(h.local, seid);
                &&& h.local.len() == local.len()
                &&& if names(m, seid) && h.response.kind() == MessageType::ResponseAccept {
                    next_state(m, before.state) == Some(after.state)
                } else {
                    after == before
                }
            },
            None => true,
        },
{
    match m {
        MessageModel::StartCommand { acp_seids } => {
            lemma_states_keep_len(local, acp_seids, StreamState::Streaming);
            lemma_states_change(local, acp_seids, StreamState::Streaming, seid);
            if acp_seids.contains(seid) {
                let i = choose|i: int| 0 <= i < acp_seids.len() && acp_seids[i] == seid;
                law_start_and_suspend_are_all_or_nothing(local, acp_seids, i);
            }
        },
        MessageModel::SuspendCommand { acp_seids } => {
            lemma_states_keep_len(local, acp_seids, StreamState::Open);
            lemma_states_change(local, acp_seids, StreamState::Open, seid);
            if acp_seids.contains(seid) {
                let i = choose|i: int| 0 <= i < acp_seids.len() && acp_seids[i] == seid;
                law_start_and_suspend_are_all_or_nothing(local, acp_seids, i);
            }
        },
        _ => {},
    }
}

/// A command for streams is accepted exactly if every endpoint that it names
/// is there and in a state that the command is for. (An abort is accepted in
/// any case: see [`law_abort_is_accepted`].)
pub proof fn law_state_machine_decides(local: Seq<LocalModel>, m: MessageModel)
    requires
        m is SetConfigurationCommand || m is ReconfigureCommand || m is OpenCommand
            || m is StartCommand || m is SuspendCommand || m is CloseCommand,
    ensures
        match state::handled(local, m) {
            Some(h) => h.response.kind() == MessageType::ResponseAccept <==> forall|seid: u8|
                #[trigger] names(m, seid) ==> state::known(local, seid) && next_state(
                    m,
                    state::at(local, seid).state,
                ) is Some,
            None => false,
        },
{
    match m {
        MessageModel::StartCommand { acp_seids } => {
            lemma_refused(local, acp_seids, StreamState::Open, 0);
            lemma_named(m, acp_seids);
        },
        MessageModel::SuspendCommand { acp_seids } => {
            lemma_refused(local, acp_seids, StreamState::Streaming, 0);
            lemma_named(m, acp_seids);
        },
        MessageModel::SetConfigurationCommand { acp_seid, .. } => {
            assert(names(m, acp_seid));
        },
        MessageModel::ReconfigureCommand { acp_seid, .. } => {
            assert(names(m, acp_seid));
        },
        MessageModel::OpenCommand { acp_seid } => {
            assert(names(m, acp_seid));
        },
        MessageModel::CloseCommand { acp_seid } => {
            assert(names(m, acp_seid));
        },
        _ => {},
    }
}

/// The endpoints in a list are named.
proof fn lemma_named(m: MessageModel, seids: Seq<u8>)
    requires
        m == (MessageModel::StartCommand { acp_seids: seids }) || m == (
        MessageModel::SuspendCommand { acp_seids: seids }),
    ensures
        forall|i: int| 0 <= i < seids.len() ==> names(m, #[trigger] seids[i]),
{
    assert forall|i: int| 0 <= i < seids.len() implies names(m, #[trigger] seids[i]) by {
        assert(seids.contains(seids[i]));
    }
}

/// None is refused exactly if all of them are endpoints in the state.
proof fn lemma_refused(local: Seq<LocalModel>, seids: Seq<u8>, expected: StreamState, from: int)
    requires
        0 <= from <= seids.len(),
    ensures
        state::first_refused(local, seids, expected, from) is None <==> forall|i: int|
            from <= i < seids.len() ==> state::known(local, #[trigger] seids[i]) && state::at(
                local,
                seids[i],
            ).state == expected,
    decreases seids.len() - from,
{
    if from < seids.len() {
        lemma_refused(local, seids, expected, from + 1);
    }
}

/// Setting states changes no endpoint that is not in the list.
proof fn lemma_states_change(
    local: Seq<LocalModel>,
    seids: Seq<u8>,
    state: StreamState,
    seid: u8,
)
    requires
        state::known(local, seid),
    ensures
        !seids.contains(seid) ==> state::at(state::with_states(local, seids, state), seid)
            == state::at(local, seid),
    decreases seids.len(),
{
    if seids.len() > 0 {
        let front = seids.drop_last();
        lemma_states_keep_len(local, front, state);
        lemma_states_change(local, front, state, seid);
        if !seids.contains(seid) {
            assert(seids[seids.len() - 1] != seid);
            if front.contains(seid) {
                let i = choose|i: int| 0 <= i < front.len() && front[i] == seid;
                assert(seids[i] == seid);
            }
        }
    }
}

/// Whether an endpoint is the one, or one of those, that a pending command is
/// to change.
pub open spec fn concerns(pending: PendingModel, seid: u8) -> bool {
    match pending {
        PendingModel::SetConfiguration { int_seid, .. } => int_seid == seid,
        PendingModel::Reconfigure { int_seid, .. } => int_seid == seid,
        PendingModel::Open { int_seid } => int_seid == seid,
        PendingModel::Start { int_seids } => int_seids.contains(seid),
        PendingModel::Suspend { int_seids } => int_seids.contains(seid),
        PendingModel::Close { int_seid } => int_seid == seid,
        PendingModel::Abort { int_seid } => int_seid == seid,
        _ => false,
    }
}

/// The state that an endpoint is in when the peer has accepted a pending
/// command, if the command is to change it.
pub open spec fn target_state(pending: PendingModel, before: StreamState) -> StreamState {
    match pending {
        PendingModel::SetConfiguration { .. } => StreamState::Configured,
        PendingModel::Open { .. } => StreamState::Open,
        PendingModel::Start { .. } => StreamState::Streaming,
        PendingModel::Suspend { .. } => StreamState::Open,
        PendingModel::Close { .. } => StreamState::Idle,
        PendingModel::Abort { .. } => StreamState::Idle,
        _ => before,
    }
}

/// An answer from the peer changes only endpoints that the command which it
/// answers is to change, and takes each to the state that the command is for,
/// or leaves it as it is.
pub proof fn law_answers_change_only_their_streams(p: ProtocolModel, m: AssembledModel, seid: u8)
    requires
        state::known(p.local, seid),
    ensures
        ({
            let before = state::at(p.local, seid);
            let after = state::at(state::on_response(p, m).0.local, seid);
            let label = m.transaction_label;
            after != before ==> p.pending.contains_key(label) && concerns(p.pending[label], seid)
                && after.state == target_state(p.pending[label], before.state)
        }),
{
    if p.pending.contains_key(m.transaction_label) {
        match p.pending[m.transaction_label] {
            PendingModel::Start { int_seids } => {
                lemma_states_change(p.local, int_seids, StreamState::Streaming, seid);
                if int_seids.contains(seid) {
                    let i = choose|i: int| 0 <= i < int_seids.len() && int_seids[i] == seid;
                    lemma_states_set(p.local, int_seids, StreamState::Streaming, i);
                }
            },
            PendingModel::Suspend { int_seids } => {
                lemma_states_change(p.local, int_seids, StreamState::Open, seid);
                if int_seids.contains(seid) {
                    let i = choose|i: int| 0 <= i < int_seids.len() && int_seids[i] == seid;
                    lemma_states_set(p.local, int_seids, StreamState::Open, i);
                }
            },
            _ => {},
        }
    }
}

// ---------------------------------------------------------------------------
// Endpoints
// ---------------------------------------------------------------------------

/// What holds of local endpoints: their SEIDs are contiguous from 1, and none
/// is closing or aborting.
pub open spec fn sound(local: Seq<LocalModel>) -> bool {
    forall|i: int|
        0 <= i < local.len() ==> (#[trigger] local[i]).seid == i + 1 && local[i].state
            != StreamState::Closing && local[i].state != StreamState::Aborting
}

/// A new endpoint gets the next SEID.
pub proof fn law_seids_are_contiguous(local: Seq<LocalModel>, e: LocalModel)
    requires
        sound(local),
        local.len() < 255,
        e.seid == local.len() + 1,
        e.state == StreamState::Idle,
    ensures
        sound(local.push(e)),
        state::known(local.push(e), e.seid),
        state::at(local.push(e), e.seid) == e,
{
}

proof fn lemma_states_stay_sound(local: Seq<LocalModel>, seids: Seq<u8>, state: StreamState)
    requires
        sound(local),
        state != StreamState::Closing,
        state != StreamState::Aborting,
    ensures
        sound(state::with_states(local, seids, state)),
    decreases seids.len(),
{
    if seids.len() > 0 {
        lemma_states_stay_sound(local, seids.drop_last(), state);
    }
}

proof fn lemma_set_configuration_sound(
    local: Seq<LocalModel>,
    acp_seid: u8,
    int_seid: u8,
    c: Seq<CapabilityModel>,
)
    requires
        sound(local),
    ensures
        sound(state::on_set_configuration(local, acp_seid, int_seid, c).local),
        state::on_set_configuration(local, acp_seid, int_seid, c).local.len() == local.len(),
{
}

proof fn lemma_reconfigure_sound(local: Seq<LocalModel>, acp_seid: u8, c: Seq<CapabilityModel>)
    requires
        sound(local),
    ensures
        sound(state::on_reconfigure(local, acp_seid, c).local),
        state::on_reconfigure(local, acp_seid, c).local.len() == local.len(),
{
}

proof fn lemma_open_sound(local: Seq<LocalModel>, acp_seid: u8)
    requires
        sound(local),
    ensures
        sound(state::on_open(local, acp_seid).local),
        state::on_open(local, acp_seid).local.len() == local.len(),
{
}

proof fn lemma_close_sound(local: Seq<LocalModel>, acp_seid: u8)
    requires
        sound(local),
    ensures
        sound(state::on_close(local, acp_seid).local),
        state::on_close(local, acp_seid).local.len() == local.len(),
{
}

proof fn lemma_abort_sound(local: Seq<LocalModel>, acp_seid: u8)
    requires
        sound(local),
    ensures
        sound(state::on_abort(local, acp_seid).local),
        state::on_abort(local, acp_seid).local.len() == local.len(),
{
}

/// Commands from the peer keep the SEIDs of the local endpoints, and closing
/// and aborting lead straight to idle.
pub proof fn law_commands_keep_endpoints_sound(local: Seq<LocalModel>, m: MessageModel)
    requires
        sound(local),
    ensures
        match state::handled(local, m) {
            Some(h) => sound(h.local) && h.local.len() == local.len(),
            None => true,
        },
{
    match m {
        MessageModel::StartCommand { acp_seids } => {
            lemma_states_stay_sound(local, acp_seids, StreamState::Streaming);
            lemma_states_keep_len(local, acp_seids, StreamState::Streaming);
        },
        MessageModel::SuspendCommand { acp_seids } => {
            lemma_states_stay_sound(local, acp_seids, StreamState::Open);
            lemma_states_keep_len(local, acp_seids, StreamState::Open);
        },
        MessageModel::SetConfigurationCommand { acp_seid, int_seid, capabilities } => {
            lemma_set_configuration_sound(local, acp_seid, int_seid, capabilities);
        },
        MessageModel::ReconfigureCommand { acp_seid, capabilities } => {
            lemma_reconfigure_sound(local, acp_seid, capabilities);
        },
        MessageModel::OpenCommand { acp_seid } => {
            lemma_open_sound(local, acp_seid);
        },
        MessageModel::CloseCommand { acp_seid } => {
            lemma_close_sound(local, acp_seid);
        },
        MessageModel::AbortCommand { acp_seid } => {
            lemma_abort_sound(local, acp_seid);
        },
        _ => {
            lemma_others_keep_endpoints(local, m);
        },
    }
}

proof fn lemma_others_keep_endpoints(local: Seq<LocalModel>, m: MessageModel)
    requires
        !(m is StartCommand),
        !(m is SuspendCommand),
        !(m is SetConfigurationCommand),
        !(m is ReconfigureCommand),
        !(m is OpenCommand),
        !(m is CloseCommand),
        !(m is AbortCommand),
    ensures
        match state::handled(local, m) {
            Some(h) => h.local == local,
            None => true,
        },
{
}

/// So do answers from the peer.
pub proof fn law_answers_keep_endpoints_sound(p: ProtocolModel, m: AssembledModel)
    requires
        sound(p.local),
    ensures
        sound(state::on_response(p, m).0.local),
        state::on_response(p, m).0.local.len() == p.local.len(),
{
    if p.pending.contains_key(m.transaction_label) {
        match p.pending[m.transaction_label] {
            PendingModel::Start { int_seids } => {
                lemma_states_stay_sound(p.local, int_seids, StreamState::Streaming);
                lemma_states_keep_len(p.local, int_seids, StreamState::Streaming);
            },
            PendingModel::Suspend { int_seids } => {
                lemma_states_stay_sound(p.local, int_seids, StreamState::Open);
                lemma_states_keep_len(p.local, int_seids, StreamState::Open);
            },
            _ => {},
        }
    }
}

proof fn lemma_replaced(
    configuration: Seq<CapabilityModel>,
    c: CapabilityModel,
    from: int,
    i: int,
)
    requires
        0 <= from,
        0 <= i < configuration.len(),
        configuration[i].service_category != c.service_category,
    ensures
        state::replaced(configuration, c, from).len() >= configuration.len(),
        state::replaced(configuration, c, from)[i] == configuration[i],
    decreases configuration.len() - from,
{
    if from < configuration.len() && configuration[from].service_category != c.service_category {
        lemma_replaced(configuration, c, from + 1, i);
    }
}

/// Changing a configuration leaves the categories that are not given as they
/// are.
pub proof fn law_reconfiguration_keeps_other_categories(
    configuration: Seq<CapabilityModel>,
    capabilities: Seq<CapabilityModel>,
    i: int,
)
    requires
        0 <= i < configuration.len(),
        forall|j: int|
            0 <= j < capabilities.len() ==> (#[trigger] capabilities[j]).service_category
                != configuration[i].service_category,
    ensures
        state::reconfigured(configuration, capabilities).len() >= configuration.len(),
        state::reconfigured(configuration, capabilities)[i] == configuration[i],
    decreases capabilities.len(),
{
    if capabilities.len() > 0 {
        let before = capabilities.drop_last();
        assert forall|j: int| 0 <= j < before.len() implies (
        #[trigger] before[j]).service_category != configuration[i].service_category by {
            assert(before[j] == capabilities[j]);
        }
        law_reconfiguration_keeps_other_categories(configuration, before, i);
        lemma_replaced(state::reconfigured(configuration, before), capabilities.last(), 0, i);
    }
}

// ---------------------------------------------------------------------------
// Streams
// ---------------------------------------------------------------------------

/// What two connections become when one sends a command and the other answers
/// it, with the answer of the other: the endpoints of the side that answers,
/// and the connection that asked.
pub open spec fn exchanged(
    b: Seq<LocalModel>,
    a: ProtocolModel,
    pending: PendingModel,
    command: MessageModel,
) -> (Seq<LocalModel>, (ProtocolModel, Seq<EventModel>)) {
    let h = state::handled(b, command)->0;
    (h.local, state::accepted(a, pending, h.response))
}

/// Configuring an idle endpoint configures both sides: each knows the other's
/// SEID, with the same configuration.
pub proof fn law_both_sides_are_configured(
    b: Seq<LocalModel>,
    a: ProtocolModel,
    acp_seid: u8,
    int_seid: u8,
    capabilities: Seq<CapabilityModel>,
)
    requires
        state::known(b, acp_seid),
        state::at(b, acp_seid).state == StreamState::Idle,
        state::known(a.local, int_seid),
    ensures
        ({
            let (theirs, (ours, events)) = exchanged(
                b,
                a,
                PendingModel::SetConfiguration { acp_seid, int_seid, capabilities },
                MessageModel::SetConfigurationCommand { acp_seid, int_seid, capabilities },
            );
            let e = state::at(theirs, acp_seid);
            let f = state::at(ours.local, int_seid);
            &&& events == seq![EventModel::StreamConfigured { seid: int_seid }]
            &&& e.state == StreamState::Configured && f.state == StreamState::Configured
            &&& e.remote_seid == Some(int_seid) && f.remote_seid == Some(acp_seid)
            &&& e.configuration == capabilities && f.configuration == capabilities
        }),
{
}

/// Opening a configured stream opens both sides.
pub proof fn law_both_sides_are_opened(
    b: Seq<LocalModel>,
    a: ProtocolModel,
    acp_seid: u8,
    int_seid: u8,
)
    requires
        state::known(b, acp_seid),
        state::at(b, acp_seid).state == StreamState::Configured,
        state::known(a.local, int_seid),
    ensures
        ({
            let (theirs, (ours, events)) = exchanged(
                b,
                a,
                PendingModel::Open { int_seid },
                MessageModel::OpenCommand { acp_seid },
            );
            &&& events == seq![EventModel::StreamOpened { seid: int_seid }]
            &&& state::at(theirs, acp_seid).state == StreamState::Open
            &&& state::at(ours.local, int_seid).state == StreamState::Open
        }),
{
}

/// Starting an open stream starts both sides.
pub proof fn law_both_sides_are_started(
    b: Seq<LocalModel>,
    a: ProtocolModel,
    acp_seid: u8,
    int_seid: u8,
)
    requires
        state::known(b, acp_seid),
        state::at(b, acp_seid).state == StreamState::Open,
        state::known(a.local, int_seid),
    ensures
        ({
            let (theirs, (ours, events)) = exchanged(
                b,
                a,
                PendingModel::Start { int_seids: seq![int_seid] },
                MessageModel::StartCommand { acp_seids: seq![acp_seid] },
            );
            &&& events == seq![EventModel::StreamStarted { seid: int_seid }]
            &&& state::at(theirs, acp_seid).state == StreamState::Streaming
            &&& state::at(ours.local, int_seid).state == StreamState::Streaming
        }),
{
    reveal_with_fuel(state::first_refused, 2);
    lemma_states_set(b, seq![acp_seid], StreamState::Streaming, 0);
    lemma_states_set(a.local, seq![int_seid], StreamState::Streaming, 0);
    assert(state::starts(seq![int_seid]) =~= seq![EventModel::StreamStarted { seid: int_seid }]);
}

/// Suspending a stream leaves both sides open.
pub proof fn law_both_sides_are_suspended(
    b: Seq<LocalModel>,
    a: ProtocolModel,
    acp_seid: u8,
    int_seid: u8,
)
    requires
        state::known(b, acp_seid),
        state::at(b, acp_seid).state == StreamState::Streaming,
        state::known(a.local, int_seid),
    ensures
        ({
            let (theirs, (ours, events)) = exchanged(
                b,
                a,
                PendingModel::Suspend { int_seids: seq![int_seid] },
                MessageModel::SuspendCommand { acp_seids: seq![acp_seid] },
            );
            &&& events == seq![EventModel::StreamSuspended { seid: int_seid }]
            &&& state::at(theirs, acp_seid).state == StreamState::Open
            &&& state::at(ours.local, int_seid).state == StreamState::Open
        }),
{
    reveal_with_fuel(state::first_refused, 2);
    lemma_states_set(b, seq![acp_seid], StreamState::Open, 0);
    lemma_states_set(a.local, seq![int_seid], StreamState::Open, 0);
    assert(state::suspensions(seq![int_seid]) =~= seq![
        EventModel::StreamSuspended { seid: int_seid },
    ]);
}

/// Closing a stream leaves both sides idle and without a peer, ready to be
/// configured again.
pub proof fn law_both_sides_are_closed(
    b: Seq<LocalModel>,
    a: ProtocolModel,
    acp_seid: u8,
    int_seid: u8,
)
    requires
        state::known(b, acp_seid),
        state::at(b, acp_seid).state == StreamState::Open || state::at(b, acp_seid).state
            == StreamState::Streaming,
        state::known(a.local, int_seid),
    ensures
        ({
            let (theirs, (ours, events)) = exchanged(
                b,
                a,
                PendingModel::Close { int_seid },
                MessageModel::CloseCommand { acp_seid },
            );
            let e = state::at(theirs, acp_seid);
            let f = state::at(ours.local, int_seid);
            &&& events == seq![EventModel::StreamClosed { seid: int_seid }]
            &&& e.state == StreamState::Idle && f.state == StreamState::Idle
            &&& e.remote_seid is None && f.remote_seid is None
        }),
{
}

// ---------------------------------------------------------------------------
// Packets
// ---------------------------------------------------------------------------

/// What a connection does with packets, one after the other.
pub open spec fn fed(p: ProtocolModel, packets: Seq<Seq<u8>>) -> Step
    decreases packets.len(),
{
    if packets.len() == 0 {
        state::idle(p)
    } else {
        let first = state::on_packet(p, packets[0]);
        let rest = fed(first.state, packets.skip(1));
        Step {
            state: rest.state,
            outgoing: first.outgoing + rest.outgoing,
            events: first.events + rest.events,
        }
    }
}

/// What a connection does with a message that was put together.
pub open spec fn on_message(p: ProtocolModel, m: AssembledModel) -> Step {
    if m.message_type == MessageType::Command {
        state::on_command(p, m)
    } else {
        let (after, events) = state::on_response(p, m);
        Step { state: after, outgoing: seq![], events }
    }
}

proof fn lemma_fed(p: ProtocolModel, packets: Seq<Seq<u8>>, m: AssembledModel)
    requires
        assembler::feed(p.assembler, packets) == (assembler::idle_assembler(), seq![m]),
        packets.len() > 0,
        forall|n: int|
            0 <= n < packets.len() ==> (#[trigger] assembler::feed(
                p.assembler,
                packets.take(n),
            )).1.len() == 0,
    ensures
        fed(p, packets) == on_message(
            ProtocolModel { assembler: assembler::idle_assembler(), ..p },
            m,
        ),
    decreases packets.len(),
{
    let (next, completed) = assembler::assemble(p.assembler, packets[0]);
    let rest = packets.skip(1);
    let first = state::on_packet(p, packets[0]);
    let (last, messages) = assembler::feed(next, rest);
    if packets.len() == 1 {
        assert(rest =~= seq![]);
        assert(messages =~= seq![]);
        match completed {
            Some(c) => {
                assert((seq![c] + messages)[0] == c);
            },
            None => {
                assert(messages.len() == 1);
            },
        }
        assert(completed == Some(m));
        assert(next == assembler::idle_assembler());
        assert(first.outgoing + fed(first.state, rest).outgoing =~= first.outgoing);
        assert(first.events + fed(first.state, rest).events =~= first.events);
    } else {
        reveal_with_fuel(assembler::feed, 2);
        assert(packets.take(1)[0] == packets[0]);
        assert(packets.take(1).skip(1) =~= seq![]);
        assert(assembler::feed(p.assembler, packets.take(1)).1.len() == 0);
        assert(completed is None);
        let q = ProtocolModel { assembler: next, ..p };
        assert forall|n: int| 0 <= n < rest.len() implies (#[trigger] assembler::feed(
            q.assembler,
            rest.take(n),
        )).1.len() == 0 by {
            assert(packets.take(n + 1)[0] == packets[0]);
            assert(packets.take(n + 1).skip(1) =~= rest.take(n));
            assert(assembler::feed(p.assembler, packets.take(n + 1)).1.len() == 0);
        }
        lemma_fed(q, rest, m);
        assert(first.outgoing + fed(q, rest).outgoing =~= fed(q, rest).outgoing);
        assert(first.events + fed(q, rest).events =~= fed(q, rest).events);
    }
}

/// A message arrives: its packets make the peer do what the message asks for
/// once the last of them is there, and nothing before. Where the message is
/// cut, the packets have to be counted from one, their number has to fit its
/// byte, and there has to be room for a start packet.
pub proof fn law_message_arrives(p: ProtocolModel, label: u8, m: MessageModel, peer_mtu: u16)
    requires
        label < 0x10,
        m.signal() < 0x40,
        assembler::deliverable(m, peer_mtu),
    ensures
        fed(p, assembler::message_packets(label, m, peer_mtu)) == on_message(
            ProtocolModel { assembler: assembler::idle_assembler(), ..p },
            assembler::assembled(label, m),
        ),
{
    let packets = assembler::message_packets(label, m, peer_mtu);
    assembler::law_reassembly(p.assembler, label, m, peer_mtu);
    assert forall|n: int| 0 <= n < packets.len() implies (#[trigger] assembler::feed(
        p.assembler,
        packets.take(n),
    )).1.len() == 0 by {
        assembler::law_nothing_completes_early(p.assembler, label, m, peer_mtu, n);
    }
    lemma_fed(p, packets, assembler::assembled(label, m));
}

/// A command that arrives is read as it was sent.
pub proof fn law_command_arrives(p: ProtocolModel, label: u8, m: MessageModel)
    requires
        message::fits(m),
        m.kind() == MessageType::Command,
    ensures
        match state::handled(p.local, m) {
            Some(h) => on_message(p, assembler::assembled(label, m)) == (Step {
                state: ProtocolModel { local: h.local, ..p },
                outgoing: assembler::message_packets(label, h.response, p.peer_mtu),
                events: h.events,
            }),
            None => false,
        },
{
    message::law_message_round_trip(m);
    law_commands_are_answered(p.local, m);
}

/// An accepting answer that arrives is read as it was sent.
pub proof fn law_answer_arrives(p: ProtocolModel, label: u8, m: MessageModel)
    requires
        message::fits(m),
        m.kind() == MessageType::ResponseAccept,
        p.pending.contains_key(label),
        m.signal() == state::pending_signal(p.pending[label], p.version),
    ensures
        state::on_response(p, assembler::assembled(label, m)) == state::accepted(
            ProtocolModel { pending: p.pending.remove(label), ..p },
            p.pending[label],
            m,
        ),
{
    message::law_message_round_trip(m);
}

} // verus!
