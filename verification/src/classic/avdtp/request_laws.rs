//! What the requests of this side send, and when they are refused.

use vstd::prelude::*;
use crate::classic::avdtp::assembler;
use crate::classic::avdtp::capability;
use crate::classic::avdtp::capability::{
    CapabilityModel,
    CodecModel,
    MediaType,
    StreamEndPointType,
};
use crate::classic::avdtp::message::MessageModel;
use crate::classic::avdtp::protocol;
use crate::classic::avdtp::state;
use crate::classic::avdtp::state::{LocalModel, PendingModel, ProtocolModel, StreamState};
use crate::types::SimbleErrorModel;

verus! {

/// What a request comes to: the connection, and the packets or the error.
pub type Outcome = (ProtocolModel, Result<Seq<Seq<u8>>, SimbleErrorModel>);

/// Whether the next label is free, and a payload of a size fits in one packet.
pub open spec fn can_send(p: ProtocolModel, size: int) -> bool {
    &&& p.next_transaction < 16
    &&& !p.pending.contains_key(p.next_transaction)
    &&& size + 2 <= p.peer_mtu
}

/// Whether a request sends one command, under the next label, and keeps what it
/// is to bring about. Nothing else changes.
pub open spec fn sends(
    p: ProtocolModel,
    r: Outcome,
    signal: u8,
    payload: Seq<u8>,
    pending: PendingModel,
) -> bool {
    let label = p.next_transaction;
    &&& r.1 == Ok::<Seq<Seq<u8>>, SimbleErrorModel>(
        seq![seq![(label * 16) as u8, signal] + payload],
    )
    &&& r.0 == (ProtocolModel {
        pending: p.pending.insert(label, pending),
        next_transaction: ((label + 1) % 16) as u8,
        ..p
    })
}

/// Whether a request is an error and changes nothing.
pub open spec fn refuses(p: ProtocolModel, r: Outcome) -> bool {
    r.1 is Err && r.0 == p
}

/// A message that fits is sent in one packet.
proof fn lemma_sent(
    p: ProtocolModel,
    pending: PendingModel,
    m: MessageModel,
    signal: u8,
    payload: Seq<u8>,
)
    requires
        can_send(p, payload.len() as int),
        m.signal() == signal,
        m.kind().bits() == 0,
        m.payload() =~= payload,
    ensures
        sends(p, state::sent(p, pending, m), signal, payload, pending),
{
    let label = p.next_transaction;
    assert(state::free_label(p, 0) == Some(label));
    assert(assembler::message_packets(label, m, p.peer_mtu) =~= seq![
        seq![(label * 16) as u8, signal] + payload,
    ]);
}

/// Whether the first local endpoint with a peer is at a place.
pub open spec fn streams_at(p: ProtocolModel, remote: u8, i: int) -> bool {
    &&& 0 <= i < p.local.len()
    &&& p.local[i].remote_seid == Some(remote)
    &&& forall|j: int| 0 <= j < i ==> (#[trigger] p.local[j]).remote_seid != Some(remote)
}

proof fn lemma_stream_at(p: ProtocolModel, remote: u8, i: int, from: int)
    requires
        streams_at(p, remote, i),
        0 <= from <= i,
    ensures
        state::stream_with(p.local, remote, from) == Some(p.local[i]),
    decreases i - from,
{
    if from < i {
        assert(p.local[from].remote_seid != Some(remote));
        lemma_stream_at(p, remote, i, from + 1);
    }
}

proof fn lemma_no_stream(p: ProtocolModel, remote: u8, from: int)
    requires
        0 <= from,
        forall|j: int|
            0 <= j < p.local.len() ==> (#[trigger] p.local[j]).remote_seid != Some(remote),
    ensures
        state::stream_with(p.local, remote, from) is None,
    decreases p.local.len() - from,
{
    if from < p.local.len() {
        assert(p.local[from].remote_seid != Some(remote));
        lemma_no_stream(p, remote, from + 1);
    }
}

/// A stream that is configured can be opened, and no other.
#[verifier::rlimit(50)]
pub proof fn law_open_is_sent(p: ProtocolModel, remote: u8, i: int)
    requires
        can_send(p, 1),
        remote < 64,
        streams_at(p, remote, i),
    ensures
        ({
            let e = p.local[i];
            let r = state::open_stream(p, remote);
            if e.state == StreamState::Configured {
                sends(p, r, 0x06, seq![(remote * 4) as u8], PendingModel::Open { int_seid: e.seid })
            } else {
                refuses(p, r)
            }
        }),
{
    let e = p.local[i];
    lemma_stream_at(p, remote, i, 0);
    let states = seq![StreamState::Configured];
    assert(states[0] == StreamState::Configured);
    assert(states.contains(e.state) ==> exists|k: int|
        0 <= k < states.len() && states[k] == e.state);
    if e.state == StreamState::Configured {
        lemma_sent(
            p,
            PendingModel::Open { int_seid: e.seid },
            MessageModel::OpenCommand { acp_seid: remote },
            0x06,
            seq![(remote * 4) as u8],
        );
    }
}

/// A stream that is open or runs can be closed, and no other.
#[verifier::rlimit(50)]
pub proof fn law_close_is_sent(p: ProtocolModel, remote: u8, i: int)
    requires
        can_send(p, 1),
        remote < 64,
        streams_at(p, remote, i),
    ensures
        ({
            let e = p.local[i];
            let r = state::close(p, remote);
            if e.state == StreamState::Open || e.state == StreamState::Streaming {
                sends(
                    p,
                    r,
                    0x08,
                    seq![(remote * 4) as u8],
                    PendingModel::Close { int_seid: e.seid },
                )
            } else {
                refuses(p, r)
            }
        }),
{
    let e = p.local[i];
    lemma_stream_at(p, remote, i, 0);
    let states = seq![StreamState::Open, StreamState::Streaming];
    assert(states[0] == StreamState::Open);
    assert(states[1] == StreamState::Streaming);
    assert(states.contains(e.state) ==> exists|k: int|
        0 <= k < states.len() && states[k] == e.state);
    if e.state == StreamState::Open || e.state == StreamState::Streaming {
        lemma_sent(
            p,
            PendingModel::Close { int_seid: e.seid },
            MessageModel::CloseCommand { acp_seid: remote },
            0x08,
            seq![(remote * 4) as u8],
        );
    }
}

/// A stream that is configured, open or runs can be aborted, and no other.
#[verifier::rlimit(50)]
pub proof fn law_abort_is_sent(p: ProtocolModel, remote: u8, i: int)
    requires
        can_send(p, 1),
        remote < 64,
        streams_at(p, remote, i),
    ensures
        ({
            let e = p.local[i];
            let r = state::abort(p, remote);
            if e.state == StreamState::Configured || e.state == StreamState::Open || e.state
                == StreamState::Streaming {
                sends(
                    p,
                    r,
                    0x0A,
                    seq![(remote * 4) as u8],
                    PendingModel::Abort { int_seid: e.seid },
                )
            } else {
                refuses(p, r)
            }
        }),
{
    let e = p.local[i];
    lemma_stream_at(p, remote, i, 0);
    let states = seq![StreamState::Configured, StreamState::Open, StreamState::Streaming];
    assert(states[0] == StreamState::Configured);
    assert(states[1] == StreamState::Open);
    assert(states[2] == StreamState::Streaming);
    assert(states.contains(e.state) ==> exists|k: int|
        0 <= k < states.len() && states[k] == e.state);
    if e.state == StreamState::Configured || e.state == StreamState::Open || e.state
        == StreamState::Streaming {
        lemma_sent(
            p,
            PendingModel::Abort { int_seid: e.seid },
            MessageModel::AbortCommand { acp_seid: remote },
            0x0A,
            seq![(remote * 4) as u8],
        );
    }
}

/// A stream that is open can be started, and no other.
#[verifier::rlimit(50)]
pub proof fn law_start_is_sent(p: ProtocolModel, remote: u8, i: int)
    requires
        can_send(p, 1),
        remote < 64,
        streams_at(p, remote, i),
    ensures
        ({
            let e = p.local[i];
            let r = state::start(p, seq![remote]);
            if e.state == StreamState::Open {
                sends(
                    p,
                    r,
                    0x07,
                    seq![(remote * 4) as u8],
                    PendingModel::Start { int_seids: seq![e.seid] },
                )
            } else {
                refuses(p, r)
            }
        }),
{
    let e = p.local[i];
    lemma_stream_at(p, remote, i, 0);
    let states = seq![StreamState::Open];
    assert(states[0] == StreamState::Open);
    assert(states.contains(e.state) ==> exists|k: int|
        0 <= k < states.len() && states[k] == e.state);
    reveal_with_fuel(state::required_streams, 2);
    assert(seq![remote].drop_last() =~= seq![]);
    assert(Seq::<u8>::empty().push(e.seid) =~= seq![e.seid]);
    if e.state == StreamState::Open {
        lemma_sent(
            p,
            PendingModel::Start { int_seids: seq![e.seid] },
            MessageModel::StartCommand { acp_seids: seq![remote] },
            0x07,
            seq![(remote * 4) as u8],
        );
    }
}

/// A stream that runs can be suspended, and no other.
#[verifier::rlimit(50)]
pub proof fn law_suspend_is_sent(p: ProtocolModel, remote: u8, i: int)
    requires
        can_send(p, 1),
        remote < 64,
        streams_at(p, remote, i),
    ensures
        ({
            let e = p.local[i];
            let r = state::suspend(p, seq![remote]);
            if e.state == StreamState::Streaming {
                sends(
                    p,
                    r,
                    0x09,
                    seq![(remote * 4) as u8],
                    PendingModel::Suspend { int_seids: seq![e.seid] },
                )
            } else {
                refuses(p, r)
            }
        }),
{
    let e = p.local[i];
    lemma_stream_at(p, remote, i, 0);
    let states = seq![StreamState::Streaming];
    assert(states[0] == StreamState::Streaming);
    assert(states.contains(e.state) ==> exists|k: int|
        0 <= k < states.len() && states[k] == e.state);
    reveal_with_fuel(state::required_streams, 2);
    assert(seq![remote].drop_last() =~= seq![]);
    assert(Seq::<u8>::empty().push(e.seid) =~= seq![e.seid]);
    if e.state == StreamState::Streaming {
        lemma_sent(
            p,
            PendingModel::Suspend { int_seids: seq![e.seid] },
            MessageModel::SuspendCommand { acp_seids: seq![remote] },
            0x09,
            seq![(remote * 4) as u8],
        );
    }
}

/// An open stream can be reconfigured, and no other.
#[verifier::rlimit(50)]
pub proof fn law_reconfiguration_is_sent(
    p: ProtocolModel,
    remote: u8,
    i: int,
    capabilities: Seq<CapabilityModel>,
)
    requires
        can_send(p, 1 + capability::capability_list_bytes(capabilities).len() as int),
        remote < 64,
        streams_at(p, remote, i),
    ensures
        ({
            let e = p.local[i];
            let r = state::reconfigure(p, remote, capabilities);
            if e.state == StreamState::Open {
                sends(
                    p,
                    r,
                    0x05,
                    seq![(remote * 4) as u8] + capability::capability_list_bytes(capabilities),
                    PendingModel::Reconfigure { int_seid: e.seid, capabilities },
                )
            } else {
                refuses(p, r)
            }
        }),
{
    let e = p.local[i];
    lemma_stream_at(p, remote, i, 0);
    let states = seq![StreamState::Open];
    assert(states[0] == StreamState::Open);
    if e.state == StreamState::Open {
        lemma_sent(
            p,
            PendingModel::Reconfigure { int_seid: e.seid, capabilities },
            MessageModel::ReconfigureCommand { acp_seid: remote, capabilities },
            0x05,
            seq![(remote * 4) as u8] + capability::capability_list_bytes(capabilities),
        );
    }
}

/// Nothing can be asked of a peer that no local endpoint streams with.
#[verifier::rlimit(50)]
pub proof fn law_requests_need_a_stream(
    p: ProtocolModel,
    remote: u8,
    capabilities: Seq<CapabilityModel>,
)
    requires
        forall|j: int|
            0 <= j < p.local.len() ==> (#[trigger] p.local[j]).remote_seid != Some(remote),
    ensures
        refuses(p, state::open_stream(p, remote)),
        refuses(p, state::close(p, remote)),
        refuses(p, state::abort(p, remote)),
        refuses(p, state::reconfigure(p, remote, capabilities)),
        refuses(p, state::start(p, seq![remote])),
        refuses(p, state::suspend(p, seq![remote])),
{
    lemma_no_stream(p, remote, 0);
    reveal_with_fuel(state::required_streams, 2);
    assert(seq![remote].drop_last() =~= seq![]);
}

/// An idle endpoint of this side can be configured with one of the peer, and no
/// other.
#[verifier::rlimit(50)]
pub proof fn law_configuration_is_sent(
    p: ProtocolModel,
    remote: u8,
    seid: u8,
    capabilities: Seq<CapabilityModel>,
)
    requires
        can_send(p, 2 + capability::capability_list_bytes(capabilities).len() as int),
        remote < 64,
        seid < 64,
    ensures
        ({
            let r = state::set_configuration(p, remote, seid, capabilities);
            if 1 <= seid <= p.local.len() && p.local[seid - 1].state == StreamState::Idle {
                sends(
                    p,
                    r,
                    0x03,
                    seq![(remote * 4) as u8, (seid * 4) as u8]
                        + capability::capability_list_bytes(capabilities),
                    PendingModel::SetConfiguration {
                        acp_seid: remote,
                        int_seid: seid,
                        capabilities,
                    },
                )
            } else {
                refuses(p, r)
            }
        }),
{
    if 1 <= seid <= p.local.len() && p.local[seid - 1].state == StreamState::Idle {
        lemma_sent(
            p,
            PendingModel::SetConfiguration { acp_seid: remote, int_seid: seid, capabilities },
            MessageModel::SetConfigurationCommand {
                acp_seid: remote,
                int_seid: seid,
                capabilities,
            },
            0x03,
            seq![(remote * 4) as u8, (seid * 4) as u8] + capability::capability_list_bytes(
                capabilities,
            ),
        );
    }
}

/// The endpoints of the peer can be asked for at any time, and so can the
/// capabilities of one: all of them from version 1.3 on.
#[verifier::rlimit(50)]
pub proof fn law_questions_are_sent(p: ProtocolModel, remote: u8)
    requires
        can_send(p, 1),
        remote < 64,
    ensures
        sends(
            p,
            state::sent(p, PendingModel::Discover, MessageModel::DiscoverCommand),
            0x01,
            Seq::<u8>::empty(),
            PendingModel::Discover,
        ),
        sends(
            p,
            state::get_capabilities(p, remote),
            if p.version.0 == 0 || p.version.0 == 1 && p.version.1 < 3 {
                0x02
            } else {
                0x0C
            },
            seq![(remote * 4) as u8],
            PendingModel::GetCapabilities { seid: remote },
        ),
{
    lemma_sent(
        p,
        PendingModel::Discover,
        MessageModel::DiscoverCommand,
        0x01,
        Seq::<u8>::empty(),
    );
    if p.version.0 == 0 || p.version.0 == 1 && p.version.1 < 3 {
        lemma_sent(
            p,
            PendingModel::GetCapabilities { seid: remote },
            MessageModel::GetCapabilitiesCommand { acp_seid: remote },
            0x02,
            seq![(remote * 4) as u8],
        );
    } else {
        lemma_sent(
            p,
            PendingModel::GetCapabilities { seid: remote },
            MessageModel::GetAllCapabilitiesCommand { acp_seid: remote },
            0x0C,
            seq![(remote * 4) as u8],
        );
    }
}

/// A new endpoint is idle, has no peer, and offers what it was made with:
/// media transport and its codec, and delay reports where a source has them.
#[verifier::rlimit(50)]
pub proof fn law_new_endpoints(
    seid: u8,
    tsep: StreamEndPointType,
    codec: CodecModel,
    delay_reporting: bool,
)
    ensures
        ({
            let audio = codec.media_type == MediaType::Audio;
            let sink = protocol::sink_capabilities(codec);
            let source = protocol::source_capabilities(codec, delay_reporting);
            let e = state::new_endpoint(seid, codec.media_type, tsep, sink);
            &&& sink.len() == 2
            &&& sink[0] == (CapabilityModel { service_category: 0x01, data: seq![] })
            &&& sink[1].service_category == 0x07
            &&& audio ==> sink[1].data == seq![0x00u8, codec.media_codec_type]
                + codec.media_codec_information
            &&& source == if delay_reporting {
                sink.push(CapabilityModel { service_category: 0x08, data: seq![] })
            } else {
                sink
            }
            &&& e == (LocalModel {
                seid,
                media_type: codec.media_type,
                tsep,
                capabilities: sink,
                configuration: sink,
                state: StreamState::Idle,
                remote_seid: None,
            })
        }),
{
}

/// A capability is written as its category, the length of its data, and its
/// data; capabilities stand one behind the other.
#[verifier::rlimit(50)]
pub proof fn law_capability_bytes(list: Seq<CapabilityModel>, c: CapabilityModel)
    requires
        c.data.len() < 256,
    ensures
        capability::capability_list_bytes(Seq::<CapabilityModel>::empty()) == Seq::<u8>::empty(),
        capability::capability_list_bytes(list.push(c)) == capability::capability_list_bytes(list)
            + (seq![c.service_category, c.data.len() as u8] + c.data),
{
    assert(list.push(c).drop_last() =~= list);
}

/// A new connection has no endpoints and nothing pending.
#[verifier::rlimit(50)]
pub proof fn law_new_connection(version: (u8, u8), peer_mtu: u16)
    ensures
        ({
            let p = protocol::new_protocol(version, peer_mtu);
            &&& p.version == version
            &&& p.peer_mtu == peer_mtu
            &&& p.local.len() == 0
            &&& forall|k: u8| !p.remote.contains_key(k) && !p.pending.contains_key(k)
            &&& p.next_transaction == 0
            &&& p.assembler == assembler::idle_assembler()
        }),
        crate::classic::avdtp::DEFAULT_VERSION == (1u8, 3u8),
{
}

/// A command to start or to suspend several endpoints that is refused names the
/// first that it is refused for, with the reason: that it does not exist, or
/// that it is in another state. Nothing changes.
#[verifier::rlimit(50)]
pub proof fn law_first_refused_is_named(local: Seq<LocalModel>, seids: Seq<u8>, i: int)
    requires
        0 <= i < seids.len(),
    ensures
        ({
            let ready = |state: StreamState, seid: u8|
                1 <= seid <= local.len() && local[seid - 1].state == state;
            let why: u8 = if 1 <= seids[i] <= local.len() {
                0x31
            } else {
                0x12
            };
            let start = state::on_start(local, seids);
            let suspend = state::on_suspend(local, seids);
            &&& (forall|j: int| 0 <= j < i ==> ready(StreamState::Open, #[trigger] seids[j]))
                && !ready(StreamState::Open, seids[i]) ==> start.local == local && start.response
                == (MessageModel::StartReject { acp_seid: seids[i], error_code: why })
            &&& (forall|j: int| 0 <= j < i ==> ready(StreamState::Streaming, #[trigger] seids[j]))
                && !ready(StreamState::Streaming, seids[i]) ==> suspend.local == local
                && suspend.response == (MessageModel::SuspendReject {
                acp_seid: seids[i],
                error_code: why,
            })
        }),
{
    lemma_first_refused(local, seids, StreamState::Open, 0, i);
    lemma_first_refused(local, seids, StreamState::Streaming, 0, i);
}

proof fn lemma_first_refused(
    local: Seq<LocalModel>,
    seids: Seq<u8>,
    expected: StreamState,
    from: int,
    i: int,
)
    requires
        0 <= from <= i < seids.len(),
    ensures
        ({
            let ready = |state: StreamState, seid: u8|
                1 <= seid <= local.len() && local[seid - 1].state == state;
            let why: u8 = if 1 <= seids[i] <= local.len() {
                0x31
            } else {
                0x12
            };
            (forall|j: int| 0 <= j < i ==> ready(expected, #[trigger] seids[j])) && !ready(
                expected,
                seids[i],
            ) ==> state::first_refused(local, seids, expected, from) == Some((seids[i], why))
        }),
    decreases i - from,
{
    if from < i {
        lemma_first_refused(local, seids, expected, from + 1, i);
    }
}

} // verus!
