//! Registration of services and allocation of channels on one link.

use std::collections::HashMap;
use vstd::prelude::*;
use crate::packets::l2cap_signaling::ConnectionRequestHeader;
use crate::types::{SimbleError, SimbleErrorModel};

verus! {

broadcast use vstd::std_specs::hash::group_hash_axioms;

/// First channel identifier that may be allocated dynamically.
pub const FIRST_DYNAMIC_CID: u16 = 0x0040;

/// What a channel is opened for.
#[derive(Debug, Clone, Copy, PartialEq, Eq, Structural)]
pub struct ClassicChannelSpec {
    /// Protocol/service multiplexer to connect to.
    pub psm: u16,
    /// Largest payload that this side accepts.
    pub mtu: u16,
}

impl ClassicChannelSpec {
    /// A channel to `psm` that accepts payloads of up to `mtu` bytes.
    pub fn with_mtu(psm: u16, mtu: u16) -> (r: Self)
        ensures
            r == (ClassicChannelSpec { psm, mtu }),
    {
        ClassicChannelSpec { psm, mtu }
    }
}

/// An open channel.
#[derive(Debug, Clone, Copy, PartialEq, Eq, Structural)]
pub struct ClassicChannel {
    /// Protocol/service multiplexer that the channel is connected to.
    pub psm: u16,
    /// Local channel identifier.
    pub source_cid: u16,
    /// Largest payload that the peer accepts.
    pub peer_mtu: u16,
}

/// Pushing a value adds it to the set of values.
proof fn lemma_push_to_set(s: Seq<u16>, x: u16)
    ensures
        s.push(x).to_set() == s.to_set().insert(x),
{
    assert forall|y: u16| s.push(x).to_set().contains(y) == s.to_set().insert(x).contains(y) by {
        vstd::seq_lib::lemma_seq_contains_after_push(s, x, y);
    }
    assert(s.push(x).to_set() =~= s.to_set().insert(x));
}

/// The services that accept connections on a link, and the channels that were
/// allocated on it.
#[derive(Debug)]
pub struct ClassicChannelManager {
    servers: Vec<u16>,
    channels: HashMap<u16, ClassicChannelSpec>,
    next_cid: u16,
}

/// The model of a [`ClassicChannelManager`].
#[verifier::ext_equal]
pub struct ChannelManagerModel {
    /// The registered services.
    pub servers: Set<u16>,
    /// What each allocated channel is opened for, by its identifier.
    pub channels: Map<u16, ClassicChannelSpec>,
    /// The next channel identifier to hand out; zero when none is left.
    pub next_cid: u16,
}

impl View for ClassicChannelManager {
    type V = ChannelManagerModel;

    closed spec fn view(&self) -> ChannelManagerModel {
        ChannelManagerModel {
            servers: self.servers@.to_set(),
            channels: self.channels@,
            next_cid: self.next_cid,
        }
    }
}

/// How a request for a channel turns out: the next identifier is handed out and
/// kept with what the channel is opened for, and the Connection Request names
/// it, unless none is left.
pub open spec fn connects(
    before: ChannelManagerModel,
    channel: ClassicChannelSpec,
    r: Result<(u16, ConnectionRequestHeader), SimbleError>,
    after: ChannelManagerModel,
) -> bool {
    if before.next_cid == 0 {
        &&& r is Err
        &&& r->Err_0@ == SimbleErrorModel::DeviceError("L2CAP: no channel identifier left"@)
        &&& after == before
    } else {
        &&& r == Ok::<(u16, ConnectionRequestHeader), SimbleError>(
            (
                before.next_cid,
                ConnectionRequestHeader { psm: channel.psm, source_cid: before.next_cid },
            ),
        )
        &&& after == (ChannelManagerModel {
            channels: before.channels.insert(before.next_cid, channel),
            next_cid: if before.next_cid == 0xFFFF { 0 } else { (before.next_cid + 1) as u16 },
            ..before
        })
    }
}

impl ClassicChannelManager {
    /// A link without services or channels.
    pub fn new() -> (r: Self)
        ensures
            r@ == (ChannelManagerModel {
                servers: Set::empty(),
                channels: Map::empty(),
                next_cid: FIRST_DYNAMIC_CID,
            }),
    {
        let r = ClassicChannelManager {
            servers: Vec::new(),
            channels: HashMap::new(),
            next_cid: FIRST_DYNAMIC_CID,
        };
        assert(r@.servers =~= Set::empty());
        assert(r@.channels =~= Map::empty());
        r
    }

    fn position(&self, psm: u16) -> (r: Option<usize>)
        ensures
            r is None ==> !self.servers@.contains(psm),
            r is Some ==> r->0 < self.servers@.len() && self.servers@[r->0 as int] == psm,
    {
        let mut i: usize = 0;
        while i < self.servers.len()
            invariant
                i <= self.servers@.len(),
                forall|j: int| 0 <= j < i ==> self.servers@[j] != psm,
            decreases self.servers@.len() - i,
        {
            if self.servers[i] == psm {
                return Some(i);
            }
            i = i + 1;
        }
        None
    }

    /// Whether connections to `psm` are accepted.
    pub fn is_server_registered(&self, psm: u16) -> (r: bool)
        ensures
            r == self@.servers.contains(psm),
    {
        self.position(psm).is_some()
    }

    /// Accepts connections to `psm` from now on.
    pub fn register_server(&mut self, psm: u16) -> (r: Result<(), SimbleError>)
        ensures
            r is Ok,
            final(self)@ == (ChannelManagerModel {
                servers: old(self)@.servers.insert(psm),
                ..old(self)@
            }),
    {
        let ghost before = self.servers@;
        if self.position(psm).is_none() {
            self.servers.push(psm);
            proof {
                lemma_push_to_set(before, psm);
            }
        }
        assert(self@.servers =~= old(self)@.servers.insert(psm));
        Ok(())
    }

    /// Accepts connections to `psm` no longer.
    pub fn unregister_server(&mut self, psm: u16)
        ensures
            final(self)@ == (ChannelManagerModel {
                servers: old(self)@.servers.remove(psm),
                ..old(self)@
            }),
    {
        let mut kept: Vec<u16> = Vec::new();
        let mut i: usize = 0;
        while i < self.servers.len()
            invariant
                i <= self.servers@.len(),
                self.servers@ == old(self).servers@,
                self.next_cid == old(self).next_cid,
                self.channels@ == old(self).channels@,
                kept@.to_set() =~= self.servers@.take(i as int).to_set().remove(psm),
            decreases self.servers@.len() - i,
        {
            let s: u16 = self.servers[i];
            let ghost before = kept@;
            assert(self.servers@.take(i + 1) =~= self.servers@.take(i as int).push(s));
            proof {
                lemma_push_to_set(self.servers@.take(i as int), s);
                lemma_push_to_set(before, s);
            }
            if s != psm {
                kept.push(s);
            }
            i = i + 1;
        }
        assert(self.servers@.take(i as int) =~= self.servers@);
        self.servers = kept;
        assert(self@.servers =~= old(self)@.servers.remove(psm));
    }

    /// Allocates a channel to `channel.psm`, returning its identifier on this
    /// side and the Connection Request to send. Fails once every identifier
    /// has been handed out.
    pub fn connect(&mut self, channel: &ClassicChannelSpec) -> (r: Result<
        (u16, ConnectionRequestHeader),
        SimbleError,
    >)
        ensures
            connects(old(self)@, *channel, r, final(self)@),
    {
        let cid: u16 = self.next_cid;
        if cid == 0 {
            return Err(
                SimbleError::DeviceError(crate::text::owned("L2CAP: no channel identifier left")),
            );
        }
        self.next_cid = if cid == 0xFFFF {
            0
        } else {
            cid + 1
        };
        self.channels.insert(cid, *channel);
        Ok((cid, ConnectionRequestHeader { psm: channel.psm, source_cid: cid }))
    }

    /// What the channel with an identifier was allocated for.
    pub fn channel(&self, cid: u16) -> (r: Option<ClassicChannelSpec>)
        ensures
            r == if self@.channels.contains_key(cid) {
                Some(self@.channels[cid])
            } else {
                None
            },
    {
        match self.channels.get(&cid) {
            Some(channel) => Some(*channel),
            None => None,
        }
    }
}

/// A channel that is allocated has an identifier of its own, from 0x40 on, which
/// the request names together with the service; what it is for is kept under it,
/// and the next identifier is another one.
pub proof fn law_identifiers_are_not_reused(
    before: ChannelManagerModel,
    channel: ClassicChannelSpec,
    r: Result<(u16, ConnectionRequestHeader), SimbleError>,
    after: ChannelManagerModel,
)
    requires
        connects(before, channel, r, after),
        before.next_cid >= 0x40,
    ensures
        FIRST_DYNAMIC_CID == 0x40,
        r is Ok,
        ({
            let (cid, request) = r->Ok_0;
            &&& cid == before.next_cid
            &&& request.psm == channel.psm
            &&& request.source_cid == cid
            &&& after.channels.contains_key(cid)
            &&& after.channels[cid] == channel
            &&& after.next_cid == 0 || after.next_cid > cid
            &&& after.servers == before.servers
        }),
{
}

} // verus!
