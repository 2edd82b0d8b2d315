//! Capabilities announced at handshake time and the messages exchanged with a
//! peer: framed wire messages, locally originated requests, and the
//! broadcast-style peer messages issued by the network's policy layer.

use vstd::prelude::*;

verus! {

/// One protocol name/version pair a peer supports, announced once at
/// handshake. The protocol name is carried as a numeric identifier.
#[derive(Clone, Copy, Debug, PartialEq, Eq, Structural, Hash)]
pub struct Capability {
    pub protocol: u64,
    pub version: u64,
}

/// Protocol identifier of the block-exchange protocol the local node speaks;
/// locally originated broadcasts are framed under it.
pub const ETH_PROTOCOL: u64 = 1;

/// Version of the block-exchange protocol the local node speaks.
pub const ETH_VERSION: u64 = 68;

/// The capability under which locally originated broadcasts are framed.
pub open spec fn eth_capability() -> Capability {
    Capability { protocol: ETH_PROTOCOL, version: ETH_VERSION }
}

/// Builds the capability under which locally originated broadcasts are framed.
pub fn make_eth_capability() -> (c: Capability)
    ensures
        c == eth_capability(),
{
    Capability { protocol: ETH_PROTOCOL, version: ETH_VERSION }
}

/// The set of capabilities a peer announced during handshake; owned by the
/// session once established and never mutated afterwards.
#[derive(Debug, PartialEq, Eq)]
pub struct Capabilities {
    pub caps: Vec<Capability>,
}

impl View for Capabilities {
    type V = Seq<Capability>;

    open spec fn view(&self) -> Seq<Capability> {
        self.caps@
    }
}

impl Capabilities {
    /// Wraps the announced pairs, in announcement order.
    pub fn new(caps: Vec<Capability>) -> (r: Capabilities)
        ensures
            r@ == caps@,
    {
        Capabilities { caps }
    }

    /// Whether the peer announced `c` at handshake time.
    pub fn contains(&self, c: Capability) -> (r: bool)
        ensures
            r == self@.contains(c),
    {
        let mut i: usize = 0;
        while i < self.caps.len()
            invariant
                i <= self.caps.len(),
                forall|j: int| 0 <= j < i ==> self.caps@[j] != c,
            decreases self.caps.len() - i,
        {
            if self.caps[i] == c {
                assert(self@[i as int] == c);
                return true;
            }
            i = i + 1;
        }
        false
    }
}

impl Clone for Capabilities {
    fn clone(&self) -> (r: Capabilities)
        ensures
            r@ == self@,
    {
        let mut caps: Vec<Capability> = Vec::new();
        let mut i: usize = 0;
        while i < self.caps.len()
            invariant
                i <= self.caps.len(),
                caps@ == self.caps@.take(i as int),
            decreases self.caps.len() - i,
        {
            caps.push(self.caps[i]);
            assert(caps@ =~= self.caps@.take(i + 1 as int));
            i = i + 1;
        }
        assert(caps@ =~= self.caps@);
        Capabilities { caps }
    }
}

/// A message the network's policy layer asks to forward to a peer, outside
/// the request/response flow.
#[derive(Clone, Debug, PartialEq, Eq)]
pub enum PeerMessage {
    /// Announce one new block.
    NewBlock { block: u64 },
    /// Announce the hashes of newly known blocks.
    NewBlockHashes { hashes: Vec<u64> },
}

/// A message framed for the wire, tagged with the capability it belongs to.
#[derive(Clone, Debug, PartialEq, Eq)]
pub enum WireMessage {
    /// A request originated by one side, awaiting a correlated response.
    Request { capability: Capability, request_id: u64, payload: u64 },
    /// The response correlated to an earlier request by its id.
    Response { capability: Capability, request_id: u64, payload: u64 },
    /// A broadcast-style message outside the request/response flow.
    Broadcast { capability: Capability, message: PeerMessage },
}

impl WireMessage {
    /// The capability this message was framed under.
    pub open spec fn spec_capability(&self) -> Capability {
        match *self {
            WireMessage::Request { capability, .. } => capability,
            WireMessage::Response { capability, .. } => capability,
            WireMessage::Broadcast { capability, .. } => capability,
        }
    }

    /// Reads the capability this message was framed under.
    pub fn capability(&self) -> (c: Capability)
        ensures
            c == self.spec_capability(),
    {
        match self {
            WireMessage::Request { capability, .. } => *capability,
            WireMessage::Response { capability, .. } => *capability,
            WireMessage::Broadcast { capability, .. } => *capability,
        }
    }
}

/// A locally originated request destined for the remote peer; the session
/// assigns it the next request id and tracks it as in flight.
#[derive(Clone, Copy, Debug, PartialEq, Eq, Structural, Hash)]
pub struct PeerRequest {
    /// The capability the request belongs to.
    pub capability: Capability,
    /// Opaque request payload, kept as the in-flight context.
    pub payload: u64,
}

/// How a policy-layer message is framed for the wire.
pub open spec fn spec_wire_of_peer_message(m: PeerMessage) -> WireMessage {
    WireMessage::Broadcast { capability: eth_capability(), message: m }
}

/// Frames a policy-layer message for the wire.
pub fn wire_of_peer_message(m: PeerMessage) -> (w: WireMessage)
    ensures
        w == spec_wire_of_peer_message(m),
{
    WireMessage::Broadcast { capability: make_eth_capability(), message: m }
}

} // verus!
