//! The network-state shim: tracks which peers hold a session slot, decides
//! admission of freshly established sessions, and queues the state-driven
//! actions the swarm executes ahead of everything else.

use vstd::prelude::*;

use crate::message::{Capabilities, PeerMessage};
use crate::types::{DisconnectReason, PeerId, RemoteAddr};

verus! {

/// Instruction issued by the policy layer for the swarm to execute.
#[derive(Clone, Debug, PartialEq, Eq)]
pub enum StateAction {
    /// Establish an outbound connection to the node.
    Connect { remote_addr: RemoteAddr, node_id: PeerId },
    /// Disconnect the peer, optionally telling it why.
    Disconnect { peer_id: PeerId, reason: Option<DisconnectReason> },
    /// Forward a new block announcement to the peer.
    NewBlock { peer_id: PeerId, block: u64 },
    /// Forward new block hashes to the peer.
    NewBlockHashes { peer_id: PeerId, hashes: Vec<u64> },
}

/// Failure when the state rejects a newly established session.
#[derive(Clone, Copy, Debug, PartialEq, Eq, Structural, Hash)]
pub enum AddSessionError {
    /// The state is already tracking as many peers as it allows.
    AtCapacity { peer: PeerId },
}

/// Mathematical model of the network state.
pub ghost struct StateModel {
    pub max_peers: usize,
    pub connected: Seq<PeerId>,
    pub actions: Seq<StateAction>,
}

/// Index of the first tracked occurrence of `peer`, `-1` if none.
pub open spec fn find_connected(s: Seq<PeerId>, peer: PeerId) -> int
    decreases s.len(),
{
    if s.len() == 0 {
        -1
    } else if s[0] == peer {
        0
    } else {
        let r = find_connected(s.drop_first(), peer);
        if r == -1 {
            -1
        } else {
            r + 1
        }
    }
}

/// Effect of closing a session: the peer's slot, if tracked, is released.
pub open spec fn close_spec(m: StateModel, peer: PeerId) -> StateModel {
    let i = find_connected(m.connected, peer);
    if i < 0 {
        m
    } else {
        StateModel { connected: m.connected.remove(i), ..m }
    }
}

/// If everything before `i` misses `peer` and `s[i]` matches it, `i` is the
/// index `find_connected` picks.
pub proof fn lemma_find_connected_first(s: Seq<PeerId>, peer: PeerId, i: int)
    requires
        0 <= i < s.len(),
        s[i] == peer,
        forall|j: int| 0 <= j < i ==> s[j] != peer,
    ensures
        find_connected(s, peer) == i,
    decreases i,
{
    if i == 0 {
    } else {
        lemma_find_connected_first(s.drop_first(), peer, i - 1);
    }
}

/// If no tracked peer matches, `find_connected` reports none.
pub proof fn lemma_find_connected_absent(s: Seq<PeerId>, peer: PeerId)
    requires
        forall|j: int| 0 <= j < s.len() ==> s[j] != peer,
    ensures
        find_connected(s, peer) == -1,
    decreases s.len(),
{
    if s.len() > 0 {
        lemma_find_connected_absent(s.drop_first(), peer);
    }
}

/// Tracks peer capacity decisions and queues state-driven actions. Its
/// counters are mutated only by the swarm, in response to translated events.
pub struct NetworkState {
    /// Greatest number of peers allowed to hold a session slot at once.
    max_peers: usize,
    /// Peers currently holding a session slot.
    connected: Vec<PeerId>,
    /// Actions queued by the policy layer, oldest first.
    actions: Vec<StateAction>,
}

impl View for NetworkState {
    type V = StateModel;

    closed spec fn view(&self) -> StateModel {
        StateModel { max_peers: self.max_peers, connected: self.connected@, actions: self.actions@ }
    }
}

impl NetworkState {
    /// A state tracking no peer, with the given capacity.
    pub fn new(max_peers: usize) -> (r: NetworkState)
        ensures
            r@ == (StateModel { max_peers, connected: Seq::empty(), actions: Seq::empty() }),
    {
        NetworkState { max_peers, connected: Vec::new(), actions: Vec::new() }
    }

    /// Admission decision for a session that just finished authentication:
    /// the peer gets a slot unless the state is at capacity, in which case it
    /// is rejected and nothing changes.
    pub fn on_session_activated(
        &mut self,
        peer: PeerId,
        _capabilities: &Capabilities,
        _status: u64,
    ) -> (r: Result<(), AddSessionError>)
        ensures
            old(self)@.connected.len() < old(self)@.max_peers ==> r == Ok::<(), AddSessionError>(())
                && final(self)@ == (StateModel {
                connected: old(self)@.connected.push(peer),
                ..old(self)@
            }),
            old(self)@.connected.len() >= old(self)@.max_peers ==> r == Err::<(), AddSessionError>(
                AddSessionError::AtCapacity { peer },
            ) && *final(self) == *old(self),
    {
        if self.connected.len() >= self.max_peers {
            return Err(AddSessionError::AtCapacity { peer });
        }
        self.connected.push(peer);
        Ok(())
    }

    /// Releases the slot of a peer whose session closed; a peer that holds no
    /// slot is a no-op.
    pub fn on_session_closed(&mut self, peer: PeerId)
        ensures
            final(self)@ == close_spec(old(self)@, peer),
    {
        let mut i: usize = 0;
        while i < self.connected.len()
            invariant
                i <= self.connected.len(),
                forall|j: int| 0 <= j < i ==> self.connected@[j] != peer,
                self.connected@ == old(self)@.connected,
                self.actions@ == old(self)@.actions,
                self.max_peers == old(self)@.max_peers,
            decreases self.connected.len() - i,
        {
            if self.connected[i] == peer {
                proof {
                    lemma_find_connected_first(self.connected@, peer, i as int);
                }
                self.connected.remove(i);
                return ;
            }
            i = i + 1;
        }
        proof {
            lemma_find_connected_absent(self.connected@, peer);
        }
    }

    /// The next queued state action, if any; drained by the swarm ahead of
    /// every other input.
    pub fn poll_action(&mut self) -> (r: Option<StateAction>)
        ensures
            old(self)@.actions.len() == 0 ==> r is None && *final(self) == *old(self),
            old(self)@.actions.len() > 0 ==> r == Some(old(self)@.actions[0]) && final(self)@ == (
                StateModel { actions: old(self)@.actions.drop_first(), ..old(self)@ }
            ),
    {
        if self.actions.len() == 0 {
            return None;
        }
        let a = self.actions.remove(0);
        proof {
            assert(old(self)@.actions.remove(0) =~= old(self)@.actions.drop_first());
        }
        Some(a)
    }

    /// Queues an action for the swarm to execute; this is how the policy
    /// layer feeds its decisions in.
    pub fn queue_action(&mut self, action: StateAction)
        ensures
            final(self)@ == (StateModel {
                actions: old(self)@.actions.push(action),
                ..old(self)@
            }),
    {
        self.actions.push(action);
    }

    /// Whether any state action is queued.
    pub fn has_actions(&self) -> (r: bool)
        ensures
            r == (self@.actions.len() > 0),
    {
        self.actions.len() > 0
    }

    /// How many peers currently hold a session slot.
    pub fn num_connected(&self) -> (n: usize)
        ensures
            n == self@.connected.len(),
    {
        self.connected.len()
    }
}

} // verus!
