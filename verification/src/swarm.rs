//! The swarm: top-level coordinator that polls the network state, the
//! session manager and the connection listener in strict priority order each
//! scheduling turn and merges them into a single event stream.
//!
//! State actions are drained completely before anything else; then session
//! events are translated one at a time, looping back until one becomes
//! externally visible; incoming connections are consulted last, so existing
//! work is always drained ahead of new connection load.

use vstd::prelude::*;

use crate::listener::{ConnectionListener, ListenerEvent, ListenerModel};
use crate::manager::{
    dial_spec, disconnect_spec, has_free_slot, incoming_spec, send_message_spec, ManagerModel,
    SessionEvent, SessionManager,
};
use crate::message::{Capabilities, PeerMessage, WireMessage};
use crate::state::{close_spec, AddSessionError, NetworkState, StateAction, StateModel};
use crate::types::{DisconnectReason, IoError, PeerId, RemoteAddr, SessionId, WireError};

verus! {

/// All events created or delegated by the swarm: the externally visible
/// union of session transitions, listener transitions and network events.
#[derive(Clone, Debug, PartialEq, Eq)]
pub enum SwarmEvent {
    /// A peer sent a message under an announced capability; a correlated
    /// response carries the originating request's context.
    ValidMessage { node_id: PeerId, message: WireMessage, request_context: Option<u64> },
    /// A peer sent a message under a capability it never announced; the
    /// offending capability is in the message itself.
    InvalidCapabilityMessage { node_id: PeerId, message: WireMessage },
    /// The listener closed; terminal, the listener needs rebuilding.
    TcpListenerClosed { remote_addr: RemoteAddr },
    /// The listener failed; terminal, the listener needs rebuilding.
    TcpListenerError { error: IoError },
    /// An inbound connection was admitted; authentication follows.
    IncomingTcpConnection { session_id: SessionId, remote_addr: RemoteAddr },
    /// An outbound connection is being initiated.
    OutgoingTcpConnection { remote_addr: RemoteAddr },
    /// A connection finished authentication and was admitted by the state.
    SessionEstablished {
        node_id: PeerId,
        remote_addr: RemoteAddr,
        capabilities: Capabilities,
        status: u64,
    },
    /// An active session ended.
    SessionClosed { node_id: PeerId, remote_addr: RemoteAddr },
    /// An incoming connection was closed during authentication.
    IncomingPendingSessionClosed { remote_addr: RemoteAddr, error: Option<WireError> },
    /// An outgoing connection was closed during authentication.
    OutgoingPendingSessionClosed {
        remote_addr: RemoteAddr,
        node_id: PeerId,
        error: Option<WireError>,
    },
    /// The transport failed to establish an outgoing connection.
    OutgoingConnectionError { remote_addr: RemoteAddr, node_id: PeerId, error: IoError },
}

/// Mathematical model of the swarm.
pub ghost struct SwarmModel {
    pub incoming: ListenerModel,
    pub sessions: ManagerModel,
    pub state: StateModel,
}

/// Effect of executing one state action: a dial, a best-effort disconnect or
/// a best-effort message, all against the session manager.
pub open spec fn apply_action_spec(man: ManagerModel, action: StateAction) -> ManagerModel {
    match action {
        StateAction::Connect { remote_addr, node_id } => dial_spec(man, remote_addr, node_id),
        StateAction::Disconnect { peer_id, reason } => disconnect_spec(man, peer_id, reason),
        StateAction::NewBlock { peer_id, block } => send_message_spec(
            man,
            peer_id,
            PeerMessage::NewBlock { block },
        ),
        StateAction::NewBlockHashes { peer_id, hashes } => send_message_spec(
            man,
            peer_id,
            PeerMessage::NewBlockHashes { hashes },
        ),
    }
}

/// Executing every queued state action, in order, before any other input is
/// considered.
pub open spec fn drain_actions_spec(man: ManagerModel, actions: Seq<StateAction>) -> ManagerModel
    decreases actions.len(),
{
    if actions.len() == 0 {
        man
    } else {
        drain_actions_spec(apply_action_spec(man, actions[0]), actions.drop_first())
    }
}

/// Effect of translating one session event. An established session is first
/// validated against the state's admission policy: rejection disconnects the
/// peer with a too-many-peers reason and suppresses the event. A closed
/// session releases the peer's slot. Everything else translates directly.
pub open spec fn handle_session_event_spec(
    man: ManagerModel,
    st: StateModel,
    event: SessionEvent,
) -> (ManagerModel, StateModel, Option<SwarmEvent>) {
    match event {
        SessionEvent::SessionEstablished { session_id, node_id, remote_addr, capabilities, status } => {
            if st.connected.len() < st.max_peers {
                (
                    man,
                    StateModel { connected: st.connected.push(node_id), ..st },
                    Some(
                        SwarmEvent::SessionEstablished { node_id, remote_addr, capabilities, status },
                    ),
                )
            } else {
                (
                    disconnect_spec(man, node_id, Some(DisconnectReason::TooManyPeers)),
                    st,
                    None,
                )
            }
        },
        SessionEvent::ValidMessage { node_id, message, request_context } => (
            man,
            st,
            Some(SwarmEvent::ValidMessage { node_id, message, request_context }),
        ),
        SessionEvent::InvalidMessage { node_id, message } => (
            man,
            st,
            Some(SwarmEvent::InvalidCapabilityMessage { node_id, message }),
        ),
        SessionEvent::IncomingPendingSessionClosed { remote_addr, error } => (
            man,
            st,
            Some(SwarmEvent::IncomingPendingSessionClosed { remote_addr, error }),
        ),
        SessionEvent::OutgoingPendingSessionClosed { remote_addr, node_id, error } => (
            man,
            st,
            Some(SwarmEvent::OutgoingPendingSessionClosed { remote_addr, node_id, error }),
        ),
        SessionEvent::Disconnected { node_id, remote_addr } => (
            man,
            close_spec(st, node_id),
            Some(SwarmEvent::SessionClosed { node_id, remote_addr }),
        ),
        SessionEvent::OutgoingConnectionError { remote_addr, node_id, error } => (
            man,
            st,
            Some(SwarmEvent::OutgoingConnectionError { remote_addr, node_id, error }),
        ),
    }
}

/// Result of working through the session-event queue.
pub ghost struct EventsOutcome {
    pub man: ManagerModel,
    pub state: StateModel,
    pub event: Option<SwarmEvent>,
}

/// Translating queued session events one at a time until one becomes
/// externally visible, or the queue runs dry.
pub open spec fn process_events_spec(man: ManagerModel, st: StateModel) -> EventsOutcome
    decreases man.events.len(),
{
    if man.events.len() == 0 {
        EventsOutcome { man, state: st, event: None }
    } else {
        let ev = man.events[0];
        let popped = ManagerModel { events: man.events.drop_first(), ..man };
        let h = handle_session_event_spec(popped, st, ev);
        if h.2 is Some {
            EventsOutcome { man: h.0, state: h.1, event: h.2 }
        } else {
            process_events_spec(h.0, h.1)
        }
    }
}

/// Effect of one listener event: errors and closure surface as terminal
/// events; an accepted connection is handed to the manager for admission,
/// and a rejection at capacity is dropped silently.
pub open spec fn handle_connection_spec(man: ManagerModel, event: ListenerEvent) -> (
    ManagerModel,
    Option<SwarmEvent>,
) {
    match event {
        ListenerEvent::Error { error } => (man, Some(SwarmEvent::TcpListenerError { error })),
        ListenerEvent::ListenerClosed { local_address } => (
            man,
            Some(SwarmEvent::TcpListenerClosed { remote_addr: local_address }),
        ),
        ListenerEvent::Incoming { remote_addr } => {
            if has_free_slot(man) {
                (
                    incoming_spec(man, remote_addr),
                    Some(
                        SwarmEvent::IncomingTcpConnection {
                            session_id: SessionId { id: man.next_session_id },
                            remote_addr,
                        },
                    ),
                )
            } else {
                (man, None)
            }
        },
    }
}

/// Result of working through the listener-event queue.
pub ghost struct ListenOutcome {
    pub man: ManagerModel,
    pub remaining: Seq<ListenerEvent>,
    pub event: Option<SwarmEvent>,
}

/// Handling queued listener events one at a time until one becomes
/// externally visible, or the queue runs dry.
pub open spec fn process_listener_spec(man: ManagerModel, events: Seq<ListenerEvent>) -> ListenOutcome
    decreases events.len(),
{
    if events.len() == 0 {
        ListenOutcome { man, remaining: events, event: None }
    } else {
        let h = handle_connection_spec(man, events[0]);
        if h.1 is Some {
            ListenOutcome { man: h.0, remaining: events.drop_first(), event: h.1 }
        } else {
            process_listener_spec(h.0, events.drop_first())
        }
    }
}

/// Result of one scheduling turn of the swarm.
pub ghost struct SwarmStep {
    pub model: SwarmModel,
    pub event: Option<SwarmEvent>,
}

/// One scheduling turn: every state action is executed first; then session
/// events are translated until one is externally visible; then listener
/// events are consulted; the turn yields at most one event.
pub open spec fn swarm_poll_spec(m: SwarmModel) -> SwarmStep {
    let man1 = drain_actions_spec(m.sessions, m.state.actions);
    let st1 = StateModel { actions: Seq::empty(), ..m.state };
    let pe = process_events_spec(man1, st1);
    if pe.event is Some {
        SwarmStep {
            model: SwarmModel { incoming: m.incoming, sessions: pe.man, state: pe.state },
            event: pe.event,
        }
    } else {
        let pl = process_listener_spec(pe.man, m.incoming.events);
        SwarmStep {
            model: SwarmModel {
                incoming: ListenerModel {
                    local_address: m.incoming.local_address,
                    events: pl.remaining,
                },
                sessions: pl.man,
                state: pe.state,
            },
            event: pl.event,
        }
    }
}

/// Law: an admission rejection disconnects the rejected peer and suppresses
/// its establishment. Handling an established-session event while the state
/// is at capacity yields no swarm event at all — in particular no
/// established event for that peer — leaves the state's peer set unchanged,
/// and queues one too-many-peers disconnect command for the peer's session
/// if it still has one without a disconnect already queued.
pub proof fn lemma_rejection_disconnects(
    man: ManagerModel,
    st: StateModel,
    session_id: SessionId,
    node_id: PeerId,
    remote_addr: RemoteAddr,
    capabilities: Capabilities,
    status: u64,
)
    requires
        st.connected.len() >= st.max_peers,
    ensures
        ({
            let h = handle_session_event_spec(
                man,
                st,
                SessionEvent::SessionEstablished {
                    session_id,
                    node_id,
                    remote_addr,
                    capabilities,
                    status,
                },
            );
            &&& h.2 is None
            &&& h.1 == st
            &&& h.0 == disconnect_spec(man, node_id, Some(DisconnectReason::TooManyPeers))
        }),
        ({
            let h = handle_session_event_spec(
                man,
                st,
                SessionEvent::SessionEstablished {
                    session_id,
                    node_id,
                    remote_addr,
                    capabilities,
                    status,
                },
            );
            let i = crate::manager::find_peer(man.active, node_id);
            i >= 0 && !man.active[i].disconnect_queued ==> h.0.active[i].disconnect_queued
                && h.0.active[i].commands == man.active[i].commands.push(
                crate::session::SessionCommand::Disconnect {
                    reason: Some(DisconnectReason::TooManyPeers),
                },
            )
        }),
{
    let i = crate::manager::find_peer(man.active, node_id);
    if i >= 0 {
        crate::manager::lemma_find_peer_props(man.active, node_id);
    }
}

/// Session events never queue new state actions, so once a turn has drained
/// the actions they stay drained while events are translated.
pub proof fn lemma_process_events_preserves_actions(man: ManagerModel, st: StateModel)
    ensures
        process_events_spec(man, st).state.actions == st.actions,
        process_events_spec(man, st).man.events.len() == 0 || process_events_spec(
            man,
            st,
        ).event is Some,
    decreases man.events.len(),
{
    if man.events.len() > 0 {
        let ev = man.events[0];
        let popped = ManagerModel { events: man.events.drop_first(), ..man };
        let h = handle_session_event_spec(popped, st, ev);
        if h.2 is None {
            lemma_process_events_preserves_actions(h.0, h.1);
        }
    }
}

/// Swarm priority law: whatever is queued, one scheduling turn executes
/// every state action before translating any session or listener event —
/// the turn ends with no action left — and yields at most one externally
/// visible event; when a session event becomes visible, no listener event
/// is consumed in that turn.
pub proof fn lemma_swarm_priority(m: SwarmModel)
    ensures
        swarm_poll_spec(m).model.state.actions.len() == 0,
        swarm_poll_spec(m).model.sessions == (if process_events_spec(
            drain_actions_spec(m.sessions, m.state.actions),
            (StateModel { actions: Seq::empty(), ..m.state }),
        ).event is Some {
            process_events_spec(
                drain_actions_spec(m.sessions, m.state.actions),
                (StateModel { actions: Seq::empty(), ..m.state }),
            ).man
        } else {
            process_listener_spec(
                process_events_spec(
                    drain_actions_spec(m.sessions, m.state.actions),
                    (StateModel { actions: Seq::empty(), ..m.state }),
                ).man,
                m.incoming.events,
            ).man
        }),
        process_events_spec(
            drain_actions_spec(m.sessions, m.state.actions),
            (StateModel { actions: Seq::empty(), ..m.state }),
        ).event is Some ==> swarm_poll_spec(m).model.incoming == m.incoming,
{
    let man1 = drain_actions_spec(m.sessions, m.state.actions);
    let st1 = StateModel { actions: Seq::empty(), ..m.state };
    lemma_process_events_preserves_actions(man1, st1);
}

/// Contains the connectivity-related state of the network: it manages the
/// listener, delegates new connections to the session manager, and executes
/// the actions the network state issues.
pub struct Swarm {
    /// Listens for new incoming connections.
    incoming: ConnectionListener,
    /// All sessions.
    sessions: SessionManager,
    /// Tracks the state of the network and handles events received from the
    /// sessions.
    state: NetworkState,
}

impl View for Swarm {
    type V = SwarmModel;

    closed spec fn view(&self) -> SwarmModel {
        SwarmModel { incoming: self.incoming@, sessions: self.sessions@, state: self.state@ }
    }
}

impl Swarm {
    /// Configures a new swarm instance.
    pub fn new(incoming: ConnectionListener, sessions: SessionManager, state: NetworkState) -> (r:
        Swarm)
        ensures
            r@ == (SwarmModel { incoming: incoming@, sessions: sessions@, state: state@ }),
    {
        Swarm { incoming, sessions, state }
    }

    /// Mutable access to the state.
    pub fn state_mut(&mut self) -> (r: &mut NetworkState)
        ensures
            r@ == old(self)@.state,
            final(self)@ == (SwarmModel { state: final(r)@, ..old(self)@ }),
    {
        &mut self.state
    }

    /// Mutable access to the session manager.
    pub fn sessions_mut(&mut self) -> (r: &mut SessionManager)
        ensures
            r@ == old(self)@.sessions,
            final(self)@ == (SwarmModel { sessions: final(r)@, ..old(self)@ }),
    {
        &mut self.sessions
    }

    /// Mutable access to the connection listener.
    pub fn listener_mut(&mut self) -> (r: &mut ConnectionListener)
        ensures
            r@ == old(self)@.incoming,
            final(self)@ == (SwarmModel { incoming: final(r)@, ..old(self)@ }),
    {
        &mut self.incoming
    }

    /// Triggers a new outgoing connection to the given node.
    pub fn dial_outbound(&mut self, remote_addr: RemoteAddr, remote_id: PeerId)
        requires
            old(self)@.sessions.next_session_id < u64::MAX,
        ensures
            final(self)@ == (SwarmModel {
                sessions: dial_spec(old(self)@.sessions, remote_addr, remote_id),
                ..old(self)@
            }),
    {
        self.sessions.dial_outbound(remote_addr, remote_id)
    }

    /// Executes one action pulled from the state; never externally visible.
    fn on_state_action(&mut self, action: StateAction) -> (r: Option<SwarmEvent>)
        requires
            old(self)@.sessions.next_session_id < u64::MAX,
        ensures
            r is None,
            final(self)@ == (SwarmModel {
                sessions: apply_action_spec(old(self)@.sessions, action),
                ..old(self)@
            }),
    {
        match action {
            StateAction::Connect { remote_addr, node_id } => {
                self.sessions.dial_outbound(remote_addr, node_id);
            },
            StateAction::Disconnect { peer_id, reason } => {
                self.sessions.disconnect(peer_id, reason);
            },
            StateAction::NewBlock { peer_id, block } => {
                self.sessions.send_message(peer_id, PeerMessage::NewBlock { block });
            },
            StateAction::NewBlockHashes { peer_id, hashes } => {
                self.sessions.send_message(peer_id, PeerMessage::NewBlockHashes { hashes });
            },
        }
        None
    }

    /// Translates one polled session event, exactly as
    /// [`handle_session_event_spec`] states.
    fn on_session_event(&mut self, event: SessionEvent) -> (r: Option<SwarmEvent>)
        ensures
            final(self)@.sessions == handle_session_event_spec(
                old(self)@.sessions,
                old(self)@.state,
                event,
            ).0,
            final(self)@.state == handle_session_event_spec(
                old(self)@.sessions,
                old(self)@.state,
                event,
            ).1,
            r == handle_session_event_spec(old(self)@.sessions, old(self)@.state, event).2,
            final(self)@.incoming == old(self)@.incoming,
    {
        match event {
            SessionEvent::SessionEstablished { session_id: _, node_id, remote_addr, capabilities, status } => {
                match self.state.on_session_activated(node_id, &capabilities, status) {
                    Ok(_) => Some(
                        SwarmEvent::SessionEstablished { node_id, remote_addr, capabilities, status },
                    ),
                    Err(AddSessionError::AtCapacity { peer }) => {
                        self.sessions.disconnect(peer, Some(DisconnectReason::TooManyPeers));
                        None
                    },
                }
            },
            SessionEvent::ValidMessage { node_id, message, request_context } => Some(
                SwarmEvent::ValidMessage { node_id, message, request_context },
            ),
            SessionEvent::InvalidMessage { node_id, message } => Some(
                SwarmEvent::InvalidCapabilityMessage { node_id, message },
            ),
            SessionEvent::IncomingPendingSessionClosed { remote_addr, error } => Some(
                SwarmEvent::IncomingPendingSessionClosed { remote_addr, error },
            ),
            SessionEvent::OutgoingPendingSessionClosed { remote_addr, node_id, error } => Some(
                SwarmEvent::OutgoingPendingSessionClosed { remote_addr, node_id, error },
            ),
            SessionEvent::Disconnected { node_id, remote_addr } => {
                self.state.on_session_closed(node_id);
                Some(SwarmEvent::SessionClosed { node_id, remote_addr })
            },
            SessionEvent::OutgoingConnectionError { remote_addr, node_id, error } => Some(
                SwarmEvent::OutgoingConnectionError { node_id, remote_addr, error },
            ),
        }
    }

    /// Handles one event produced by the connection listener; an admission
    /// rejection at capacity is dropped silently.
    fn on_connection(&mut self, event: ListenerEvent) -> (r: Option<SwarmEvent>)
        requires
            old(self)@.sessions.next_session_id < u64::MAX,
        ensures
            final(self)@.sessions == handle_connection_spec(old(self)@.sessions, event).0,
            r == handle_connection_spec(old(self)@.sessions, event).1,
            final(self)@.state == old(self)@.state,
            final(self)@.incoming == old(self)@.incoming,
    {
        match event {
            ListenerEvent::Error { error } => Some(SwarmEvent::TcpListenerError { error }),
            ListenerEvent::ListenerClosed { local_address } => Some(
                SwarmEvent::TcpListenerClosed { remote_addr: local_address },
            ),
            ListenerEvent::Incoming { remote_addr } => {
                match self.sessions.on_incoming(remote_addr) {
                    Ok(session_id) => Some(
                        SwarmEvent::IncomingTcpConnection { session_id, remote_addr },
                    ),
                    Err(_rejected) => None,
                }
            },
        }
    }

    /// Advances the whole swarm by one scheduling turn, exactly as
    /// [`swarm_poll_spec`] states: state actions first, then session events,
    /// then listener events; at most one externally visible event per turn;
    /// no event at all only once every source ran dry.
    #[verifier::loop_isolation(false)]
    pub fn poll_next(&mut self) -> (r: Option<SwarmEvent>)
        requires
            old(self)@.sessions.next_session_id + old(self)@.state.actions.len() + old(
                self,
            )@.incoming.events.len() <= u64::MAX,
        ensures
            final(self)@ == swarm_poll_spec(old(self)@).model,
            r == swarm_poll_spec(old(self)@).event,
    {
        let ghost m0 = self@;

        // Execute every queued state action before anything else.
        while self.state.has_actions()
            invariant
                self@.incoming == m0.incoming,
                self@.state.max_peers == m0.state.max_peers,
                self@.state.connected == m0.state.connected,
                drain_actions_spec(self@.sessions, self@.state.actions) == drain_actions_spec(
                    m0.sessions,
                    m0.state.actions,
                ),
                self@.sessions.next_session_id + self@.state.actions.len()
                    + self@.incoming.events.len() <= u64::MAX,
            decreases self@.state.actions.len(),
        {
            let next = self.state.poll_action();
            if let Some(action) = next {
                let _none = self.on_state_action(action);
            }
        }
        let ghost man1 = self@.sessions;
        proof {
            assert(self@.state.actions =~= Seq::<StateAction>::empty());
            assert(man1 == drain_actions_spec(m0.sessions, m0.state.actions));
            assert(self@.state == (StateModel { actions: Seq::empty(), ..m0.state }));
        }

        // Translate session events until one becomes externally visible.
        while self.sessions.has_events()
            invariant
                self@.incoming == m0.incoming,
                self@.state.actions == Seq::<StateAction>::empty(),
                process_events_spec(self@.sessions, self@.state) == process_events_spec(
                    man1,
                    (StateModel { actions: Seq::empty(), ..m0.state }),
                ),
                self@.sessions.next_session_id + self@.incoming.events.len() <= u64::MAX,
            decreases self@.sessions.events.len(),
        {
            let next = self.sessions.poll_event();
            if let Some(event) = next {
                let out = self.on_session_event(event);
                if let Some(swarm_event) = out {
                    return Some(swarm_event);
                }
            }
        }

        // Lowest priority: incoming connections.
        let ghost man2 = self@.sessions;
        while self.incoming.has_events()
            invariant
                self@.state.actions == Seq::<StateAction>::empty(),
                self@.state == process_events_spec(
                    man1,
                    (StateModel { actions: Seq::empty(), ..m0.state }),
                ).state,
                self@.incoming.local_address == m0.incoming.local_address,
                process_listener_spec(self@.sessions, self@.incoming.events)
                    == process_listener_spec(man2, m0.incoming.events),
                self@.sessions.next_session_id + self@.incoming.events.len() <= u64::MAX,
            decreases self@.incoming.events.len(),
        {
            let next = self.incoming.poll();
            if let Some(event) = next {
                let out = self.on_connection(event);
                if let Some(swarm_event) = out {
                    return Some(swarm_event);
                }
            }
        }
        None
    }
}

} // verus!
