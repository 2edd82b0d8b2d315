//! The session manager: single source of truth for session identity. It owns
//! the pending and active session sets, performs outbound dialing, inbound
//! admission and disconnect orchestration, and fans all session events into
//! one ordered queue.

use vstd::prelude::*;

use crate::message::{Capabilities, PeerMessage, PeerRequest, WireMessage};
use crate::session::{
    turn_spec, ActiveSession, InboundEvent, MessageEvent, SessionCommand, SessionModel,
};
use crate::types::{DisconnectReason, IoError, PeerId, RemoteAddr, SessionId, WireError};

verus! {

/// Direction of a connection still in its authentication phase.
#[derive(Clone, Copy, Debug, PartialEq, Eq, Structural, Hash)]
pub enum SessionDirection {
    /// Accepted from the listener; the remote identity is unknown until the
    /// handshake completes.
    Incoming,
    /// Dialed by the local node towards a known identity.
    Outgoing { node_id: PeerId },
}

/// A connection whose authentication handshake has not completed yet. It
/// already carries the session id assigned at admission or dial time, so
/// early failures can still be correlated.
#[derive(Clone, Copy, Debug, PartialEq, Eq, Structural, Hash)]
pub struct PendingSession {
    pub session_id: SessionId,
    pub remote_addr: RemoteAddr,
    pub direction: SessionDirection,
}

/// The manager is at its global session-slot capacity: the incoming
/// connection is rejected at once.
#[derive(Clone, Copy, Debug, PartialEq, Eq, Structural, Hash)]
pub struct ExceedsSessionLimit {
    pub limit: usize,
}

/// Externally observable session transitions, produced by sessions and
/// pending handshakes, consumed by the swarm.
#[derive(Clone, Debug, PartialEq, Eq)]
pub enum SessionEvent {
    /// A connection finished authentication and became an active session.
    SessionEstablished {
        session_id: SessionId,
        node_id: PeerId,
        remote_addr: RemoteAddr,
        capabilities: Capabilities,
        status: u64,
    },
    /// An active session received a message under an announced capability;
    /// a correlated response carries the originating request's context.
    ValidMessage { node_id: PeerId, message: WireMessage, request_context: Option<u64> },
    /// An active session received a message under a capability the peer
    /// never announced; the offending capability is in the message itself.
    InvalidMessage { node_id: PeerId, message: WireMessage },
    /// An incoming connection failed or was closed during authentication.
    IncomingPendingSessionClosed { remote_addr: RemoteAddr, error: Option<WireError> },
    /// An outgoing connection failed or was closed during authentication.
    OutgoingPendingSessionClosed {
        remote_addr: RemoteAddr,
        node_id: PeerId,
        error: Option<WireError>,
    },
    /// An active session ended, for whatever reason.
    Disconnected { node_id: PeerId, remote_addr: RemoteAddr },
    /// The transport failed to establish an outgoing connection.
    OutgoingConnectionError { remote_addr: RemoteAddr, node_id: PeerId, error: IoError },
}

/// Mathematical model of the manager.
pub ghost struct ManagerModel {
    pub next_session_id: u64,
    pub session_limit: usize,
    pub pending: Seq<PendingSession>,
    pub active: Seq<SessionModel>,
    pub events: Seq<SessionEvent>,
}

/// The models of a sequence of sessions.
pub open spec fn views_of(s: Seq<ActiveSession>) -> Seq<SessionModel> {
    s.map_values(|x: ActiveSession| x@)
}

/// Index of the first active session connected to `peer`, `-1` if none.
pub open spec fn find_peer(s: Seq<SessionModel>, peer: PeerId) -> int
    decreases s.len(),
{
    if s.len() == 0 {
        -1
    } else if s[0].node_id == peer {
        0
    } else {
        let r = find_peer(s.drop_first(), peer);
        if r == -1 {
            -1
        } else {
            r + 1
        }
    }
}

/// Index of the first pending session with id `sid`, `-1` if none.
pub open spec fn find_pending(s: Seq<PendingSession>, sid: SessionId) -> int
    decreases s.len(),
{
    if s.len() == 0 {
        -1
    } else if s[0].session_id == sid {
        0
    } else {
        let r = find_pending(s.drop_first(), sid);
        if r == -1 {
            -1
        } else {
            r + 1
        }
    }
}

/// Effect of `dial_outbound`: a fresh session id and a pending outgoing
/// session; the caller is never blocked and no event is produced.
pub open spec fn dial_spec(m: ManagerModel, remote_addr: RemoteAddr, peer: PeerId) -> ManagerModel {
    ManagerModel {
        next_session_id: (m.next_session_id + 1) as u64,
        pending: m.pending.push(
            PendingSession {
                session_id: SessionId { id: m.next_session_id },
                remote_addr,
                direction: SessionDirection::Outgoing { node_id: peer },
            },
        ),
        ..m
    }
}

/// Whether the manager has a free session slot.
pub open spec fn has_free_slot(m: ManagerModel) -> bool {
    m.pending.len() + m.active.len() < m.session_limit
}

/// Effect of admitting one incoming connection.
pub open spec fn incoming_spec(m: ManagerModel, remote_addr: RemoteAddr) -> ManagerModel {
    ManagerModel {
        next_session_id: (m.next_session_id + 1) as u64,
        pending: m.pending.push(
            PendingSession {
                session_id: SessionId { id: m.next_session_id },
                remote_addr,
                direction: SessionDirection::Incoming,
            },
        ),
        ..m
    }
}

/// Effect of `disconnect`: best effort. If the peer has an active session and
/// no disconnect was queued yet, one disconnect command is queued; otherwise
/// nothing changes.
pub open spec fn disconnect_spec(
    m: ManagerModel,
    peer: PeerId,
    reason: Option<DisconnectReason>,
) -> ManagerModel {
    let i = find_peer(m.active, peer);
    if i < 0 {
        m
    } else {
        let s = m.active[i];
        if s.disconnect_queued {
            m
        } else {
            ManagerModel {
                active: m.active.update(
                    i,
                    SessionModel {
                        commands: s.commands.push(SessionCommand::Disconnect { reason }),
                        disconnect_queued: true,
                        ..s
                    },
                ),
                ..m
            }
        }
    }
}

/// Effect of `send_message`: best effort. The message is queued as a command
/// for the peer's session; an unknown peer drops it silently.
pub open spec fn send_message_spec(m: ManagerModel, peer: PeerId, msg: PeerMessage) -> ManagerModel {
    let i = find_peer(m.active, peer);
    if i < 0 {
        m
    } else {
        let s = m.active[i];
        ManagerModel {
            active: m.active.update(
                i,
                SessionModel { commands: s.commands.push(SessionCommand::Message { message: msg }), ..s },
            ),
            ..m
        }
    }
}

/// Effect of `send_request`: best effort. The request joins the peer
/// session's request queue; an unknown peer drops it silently.
pub open spec fn send_request_spec(m: ManagerModel, peer: PeerId, req: PeerRequest) -> ManagerModel {
    let i = find_peer(m.active, peer);
    if i < 0 {
        m
    } else {
        let s = m.active[i];
        ManagerModel {
            active: m.active.update(i, SessionModel { requests: s.requests.push(req), ..s }),
            ..m
        }
    }
}

/// The fresh model of a session that just completed authentication.
pub open spec fn established_session_model(
    session_id: SessionId,
    node_id: PeerId,
    remote_addr: RemoteAddr,
    caps: Seq<crate::message::Capability>,
) -> SessionModel {
    SessionModel {
        session_id,
        node_id,
        remote_addr,
        caps,
        next_id: 0,
        inflight: crate::inflight::empty_inflight(),
        commands: Seq::empty(),
        commands_closed: false,
        requests: Seq::empty(),
        buffered: Seq::empty(),
        disconnect_queued: false,
    }
}

/// Effect of a completed authentication handshake: the pending session with
/// that id becomes active and one established event is queued. An unknown id
/// changes nothing.
pub open spec fn auth_succeeded_spec(
    m: ManagerModel,
    session_id: SessionId,
    node_id: PeerId,
    capabilities: Capabilities,
    status: u64,
) -> ManagerModel {
    let i = find_pending(m.pending, session_id);
    if i < 0 {
        m
    } else {
        let p = m.pending[i];
        ManagerModel {
            pending: m.pending.remove(i),
            active: m.active.push(
                established_session_model(session_id, node_id, p.remote_addr, capabilities@),
            ),
            events: m.events.push(
                SessionEvent::SessionEstablished {
                    session_id,
                    node_id,
                    remote_addr: p.remote_addr,
                    capabilities,
                    status,
                },
            ),
            ..m
        }
    }
}

/// Effect of a failed authentication handshake: the pending session is
/// dropped and one closed-pending event is queued, per direction. An unknown
/// id changes nothing.
pub open spec fn auth_failed_spec(
    m: ManagerModel,
    session_id: SessionId,
    error: Option<WireError>,
) -> ManagerModel {
    let i = find_pending(m.pending, session_id);
    if i < 0 {
        m
    } else {
        let p = m.pending[i];
        let ev = match p.direction {
            SessionDirection::Incoming => SessionEvent::IncomingPendingSessionClosed {
                remote_addr: p.remote_addr,
                error,
            },
            SessionDirection::Outgoing { node_id } => SessionEvent::OutgoingPendingSessionClosed {
                remote_addr: p.remote_addr,
                node_id,
                error,
            },
        };
        ManagerModel { pending: m.pending.remove(i), events: m.events.push(ev), ..m }
    }
}

/// Effect of a transport error on a pending outgoing connection: the pending
/// session is dropped and one connection-error event is queued. An unknown id
/// or an incoming pending session changes nothing.
pub open spec fn connection_error_spec(
    m: ManagerModel,
    session_id: SessionId,
    error: IoError,
) -> ManagerModel {
    let i = find_pending(m.pending, session_id);
    if i < 0 {
        m
    } else {
        let p = m.pending[i];
        match p.direction {
            SessionDirection::Incoming => m,
            SessionDirection::Outgoing { node_id } => ManagerModel {
                pending: m.pending.remove(i),
                events: m.events.push(
                    SessionEvent::OutgoingConnectionError {
                        remote_addr: p.remote_addr,
                        node_id,
                        error,
                    },
                ),
                ..m
            },
        }
    }
}

/// The session event a session-level message event fans into.
pub open spec fn session_event_of(node: PeerId, e: MessageEvent) -> SessionEvent {
    match e {
        MessageEvent::Valid { message, request_context } => SessionEvent::ValidMessage {
            node_id: node,
            message,
            request_context,
        },
        MessageEvent::InvalidCapability { message } => SessionEvent::InvalidMessage {
            node_id: node,
            message,
        },
    }
}

/// The session events a whole turn's message events fan into, in order.
pub open spec fn session_events_of(node: PeerId, evs: Seq<MessageEvent>) -> Seq<SessionEvent> {
    evs.map_values(|e: MessageEvent| session_event_of(node, e))
}

/// Result of advancing one session by a scheduling turn.
pub ghost struct AdvanceResult {
    pub model: ManagerModel,
    pub sent: Option<Seq<WireMessage>>,
}

/// Effect of one scheduling turn of the session connected to `peer`: its
/// message events are fanned into the event queue in order; if the turn
/// terminated the session, it leaves the table and one disconnected event is
/// queued after its message events. An unknown peer changes nothing.
pub open spec fn advance_spec(
    m: ManagerModel,
    peer: PeerId,
    inbound: Seq<InboundEvent>,
    capacity: u64,
) -> AdvanceResult {
    let i = find_peer(m.active, peer);
    if i < 0 {
        AdvanceResult { model: m, sent: None }
    } else {
        let t = turn_spec(m.active[i], inbound, capacity);
        let evs = session_events_of(peer, t.events);
        if t.termination is Some {
            AdvanceResult {
                model: ManagerModel {
                    active: m.active.remove(i),
                    events: m.events + evs + seq![
                        SessionEvent::Disconnected {
                            node_id: peer,
                            remote_addr: m.active[i].remote_addr,
                        },
                    ],
                    ..m
                },
                sent: Some(t.sent),
            }
        } else {
            AdvanceResult {
                model: ManagerModel {
                    active: m.active.update(i, t.model),
                    events: m.events + evs,
                    ..m
                },
                sent: Some(t.sent),
            }
        }
    }
}

/// Taking a session out of the table commutes with taking the models.
proof fn lemma_views_remove(s: Seq<ActiveSession>, i: int)
    requires
        0 <= i < s.len(),
    ensures
        views_of(s.remove(i)) == views_of(s).remove(i),
{
    assert forall|j: int| 0 <= j < s.remove(i).len() implies views_of(s.remove(i))[j] == views_of(
        s,
    ).remove(i)[j] by {
        if j < i {
        } else {
        }
    }
    assert(views_of(s.remove(i)) =~= views_of(s).remove(i));
}

/// Putting a session into the table commutes with taking the models.
proof fn lemma_views_insert(s: Seq<ActiveSession>, i: int, x: ActiveSession)
    requires
        0 <= i <= s.len(),
    ensures
        views_of(s.insert(i, x)) == views_of(s).insert(i, x@),
{
    assert forall|j: int| 0 <= j < s.insert(i, x).len() implies views_of(s.insert(i, x))[j]
        == views_of(s).insert(i, x@)[j] by {
        if j < i {
        } else if j == i {
        } else {
        }
    }
    assert(views_of(s.insert(i, x)) =~= views_of(s).insert(i, x@));
}

/// Appending a session to the table commutes with taking the models.
proof fn lemma_views_push(s: Seq<ActiveSession>, x: ActiveSession)
    ensures
        views_of(s.push(x)) == views_of(s).push(x@),
{
    assert forall|j: int| 0 <= j < s.push(x).len() implies views_of(s.push(x))[j] == views_of(
        s,
    ).push(x@)[j] by {
        if j < s.len() {
        } else {
        }
    }
    assert(views_of(s.push(x)) =~= views_of(s).push(x@));
}

/// Taking an element out and putting another back at the same place is an
/// update.
proof fn lemma_remove_insert_update(s: Seq<SessionModel>, i: int, x: SessionModel)
    requires
        0 <= i < s.len(),
    ensures
        s.remove(i).insert(i, x) == s.update(i, x),
{
    assert(s.remove(i).insert(i, x) =~= s.update(i, x));
}

/// If everything before `i` misses `peer` and `s[i]` matches it, `i` is the
/// index `find_peer` picks.
pub proof fn lemma_find_peer_first(s: Seq<SessionModel>, peer: PeerId, i: int)
    requires
        0 <= i < s.len(),
        s[i].node_id == peer,
        forall|j: int| 0 <= j < i ==> s[j].node_id != peer,
    ensures
        find_peer(s, peer) == i,
    decreases i,
{
    if i == 0 {
    } else {
        lemma_find_peer_first(s.drop_first(), peer, i - 1);
    }
}

/// If no session matches `peer`, `find_peer` reports none.
pub proof fn lemma_find_peer_absent(s: Seq<SessionModel>, peer: PeerId)
    requires
        forall|j: int| 0 <= j < s.len() ==> s[j].node_id != peer,
    ensures
        find_peer(s, peer) == -1,
    decreases s.len(),
{
    if s.len() > 0 {
        lemma_find_peer_absent(s.drop_first(), peer);
    }
}

/// If everything before `i` misses `sid` and `s[i]` matches it, `i` is the
/// index `find_pending` picks.
pub proof fn lemma_find_pending_first(s: Seq<PendingSession>, sid: SessionId, i: int)
    requires
        0 <= i < s.len(),
        s[i].session_id == sid,
        forall|j: int| 0 <= j < i ==> s[j].session_id != sid,
    ensures
        find_pending(s, sid) == i,
    decreases i,
{
    if i == 0 {
    } else {
        lemma_find_pending_first(s.drop_first(), sid, i - 1);
    }
}

/// If no pending session matches `sid`, `find_pending` reports none.
pub proof fn lemma_find_pending_absent(s: Seq<PendingSession>, sid: SessionId)
    requires
        forall|j: int| 0 <= j < s.len() ==> s[j].session_id != sid,
    ensures
        find_pending(s, sid) == -1,
    decreases s.len(),
{
    if s.len() > 0 {
        lemma_find_pending_absent(s.drop_first(), sid);
    }
}

/// What a found index means: the session there matches the peer, and every
/// session before it misses it.
pub proof fn lemma_find_peer_props(s: Seq<SessionModel>, peer: PeerId)
    requires
        find_peer(s, peer) >= 0,
    ensures
        find_peer(s, peer) < s.len(),
        s[find_peer(s, peer)].node_id == peer,
        forall|j: int| 0 <= j < find_peer(s, peer) ==> s[j].node_id != peer,
    decreases s.len(),
{
    if s.len() > 0 && s[0].node_id != peer {
        lemma_find_peer_props(s.drop_first(), peer);
        assert forall|j: int| 0 <= j < find_peer(s, peer) implies s[j].node_id != peer by {
            if j > 0 {
                assert(s.drop_first()[j - 1] == s[j]);
            }
        }
    }
}

/// Law: a second disconnect for the same peer is a no-op. The first call
/// queues at most one disconnect command and marks the session; the second
/// call finds the mark and changes nothing, so at most one session-closed
/// event can ever result from the pair.
pub proof fn lemma_disconnect_idempotent(
    m: ManagerModel,
    peer: PeerId,
    first_reason: Option<DisconnectReason>,
    second_reason: Option<DisconnectReason>,
)
    ensures
        disconnect_spec(disconnect_spec(m, peer, first_reason), peer, second_reason)
            == disconnect_spec(m, peer, first_reason),
{
    let i = find_peer(m.active, peer);
    if i >= 0 {
        lemma_find_peer_props(m.active, peer);
        let s = m.active[i];
        if !s.disconnect_queued {
            let m1 = disconnect_spec(m, peer, first_reason);
            assert forall|j: int| 0 <= j < i implies m1.active[j].node_id != peer by {}
            lemma_find_peer_first(m1.active, peer, i);
        }
    }
}

/// Owns the full set of sessions, pending and active.
pub struct SessionManager {
    /// Source of fresh session ids, monotonically assigned.
    next_session_id: u64,
    /// Greatest number of sessions, pending and active together, admitted at
    /// once.
    session_limit: usize,
    /// Connections still in their authentication phase.
    pending: Vec<PendingSession>,
    /// One session per authenticated peer.
    active: Vec<ActiveSession>,
    /// Fan-in queue of session events, oldest first.
    events: Vec<SessionEvent>,
}

impl View for SessionManager {
    type V = ManagerModel;

    closed spec fn view(&self) -> ManagerModel {
        ManagerModel {
            next_session_id: self.next_session_id,
            session_limit: self.session_limit,
            pending: self.pending@,
            active: views_of(self.active@),
            events: self.events@,
        }
    }
}

impl SessionManager {
    /// A manager with no session and the given session-slot capacity.
    pub fn new(session_limit: usize) -> (r: SessionManager)
        ensures
            r@ == (ManagerModel {
                next_session_id: 0,
                session_limit,
                pending: Seq::empty(),
                active: Seq::empty(),
                events: Seq::empty(),
            }),
    {
        let r = SessionManager {
            next_session_id: 0,
            session_limit,
            pending: Vec::new(),
            active: Vec::new(),
            events: Vec::new(),
        };
        proof {
            assert(views_of(r.active@) =~= Seq::<SessionModel>::empty());
        }
        r
    }

    /// Index of the active session connected to `peer`, if any.
    fn find_active_index(&self, peer: PeerId) -> (r: Option<usize>)
        ensures
            match r {
                Some(i) => i < self@.active.len() && find_peer(self@.active, peer) == i as int,
                None => find_peer(self@.active, peer) == -1,
            },
    {
        let mut i: usize = 0;
        while i < self.active.len()
            invariant
                i <= self.active.len(),
                forall|j: int| 0 <= j < i ==> self@.active[j].node_id != peer,
            decreases self.active.len() - i,
        {
            if self.active[i].remote_node_id == peer {
                proof {
                    lemma_find_peer_first(self@.active, peer, i as int);
                }
                return Some(i);
            }
            i = i + 1;
        }
        proof {
            lemma_find_peer_absent(self@.active, peer);
        }
        None
    }

    /// Index of the pending session with id `sid`, if any.
    fn find_pending_index(&self, sid: SessionId) -> (r: Option<usize>)
        ensures
            match r {
                Some(i) => i < self@.pending.len() && find_pending(self@.pending, sid) == i as int,
                None => find_pending(self@.pending, sid) == -1,
            },
    {
        let mut i: usize = 0;
        while i < self.pending.len()
            invariant
                i <= self.pending.len(),
                forall|j: int| 0 <= j < i ==> self@.pending[j].session_id != sid,
            decreases self.pending.len() - i,
        {
            if self.pending[i].session_id == sid {
                proof {
                    lemma_find_pending_first(self@.pending, sid, i as int);
                }
                return Some(i);
            }
            i = i + 1;
        }
        proof {
            lemma_find_pending_absent(self@.pending, sid);
        }
        None
    }

    /// Begins an outbound connection attempt towards `remote_id`, assigning a
    /// session id immediately so early failures can still be correlated. The
    /// caller is never blocked.
    pub fn dial_outbound(&mut self, remote_addr: RemoteAddr, remote_id: PeerId)
        requires
            old(self)@.next_session_id < u64::MAX,
        ensures
            final(self)@ == dial_spec(old(self)@, remote_addr, remote_id),
    {
        let session_id = SessionId { id: self.next_session_id };
        self.next_session_id = self.next_session_id + 1;
        self.pending.push(
            PendingSession {
                session_id,
                remote_addr,
                direction: SessionDirection::Outgoing { node_id: remote_id },
            },
        );
    }

    /// Admits a newly accepted incoming connection, assigning it a session
    /// id, or rejects it at once when the manager is at capacity. Admission
    /// does not imply authentication success.
    pub fn on_incoming(&mut self, remote_addr: RemoteAddr) -> (r: Result<
        SessionId,
        ExceedsSessionLimit,
    >)
        requires
            old(self)@.next_session_id < u64::MAX,
        ensures
            has_free_slot(old(self)@) ==> r == Ok::<SessionId, ExceedsSessionLimit>(
                SessionId { id: old(self)@.next_session_id },
            ) && final(self)@ == incoming_spec(old(self)@, remote_addr),
            !has_free_slot(old(self)@) ==> r == Err::<SessionId, ExceedsSessionLimit>(
                ExceedsSessionLimit { limit: old(self)@.session_limit },
            ) && *final(self) == *old(self),
    {
        if self.pending.len() >= self.session_limit
            || self.active.len() >= self.session_limit - self.pending.len() {
            return Err(ExceedsSessionLimit { limit: self.session_limit });
        }
        let session_id = SessionId { id: self.next_session_id };
        self.next_session_id = self.next_session_id + 1;
        self.pending.push(
            PendingSession { session_id, remote_addr, direction: SessionDirection::Incoming },
        );
        Ok(session_id)
    }

    /// Best-effort disconnect: queues one disconnect command for the peer's
    /// session. A peer with no session, or one whose disconnect is already
    /// queued, is a no-op, not an error.
    pub fn disconnect(&mut self, peer: PeerId, reason: Option<DisconnectReason>)
        ensures
            final(self)@ == disconnect_spec(old(self)@, peer, reason),
    {
        let found = self.find_active_index(peer);
        match found {
            None => {},
            Some(i) => {
                if self.active[i].disconnect_queued {
                    proof {
                        assert(self@.active[i as int].disconnect_queued);
                    }
                } else {
                    let ghost av0 = self.active@;
                    let mut s = self.active.remove(i);
                    proof {
                        lemma_views_remove(av0, i as int);
                    }
                    s.commands.push(SessionCommand::Disconnect { reason });
                    s.disconnect_queued = true;
                    let ghost sv = s@;
                    proof {
                        lemma_views_insert(self.active@, i as int, s);
                        lemma_remove_insert_update(views_of(av0), i as int, sv);
                    }
                    self.active.insert(i, s);
                }
            },
        }
    }

    /// Best-effort message delivery: queues the message as a command for the
    /// peer's session; silently dropped if the peer is unknown.
    pub fn send_message(&mut self, peer: PeerId, msg: PeerMessage)
        ensures
            final(self)@ == send_message_spec(old(self)@, peer, msg),
    {
        let found = self.find_active_index(peer);
        match found {
            None => {},
            Some(i) => {
                let ghost av0 = self.active@;
                let mut s = self.active.remove(i);
                proof {
                    lemma_views_remove(av0, i as int);
                }
                s.commands.push(SessionCommand::Message { message: msg });
                let ghost sv = s@;
                proof {
                    lemma_views_insert(self.active@, i as int, s);
                    lemma_remove_insert_update(views_of(av0), i as int, sv);
                }
                self.active.insert(i, s);
            },
        }
    }

    /// Best-effort request delivery: the request joins the peer session's
    /// request queue; silently dropped if the peer is unknown.
    pub fn send_request(&mut self, peer: PeerId, req: PeerRequest)
        ensures
            final(self)@ == send_request_spec(old(self)@, peer, req),
    {
        let found = self.find_active_index(peer);
        match found {
            None => {},
            Some(i) => {
                let ghost av0 = self.active@;
                let mut s = self.active.remove(i);
                proof {
                    lemma_views_remove(av0, i as int);
                }
                s.pending_requests.push(req);
                let ghost sv = s@;
                proof {
                    lemma_views_insert(self.active@, i as int, s);
                    lemma_remove_insert_update(views_of(av0), i as int, sv);
                }
                self.active.insert(i, s);
            },
        }
    }

    /// Turns the pending session with this id into an active session and
    /// queues the established event; reported by the handshake driver at the
    /// point where a connection becomes an authenticated session.
    pub fn on_authentication_succeeded(
        &mut self,
        session_id: SessionId,
        node_id: PeerId,
        capabilities: Capabilities,
        status: u64,
    )
        ensures
            final(self)@ == auth_succeeded_spec(old(self)@, session_id, node_id, capabilities, status),
    {
        let found = self.find_pending_index(session_id);
        match found {
            None => {},
            Some(i) => {
                let ghost before = self@;
                let ghost caps0 = capabilities@;
                let p = self.pending.remove(i);
                let session_caps = capabilities.clone();
                let session = ActiveSession::new(session_id, node_id, p.remote_addr, session_caps);
                proof {
                    lemma_views_push(self.active@, session);
                }
                self.active.push(session);
                self.events.push(
                    SessionEvent::SessionEstablished {
                        session_id,
                        node_id,
                        remote_addr: p.remote_addr,
                        capabilities,
                        status,
                    },
                );
                proof {
                    assert(views_of(self.active@) =~= before.active.push(
                        established_session_model(session_id, node_id, p.remote_addr, caps0),
                    ));
                }
            },
        }
    }

    /// Drops the pending session with this id and queues the closed-pending
    /// event for its direction; reported by the handshake driver when
    /// authentication fails. Other sessions are unaffected.
    pub fn on_authentication_failed(&mut self, session_id: SessionId, error: Option<WireError>)
        ensures
            final(self)@ == auth_failed_spec(old(self)@, session_id, error),
    {
        let found = self.find_pending_index(session_id);
        match found {
            None => {},
            Some(i) => {
                let p = self.pending.remove(i);
                match p.direction {
                    SessionDirection::Incoming => {
                        self.events.push(
                            SessionEvent::IncomingPendingSessionClosed {
                                remote_addr: p.remote_addr,
                                error,
                            },
                        );
                    },
                    SessionDirection::Outgoing { node_id } => {
                        self.events.push(
                            SessionEvent::OutgoingPendingSessionClosed {
                                remote_addr: p.remote_addr,
                                node_id,
                                error,
                            },
                        );
                    },
                }
            },
        }
    }

    /// Drops the pending outgoing session with this id and queues the
    /// connection-error event; reported by the transport when the dial fails.
    pub fn on_outgoing_connection_error(&mut self, session_id: SessionId, error: IoError)
        ensures
            final(self)@ == connection_error_spec(old(self)@, session_id, error),
    {
        let found = self.find_pending_index(session_id);
        match found {
            None => {},
            Some(i) => {
                match self.pending[i].direction {
                    SessionDirection::Incoming => {},
                    SessionDirection::Outgoing { node_id } => {
                        let p = self.pending.remove(i);
                        self.events.push(
                            SessionEvent::OutgoingConnectionError {
                                remote_addr: p.remote_addr,
                                node_id,
                                error,
                            },
                        );
                    },
                }
            },
        }
    }

    /// Runs one scheduling turn of the session connected to `peer` over the
    /// wire input, fans its events into the queue, removes it if the turn
    /// terminated it, and returns the messages handed to the wire. An unknown
    /// peer is a no-op.
    #[verifier::loop_isolation(false)]
    pub fn advance_session(
        &mut self,
        peer: PeerId,
        inbound: Vec<InboundEvent>,
        send_capacity: u64,
    ) -> (sent: Option<Vec<WireMessage>>)
        requires
            forall|j: int| 0 <= j < old(self)@.active.len() ==> old(self)@.active[j].next_id
                + old(self)@.active[j].requests.len() <= u64::MAX,
        ensures
            final(self)@ == advance_spec(old(self)@, peer, inbound@, send_capacity).model,
            match sent {
                Some(v) => advance_spec(old(self)@, peer, inbound@, send_capacity).sent == Some(v@),
                None => advance_spec(old(self)@, peer, inbound@, send_capacity).sent is None,
            },
    {
        let ghost m0 = self@;
        let found = self.find_active_index(peer);
        let i = match found {
            None => {
                return None;
            },
            Some(i) => i,
        };
        let ghost av0 = self.active@;
        let mut session = self.active.remove(i);
        let remote_addr = session.remote_addr;
        let ghost smodel = session@;
        proof {
            assert(smodel == m0.active[i as int]);
            lemma_views_remove(av0, i as int);
        }
        let turn = session.poll(inbound, send_capacity);
        let ghost t = turn_spec(smodel, inbound@, send_capacity);

        // Fan the turn's message events into the event queue, in order.
        let ghost events0 = self@.events;
        let mut evs = turn.events;
        let ghost evs0 = evs@;
        let ghost mut k: int = 0;
        proof {
            assert(events0 + session_events_of(peer, evs0.take(0)) =~= events0);
        }
        while evs.len() > 0
            invariant
                0 <= k <= evs0.len(),
                evs@ == evs0.skip(k),
                self@.events == events0 + session_events_of(peer, evs0.take(k)),
                self@.active == m0.active.remove(i as int),
                self@.pending == m0.pending,
                self@.next_session_id == m0.next_session_id,
                self@.session_limit == m0.session_limit,
            decreases evs.len(),
        {
            let e = evs.remove(0);
            proof {
                assert(evs0.skip(k).remove(0) =~= evs0.skip(k + 1));
                assert(e == evs0[k]);
            }
            match e {
                MessageEvent::Valid { message, request_context } => {
                    self.events.push(
                        SessionEvent::ValidMessage { node_id: peer, message, request_context },
                    );
                },
                MessageEvent::InvalidCapability { message } => {
                    self.events.push(SessionEvent::InvalidMessage { node_id: peer, message });
                },
            }
            proof {
                assert(session_events_of(peer, evs0.take(k)).push(
                    session_event_of(peer, evs0[k]),
                ) =~= session_events_of(peer, evs0.take(k + 1)));
                assert(events0 + session_events_of(peer, evs0.take(k)) + seq![
                    session_event_of(peer, evs0[k]),
                ] =~= events0 + session_events_of(peer, evs0.take(k + 1)));
                k = k + 1;
            }
        }
        proof {
            assert(evs0.take(evs0.len() as int) =~= evs0);
            assert(evs0 == t.events);
        }

        match turn.termination {
            Some(_) => {
                self.events.push(
                    SessionEvent::Disconnected { node_id: peer, remote_addr },
                );
                proof {
                    assert(self@.events =~= m0.events + session_events_of(peer, t.events) + seq![
                        SessionEvent::Disconnected {
                            node_id: peer,
                            remote_addr: m0.active[i as int].remote_addr,
                        },
                    ]);
                    assert(views_of(self.active@) =~= m0.active.remove(i as int));
                }
            },
            None => {
                proof {
                    lemma_views_insert(self.active@, i as int, session);
                    lemma_remove_insert_update(m0.active, i as int, session@);
                }
                self.active.insert(i, session);
            },
        }
        Some(turn.sent)
    }

    /// The next session event across all pending and active sessions, if one
    /// is queued; this is the single merged event source the swarm consumes.
    pub fn poll_event(&mut self) -> (r: Option<SessionEvent>)
        ensures
            old(self)@.events.len() == 0 ==> r is None && *final(self) == *old(self),
            old(self)@.events.len() > 0 ==> r == Some(old(self)@.events[0]) && final(self)@ == (
                ManagerModel { events: old(self)@.events.drop_first(), ..old(self)@ }
            ),
    {
        if self.events.len() == 0 {
            return None;
        }
        let e = self.events.remove(0);
        proof {
            assert(old(self)@.events.remove(0) =~= old(self)@.events.drop_first());
        }
        Some(e)
    }

    /// Whether any session event is queued.
    pub fn has_events(&self) -> (r: bool)
        ensures
            r == (self@.events.len() > 0),
    {
        self.events.len() > 0
    }

    /// Closes every active session's command channel, the manager's sole
    /// cancellation primitive: each session terminates on its next turn once
    /// its queued commands are drained.
    #[verifier::loop_isolation(false)]
    pub fn shutdown(&mut self)
        ensures
            final(self)@ == (ManagerModel {
                active: old(self)@.active.map_values(
                    |s: SessionModel| SessionModel { commands_closed: true, ..s },
                ),
                ..old(self)@
            }),
    {
        let ghost m0 = self@;
        let mut i: usize = 0;
        while i < self.active.len()
            invariant
                i <= self.active.len(),
                self@.active.len() == m0.active.len(),
                forall|j: int| 0 <= j < i ==> self@.active[j] == (SessionModel {
                    commands_closed: true,
                    ..m0.active[j]
                }),
                forall|j: int| i <= j < m0.active.len() ==> self@.active[j] == m0.active[j],
                self@.pending == m0.pending,
                self@.events == m0.events,
                self@.next_session_id == m0.next_session_id,
                self@.session_limit == m0.session_limit,
            decreases self.active.len() - i,
        {
            let ghost av0 = self.active@;
            let mut s = self.active.remove(i);
            proof {
                lemma_views_remove(av0, i as int);
            }
            s.commands_closed = true;
            let ghost sv = s@;
            proof {
                lemma_views_insert(self.active@, i as int, s);
                lemma_remove_insert_update(views_of(av0), i as int, sv);
            }
            self.active.insert(i, s);
            i = i + 1;
        }
        proof {
            assert(self@.active =~= m0.active.map_values(
                |s: SessionModel| SessionModel { commands_closed: true, ..s },
            ));
        }
    }
}

} // verus!
