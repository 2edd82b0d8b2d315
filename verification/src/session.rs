//! One established session: the state machine that drives one authenticated
//! peer connection, translating between the manager's command and request
//! channels and the wire-protocol channel.
//!
//! Each scheduling turn works over a snapshot of the session's inputs in
//! strict priority order: manager commands first, then locally originated
//! requests, then outbound sends while the wire has capacity, then inbound
//! messages. The turn's meaning is given by [`turn_spec`], the staged
//! transition over the session's model.

use vstd::prelude::*;

use crate::inflight::{empty_inflight, inflight_map, InFlightRequests};
use crate::message::{
    spec_wire_of_peer_message, wire_of_peer_message, Capabilities, Capability, PeerMessage,
    PeerRequest, WireMessage,
};
use crate::types::{DisconnectReason, PeerId, RemoteAddr, SessionId, WireError};

verus! {

/// Command delivered by the session manager over the session's command
/// channel; drained before any other input each scheduling turn.
#[derive(Clone, Debug, PartialEq, Eq)]
pub enum SessionCommand {
    /// Tear the session down, optionally telling the peer why.
    Disconnect { reason: Option<DisconnectReason> },
    /// Frame the message and queue it for the peer.
    Message { message: PeerMessage },
}

/// One item the wire-protocol channel produced since the session last ran.
#[derive(Clone, Debug, PartialEq, Eq)]
pub enum InboundEvent {
    /// A decoded message from the peer.
    Message { message: WireMessage },
    /// The channel failed while decoding; the session terminates and the
    /// error is reported upward.
    DecodeError { error: WireError },
    /// The peer closed the connection; treated as normal termination.
    Closed,
}

/// Why a scheduling turn ended the session.
#[derive(Clone, Copy, Debug, PartialEq, Eq, Structural, Hash)]
pub enum Termination {
    /// The manager's command channel closed: the manager has shut down.
    ManagerDropped,
    /// The manager asked for a disconnect.
    Disconnected { reason: Option<DisconnectReason> },
    /// The peer closed the connection.
    RemoteClosed,
    /// The wire channel failed while decoding.
    StreamError { error: WireError },
}

/// Externally observable outcome of handling one inbound message.
#[derive(Clone, Debug, PartialEq, Eq)]
pub enum MessageEvent {
    /// The message was framed under an announced capability. A response that
    /// correlated to an in-flight request id carries the originating
    /// request's context; an unsolicited message carries none.
    Valid { message: WireMessage, request_context: Option<u64> },
    /// The message references a capability the peer never announced; the
    /// session stays alive and surfaces it as data.
    InvalidCapability { message: WireMessage },
}

/// Everything one scheduling turn produced: message events in handling order,
/// messages handed to the wire in FIFO order, and the termination if the turn
/// ended the session.
#[derive(Debug, PartialEq, Eq)]
pub struct SessionTurn {
    pub events: Vec<MessageEvent>,
    pub sent: Vec<WireMessage>,
    pub termination: Option<Termination>,
}

/// Mathematical model of a session: queues as sequences, the in-flight table
/// as a map, and the identity fields carried along unchanged.
pub ghost struct SessionModel {
    pub session_id: SessionId,
    pub node_id: PeerId,
    pub remote_addr: RemoteAddr,
    pub caps: Seq<Capability>,
    pub next_id: u64,
    pub inflight: Map<u64, u64>,
    pub commands: Seq<SessionCommand>,
    pub commands_closed: bool,
    pub requests: Seq<PeerRequest>,
    pub buffered: Seq<WireMessage>,
    pub disconnect_queued: bool,
}

/// Drives one authenticated peer connection to completion.
pub struct ActiveSession {
    /// Next request id to assign: strictly increasing, never reused while the
    /// session lives.
    pub next_id: u64,
    /// Identity of the node this session is connected to.
    pub remote_node_id: PeerId,
    /// All capabilities the peer announced; never mutated after establishment.
    pub remote_capabilities: Capabilities,
    /// Internal identifier of this session.
    pub session_id: SessionId,
    /// Address of the remote peer.
    pub remote_addr: RemoteAddr,
    /// Commands queued by the manager, oldest first.
    pub commands: Vec<SessionCommand>,
    /// Set once the manager has shut down; observed after the queued commands
    /// are drained and terminates the session.
    pub commands_closed: bool,
    /// Locally originated requests awaiting id assignment, oldest first.
    pub pending_requests: Vec<PeerRequest>,
    /// All requests currently in flight: request id to request context.
    pub inflight: InFlightRequests,
    /// Messages buffered until the wire reports send capacity, oldest first.
    pub buffered_outgoing: Vec<WireMessage>,
    /// Set once a disconnect command has been queued, so a second disconnect
    /// for the same peer is a no-op.
    pub disconnect_queued: bool,
}

impl View for ActiveSession {
    type V = SessionModel;

    open spec fn view(&self) -> SessionModel {
        SessionModel {
            session_id: self.session_id,
            node_id: self.remote_node_id,
            remote_addr: self.remote_addr,
            caps: self.remote_capabilities@,
            next_id: self.next_id,
            inflight: inflight_map(self.inflight),
            commands: self.commands@,
            commands_closed: self.commands_closed,
            requests: self.pending_requests@,
            buffered: self.buffered_outgoing@,
            disconnect_queued: self.disconnect_queued,
        }
    }
}

/// Stage one: drain the command queue completely. A message command joins the
/// outgoing queue; a disconnect command, or the closed command channel once
/// the queue is empty, ends the session at once.
pub open spec fn drain_commands_spec(m: SessionModel) -> (SessionModel, Option<Termination>)
    decreases m.commands.len(),
{
    if m.commands.len() == 0 {
        if m.commands_closed {
            (m, Some(Termination::ManagerDropped))
        } else {
            (m, None)
        }
    } else {
        match m.commands[0] {
            SessionCommand::Disconnect { reason } => (
                SessionModel { commands: Seq::empty(), ..m },
                Some(Termination::Disconnected { reason }),
            ),
            SessionCommand::Message { message } => drain_commands_spec(
                SessionModel {
                    commands: m.commands.drop_first(),
                    buffered: m.buffered.push(spec_wire_of_peer_message(message)),
                    ..m
                },
            ),
        }
    }
}

/// Stage two: drain the locally originated requests, assigning each the next
/// request id, tracking it in flight and queueing its wire frame.
pub open spec fn drain_requests_spec(m: SessionModel) -> SessionModel
    decreases m.requests.len(),
{
    if m.requests.len() == 0 {
        m
    } else {
        let r = m.requests[0];
        drain_requests_spec(
            SessionModel {
                requests: m.requests.drop_first(),
                next_id: (m.next_id + 1) as u64,
                inflight: m.inflight.insert(m.next_id, r.payload),
                buffered: m.buffered.push(
                    WireMessage::Request {
                        capability: r.capability,
                        request_id: m.next_id,
                        payload: r.payload,
                    },
                ),
                ..m
            },
        )
    }
}

/// How many buffered messages stage three hands to the wire: all of them, or
/// as many as the wire has capacity for.
pub open spec fn send_count(m: SessionModel, capacity: u64) -> int {
    if m.buffered.len() <= capacity {
        m.buffered.len() as int
    } else {
        capacity as int
    }
}

/// Stage three: dequeue from the outgoing queue, in FIFO order, while the
/// wire reports send capacity.
pub open spec fn send_spec(m: SessionModel, capacity: u64) -> (SessionModel, Seq<WireMessage>) {
    (
        SessionModel { buffered: m.buffered.skip(send_count(m, capacity)), ..m },
        m.buffered.take(send_count(m, capacity)),
    )
}

/// How one decoded message is handled: a message under an unannounced
/// capability is surfaced as invalid; a response correlating to an in-flight
/// request id removes it from tracking; everything else is an unsolicited
/// valid message.
pub open spec fn classify_inbound(m: SessionModel, w: WireMessage) -> (SessionModel, MessageEvent) {
    if !m.caps.contains(w.spec_capability()) {
        (m, MessageEvent::InvalidCapability { message: w })
    } else {
        match w {
            WireMessage::Response { request_id, .. } => if m.inflight.dom().contains(request_id) {
                (
                    SessionModel { inflight: m.inflight.remove(request_id), ..m },
                    MessageEvent::Valid {
                        message: w,
                        request_context: Some(m.inflight[request_id]),
                    },
                )
            } else {
                (m, MessageEvent::Valid { message: w, request_context: None })
            },
            _ => (m, MessageEvent::Valid { message: w, request_context: None }),
        }
    }
}

/// Result of stage four over a sequence of inbound items.
pub ghost struct InboundOutcome {
    pub model: SessionModel,
    pub events: Seq<MessageEvent>,
    pub termination: Option<Termination>,
}

/// Stage four: drain the decoded inbound items in order. A decode error or
/// the closed connection ends the session, keeping the events emitted so far.
pub open spec fn inbound_spec(m: SessionModel, items: Seq<InboundEvent>) -> InboundOutcome
    decreases items.len(),
{
    if items.len() == 0 {
        InboundOutcome { model: m, events: Seq::empty(), termination: None }
    } else {
        match items[0] {
            InboundEvent::Message { message } => {
                let step = classify_inbound(m, message);
                let rest = inbound_spec(step.0, items.drop_first());
                InboundOutcome {
                    model: rest.model,
                    events: seq![step.1] + rest.events,
                    termination: rest.termination,
                }
            },
            InboundEvent::DecodeError { error } => InboundOutcome {
                model: m,
                events: Seq::empty(),
                termination: Some(Termination::StreamError { error }),
            },
            InboundEvent::Closed => InboundOutcome {
                model: m,
                events: Seq::empty(),
                termination: Some(Termination::RemoteClosed),
            },
        }
    }
}

/// Result of one full scheduling turn.
pub ghost struct TurnResult {
    pub model: SessionModel,
    pub events: Seq<MessageEvent>,
    pub sent: Seq<WireMessage>,
    pub termination: Option<Termination>,
}

/// One full scheduling turn over a snapshot of the session's inputs:
/// commands, then requests, then sends up to capacity, then inbound items. A
/// stage that terminates the session stops the turn at once.
pub open spec fn turn_spec(m: SessionModel, inbound: Seq<InboundEvent>, capacity: u64) -> TurnResult {
    let stage1 = drain_commands_spec(m);
    if stage1.1 is Some {
        TurnResult {
            model: stage1.0,
            events: Seq::empty(),
            sent: Seq::empty(),
            termination: stage1.1,
        }
    } else {
        let m2 = drain_requests_spec(stage1.0);
        let stage3 = send_spec(m2, capacity);
        let stage4 = inbound_spec(stage3.0, inbound);
        TurnResult {
            model: stage4.model,
            events: stage4.events,
            sent: stage3.1,
            termination: stage4.termination,
        }
    }
}

/// Whether every id the session holds in flight lies below the next id to
/// assign, so no future assignment can reuse one. Freshly established
/// sessions satisfy this and every turn preserves it.
pub open spec fn session_wf(m: SessionModel) -> bool {
    forall|k: u64| m.inflight.dom().contains(k) ==> k < m.next_id
}

/// The request ids stage two assigns, in queue order.
pub open spec fn assigned_request_ids(m: SessionModel) -> Seq<u64> {
    Seq::new(m.requests.len(), |i: int| (m.next_id + i) as u64)
}

/// The wire frames stage two queues for the requests, in order.
pub open spec fn request_wires(start: u64, reqs: Seq<PeerRequest>) -> Seq<WireMessage> {
    Seq::new(
        reqs.len(),
        |i: int| WireMessage::Request {
            capability: reqs[i].capability,
            request_id: (start + i) as u64,
            payload: reqs[i].payload,
        },
    )
}

/// The wire frames stage one queues for a run of message commands, in order.
pub open spec fn command_wires(cmds: Seq<SessionCommand>) -> Seq<WireMessage>
    decreases cmds.len(),
{
    if cmds.len() == 0 {
        Seq::empty()
    } else {
        match cmds[0] {
            SessionCommand::Message { message } => seq![spec_wire_of_peer_message(message)]
                + command_wires(cmds.drop_first()),
            SessionCommand::Disconnect { .. } => command_wires(cmds.drop_first()),
        }
    }
}

/// Stage one never touches the id counter, the in-flight table, the request
/// queue or the session's identity.
pub proof fn lemma_drain_commands_preserved(m: SessionModel)
    ensures
        drain_commands_spec(m).0.next_id == m.next_id,
        drain_commands_spec(m).0.inflight == m.inflight,
        drain_commands_spec(m).0.requests == m.requests,
        drain_commands_spec(m).0.caps == m.caps,
        drain_commands_spec(m).0.session_id == m.session_id,
        drain_commands_spec(m).0.node_id == m.node_id,
        drain_commands_spec(m).0.remote_addr == m.remote_addr,
        drain_commands_spec(m).0.commands_closed == m.commands_closed,
        drain_commands_spec(m).0.disconnect_queued == m.disconnect_queued,
    decreases m.commands.len(),
{
    if m.commands.len() > 0 {
        match m.commands[0] {
            SessionCommand::Disconnect { .. } => {},
            SessionCommand::Message { message } => {
                lemma_drain_commands_preserved(
                    SessionModel {
                        commands: m.commands.drop_first(),
                        buffered: m.buffered.push(spec_wire_of_peer_message(message)),
                        ..m
                    },
                );
            },
        }
    }
}

/// When the command channel is open and every queued command is a message,
/// stage one terminates nothing and appends exactly the commands' wire
/// frames, in command order, to the outgoing queue.
pub proof fn lemma_drain_commands_messages(m: SessionModel)
    requires
        !m.commands_closed,
        forall|i: int| 0 <= i < m.commands.len() ==> m.commands[i] is Message,
    ensures
        drain_commands_spec(m) == ((
            SessionModel { commands: Seq::empty(), buffered: m.buffered + command_wires(m.commands), ..m },
            Option::<Termination>::None,
        )),
    decreases m.commands.len(),
{
    if m.commands.len() == 0 {
        assert(m.commands =~= Seq::<SessionCommand>::empty());
        assert(m.buffered + command_wires(m.commands) =~= m.buffered);
    } else {
        match m.commands[0] {
            SessionCommand::Disconnect { .. } => {
                assert(false);
            },
            SessionCommand::Message { message } => {
                let w0 = spec_wire_of_peer_message(message);
                let m1 = SessionModel {
                    commands: m.commands.drop_first(),
                    buffered: m.buffered.push(w0),
                    ..m
                };
                assert forall|i: int| 0 <= i < m1.commands.len() implies m1.commands[i]
                    is Message by {
                    assert(m1.commands[i] == m.commands[i + 1]);
                }
                lemma_drain_commands_messages(m1);
                assert(m.buffered.push(w0) + command_wires(m.commands.drop_first()) =~= m.buffered
                    + command_wires(m.commands));
            },
        }
    }
}

/// Full characterization of stage two: the request queue empties, the id
/// counter advances by its length, each request is framed with its
/// consecutive id, and the in-flight table gains exactly those ids.
pub proof fn lemma_drain_requests(m: SessionModel)
    requires
        m.next_id + m.requests.len() <= u64::MAX,
    ensures
        drain_requests_spec(m).next_id == m.next_id + m.requests.len(),
        drain_requests_spec(m).requests.len() == 0,
        drain_requests_spec(m).buffered == m.buffered + request_wires(m.next_id, m.requests),
        forall|k: u64| #![trigger drain_requests_spec(m).inflight.dom().contains(k)]
            drain_requests_spec(m).inflight.dom().contains(k) <==> (m.inflight.dom().contains(k)
            || (m.next_id <= k < m.next_id + m.requests.len())),
        forall|j: int| 0 <= j < m.requests.len() ==> drain_requests_spec(m).inflight[(m.next_id + j) as u64]
            == m.requests[j].payload,
        forall|k: u64| m.inflight.dom().contains(k) && !(m.next_id <= k < m.next_id
            + m.requests.len()) ==> drain_requests_spec(m).inflight[k] == m.inflight[k],
        drain_requests_spec(m).commands == m.commands,
        drain_requests_spec(m).commands_closed == m.commands_closed,
        drain_requests_spec(m).caps == m.caps,
        drain_requests_spec(m).session_id == m.session_id,
        drain_requests_spec(m).node_id == m.node_id,
        drain_requests_spec(m).remote_addr == m.remote_addr,
        drain_requests_spec(m).disconnect_queued == m.disconnect_queued,
    decreases m.requests.len(),
{
    if m.requests.len() == 0 {
        assert(request_wires(m.next_id, m.requests) =~= Seq::<WireMessage>::empty());
        assert(m.buffered + request_wires(m.next_id, m.requests) =~= m.buffered);
    } else {
        let r0 = m.requests[0];
        let w0 = WireMessage::Request {
            capability: r0.capability,
            request_id: m.next_id,
            payload: r0.payload,
        };
        let m1 = SessionModel {
            requests: m.requests.drop_first(),
            next_id: (m.next_id + 1) as u64,
            inflight: m.inflight.insert(m.next_id, r0.payload),
            buffered: m.buffered.push(w0),
            ..m
        };
        lemma_drain_requests(m1);
        assert(drain_requests_spec(m) == drain_requests_spec(m1));
        assert(m.buffered.push(w0) + request_wires((m.next_id + 1) as u64, m.requests.drop_first())
            =~= m.buffered + request_wires(m.next_id, m.requests));
        assert forall|k: u64| drain_requests_spec(m).inflight.dom().contains(k) <==> (
        m.inflight.dom().contains(k) || (m.next_id <= k < m.next_id + m.requests.len())) by {
            assert(m1.inflight.dom().contains(k) <==> (m.inflight.dom().contains(k) || k
                == m.next_id));
        }
        assert forall|j: int| 0 <= j < m.requests.len() implies drain_requests_spec(
            m,
        ).inflight[(m.next_id + j) as u64] == m.requests[j].payload by {
            if j == 0 {
                assert(m1.inflight.dom().contains(m.next_id));
                assert(m1.inflight[m.next_id] == r0.payload);
            } else {
                assert(m1.requests[j - 1] == m.requests[j]);
                assert(drain_requests_spec(m1).inflight[(m1.next_id + (j - 1)) as u64]
                    == m1.requests[j - 1].payload);
            }
        }
        assert forall|k: u64| m.inflight.dom().contains(k) && !(m.next_id <= k < m.next_id
            + m.requests.len()) implies drain_requests_spec(m).inflight[k] == m.inflight[k] by {
            assert(m1.inflight.dom().contains(k));
            assert(m1.inflight[k] == m.inflight[k]);
            assert(drain_requests_spec(m1).inflight[k] == m1.inflight[k]);
        }
    }
}

/// Stage four only ever shrinks the in-flight table and touches nothing
/// else of the session's state.
pub proof fn lemma_inbound_preserved(m: SessionModel, items: Seq<InboundEvent>)
    ensures
        inbound_spec(m, items).model.next_id == m.next_id,
        inbound_spec(m, items).model.caps == m.caps,
        inbound_spec(m, items).model.commands == m.commands,
        inbound_spec(m, items).model.commands_closed == m.commands_closed,
        inbound_spec(m, items).model.requests == m.requests,
        inbound_spec(m, items).model.buffered == m.buffered,
        inbound_spec(m, items).model.session_id == m.session_id,
        inbound_spec(m, items).model.node_id == m.node_id,
        inbound_spec(m, items).model.remote_addr == m.remote_addr,
        inbound_spec(m, items).model.disconnect_queued == m.disconnect_queued,
        forall|k: u64| inbound_spec(m, items).model.inflight.dom().contains(k)
            ==> m.inflight.dom().contains(k),
    decreases items.len(),
{
    if items.len() > 0 {
        match items[0] {
            InboundEvent::Message { message } => {
                let step = classify_inbound(m, message);
                lemma_inbound_preserved(step.0, items.drop_first());
                assert(inbound_spec(m, items).model == inbound_spec(
                    step.0,
                    items.drop_first(),
                ).model);
                assert forall|k: u64| inbound_spec(m, items).model.inflight.dom().contains(k)
                    implies m.inflight.dom().contains(k) by {
                    assert(step.0.inflight.dom().contains(k));
                }
            },
            InboundEvent::DecodeError { .. } => {},
            InboundEvent::Closed => {},
        }
    }
}

/// Law: within one turn the assigned request ids are strictly increasing in
/// queue order, none repeats an id still in flight, and all lie at or above
/// the session's id counter — so an id is never reused while the session
/// lives.
pub proof fn lemma_request_ids_strictly_increasing(m: SessionModel)
    requires
        session_wf(m),
        m.next_id + m.requests.len() <= u64::MAX,
    ensures
        forall|i: int, j: int| 0 <= i < j < m.requests.len() ==> assigned_request_ids(m)[i]
            < assigned_request_ids(m)[j],
        forall|j: int| 0 <= j < m.requests.len() ==> !m.inflight.dom().contains(
            assigned_request_ids(m)[j],
        ),
        forall|j: int| 0 <= j < m.requests.len() ==> assigned_request_ids(m)[j] >= m.next_id,
        session_wf(drain_requests_spec(m)),
        drain_requests_spec(m).next_id == m.next_id + m.requests.len(),
{
    lemma_drain_requests(m);
    assert forall|k: u64| drain_requests_spec(m).inflight.dom().contains(k) implies k
        < drain_requests_spec(m).next_id by {
        if m.inflight.dom().contains(k) {
        }
    }
}

/// Law: a whole scheduling turn keeps the session well formed and never
/// lowers the id counter, so an id assigned in a later turn can never repeat
/// one assigned earlier.
pub proof fn lemma_turn_preserves_wf(m: SessionModel, inbound: Seq<InboundEvent>, capacity: u64)
    requires
        session_wf(m),
        m.next_id + m.requests.len() <= u64::MAX,
    ensures
        session_wf(turn_spec(m, inbound, capacity).model),
        turn_spec(m, inbound, capacity).model.next_id >= m.next_id,
{
    lemma_drain_commands_preserved(m);
    let stage1 = drain_commands_spec(m);
    if stage1.1 is None {
        lemma_request_ids_strictly_increasing(stage1.0);
        let m2 = drain_requests_spec(stage1.0);
        let m3 = send_spec(m2, capacity).0;
        lemma_inbound_preserved(m3, inbound);
        let t = turn_spec(m, inbound, capacity);
        assert forall|k: u64| t.model.inflight.dom().contains(k) implies k < t.model.next_id by {
            assert(m2.inflight.dom().contains(k));
        }
    }
}

/// Priority law: in one scheduling turn where commands, requests, buffered
/// messages and inbound items are all present, every command's frame joins
/// the queue before any request's frame, the sends are a prefix of that
/// queue fixed before any inbound item is handled, and every id assigned
/// this turn is already in the correlation table when inbound handling
/// starts.
pub proof fn lemma_turn_priority(m: SessionModel, inbound: Seq<InboundEvent>, capacity: u64)
    requires
        !m.commands_closed,
        forall|i: int| 0 <= i < m.commands.len() ==> m.commands[i] is Message,
        m.next_id + m.requests.len() <= u64::MAX,
    ensures
        turn_spec(m, inbound, capacity).sent == (m.buffered + command_wires(m.commands)
            + request_wires(m.next_id, m.requests)).take(
            send_count(drain_requests_spec(drain_commands_spec(m).0), capacity),
        ),
        turn_spec(m, inbound, capacity).model.buffered == (m.buffered + command_wires(m.commands)
            + request_wires(m.next_id, m.requests)).skip(
            send_count(drain_requests_spec(drain_commands_spec(m).0), capacity),
        ),
        forall|j: int| 0 <= j < m.requests.len()
            ==> drain_requests_spec(drain_commands_spec(m).0).inflight.dom().contains(
            #[trigger] assigned_request_ids(m)[j],
        ),
{
    lemma_drain_commands_messages(m);
    let m1 = drain_commands_spec(m).0;
    lemma_drain_requests(m1);
    let m2 = drain_requests_spec(m1);
    assert(m2.buffered =~= m.buffered + command_wires(m.commands) + request_wires(
        m.next_id,
        m.requests,
    ));
    let m3 = send_spec(m2, capacity).0;
    lemma_inbound_preserved(m3, inbound);
    assert forall|j: int| 0 <= j < m.requests.len() implies m2.inflight.dom().contains(
        #[trigger] assigned_request_ids(m)[j],
    ) by {
        assert(assigned_request_ids(m)[j] == (m.next_id + j) as u64);
        assert(m1.next_id <= (m1.next_id + j) as u64);
        assert(((m1.next_id + j) as u64) < m1.next_id + m1.requests.len());
        assert(m2.inflight.dom().contains((m1.next_id + j) as u64));
    }
}

impl ActiveSession {
    /// Builds the session for a connection that just completed
    /// authentication, with no queued work and no request in flight.
    pub fn new(
        session_id: SessionId,
        remote_node_id: PeerId,
        remote_addr: RemoteAddr,
        remote_capabilities: Capabilities,
    ) -> (s: ActiveSession)
        ensures
            s@ == (SessionModel {
                session_id,
                node_id: remote_node_id,
                remote_addr,
                caps: remote_capabilities@,
                next_id: 0,
                inflight: empty_inflight(),
                commands: Seq::empty(),
                commands_closed: false,
                requests: Seq::empty(),
                buffered: Seq::empty(),
                disconnect_queued: false,
            }),
    {
        ActiveSession {
            next_id: 0,
            remote_node_id,
            remote_capabilities,
            session_id,
            remote_addr,
            commands: Vec::new(),
            commands_closed: false,
            pending_requests: Vec::new(),
            inflight: InFlightRequests::new(),
            buffered_outgoing: Vec::new(),
            disconnect_queued: false,
        }
    }

    /// One scheduling turn: processes the snapshot of all inputs with strict
    /// priority, exactly as [`turn_spec`] states.
    #[verifier::loop_isolation(false)]
    pub fn poll(&mut self, inbound: Vec<InboundEvent>, send_capacity: u64) -> (turn: SessionTurn)
        requires
            old(self)@.next_id + old(self)@.requests.len() <= u64::MAX,
        ensures
            final(self)@ == turn_spec(old(self)@, inbound@, send_capacity).model,
            turn.events@ == turn_spec(old(self)@, inbound@, send_capacity).events,
            turn.sent@ == turn_spec(old(self)@, inbound@, send_capacity).sent,
            turn.termination == turn_spec(old(self)@, inbound@, send_capacity).termination,
    {
        let ghost m0 = self@;

        // Stage one: drain the command queue.
        while self.commands.len() > 0
            invariant
                drain_commands_spec(self@) == drain_commands_spec(m0),
                self.next_id == m0.next_id,
                self.pending_requests@ == m0.requests,
            decreases self.commands.len(),
        {
            let ghost before = self@;
            let c = self.commands.remove(0);
            proof {
                assert(before.commands.remove(0) =~= before.commands.drop_first());
            }
            match c {
                SessionCommand::Disconnect { reason } => {
                    self.commands.clear();
                    proof {
                        assert(self@ == (SessionModel { commands: Seq::empty(), ..before }));
                    }
                    return SessionTurn {
                        events: Vec::new(),
                        sent: Vec::new(),
                        termination: Some(Termination::Disconnected { reason }),
                    };
                },
                SessionCommand::Message { message } => {
                    let w = wire_of_peer_message(message);
                    self.buffered_outgoing.push(w);
                    proof {
                        assert(self@ == (SessionModel {
                            commands: before.commands.drop_first(),
                            buffered: before.buffered.push(spec_wire_of_peer_message(message)),
                            ..before
                        }));
                    }
                },
            }
        }
        if self.commands_closed {
            return SessionTurn {
                events: Vec::new(),
                sent: Vec::new(),
                termination: Some(Termination::ManagerDropped),
            };
        }
        let ghost m1 = self@;
        proof {
            assert(drain_commands_spec(m0) == (m1, Option::<Termination>::None));
        }

        // Stage two: drain the locally originated requests.
        while self.pending_requests.len() > 0
            invariant
                drain_requests_spec(self@) == drain_requests_spec(m1),
                self@.next_id + self@.requests.len() <= u64::MAX,
            decreases self.pending_requests.len(),
        {
            let ghost before = self@;
            let r = self.pending_requests.remove(0);
            proof {
                assert(before.requests.remove(0) =~= before.requests.drop_first());
            }
            let id = self.next_id;
            self.next_id = self.next_id + 1;
            self.inflight.insert(id, r.payload);
            self.buffered_outgoing.push(
                WireMessage::Request { capability: r.capability, request_id: id, payload: r.payload },
            );
            proof {
                assert(self@ == (SessionModel {
                    requests: before.requests.drop_first(),
                    next_id: (before.next_id + 1) as u64,
                    inflight: before.inflight.insert(before.next_id, r.payload),
                    buffered: before.buffered.push(
                        WireMessage::Request {
                            capability: r.capability,
                            request_id: before.next_id,
                            payload: r.payload,
                        },
                    ),
                    ..before
                }));
            }
        }
        let ghost m2 = self@;
        proof {
            assert(drain_requests_spec(m1) == m2);
        }

        // Stage three: hand buffered messages to the wire while it has
        // capacity.
        let mut sent: Vec<WireMessage> = Vec::new();
        let mut used: u64 = 0;
        proof {
            assert(m2.buffered.skip(0) =~= m2.buffered);
            assert(m2.buffered.take(0) =~= Seq::<WireMessage>::empty());
        }
        while used < send_capacity && self.buffered_outgoing.len() > 0
            invariant
                used <= send_capacity,
                used as int <= m2.buffered.len(),
                sent@ == m2.buffered.take(used as int),
                self@ == (SessionModel { buffered: m2.buffered.skip(used as int), ..m2 }),
            decreases send_capacity - used,
        {
            let w = self.buffered_outgoing.remove(0);
            sent.push(w);
            proof {
                assert(m2.buffered.skip(used as int).remove(0) =~= m2.buffered.skip(used + 1 as int));
                assert(m2.buffered.skip(used as int)[0] == m2.buffered[used as int]);
                assert(m2.buffered.take(used as int).push(m2.buffered[used as int])
                    =~= m2.buffered.take(used + 1 as int));
            }
            used = used + 1;
        }
        proof {
            if used < send_capacity {
                assert(m2.buffered.skip(used as int).len() == 0);
                assert(send_count(m2, send_capacity) == used as int);
            } else {
                assert(send_count(m2, send_capacity) == used as int);
            }
            assert(self@ == send_spec(m2, send_capacity).0);
            assert(sent@ == send_spec(m2, send_capacity).1);
        }
        let ghost m3 = self@;

        // Stage four: drain the decoded inbound items.
        let ghost inbound0 = inbound@;
        let mut inbound = inbound;
        let mut events: Vec<MessageEvent> = Vec::new();
        while inbound.len() > 0
            invariant
                inbound_spec(m3, inbound0).model == inbound_spec(self@, inbound@).model,
                inbound_spec(m3, inbound0).events == events@ + inbound_spec(self@, inbound@).events,
                inbound_spec(m3, inbound0).termination == inbound_spec(self@, inbound@).termination,
            decreases inbound.len(),
        {
            let ghost before = self@;
            let ghost items_before = inbound@;
            let item = inbound.remove(0);
            proof {
                assert(items_before.remove(0) =~= items_before.drop_first());
            }
            match item {
                InboundEvent::Message { message } => {
                    let ghost step = classify_inbound(before, message);
                    let cap = message.capability();
                    if !self.remote_capabilities.contains(cap) {
                        events.push(MessageEvent::InvalidCapability { message });
                    } else {
                        let rid_opt: Option<u64> = match &message {
                            WireMessage::Response { request_id, .. } => Some(*request_id),
                            _ => None,
                        };
                        match rid_opt {
                            Some(rid) => {
                                let request_context = self.inflight.remove(rid);
                                proof {
                                    if !before.inflight.dom().contains(rid) {
                                        assert(before.inflight.remove(rid) =~= before.inflight);
                                    }
                                }
                                events.push(MessageEvent::Valid { message, request_context });
                            },
                            None => {
                                events.push(MessageEvent::Valid { message, request_context: None });
                            },
                        }
                    }
                    proof {
                        assert(self@ == step.0);
                        assert(events@.last() == step.1);
                        assert(events@ =~= events@.drop_last().push(step.1));
                        assert(events@.drop_last() + (seq![step.1] + inbound_spec(self@, inbound@).events)
                            =~= events@ + inbound_spec(self@, inbound@).events);
                    }
                },
                InboundEvent::DecodeError { error } => {
                    proof {
                        assert(events@ + inbound_spec(before, items_before).events =~= events@);
                    }
                    return SessionTurn {
                        events,
                        sent,
                        termination: Some(Termination::StreamError { error }),
                    };
                },
                InboundEvent::Closed => {
                    proof {
                        assert(events@ + inbound_spec(before, items_before).events =~= events@);
                    }
                    return SessionTurn { events, sent, termination: Some(Termination::RemoteClosed) };
                },
            }
        }
        proof {
            assert(events@ + inbound_spec(self@, inbound@).events =~= events@);
        }
        SessionTurn { events, sent, termination: None }
    }
}

} // verus!
