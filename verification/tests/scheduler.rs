//! Session-level scheduling behavior: request id assignment, turn priority,
//! disconnect orchestration and in-flight correlation.

use peer_swarm::manager::{ExceedsSessionLimit, SessionEvent, SessionManager};
use peer_swarm::message::{
    make_eth_capability, wire_of_peer_message, Capabilities, Capability, PeerMessage, PeerRequest,
    WireMessage,
};
use peer_swarm::session::{
    ActiveSession, InboundEvent, MessageEvent, SessionCommand, Termination,
};
use peer_swarm::types::{DisconnectReason, IoError, PeerId, RemoteAddr, SessionId, WireError};

fn eth_caps() -> Capabilities {
    Capabilities::new(vec![make_eth_capability()])
}

fn peer(id: u64) -> PeerId {
    PeerId { id }
}

fn addr(a: u64) -> RemoteAddr {
    RemoteAddr { addr: a }
}

/// Admits and authenticates one peer, returning its session id, with the
/// established event already drained.
fn established_manager(limit: usize, p: PeerId) -> (SessionManager, SessionId) {
    let mut mgr = SessionManager::new(limit);
    let sid = mgr.on_incoming(addr(100)).expect("slot free");
    mgr.on_authentication_succeeded(sid, p, eth_caps(), 68);
    match mgr.poll_event() {
        Some(SessionEvent::SessionEstablished { node_id, .. }) => assert_eq!(node_id, p),
        other => panic!("expected established event, got {:?}", other),
    }
    (mgr, sid)
}

fn request(payload: u64) -> PeerRequest {
    PeerRequest { capability: make_eth_capability(), payload }
}

fn response(request_id: u64, payload: u64) -> InboundEvent {
    InboundEvent::Message {
        message: WireMessage::Response {
            capability: make_eth_capability(),
            request_id,
            payload,
        },
    }
}

#[test]
fn request_ids_strictly_increasing() {
    let p = peer(1);
    let (mut mgr, _sid) = established_manager(5, p);
    mgr.send_request(p, request(10));
    mgr.send_request(p, request(20));
    let sent = mgr.advance_session(p, Vec::new(), 10).expect("session alive");
    assert_eq!(sent.len(), 2);
    assert_eq!(
        sent[0],
        WireMessage::Request { capability: make_eth_capability(), request_id: 0, payload: 10 }
    );
    assert_eq!(
        sent[1],
        WireMessage::Request { capability: make_eth_capability(), request_id: 1, payload: 20 }
    );
    mgr.send_request(p, request(30));
    let sent = mgr.advance_session(p, Vec::new(), 10).expect("session alive");
    assert_eq!(
        sent,
        vec![WireMessage::Request { capability: make_eth_capability(), request_id: 2, payload: 30 }]
    );
}

#[test]
fn turn_processes_commands_before_requests_before_sends_before_inbound() {
    let mut s = ActiveSession::new(SessionId { id: 0 }, peer(7), addr(9), eth_caps());

    // A first turn with no capacity leaves one framed broadcast buffered.
    s.commands.push(SessionCommand::Message { message: PeerMessage::NewBlock { block: 1 } });
    let turn = s.poll(Vec::new(), 0);
    assert!(turn.sent.is_empty());
    assert!(turn.termination.is_none());

    // All four inputs at once: one command, one request, the backlog, one
    // inbound response to the id assigned this very turn.
    s.commands.push(SessionCommand::Message { message: PeerMessage::NewBlock { block: 2 } });
    s.pending_requests.push(request(42));
    let inbound = vec![response(0, 5)];
    let turn = s.poll(inbound, 2);

    // The backlog goes first, then the command's frame; the request's frame
    // was queued after both and stays buffered at capacity two.
    assert_eq!(
        turn.sent,
        vec![
            wire_of_peer_message(PeerMessage::NewBlock { block: 1 }),
            wire_of_peer_message(PeerMessage::NewBlock { block: 2 }),
        ]
    );
    // The request was assigned id zero before inbound handling, so the
    // response correlates and carries the request's context.
    assert_eq!(
        turn.events,
        vec![MessageEvent::Valid {
            message: WireMessage::Response {
                capability: make_eth_capability(),
                request_id: 0,
                payload: 5,
            },
            request_context: Some(42),
        }]
    );
    assert!(turn.termination.is_none());
}

#[test]
fn disconnect_twice_yields_one_closed_event() {
    let p = peer(3);
    let (mut mgr, _sid) = established_manager(5, p);
    mgr.disconnect(p, Some(DisconnectReason::DisconnectRequested));
    mgr.disconnect(p, Some(DisconnectReason::DisconnectRequested));
    let _ = mgr.advance_session(p, Vec::new(), 0).expect("first turn runs");
    let mut closed = 0;
    while let Some(ev) = mgr.poll_event() {
        if matches!(ev, SessionEvent::Disconnected { .. }) {
            closed += 1;
        }
    }
    assert_eq!(closed, 1);
    // The session is gone: a third disconnect and another turn are no-ops.
    mgr.disconnect(p, None);
    assert!(mgr.advance_session(p, Vec::new(), 0).is_none());
    assert!(!mgr.has_events());
}

#[test]
fn manager_at_capacity_rejects_incoming() {
    let mut mgr = SessionManager::new(1);
    assert!(mgr.on_incoming(addr(1)).is_ok());
    assert_eq!(mgr.on_incoming(addr(2)), Err(ExceedsSessionLimit { limit: 1 }));
}

#[test]
fn auth_failure_reports_closed_pending_incoming() {
    let mut mgr = SessionManager::new(4);
    let sid = mgr.on_incoming(addr(11)).expect("slot free");
    mgr.on_authentication_failed(sid, Some(WireError { code: 7 }));
    assert_eq!(
        mgr.poll_event(),
        Some(SessionEvent::IncomingPendingSessionClosed {
            remote_addr: addr(11),
            error: Some(WireError { code: 7 }),
        })
    );
    // The manager keeps operating with the remaining slots.
    assert!(mgr.on_incoming(addr(12)).is_ok());
}

#[test]
fn dial_failure_reports_connection_error() {
    let mut mgr = SessionManager::new(4);
    mgr.dial_outbound(addr(21), peer(9));
    mgr.on_outgoing_connection_error(SessionId { id: 0 }, IoError { code: 111 });
    assert_eq!(
        mgr.poll_event(),
        Some(SessionEvent::OutgoingConnectionError {
            remote_addr: addr(21),
            node_id: peer(9),
            error: IoError { code: 111 },
        })
    );
}

#[test]
fn decode_error_terminates_only_that_session() {
    let pa = peer(1);
    let pb = peer(2);
    let mut mgr = SessionManager::new(8);
    let sa = mgr.on_incoming(addr(1)).expect("slot");
    let sb = mgr.on_incoming(addr(2)).expect("slot");
    mgr.on_authentication_succeeded(sa, pa, eth_caps(), 68);
    mgr.on_authentication_succeeded(sb, pb, eth_caps(), 68);
    while mgr.poll_event().is_some() {}

    let inbound = vec![InboundEvent::DecodeError { error: WireError { code: 9 } }];
    let _ = mgr.advance_session(pa, inbound, 0).expect("turn runs");
    assert_eq!(
        mgr.poll_event(),
        Some(SessionEvent::Disconnected { node_id: pa, remote_addr: addr(1) })
    );
    assert!(mgr.advance_session(pa, Vec::new(), 0).is_none());
    // The other session is untouched.
    assert!(mgr.advance_session(pb, Vec::new(), 0).is_some());
}

#[test]
fn remote_close_is_normal_termination() {
    let p = peer(4);
    let (mut mgr, _sid) = established_manager(4, p);
    let _ = mgr.advance_session(p, vec![InboundEvent::Closed], 0).expect("turn runs");
    assert_eq!(
        mgr.poll_event(),
        Some(SessionEvent::Disconnected { node_id: p, remote_addr: addr(100) })
    );
}

#[test]
fn manager_shutdown_terminates_sessions() {
    let p = peer(5);
    let (mut mgr, _sid) = established_manager(4, p);
    mgr.shutdown();
    let _ = mgr.advance_session(p, Vec::new(), 0).expect("turn runs");
    assert_eq!(
        mgr.poll_event(),
        Some(SessionEvent::Disconnected { node_id: p, remote_addr: addr(100) })
    );
}

#[test]
fn correlated_response_carries_context_once() {
    let p = peer(6);
    let (mut mgr, _sid) = established_manager(4, p);
    mgr.send_request(p, request(42));
    let sent = mgr.advance_session(p, Vec::new(), 10).expect("turn runs");
    assert_eq!(sent.len(), 1);

    let _ = mgr.advance_session(p, vec![response(0, 5)], 10).expect("turn runs");
    match mgr.poll_event() {
        Some(SessionEvent::ValidMessage { node_id, request_context, .. }) => {
            assert_eq!(node_id, p);
            assert_eq!(request_context, Some(42));
        }
        other => panic!("expected valid message, got {:?}", other),
    }

    // The id left the in-flight table with the first response: a replay is
    // surfaced as unsolicited, with no context.
    let _ = mgr.advance_session(p, vec![response(0, 5)], 10).expect("turn runs");
    match mgr.poll_event() {
        Some(SessionEvent::ValidMessage { request_context, .. }) => {
            assert_eq!(request_context, None);
        }
        other => panic!("expected valid message, got {:?}", other),
    }
}

#[test]
fn unsolicited_response_has_no_context() {
    let p = peer(8);
    let (mut mgr, _sid) = established_manager(4, p);
    let _ = mgr.advance_session(p, vec![response(99, 1)], 10).expect("turn runs");
    match mgr.poll_event() {
        Some(SessionEvent::ValidMessage { request_context, .. }) => {
            assert_eq!(request_context, None);
        }
        other => panic!("expected valid message, got {:?}", other),
    }
}

#[test]
fn session_commands_close_ends_session_after_queued_commands() {
    let mut s = ActiveSession::new(SessionId { id: 1 }, peer(2), addr(3), eth_caps());
    s.commands.push(SessionCommand::Message { message: PeerMessage::NewBlock { block: 1 } });
    s.commands_closed = true;
    let turn = s.poll(Vec::new(), 10);
    assert_eq!(turn.termination, Some(Termination::ManagerDropped));
    assert!(turn.sent.is_empty());
}

#[test]
fn capabilities_contains_announced_pair_only() {
    let caps = Capabilities::new(vec![
        Capability { protocol: 1, version: 68 },
        Capability { protocol: 2, version: 1 },
    ]);
    assert!(caps.contains(Capability { protocol: 2, version: 1 }));
    assert!(!caps.contains(Capability { protocol: 2, version: 2 }));
    assert!(!caps.contains(Capability { protocol: 3, version: 1 }));
}
