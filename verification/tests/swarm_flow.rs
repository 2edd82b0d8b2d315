//! Swarm-level flows: priority between the three sources, admission control,
//! listener events and end-to-end scenarios.

use peer_swarm::listener::{ConnectionListener, ListenerEvent};
use peer_swarm::manager::SessionManager;
use peer_swarm::message::{make_eth_capability, Capabilities, PeerRequest, WireMessage};
use peer_swarm::session::InboundEvent;
use peer_swarm::state::{NetworkState, StateAction};
use peer_swarm::swarm::{Swarm, SwarmEvent};
use peer_swarm::trace::{CallType, Delta, TraceType};
use peer_swarm::types::{DisconnectReason, IoError, PeerId, RemoteAddr, SessionId};

fn eth_caps() -> Capabilities {
    Capabilities::new(vec![make_eth_capability()])
}

fn peer(id: u64) -> PeerId {
    PeerId { id }
}

fn addr(a: u64) -> RemoteAddr {
    RemoteAddr { addr: a }
}

fn swarm(session_limit: usize, max_peers: usize) -> Swarm {
    Swarm::new(
        ConnectionListener::new(addr(1)),
        SessionManager::new(session_limit),
        NetworkState::new(max_peers),
    )
}

fn response(request_id: u64, payload: u64) -> InboundEvent {
    InboundEvent::Message {
        message: WireMessage::Response {
            capability: make_eth_capability(),
            request_id,
            payload,
        },
    }
}

#[test]
fn end_to_end_establish_request_response() {
    // Peer A dials us; our listener reports the incoming stream.
    let a = peer(10);
    let mut sw = swarm(8, 8);
    sw.listener_mut().queue_event(ListenerEvent::Incoming { remote_addr: addr(50) });

    let sid = match sw.poll_next() {
        Some(SwarmEvent::IncomingTcpConnection { session_id, remote_addr }) => {
            assert_eq!(remote_addr, addr(50));
            session_id
        }
        other => panic!("expected incoming connection, got {:?}", other),
    };

    // Authentication completes; exactly one established event is emitted.
    sw.sessions_mut().on_authentication_succeeded(sid, a, eth_caps(), 68);
    match sw.poll_next() {
        Some(SwarmEvent::SessionEstablished { node_id, remote_addr, .. }) => {
            assert_eq!(node_id, a);
            assert_eq!(remote_addr, addr(50));
        }
        other => panic!("expected established event, got {:?}", other),
    }
    assert!(sw.poll_next().is_none());

    // We send A a request; the session assigns it id zero.
    sw.sessions_mut().send_request(a, PeerRequest { capability: make_eth_capability(), payload: 7 });
    let sent = sw.sessions_mut().advance_session(a, Vec::new(), 4).expect("session alive");
    assert_eq!(
        sent,
        vec![WireMessage::Request { capability: make_eth_capability(), request_id: 0, payload: 7 }]
    );

    // A responds: exactly one valid-message event, correlated to id zero.
    let _ = sw.sessions_mut().advance_session(a, vec![response(0, 9)], 4).expect("session alive");
    match sw.poll_next() {
        Some(SwarmEvent::ValidMessage { node_id, request_context, .. }) => {
            assert_eq!(node_id, a);
            assert_eq!(request_context, Some(7));
        }
        other => panic!("expected valid message, got {:?}", other),
    }
    assert!(sw.poll_next().is_none());
}

#[test]
fn at_capacity_establishment_is_suppressed_and_peer_disconnected() {
    // The state allows no peer at all: admission must reject.
    let c = peer(20);
    let mut sw = swarm(8, 0);
    sw.listener_mut().queue_event(ListenerEvent::Incoming { remote_addr: addr(60) });
    let sid = match sw.poll_next() {
        Some(SwarmEvent::IncomingTcpConnection { session_id, .. }) => session_id,
        other => panic!("expected incoming connection, got {:?}", other),
    };
    sw.sessions_mut().on_authentication_succeeded(sid, c, eth_caps(), 68);

    // No established event is ever emitted for the rejected peer.
    assert!(sw.poll_next().is_none());
    assert_eq!(sw.state_mut().num_connected(), 0);

    // The rejection queued a too-many-peers disconnect: the session's next
    // turn terminates it and the swarm reports the close.
    let _ = sw.sessions_mut().advance_session(c, Vec::new(), 0).expect("turn runs");
    match sw.poll_next() {
        Some(SwarmEvent::SessionClosed { node_id, .. }) => assert_eq!(node_id, c),
        other => panic!("expected session closed, got {:?}", other),
    }
}

#[test]
fn state_actions_run_before_session_and_listener_events() {
    let p = peer(30);
    let mut sw = swarm(8, 8);

    // Establish a session so the disconnect action has a target.
    let sid = {
        sw.listener_mut().queue_event(ListenerEvent::Incoming { remote_addr: addr(70) });
        match sw.poll_next() {
            Some(SwarmEvent::IncomingTcpConnection { session_id, .. }) => session_id,
            other => panic!("expected incoming connection, got {:?}", other),
        }
    };
    sw.sessions_mut().on_authentication_succeeded(sid, p, eth_caps(), 68);

    // All three sources hold work: a state action, the established session
    // event, and a fresh listener event.
    sw.state_mut().queue_action(StateAction::Disconnect {
        peer_id: p,
        reason: Some(DisconnectReason::UselessPeer),
    });
    sw.listener_mut().queue_event(ListenerEvent::Incoming { remote_addr: addr(71) });

    // One turn: the action is executed first and never surfaces; the session
    // event is the one externally visible event; the listener is untouched.
    match sw.poll_next() {
        Some(SwarmEvent::SessionEstablished { node_id, .. }) => assert_eq!(node_id, p),
        other => panic!("expected established event, got {:?}", other),
    }
    assert!(!sw.state_mut().has_actions());
    assert!(sw.listener_mut().has_events());

    // The disconnect action already reached the session: its next turn
    // terminates it.
    let _ = sw.sessions_mut().advance_session(p, Vec::new(), 0).expect("turn runs");
    match sw.poll_next() {
        Some(SwarmEvent::SessionClosed { node_id, .. }) => assert_eq!(node_id, p),
        other => panic!("expected session closed, got {:?}", other),
    }

    // Only now does the listener event surface, lowest priority of all.
    match sw.poll_next() {
        Some(SwarmEvent::IncomingTcpConnection { remote_addr, .. }) => {
            assert_eq!(remote_addr, addr(71))
        }
        other => panic!("expected incoming connection, got {:?}", other),
    }
}

#[test]
fn invalid_capability_message_keeps_session_alive() {
    let d = peer(40);
    let mut sw = swarm(8, 8);
    sw.listener_mut().queue_event(ListenerEvent::Incoming { remote_addr: addr(80) });
    let sid = match sw.poll_next() {
        Some(SwarmEvent::IncomingTcpConnection { session_id, .. }) => session_id,
        other => panic!("expected incoming connection, got {:?}", other),
    };
    sw.sessions_mut().on_authentication_succeeded(sid, d, eth_caps(), 68);
    assert!(matches!(sw.poll_next(), Some(SwarmEvent::SessionEstablished { .. })));

    // D references a capability it never announced.
    let unannounced = InboundEvent::Message {
        message: WireMessage::Broadcast {
            capability: peer_swarm::message::Capability { protocol: 99, version: 1 },
            message: peer_swarm::message::PeerMessage::NewBlock { block: 3 },
        },
    };
    let _ = sw.sessions_mut().advance_session(d, vec![unannounced], 0).expect("turn runs");
    match sw.poll_next() {
        Some(SwarmEvent::InvalidCapabilityMessage { node_id, .. }) => assert_eq!(node_id, d),
        other => panic!("expected invalid capability message, got {:?}", other),
    }

    // The session is not torn down: it still takes requests and turns.
    sw.sessions_mut().send_request(d, PeerRequest { capability: make_eth_capability(), payload: 1 });
    let sent = sw.sessions_mut().advance_session(d, Vec::new(), 4).expect("session alive");
    assert_eq!(sent.len(), 1);
    assert!(sw.poll_next().is_none());
}

#[test]
fn listener_error_and_close_are_terminal_events() {
    let mut sw = swarm(4, 4);
    sw.listener_mut().queue_event(ListenerEvent::Error { error: IoError { code: 13 } });
    sw.listener_mut().queue_event(ListenerEvent::ListenerClosed { local_address: addr(1) });
    assert_eq!(sw.poll_next(), Some(SwarmEvent::TcpListenerError { error: IoError { code: 13 } }));
    assert_eq!(sw.poll_next(), Some(SwarmEvent::TcpListenerClosed { remote_addr: addr(1) }));
    assert!(sw.poll_next().is_none());
}

#[test]
fn incoming_rejected_at_slot_capacity_is_silent() {
    let mut sw = swarm(0, 4);
    sw.listener_mut().queue_event(ListenerEvent::Incoming { remote_addr: addr(5) });
    assert!(sw.poll_next().is_none());
}

#[test]
fn new_block_action_reaches_peer_session() {
    let p = peer(50);
    let mut sw = swarm(8, 8);
    sw.listener_mut().queue_event(ListenerEvent::Incoming { remote_addr: addr(90) });
    let sid = match sw.poll_next() {
        Some(SwarmEvent::IncomingTcpConnection { session_id, .. }) => session_id,
        other => panic!("expected incoming connection, got {:?}", other),
    };
    sw.sessions_mut().on_authentication_succeeded(sid, p, eth_caps(), 68);
    assert!(matches!(sw.poll_next(), Some(SwarmEvent::SessionEstablished { .. })));

    sw.state_mut().queue_action(StateAction::NewBlock { peer_id: p, block: 7 });
    assert!(sw.poll_next().is_none());
    let sent = sw.sessions_mut().advance_session(p, Vec::new(), 4).expect("session alive");
    assert_eq!(
        sent,
        vec![peer_swarm::message::wire_of_peer_message(
            peer_swarm::message::PeerMessage::NewBlock { block: 7 }
        )]
    );
}

#[test]
fn dial_failure_surfaces_connection_error() {
    let mut sw = swarm(4, 4);
    sw.dial_outbound(addr(33), peer(60));
    sw.sessions_mut().on_outgoing_connection_error(SessionId { id: 0 }, IoError { code: 61 });
    assert_eq!(
        sw.poll_next(),
        Some(SwarmEvent::OutgoingConnectionError {
            remote_addr: addr(33),
            node_id: peer(60),
            error: IoError { code: 61 },
        })
    );
}

#[test]
fn state_admission_rejects_exactly_at_capacity() {
    let mut st = NetworkState::new(2);
    let caps = eth_caps();
    assert!(st.on_session_activated(peer(1), &caps, 68).is_ok());
    assert!(st.on_session_activated(peer(2), &caps, 68).is_ok());
    assert_eq!(
        st.on_session_activated(peer(3), &caps, 68),
        Err(peer_swarm::state::AddSessionError::AtCapacity { peer: peer(3) })
    );
    assert_eq!(st.num_connected(), 2);

    // Closing a session releases its slot; closing an untracked peer is a
    // no-op.
    st.on_session_closed(peer(1));
    st.on_session_closed(peer(99));
    assert_eq!(st.num_connected(), 1);
    assert!(st.on_session_activated(peer(3), &caps, 68).is_ok());
}

#[test]
fn trace_defaults_record_no_change() {
    assert_eq!(Delta::<u64>::default(), Delta::Unchanged);
    assert_eq!(CallType::default(), CallType::NoCall);
    assert_ne!(TraceType::Trace, TraceType::StateDiff);
    let d = Delta::Changed(peer_swarm::trace::ChangedType { from: 1u64, to: 2u64 });
    assert_eq!(d, Delta::Changed(peer_swarm::trace::ChangedType { from: 1u64, to: 2u64 }));
}
