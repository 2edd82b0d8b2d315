//! Plain identifiers, addresses, errors and disconnect reasons shared by the
//! session, manager and swarm layers.

use vstd::prelude::*;

verus! {

/// Cryptographic identity of a remote node, stable across reconnects.
///
/// The real identity is a long public key; the scheduling logic only ever
/// compares identities for equality, so a machine word stands for it here.
#[derive(Clone, Copy, Debug, PartialEq, Eq, Structural, Hash)]
pub struct PeerId {
    pub id: u64,
}

/// Internal identifier of a session, assigned once by the session manager and
/// unique for the manager's lifetime; it identifies a session both before and
/// after authentication completes.
#[derive(Clone, Copy, Debug, PartialEq, Eq, Structural, Hash)]
pub struct SessionId {
    pub id: u64,
}

/// Transport-level address of a remote peer.
#[derive(Clone, Copy, Debug, PartialEq, Eq, Structural, Hash)]
pub struct RemoteAddr {
    pub addr: u64,
}

/// Reason sent to a peer when a session is torn down deliberately.
#[derive(Clone, Copy, Debug, PartialEq, Eq, Structural, Hash)]
pub enum DisconnectReason {
    /// The local node asked for the disconnect.
    DisconnectRequested,
    /// The local node is already at its session capacity.
    TooManyPeers,
    /// The peer is of no use to the local node.
    UselessPeer,
    /// The peer broke the wire protocol.
    ProtocolBreach,
}

/// Error raised by the wire-protocol stream while decoding or during the
/// authentication handshake; the core treats it as opaque data to report.
#[derive(Clone, Copy, Debug, PartialEq, Eq, Structural, Hash)]
pub struct WireError {
    pub code: u64,
}

/// Error raised by the transport when establishing a connection.
#[derive(Clone, Copy, Debug, PartialEq, Eq, Structural, Hash)]
pub struct IoError {
    pub code: u64,
}

} // verus!
