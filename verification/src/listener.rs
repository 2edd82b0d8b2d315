//! The connection listener: hands accepted inbound connections, listener
//! errors and listener closure to the swarm as a queue of events.

use vstd::prelude::*;

use crate::types::{IoError, RemoteAddr};

verus! {

/// One event the listening transport produced.
#[derive(Clone, Copy, Debug, PartialEq, Eq, Structural, Hash)]
pub enum ListenerEvent {
    /// A new inbound connection was accepted from this address.
    Incoming { remote_addr: RemoteAddr },
    /// The listener itself closed; the swarm surfaces this as terminal.
    ListenerClosed { local_address: RemoteAddr },
    /// The listener failed; the swarm surfaces this as terminal.
    Error { error: IoError },
}

/// Mathematical model of the listener.
pub ghost struct ListenerModel {
    pub local_address: RemoteAddr,
    pub events: Seq<ListenerEvent>,
}

/// Listens for new inbound connections at a fixed local address.
pub struct ConnectionListener {
    /// The address the listener is bound to.
    local_address: RemoteAddr,
    /// Events the transport produced, oldest first.
    events: Vec<ListenerEvent>,
}

impl View for ConnectionListener {
    type V = ListenerModel;

    closed spec fn view(&self) -> ListenerModel {
        ListenerModel { local_address: self.local_address, events: self.events@ }
    }
}

impl ConnectionListener {
    /// A listener bound to `local_address` with nothing accepted yet.
    pub fn new(local_address: RemoteAddr) -> (r: ConnectionListener)
        ensures
            r@ == (ListenerModel { local_address, events: Seq::empty() }),
    {
        ConnectionListener { local_address, events: Vec::new() }
    }

    /// Queues an event the transport produced; this is how the accept loop
    /// feeds the listener.
    pub fn queue_event(&mut self, event: ListenerEvent)
        ensures
            final(self)@ == (ListenerModel {
                events: old(self)@.events.push(event),
                ..old(self)@
            }),
    {
        self.events.push(event);
    }

    /// The next listener event, if any; consulted by the swarm after every
    /// other input ran dry.
    pub fn poll(&mut self) -> (r: Option<ListenerEvent>)
        ensures
            old(self)@.events.len() == 0 ==> r is None && *final(self) == *old(self),
            old(self)@.events.len() > 0 ==> r == Some(old(self)@.events[0]) && final(self)@ == (
                ListenerModel { events: old(self)@.events.drop_first(), ..old(self)@ }
            ),
    {
        if self.events.len() == 0 {
            return None;
        }
        let e = self.events.remove(0);
        proof {
            assert(old(self)@.events.remove(0) =~= old(self)@.events.drop_first());
        }
        Some(e)
    }

    /// Whether any listener event is queued.
    pub fn has_events(&self) -> (r: bool)
        ensures
            r == (self@.events.len() > 0),
    {
        self.events.len() > 0
    }

    /// The address the listener is bound to.
    pub fn local_address(&self) -> (a: RemoteAddr)
        ensures
            a == self@.local_address,
    {
        self.local_address
    }
}

} // verus!
