//! Peer-to-peer connectivity core: per-peer session state machines, a session
//! manager that owns admission and event fan-in, and a swarm coordinator that
//! merges state actions, session events and listener events into one
//! prioritized event stream.

pub mod inflight;
pub mod listener;
pub mod manager;
pub mod message;
pub mod session;
pub mod state;
pub mod swarm;
pub mod trace;
pub mod types;
