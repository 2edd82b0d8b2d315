//! Diagnostic trace classification types exposed to RPC consumers: the
//! targets a trace request may name and the tags attached to trace output.

use vstd::prelude::*;

verus! {

/// Different trace diagnostic targets.
#[derive(Clone, Copy, Debug, Eq, PartialEq, Structural, Hash)]
pub enum TraceType {
    /// Default trace.
    Trace,
    /// Full trace of the virtual machine's state throughout the execution,
    /// including for any subcalls.
    VmTrace,
    /// All altered portions of the state made due to the execution.
    StateDiff,
}

/// A value observed before and after a change.
#[derive(Clone, Copy, Debug, Eq, PartialEq, Structural, Hash)]
pub struct ChangedType<T> {
    pub from: T,
    pub to: T,
}

/// How one tracked quantity changed during execution.
#[derive(Clone, Copy, Debug, Eq, PartialEq, Structural, Hash)]
pub enum Delta<T> {
    /// Nothing changed.
    Unchanged,
    /// The value came into existence.
    Added(T),
    /// The value was removed.
    Removed(T),
    /// The value changed from one value to another.
    Changed(ChangedType<T>),
}

impl<T> Default for Delta<T> {
    /// The default delta records no change.
    fn default() -> (r: Self)
        ensures
            r == Delta::<T>::Unchanged,
    {
        Delta::Unchanged
    }
}

/// The kind of action a trace entry describes.
#[derive(Clone, Copy, Debug, PartialEq, Eq, Structural, Hash)]
pub enum ActionType {
    /// Contract call.
    Call,
    /// Contract creation.
    Create,
    /// Contract selfdestruct.
    Selfdestruct,
    /// A block reward.
    Reward,
}

/// Call type.
#[derive(Clone, Copy, Debug, Eq, PartialEq, Structural, Hash)]
pub enum CallType {
    /// Not a call.
    NoCall,
    /// Plain call.
    Call,
    /// Call code.
    CallCode,
    /// Delegate call.
    DelegateCall,
    /// Static call.
    StaticCall,
}

impl Default for CallType {
    /// The default call type is no call at all.
    fn default() -> (r: Self)
        ensures
            r == CallType::NoCall,
    {
        CallType::NoCall
    }
}

/// The kind of reward a reward action grants.
#[derive(Clone, Copy, Debug, Eq, PartialEq, Structural, Hash)]
pub enum RewardType {
    /// Reward for producing the block.
    Block,
    /// Reward for an uncle block.
    Uncle,
}

} // verus!
