//! The in-flight request table of a session: request id to originating
//! request context, held in fnv's hash map exactly as the sessions use it.

use vstd::prelude::*;

verus! {

/// All requests a session currently has in flight, keyed by request id, with
/// the originating request context as the value.
///
/// The table is `fnv::FnvHashMap<u64, u64>`, that is `std::collections::HashMap`
/// under fnv's hasher. Verus has no model of that hasher, so the field is held
/// opaquely: the entries are named by [`inflight_map`], and every method is a
/// trusted wrapper around one `HashMap` operation.
#[verifier::external_body]
pub struct InFlightRequests {
    inner: fnv::FnvHashMap<u64, u64>,
}

/// The entries of an [`InFlightRequests`] table, as a map from request id to
/// the originating request context.
pub uninterp spec fn inflight_map(t: InFlightRequests) -> Map<u64, u64>;

/// The table with no entries, as a mathematical map.
pub open spec fn empty_inflight() -> Map<u64, u64> {
    Map::empty()
}

impl InFlightRequests {
    /// Relies on `HashMap::default` (through fnv's `FnvHashMap` alias): a
    /// freshly built map has no entries.
    #[verifier::external_body]
    pub(crate) fn new() -> (r: InFlightRequests)
        ensures
            inflight_map(r) == empty_inflight(),
    {
        InFlightRequests { inner: fnv::FnvHashMap::default() }
    }

    /// Relies on `HashMap::insert`: the entry for `id` is added or replaced
    /// and every other entry is kept.
    #[verifier::external_body]
    pub(crate) fn insert(&mut self, id: u64, context: u64)
        ensures
            inflight_map(*final(self)) == inflight_map(*old(self)).insert(id, context),
    {
        self.inner.insert(id, context);
    }

    /// Relies on `HashMap::remove`: the entry for `id`, if present, is taken
    /// out and its value returned; every other entry is kept.
    #[verifier::external_body]
    pub(crate) fn remove(&mut self, id: u64) -> (r: Option<u64>)
        ensures
            inflight_map(*final(self)) == inflight_map(*old(self)).remove(id),
            r == (if inflight_map(*old(self)).dom().contains(id) {
                Some(inflight_map(*old(self))[id])
            } else {
                Option::<u64>::None
            }),
    {
        self.inner.remove(&id)
    }
}

} // verus!
