//! Deferred bridge activations: the intent "activate the bridge for this
//! identity once the service finishes starting", keyed by service identity,
//! at most one per identity.

use vstd::prelude::*;

use crate::identity::ServiceIdentity;
use crate::store::KeyedStore;

verus! {

/// Outcome of recording a deferred activation.
pub enum RecordOutcome<M> {
    /// The request is now stored and will be consumed on readiness.
    Recorded,
    /// A request is already prepared for the identity; the new request
    /// comes back untouched and nothing is stored.
    AlreadyPrepared(M),
}

/// Map from service identity to the deferred activation request recorded
/// while the service was still starting.  `M` carries the original request
/// context, so the activation can later be performed on its behalf.
pub struct PendingActivations<M> {
    requests: KeyedStore<M>,
}

impl<M> View for PendingActivations<M> {
    type V = Map<ServiceIdentity, M>;

    closed spec fn view(&self) -> Map<ServiceIdentity, M> {
        self.requests@
    }
}

impl<M> PendingActivations<M> {
    /// No activation is pending.
    pub fn new() -> (r: Self)
        ensures
            r@ == Map::<ServiceIdentity, M>::empty(),
    {
        PendingActivations { requests: KeyedStore::new() }
    }

    /// Whether a deferred activation is recorded for `id`.
    pub fn has_pending(&self, id: ServiceIdentity) -> (r: bool)
        ensures
            r == self@.dom().contains(id),
    {
        self.requests.contains(id)
    }

    /// Record a deferred activation for `id`, unless one is already
    /// prepared; a duplicate request is rejected, never stored twice.
    pub fn record(&mut self, id: ServiceIdentity, request: M) -> (r: RecordOutcome<M>)
        ensures
            !old(self)@.dom().contains(id) ==> {
                &&& final(self)@ == old(self)@.insert(id, request)
                &&& r is Recorded
            },
            old(self)@.dom().contains(id) ==> {
                &&& final(self)@ == old(self)@
                &&& r == RecordOutcome::AlreadyPrepared(request)
            },
    {
        match self.requests.try_insert(id, request) {
            None => RecordOutcome::Recorded,
            Some(m) => RecordOutcome::AlreadyPrepared(m),
        }
    }

    /// Consume the deferred activation for `id`, if one is recorded.  After
    /// the call nothing is pending for `id`, so the request is handed out
    /// exactly once.
    pub fn take(&mut self, id: ServiceIdentity) -> (r: Option<M>)
        ensures
            final(self)@ == old(self)@.remove(id),
            old(self)@.dom().contains(id) ==> r == Some(old(self)@[id]),
            !old(self)@.dom().contains(id) ==> r is None,
    {
        let r = self.requests.remove(id);
        proof {
            assert(self@ =~= old(self)@.remove(id));
        }
        r
    }
}

} // verus!
