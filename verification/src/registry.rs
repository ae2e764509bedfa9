//! The relay-session registry: at most one live relay task per service
//! identity, with activation and deactivation that are decided atomically
//! against the stored sessions.
//!
//! The registry is generic in the handle type `H`, so the cancellable task
//! handle that the surrounding runtime produces is stored as an opaque
//! value; ownership of a stored handle belongs to the registry entry until
//! the entry is removed.

use vstd::prelude::*;

use crate::identity::ServiceIdentity;
use crate::store::KeyedStore;

verus! {

/// Outcome of an activation attempt.
pub enum ActivationOutcome<H> {
    /// No relay ran for the identity; the handle is now stored.
    Activated,
    /// A relay already runs for the identity; the handle comes back
    /// untouched and nothing is stored.
    AlreadyActive(H),
}

/// Outcome of a deactivation attempt.
pub enum DeactivationOutcome<H> {
    /// No relay ran for the identity; nothing changed.
    WasInactive,
    /// The stored handle comes back so that the caller can cancel its task.
    Deactivated(H),
}

/// What one activation attempt leaves in the registry.
pub open spec fn activate_step<H>(
    m: Map<ServiceIdentity, H>,
    id: ServiceIdentity,
    h: H,
) -> Map<ServiceIdentity, H> {
    if m.dom().contains(id) {
        m
    } else {
        m.insert(id, h)
    }
}

/// Whether an activation attempt against sessions `m` succeeds.
pub open spec fn activate_succeeds<H>(m: Map<ServiceIdentity, H>, id: ServiceIdentity) -> bool {
    !m.dom().contains(id)
}

/// What one deactivation leaves in the registry.
pub open spec fn deactivate_step<H>(
    m: Map<ServiceIdentity, H>,
    id: ServiceIdentity,
) -> Map<ServiceIdentity, H> {
    m.remove(id)
}

/// What a linearized run of activation attempts, all for `id` and carrying
/// the handles `hs` in turn, leaves in the registry.
pub open spec fn activation_run<H>(
    m: Map<ServiceIdentity, H>,
    id: ServiceIdentity,
    hs: Seq<H>,
) -> Map<ServiceIdentity, H>
    decreases hs.len(),
{
    if hs.len() == 0 {
        m
    } else {
        activation_run(activate_step(m, id, hs[0]), id, hs.drop_first())
    }
}

/// How many attempts of a linearized run succeed.
pub open spec fn activation_successes<H>(
    m: Map<ServiceIdentity, H>,
    id: ServiceIdentity,
    hs: Seq<H>,
) -> nat
    decreases hs.len(),
{
    if hs.len() == 0 {
        0
    } else {
        (if activate_succeeds(m, id) {
            1nat
        } else {
            0nat
        }) + activation_successes(activate_step(m, id, hs[0]), id, hs.drop_first())
    }
}

/// Law: an identity is never active in an empty registry, it is active
/// immediately after an activation attempt, and inactive immediately after
/// a deactivation.
pub proof fn lemma_activation_lifecycle<H>(m: Map<ServiceIdentity, H>, id: ServiceIdentity, h: H)
    ensures
        !Map::<ServiceIdentity, H>::empty().dom().contains(id),
        activate_step(m, id, h).dom().contains(id),
        !deactivate_step(m, id).dom().contains(id),
{
}

/// While an identity is active, activation attempts neither succeed nor
/// change the registry.
pub proof fn lemma_no_activation_while_active<H>(
    m: Map<ServiceIdentity, H>,
    id: ServiceIdentity,
    hs: Seq<H>,
)
    requires
        m.dom().contains(id),
    ensures
        activation_successes(m, id, hs) == 0,
        activation_run(m, id, hs) == m,
    decreases hs.len(),
{
    if hs.len() > 0 {
        lemma_no_activation_while_active(activate_step(m, id, hs[0]), id, hs.drop_first());
    }
}

/// Law: of any number of activation attempts for one identity, linearized
/// by the registry's exclusive access, exactly one succeeds when the
/// identity starts inactive, and the handle finally stored is the first
/// attempt's; every later attempt is turned away.
pub proof fn lemma_single_activation<H>(m: Map<ServiceIdentity, H>, id: ServiceIdentity, hs: Seq<H>)
    requires
        !m.dom().contains(id),
        hs.len() > 0,
    ensures
        activation_successes(m, id, hs) == 1,
        activation_run(m, id, hs) == m.insert(id, hs[0]),
{
    lemma_no_activation_while_active(m.insert(id, hs[0]), id, hs.drop_first());
}

/// Concurrency-safe map from service identity to the live relay task handle
/// for that identity.  The surrounding runtime serializes calls that touch
/// the same registry value; each call here is one such exclusive section.
pub struct BridgeSessionRegistry<H> {
    sessions: KeyedStore<H>,
}

impl<H> View for BridgeSessionRegistry<H> {
    type V = Map<ServiceIdentity, H>;

    closed spec fn view(&self) -> Map<ServiceIdentity, H> {
        self.sessions@
    }
}

impl<H> BridgeSessionRegistry<H> {
    /// A registry with no active relay.
    pub fn new() -> (r: Self)
        ensures
            r@ == Map::<ServiceIdentity, H>::empty(),
    {
        BridgeSessionRegistry { sessions: KeyedStore::new() }
    }

    /// Whether a relay task is stored for `id`.
    pub fn is_active(&self, id: ServiceIdentity) -> (r: bool)
        ensures
            r == self@.dom().contains(id),
    {
        self.sessions.contains(id)
    }

    /// Store `handle` for `id` unless a relay already runs for `id`.  The
    /// check and the insertion fall in the same exclusive section, so no
    /// two racing attempts can both succeed.
    pub fn try_activate(&mut self, id: ServiceIdentity, handle: H) -> (r: ActivationOutcome<H>)
        ensures
            final(self)@ == activate_step(old(self)@, id, handle),
            r is Activated <==> activate_succeeds(old(self)@, id),
            r matches ActivationOutcome::AlreadyActive(h) ==> h == handle,
    {
        match self.sessions.try_insert(id, handle) {
            None => ActivationOutcome::Activated,
            Some(h) => ActivationOutcome::AlreadyActive(h),
        }
    }

    /// Remove the entry for `id`, handing back the stored handle for the
    /// caller to cancel; cancellation itself is the caller's fire-and-forget
    /// step and never blocks the registry.
    pub fn deactivate(&mut self, id: ServiceIdentity) -> (r: DeactivationOutcome<H>)
        ensures
            final(self)@ == deactivate_step(old(self)@, id),
            old(self)@.dom().contains(id) ==> r == DeactivationOutcome::Deactivated(old(self)@[id]),
            !old(self)@.dom().contains(id) ==> r == DeactivationOutcome::<H>::WasInactive,
    {
        match self.sessions.remove(id) {
            Some(h) => {
                proof {
                    assert(self@ =~= deactivate_step(old(self)@, id));
                }
                DeactivationOutcome::Deactivated(h)
            },
            None => {
                proof {
                    assert(self@ =~= deactivate_step(old(self)@, id));
                }
                DeactivationOutcome::WasInactive
            },
        }
    }
}

} // verus!
