//! Whether a participant is online.

use crate::clock::{Clock, Duration, Instant, SystemClock};
use crate::error;
use crate::error::Error;
use crate::registry::{ParticipantIdentity, PresenceScope, Registry, RegistryModel};
use vstd::prelude::*;

verus! {

/// How long a registration stays live unless another window is chosen: thirty seconds.
pub const DEFAULT_LIVENESS_WINDOW: Duration = 30_000_000_000;

#[derive(Debug, PartialEq, Eq)]
pub enum PresenceStatus {
    Online,
    Offline,
}

/// Presence on top of a registry.
pub struct PresenceModule<C: Clock = SystemClock> {
    registry: Registry<C>,
}

impl PresenceModule {
    /// Presence on the system's clock.
    pub fn new(lapse_after: Duration) -> (p: Self)
        ensures
            p@ == (RegistryModel { entries: Map::empty(), lapse_after }),
            p.ready(),
    {
        PresenceModule { registry: Registry::new(lapse_after) }
    }
}

impl<C: Clock> View for PresenceModule<C> {
    type V = RegistryModel;

    closed spec fn view(&self) -> RegistryModel {
        self.registry@
    }
}

impl<C: Clock> PresenceModule<C> {
    /// The clock that presence is measured by.
    pub closed spec fn clock(self) -> C {
        self.registry.clock()
    }

    /// The clock can be read.
    pub open spec fn ready(self) -> bool {
        self.clock().ready()
    }

    pub fn with_clock(lapse_after: Duration, now: C) -> (p: Self)
        ensures
            p@ == (RegistryModel { entries: Map::empty(), lapse_after }),
            p.clock() == now,
    {
        PresenceModule { registry: Registry::with_clock(lapse_after, now) }
    }

    pub fn register(
        &mut self,
        name: &str,
        identity: ParticipantIdentity,
        scope: PresenceScope,
    ) -> (r: Result<(), Error>)
        requires
            old(self).ready(),
        ensures
            final(self).clock() == old(self).clock(),
            exists|now: Instant| #[trigger]
                old(self).clock().may_read(now) && (final(self)@, error::outcome(r)) == old(
                    self,
                )@.register(name@, identity.deep_view(), scope, now),
    {
        self.registry.register(name, identity, scope)
    }

    pub fn deregister(&mut self, name: &str, identity: ParticipantIdentity) -> (r: Result<(), Error>)
        requires
            old(self).ready(),
        ensures
            final(self).clock() == old(self).clock(),
            exists|now: Instant| #[trigger]
                old(self).clock().may_read(now) && (final(self)@, error::outcome(r)) == old(
                    self,
                )@.deregister(name@, identity.deep_view(), now),
    {
        self.registry.deregister(name, identity)
    }

    /// `Online` within the liveness window. Otherwise `Offline`, also for a name that was never
    /// registered, and the lapsed registrations are dropped.
    pub fn query(&mut self, name: &str) -> (r: PresenceStatus)
        requires
            old(self).ready(),
        ensures
            final(self).clock() == old(self).clock(),
            exists|now: Instant| #[trigger]
                old(self).clock().may_read(now) && (r is Online) == old(self)@.live(name@, now),
            r is Online ==> final(self)@ == old(self)@,
            r is Offline ==> exists|then: Instant| #[trigger]
                old(self).clock().may_read(then) && final(self)@ == old(self)@.reap(then),
    {
        if self.registry.is_online(name) {
            PresenceStatus::Online
        } else {
            self.registry.reap();
            PresenceStatus::Offline
        }
    }
}

} // verus!
