//! Who is registered under which name, and since when they were last seen.

use crate::clock;
use crate::clock::{Clock, Duration, Instant, SystemClock};
use crate::error;
use crate::error::{Error, ErrorView};
use crate::seqs;
use crate::strmap::StrMap;
use crate::text::same;
use vstd::prelude::*;

verus! {

/// An identity taken from a credential; none where the credential is absent or invalid.
pub struct AgentIdentity(pub(crate) Option<String>);

pub type ParticipantIdentity = AgentIdentity;

impl DeepView for AgentIdentity {
    type V = Option<Seq<char>>;

    closed spec fn deep_view(&self) -> Option<Seq<char>> {
        self.0.deep_view()
    }
}

impl AgentIdentity {
    pub fn valid(id: &str) -> (a: Self)
        ensures
            a.deep_view() == Some(id@),
    {
        AgentIdentity(Some(id.to_owned()))
    }

    pub fn invalid() -> (a: Self)
        ensures
            a.deep_view() == None::<Seq<char>>,
    {
        AgentIdentity(None)
    }
}

/// Who may see a participant's presence.
#[derive(Clone, Copy, PartialEq, Eq, Debug, Default)]
pub enum PresenceScope {
    Public,
    #[default]
    GrantScoped,
    Hidden,
}

struct Registration {
    identity: String,
    last_seen: Instant,
    presence_scope: PresenceScope,
}

/// What a registration holds.
pub struct RegistrationView {
    pub identity: Seq<char>,
    pub last_seen: Instant,
    pub presence_scope: PresenceScope,
}

impl DeepView for Registration {
    type V = RegistrationView;

    closed spec fn deep_view(&self) -> RegistrationView {
        RegistrationView {
            identity: self.identity@,
            last_seen: self.last_seen,
            presence_scope: self.presence_scope,
        }
    }
}

/// The registrations by name, and how long one stays live after it was last seen.
pub struct RegistryModel {
    pub entries: Map<Seq<char>, RegistrationView>,
    pub lapse_after: Duration,
}

impl RegistryModel {
    /// `name` is registered and was seen less than the liveness window ago.
    pub open spec fn live(self, name: Seq<char>, now: Instant) -> bool {
        self.entries.contains_key(name) && clock::elapsed(self.entries[name].last_seen, now)
            < self.lapse_after
    }

    /// A live name belongs to its identity: that identity refreshes it, another is refused. A
    /// name that is free or has lapsed goes to whoever registers it.
    pub open spec fn register(
        self,
        name: Seq<char>,
        identity: Option<Seq<char>>,
        scope: PresenceScope,
        now: Instant,
    ) -> (RegistryModel, Result<(), ErrorView>) {
        match identity {
            None => (self, Err(ErrorView::AuthFailed)),
            Some(id) => if self.live(name, now) && self.entries[name].identity != id {
                (self, Err(ErrorView::NameInUse))
            } else {
                let seen = RegistrationView { identity: id, last_seen: now, presence_scope: scope };
                (RegistryModel { entries: self.entries.insert(name, seen), ..self }, Ok(()))
            },
        }
    }

    /// The scope of a live name.
    pub open spec fn scope(self, name: Seq<char>, now: Instant) -> Option<PresenceScope> {
        if self.live(name, now) {
            Some(self.entries[name].presence_scope)
        } else {
            None
        }
    }

    /// The scope of a name, live or lapsed.
    pub open spec fn scope_unconditional(self, name: Seq<char>) -> Option<PresenceScope> {
        if self.entries.contains_key(name) {
            Some(self.entries[name].presence_scope)
        } else {
            None
        }
    }

    /// The holder of a live name sets its scope; on a name that is not live nothing happens.
    pub open spec fn set_scope(
        self,
        name: Seq<char>,
        identity: Option<Seq<char>>,
        scope: PresenceScope,
        now: Instant,
    ) -> (RegistryModel, Result<(), ErrorView>) {
        match identity {
            None => (self, Err(ErrorView::AuthFailed)),
            Some(id) => if !self.live(name, now) {
                (self, Ok(()))
            } else if self.entries[name].identity != id {
                (self, Err(ErrorView::Forbidden))
            } else {
                let set = RegistrationView { presence_scope: scope, ..self.entries[name] };
                (RegistryModel { entries: self.entries.insert(name, set), ..self }, Ok(()))
            },
        }
    }

    /// The name is free.
    pub open spec fn force_deregister(self, name: Seq<char>) -> RegistryModel {
        RegistryModel { entries: self.entries.remove(name), ..self }
    }

    /// The holder of a live name gives it up; on a name that is not live nothing happens.
    pub open spec fn deregister(self, name: Seq<char>, identity: Option<Seq<char>>, now: Instant) -> (
        RegistryModel,
        Result<(), ErrorView>,
    ) {
        match identity {
            None => (self, Err(ErrorView::AuthFailed)),
            Some(id) => if !self.live(name, now) {
                (self, Ok(()))
            } else if self.entries[name].identity != id {
                (self, Err(ErrorView::Forbidden))
            } else {
                (self.force_deregister(name), Ok(()))
            },
        }
    }

    /// Only the live registrations are left.
    pub open spec fn reap(self, now: Instant) -> RegistryModel {
        RegistryModel {
            entries: self.entries.restrict(Set::new(|name: Seq<char>| self.live(name, now))),
            ..self
        }
    }
}

/// The registrations, with the present handed in by the caller.
pub struct RegistryTable {
    entries: StrMap<Registration>,
    lapse_after: Duration,
}

impl View for RegistryTable {
    type V = RegistryModel;

    closed spec fn view(&self) -> RegistryModel {
        RegistryModel { entries: self.entries@, lapse_after: self.lapse_after }
    }
}

impl RegistryTable {
    pub fn new(lapse_after: Duration) -> (t: Self)
        ensures
            t@ == (RegistryModel { entries: Map::empty(), lapse_after }),
    {
        RegistryTable { entries: StrMap::new(), lapse_after }
    }

    /// `name` is registered and was seen less than the liveness window ago.
    pub fn is_online(&self, name: &str, now: Instant) -> (r: bool)
        ensures
            r == self@.live(name@, now),
    {
        match self.entries.get(name) {
            Some(reg) => clock::since(reg.last_seen, now) < self.lapse_after,
            None => false,
        }
    }

    pub fn register(
        &mut self,
        name: &str,
        identity: AgentIdentity,
        scope: PresenceScope,
        now: Instant,
    ) -> (r: Result<(), Error>)
        ensures
            (final(self)@, error::outcome(r)) == old(self)@.register(
                name@,
                identity.deep_view(),
                scope,
                now,
            ),
    {
        let id = match identity.0 {
            Some(id) => id,
            None => return Err(Error::AuthFailed),
        };
        if self.is_online(name, now) {
            if let Some(reg) = self.entries.get(name) {
                if !same(reg.identity.as_str(), id.as_str()) {
                    return Err(Error::NameInUse);
                }
            }
        }
        let _ = self.entries.insert(
            name.to_owned(),
            Registration { identity: id, last_seen: now, presence_scope: scope },
        );
        Ok(())
    }

    pub fn presence_scope(&self, name: &str, now: Instant) -> (r: Option<PresenceScope>)
        ensures
            r == self@.scope(name@, now),
    {
        match self.entries.get(name) {
            Some(reg) => if clock::since(reg.last_seen, now) < self.lapse_after {
                Some(reg.presence_scope)
            } else {
                None
            },
            None => None,
        }
    }

    pub fn presence_scope_unconditional(&self, name: &str) -> (r: Option<PresenceScope>)
        ensures
            r == self@.scope_unconditional(name@),
    {
        match self.entries.get(name) {
            Some(reg) => Some(reg.presence_scope),
            None => None,
        }
    }

    pub fn set_presence_scope(
        &mut self,
        name: &str,
        identity: &AgentIdentity,
        scope: PresenceScope,
        now: Instant,
    ) -> (r: Result<(), Error>)
        ensures
            (final(self)@, error::outcome(r)) == old(self)@.set_scope(
                name@,
                identity.deep_view(),
                scope,
                now,
            ),
    {
        let id = match &identity.0 {
            Some(id) => id,
            None => return Err(Error::AuthFailed),
        };
        if !self.is_online(name, now) {
            return Ok(());
        }
        let set = match self.entries.get(name) {
            Some(reg) => {
                if !same(reg.identity.as_str(), id.as_str()) {
                    return Err(Error::Forbidden);
                }
                Registration {
                    identity: reg.identity.clone(),
                    last_seen: reg.last_seen,
                    presence_scope: scope,
                }
            },
            None => return Ok(()),
        };
        let _ = self.entries.insert(name.to_owned(), set);
        Ok(())
    }

    pub fn force_deregister(&mut self, name: &str)
        ensures
            final(self)@ == old(self)@.force_deregister(name@),
    {
        let _ = self.entries.remove(name);
    }

    pub fn deregister(&mut self, name: &str, identity: AgentIdentity, now: Instant) -> (r: Result<
        (),
        Error,
    >)
        ensures
            (final(self)@, error::outcome(r)) == old(self)@.deregister(
                name@,
                identity.deep_view(),
                now,
            ),
    {
        let id = match identity.0 {
            Some(id) => id,
            None => return Err(Error::AuthFailed),
        };
        if !self.is_online(name, now) {
            return Ok(());
        }
        if let Some(reg) = self.entries.get(name) {
            if !same(reg.identity.as_str(), id.as_str()) {
                return Err(Error::Forbidden);
            }
        }
        self.force_deregister(name);
        Ok(())
    }

    /// Drops every registration that has lapsed.
    pub fn reap(&mut self, now: Instant)
        ensures
            final(self)@ == old(self)@.reap(now),
    {
        let names = self.entries.keys();
        let ghost before = self@;
        let mut i: usize = 0;
        while i < names.len()
            invariant
                i <= names@.len(),
                names.deep_view().to_set() == before.entries.dom(),
                self@.lapse_after == before.lapse_after,
                forall|k: Seq<char>| #[trigger]
                    self@.entries.contains_key(k) <==> before.entries.contains_key(k) && (
                    before.live(k, now) || !names.deep_view().take(i as int).contains(k)),
                forall|k: Seq<char>| #[trigger]
                    self@.entries.contains_key(k) ==> self@.entries[k] == before.entries[k],
            decreases names@.len() - i,
        {
            let ghost k = names.deep_view()[i as int];
            assert(names.deep_view().to_set().contains(k));
            proof {
                seqs::lemma_take_next(names.deep_view(), i as int);
            }
            let online = self.is_online(names[i].as_str(), now);
            if !online {
                let _ = self.entries.remove(names[i].as_str());
            }
            i += 1;
        }
        assert(names.deep_view().take(i as int) =~= names.deep_view());
        assert(self@.entries =~= before.reap(now).entries) by {
            assert forall|k: Seq<char>| before.entries.contains_key(k) implies names.deep_view().contains(k) by {
                assert(names.deep_view().to_set().contains(k));
            }
        }
    }
}

/// The registrations, with the present read from a clock.
pub struct Registry<C: Clock = SystemClock> {
    table: RegistryTable,
    clock: C,
}

impl Registry {
    /// A registry on the system's clock.
    pub fn new(lapse_after: Duration) -> (r: Self)
        ensures
            r@ == (RegistryModel { entries: Map::empty(), lapse_after }),
            r.ready(),
    {
        Registry { table: RegistryTable::new(lapse_after), clock: SystemClock::start() }
    }
}

impl<C: Clock> View for Registry<C> {
    type V = RegistryModel;

    closed spec fn view(&self) -> RegistryModel {
        self.table@
    }
}

impl<C: Clock> Registry<C> {
    /// The clock that the registry reads.
    pub closed spec fn clock(self) -> C {
        self.clock
    }

    /// The clock can be read.
    pub open spec fn ready(self) -> bool {
        self.clock().ready()
    }

    pub fn with_clock(lapse_after: Duration, now: C) -> (r: Self)
        ensures
            r@ == (RegistryModel { entries: Map::empty(), lapse_after }),
            r.clock() == now,
    {
        Registry { table: RegistryTable::new(lapse_after), clock: now }
    }

    pub fn register(&mut self, name: &str, identity: AgentIdentity, scope: PresenceScope) -> (r: Result<
        (),
        Error,
    >)
        requires
            old(self).ready(),
        ensures
            final(self).clock() == old(self).clock(),
            exists|now: Instant|
                #[trigger] old(self).clock().may_read(now) && (final(self)@, error::outcome(r)) == old(
                    self,
                )@.register(name@, identity.deep_view(), scope, now),
    {
        let now: Instant = self.clock.now();
        self.table.register(name, identity, scope, now)
    }

    pub fn presence_scope(&self, name: &str) -> (r: Option<PresenceScope>)
        requires
            self.ready(),
        ensures
            exists|now: Instant|
                #[trigger] self.clock().may_read(now) && r == self@.scope(name@, now),
    {
        let now: Instant = self.clock.now();
        self.table.presence_scope(name, now)
    }

    pub fn presence_scope_unconditional(&self, name: &str) -> (r: Option<PresenceScope>)
        ensures
            r == self@.scope_unconditional(name@),
    {
        self.table.presence_scope_unconditional(name)
    }

    pub fn set_presence_scope(
        &mut self,
        name: &str,
        identity: &AgentIdentity,
        scope: PresenceScope,
    ) -> (r: Result<(), Error>)
        requires
            old(self).ready(),
        ensures
            final(self).clock() == old(self).clock(),
            exists|now: Instant|
                #[trigger] old(self).clock().may_read(now) && (final(self)@, error::outcome(r)) == old(
                    self,
                )@.set_scope(name@, identity.deep_view(), scope, now),
    {
        let now: Instant = self.clock.now();
        self.table.set_presence_scope(name, identity, scope, now)
    }

    pub fn force_deregister(&mut self, name: &str)
        ensures
            final(self).clock() == old(self).clock(),
            final(self)@ == old(self)@.force_deregister(name@),
    {
        self.table.force_deregister(name);
    }

    pub fn deregister(&mut self, name: &str, identity: AgentIdentity) -> (r: Result<(), Error>)
        requires
            old(self).ready(),
        ensures
            final(self).clock() == old(self).clock(),
            exists|now: Instant|
                #[trigger] old(self).clock().may_read(now) && (final(self)@, error::outcome(r)) == old(
                    self,
                )@.deregister(name@, identity.deep_view(), now),
    {
        let now: Instant = self.clock.now();
        self.table.deregister(name, identity, now)
    }

    pub fn is_online(&self, name: &str) -> (r: bool)
        requires
            self.ready(),
        ensures
            exists|now: Instant| #[trigger] self.clock().may_read(now) && r == self@.live(name@, now),
    {
        let now: Instant = self.clock.now();
        self.table.is_online(name, now)
    }

    /// Drops every registration that has lapsed.
    pub fn reap(&mut self)
        requires
            old(self).ready(),
        ensures
            final(self).clock() == old(self).clock(),
            exists|now: Instant|
                #[trigger] old(self).clock().may_read(now) && final(self)@ == old(self)@.reap(now),
    {
        let now: Instant = self.clock.now();
        self.table.reap(now);
    }
}

} // verus!
