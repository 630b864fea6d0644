//! Laws of the name registry.

use crate::clock;
use crate::clock::Instant;
use crate::error::ErrorView;
use crate::registry::{PresenceScope, RegistryModel};
use vstd::prelude::*;

verus! {

/// A registration with a valid identity that is not refused makes the name live until the
/// liveness window has passed, and no longer.
pub proof fn law_registered_is_live(
    m: RegistryModel,
    name: Seq<char>,
    id: Seq<char>,
    scope: PresenceScope,
    now: Instant,
    later: Instant,
)
    requires
        m.register(name, Some(id), scope, now).1 is Ok,
        now <= later,
    ensures
        m.register(name, Some(id), scope, now).0.live(name, later) == (later - now < m.lapse_after),
{
}

/// Without a valid identity nothing is registered.
pub proof fn law_invalid_identity_refused(m: RegistryModel, name: Seq<char>, scope: PresenceScope, now: Instant)
    ensures
        m.register(name, None, scope, now) == (m, Err::<(), ErrorView>(ErrorView::AuthFailed)),
{
}

/// A live name stays with its holder: another identity is refused and changes nothing.
pub proof fn law_live_name_kept(
    m: RegistryModel,
    name: Seq<char>,
    other: Seq<char>,
    scope: PresenceScope,
    now: Instant,
)
    requires
        m.live(name, now),
        m.entries[name].identity != other,
    ensures
        m.register(name, Some(other), scope, now) == (m, Err::<(), ErrorView>(ErrorView::NameInUse)),
        m.deregister(name, Some(other), now) == (m, Err::<(), ErrorView>(ErrorView::Forbidden)),
        m.set_scope(name, Some(other), scope, now) == (m, Err::<(), ErrorView>(ErrorView::Forbidden)),
{
}

/// The holder of a live name may register it again, and registering twice is registering once.
pub proof fn law_reregister_idempotent(
    m: RegistryModel,
    name: Seq<char>,
    id: Seq<char>,
    scope: PresenceScope,
    now: Instant,
)
    requires
        m.register(name, Some(id), scope, now).1 is Ok,
    ensures
        m.register(name, Some(id), scope, now).0.register(name, Some(id), scope, now) == m.register(
            name,
            Some(id),
            scope,
            now,
        ),
{
    let once = m.register(name, Some(id), scope, now).0;
    assert(once.register(name, Some(id), scope, now).0.entries =~= once.entries);
}

/// A name that is not live, or that its holder gave up, goes to whoever registers it.
pub proof fn law_free_name_registers(
    m: RegistryModel,
    name: Seq<char>,
    holder: Seq<char>,
    other: Seq<char>,
    scope: PresenceScope,
    now: Instant,
)
    ensures
        !m.live(name, now) ==> m.register(name, Some(other), scope, now).1 is Ok,
        m.live(name, now) && m.entries[name].identity == holder ==> m.deregister(
            name,
            Some(holder),
            now,
        ).0.register(name, Some(other), scope, now).1 is Ok,
        m.force_deregister(name).register(name, Some(other), scope, now).1 is Ok,
{
}

/// Reaping lapsed registrations changes nothing that can be seen from then on: not who is live,
/// not the scope of a live name, and not the outcome of any request.
pub proof fn law_reap_unseen(
    m: RegistryModel,
    name: Seq<char>,
    identity: Option<Seq<char>>,
    scope: PresenceScope,
    now: Instant,
    later: Instant,
)
    requires
        now <= later,
    ensures
        m.reap(now).live(name, later) == m.live(name, later),
        m.reap(now).scope(name, later) == m.scope(name, later),
        m.reap(now).register(name, identity, scope, later).1 == m.register(
            name,
            identity,
            scope,
            later,
        ).1,
        m.reap(now).deregister(name, identity, later).1 == m.deregister(name, identity, later).1,
        m.reap(now).set_scope(name, identity, scope, later).1 == m.set_scope(
            name,
            identity,
            scope,
            later,
        ).1,
{
    if m.entries.contains_key(name) {
        assert(clock::elapsed(m.entries[name].last_seen, now) <= clock::elapsed(
            m.entries[name].last_seen,
            later,
        ));
    }
}

/// After reaping, only live names are registered.
pub proof fn law_reaped_are_live(m: RegistryModel, name: Seq<char>, now: Instant)
    ensures
        m.reap(now).entries.contains_key(name) <==> m.live(name, now),
{
}

/// What is done to one name leaves the others as they are.
pub proof fn law_names_independent(
    m: RegistryModel,
    name: Seq<char>,
    other: Seq<char>,
    identity: Option<Seq<char>>,
    scope: PresenceScope,
    now: Instant,
    later: Instant,
)
    requires
        name != other,
    ensures
        m.register(name, identity, scope, now).0.live(other, later) == m.live(other, later),
        m.deregister(name, identity, now).0.live(other, later) == m.live(other, later),
        m.force_deregister(name).live(other, later) == m.live(other, later),
        m.set_scope(name, identity, scope, now).0.live(other, later) == m.live(other, later),
{
}

/// Whoever registers a name is on the books with what it gave, seen at that moment; setting the
/// scope later changes the scope and nothing else, and giving the name up takes it off the books.
pub proof fn law_registration_on_the_books(
    m: RegistryModel,
    name: Seq<char>,
    id: Seq<char>,
    scope: PresenceScope,
    other: PresenceScope,
    now: Instant,
)
    requires
        m.register(name, Some(id), scope, now).1 is Ok,
        m.lapse_after > 0,
    ensures
        ({
            let on = m.register(name, Some(id), scope, now).0;
            let set = on.set_scope(name, Some(id), other, now);
            let off = on.deregister(name, Some(id), now);
            &&& on.entries.contains_key(name)
            &&& on.entries[name].identity == id
            &&& on.entries[name].last_seen == now
            &&& on.entries[name].presence_scope == scope
            &&& on.lapse_after == m.lapse_after
            &&& on.scope(name, now) == Some(scope)
            &&& set.1 == Ok::<(), ErrorView>(())
            &&& set.0.entries[name].presence_scope == other
            &&& set.0.entries[name].identity == id
            &&& set.0.entries[name].last_seen == now
            &&& set.0.scope(name, now) == Some(other)
            &&& off.1 == Ok::<(), ErrorView>(())
            &&& !off.0.entries.contains_key(name)
            &&& off.0.scope(name, now) is None
        }),
{
}

/// A name that was not seen within the liveness window is nobody's: whoever registers it has it,
/// and one that was is only its holder's.
pub proof fn law_who_may_register(
    m: RegistryModel,
    name: Seq<char>,
    id: Seq<char>,
    scope: PresenceScope,
    now: Instant,
)
    requires
        m.entries.contains_key(name),
        m.entries[name].last_seen <= now,
    ensures
        m.register(name, Some(id), scope, now).1 is Ok <==> m.entries[name].identity == id || now
            - m.entries[name].last_seen >= m.lapse_after,
{
}

} // verus!
