//! Bringing the rows of an older token store up to date.
//!
//! Older stores keep participants' credentials under the types `v2` and `listen`, hold the
//! credentials of agents, which are gone, and may have a column for the name beside the one for
//! the identity. An up to date store has participants and governors, and every participant's
//! credential belongs to a registered identity.

use crate::persistence::PersistedIdentity;
use crate::seqs;
use crate::text::same;
use crate::types::copy_opt;
use vstd::prelude::*;

verus! {

/// A credential as a store of any age holds it.
pub struct StoredToken {
    pub token: String,
    pub identity: String,
    pub token_type: String,
    /// The retired column for the name.
    pub name: Option<String>,
    pub expires_at: Option<String>,
    pub created_at: String,
}

/// What a stored credential of any age holds.
pub struct StoredTokenRow {
    pub token: Seq<char>,
    pub identity: Seq<char>,
    pub token_type: Seq<char>,
    pub name: Option<Seq<char>>,
    pub expires_at: Option<Seq<char>>,
    pub created_at: Seq<char>,
}

impl DeepView for StoredToken {
    type V = StoredTokenRow;

    open spec fn deep_view(&self) -> StoredTokenRow {
        StoredTokenRow {
            token: self.token@,
            identity: self.identity@,
            token_type: self.token_type@,
            name: self.name.deep_view(),
            expires_at: self.expires_at.deep_view(),
            created_at: self.created_at@,
        }
    }
}

/// What a stored identity holds.
pub struct IdentityRow {
    pub name: Seq<char>,
    pub created_at: Seq<char>,
}

impl PersistedIdentity {
    pub open spec fn row(&self) -> IdentityRow {
        IdentityRow { name: self.name@, created_at: self.created_at@ }
    }
}

/// What stored identities hold.
pub open spec fn rows_of(ids: Seq<PersistedIdentity>) -> Seq<IdentityRow> {
    ids.map_values(|p: PersistedIdentity| p.row())
}

/// A name has an identity.
pub open spec fn registered(ids: Seq<IdentityRow>, name: Seq<char>) -> bool {
    exists|i: int| 0 <= i < ids.len() && (#[trigger] ids[i]).name == name
}

/// A name gets an identity unless it has one.
pub open spec fn entered(ids: Seq<IdentityRow>, name: Seq<char>, created_at: Seq<char>) -> Seq<
    IdentityRow,
> {
    if registered(ids, name) {
        ids
    } else {
        ids.push(IdentityRow { name, created_at })
    }
}

impl StoredTokenRow {
    /// A type under which participants' credentials were kept before.
    pub open spec fn is_outdated(self) -> bool {
        self.token_type == "v2"@ || self.token_type == "listen"@
    }

    /// The credential of a participant.
    pub open spec fn is_session(self) -> bool {
        self.is_outdated() || self.token_type == "participant"@
    }

    /// The credential of an agent.
    pub open spec fn is_agent(self) -> bool {
        self.token_type == "agent"@
    }

    /// The identity is a name and not the token itself.
    pub open spec fn is_owned(self) -> bool {
        self.identity.len() > 0 && self.identity != self.token
    }

    /// The retired column has a name.
    pub open spec fn is_named(self) -> bool {
        self.name is Some && self.name->0.len() > 0
    }

    /// The name comes from the retired column, if there is one.
    pub open spec fn is_renamed(self, has_column: bool) -> bool {
        has_column && self.is_session() && !self.is_owned() && self.is_named()
    }

    /// The identity that the credential belongs to.
    pub open spec fn owner(self, has_column: bool) -> Seq<char> {
        if self.is_renamed(has_column) {
            self.name->0
        } else {
            self.identity
        }
    }

    /// The credential of a participant that belongs to no registered identity.
    pub open spec fn is_orphan(self, has_column: bool, ids: Seq<IdentityRow>) -> bool {
        self.is_session() && !(self.owner(has_column).len() > 0 && registered(
            ids,
            self.owner(has_column),
        ))
    }

    /// The credential stays.
    pub open spec fn is_kept(self, has_column: bool, ids: Seq<IdentityRow>) -> bool {
        !self.is_agent() && !self.is_orphan(has_column, ids)
    }

    /// The credential in its up to date form.
    pub open spec fn modern(self, has_column: bool) -> StoredTokenRow {
        StoredTokenRow {
            identity: self.owner(has_column),
            token_type: if self.is_session() {
                "participant"@
            } else {
                self.token_type
            },
            name: None,
            ..self
        }
    }
}

/// Identities are entered for the participants whose credentials hold a name as identity.
pub open spec fn enter_owned(ids: Seq<IdentityRow>, rows: Seq<StoredTokenRow>) -> Seq<IdentityRow>
    decreases rows.len(),
{
    if rows.len() == 0 {
        ids
    } else {
        let before = enter_owned(ids, rows.drop_last());
        let row = rows.last();
        if row.is_session() && row.is_owned() {
            entered(before, row.identity, row.created_at)
        } else {
            before
        }
    }
}

/// Identities are entered for the participants whose names stand in the retired column.
pub open spec fn enter_named(ids: Seq<IdentityRow>, rows: Seq<StoredTokenRow>) -> Seq<IdentityRow>
    decreases rows.len(),
{
    if rows.len() == 0 {
        ids
    } else {
        let before = enter_named(ids, rows.drop_last());
        let row = rows.last();
        if row.is_renamed(true) {
            entered(before, row.name->0, row.created_at)
        } else {
            before
        }
    }
}

/// The identities afterwards. Names are collected from the credentials only as long as the
/// retired column is there.
pub open spec fn identities_after(
    ids: Seq<IdentityRow>,
    rows: Seq<StoredTokenRow>,
    has_column: bool,
) -> Seq<IdentityRow> {
    if has_column {
        enter_named(enter_owned(ids, rows), rows)
    } else {
        ids
    }
}

/// The credentials afterwards.
pub open spec fn tokens_after(
    ids: Seq<IdentityRow>,
    rows: Seq<StoredTokenRow>,
    has_column: bool,
) -> Seq<StoredTokenRow> {
    let known = identities_after(ids, rows, has_column);
    rows.filter(|r: StoredTokenRow| r.is_kept(has_column, known)).map_values(
        |r: StoredTokenRow| r.modern(has_column),
    )
}

/// An up to date store, and what was done to get there.
pub struct Migration {
    pub tokens: Vec<StoredToken>,
    pub identities: Vec<PersistedIdentity>,
    pub identities_created: usize,
    pub listen_renamed: usize,
    pub agent_purged: usize,
    pub orphan_purged: usize,
    pub name_col_dropped: bool,
}

fn is_registered(ids: &Vec<PersistedIdentity>, name: &str) -> (r: bool)
    ensures
        r == registered(rows_of(ids@), name@),
{
    let ghost rows = rows_of(ids@);
    let mut i: usize = 0;
    while i < ids.len()
        invariant
            i <= ids@.len(),
            rows == rows_of(ids@),
            forall|j: int| 0 <= j < i ==> (#[trigger] rows[j]).name != name@,
        decreases ids@.len() - i,
    {
        assert(rows[i as int] == ids@[i as int].row());
        if same(&ids[i].name, name) {
            return true;
        }
        i += 1;
    }
    false
}

fn enter(ids: &mut Vec<PersistedIdentity>, name: &str, created_at: &str)
    ensures
        rows_of(final(ids)@) == entered(rows_of(old(ids)@), name@, created_at@),
        old(ids)@.len() <= final(ids)@.len(),
{
    if !is_registered(ids, name) {
        let ghost was = rows_of(ids@);
        ids.push(PersistedIdentity { name: name.to_owned(), created_at: created_at.to_owned() });
        assert(rows_of(ids@) =~= was.push(IdentityRow { name: name@, created_at: created_at@ }));
    }
}

impl StoredToken {
    fn outdated(&self) -> (r: bool)
        ensures
            r == self.deep_view().is_outdated(),
    {
        same(&self.token_type, "v2") || same(&self.token_type, "listen")
    }

    fn session(&self) -> (r: bool)
        ensures
            r == self.deep_view().is_session(),
    {
        self.outdated() || same(&self.token_type, "participant")
    }

    fn agent(&self) -> (r: bool)
        ensures
            r == self.deep_view().is_agent(),
    {
        same(&self.token_type, "agent")
    }

    fn owned(&self) -> (r: bool)
        ensures
            r == self.deep_view().is_owned(),
    {
        !blank(&self.identity) && !same(&self.identity, &self.token)
    }

    /// The name that the retired column gives the credential.
    fn new_name(&self, has_column: bool) -> (r: Option<&String>)
        ensures
            r is Some == self.deep_view().is_renamed(has_column),
            r matches Some(n) ==> n@ == self.deep_view().owner(has_column),
    {
        if !has_column || !self.session() || self.owned() {
            return None;
        }
        match &self.name {
            None => None,
            Some(n) => if blank(n) {
                None
            } else {
                Some(n)
            },
        }
    }

    fn owner_text(&self, has_column: bool) -> (r: &String)
        ensures
            r@ == self.deep_view().owner(has_column),
    {
        match self.new_name(has_column) {
            Some(n) => n,
            None => &self.identity,
        }
    }

    fn modernised(&self, has_column: bool) -> (r: StoredToken)
        ensures
            r.deep_view() == self.deep_view().modern(has_column),
    {
        let token_type = if self.session() {
            "participant".to_owned()
        } else {
            self.token_type.clone()
        };
        StoredToken {
            token: self.token.clone(),
            identity: self.owner_text(has_column).clone(),
            token_type,
            name: None,
            expires_at: copy_opt(&self.expires_at),
            created_at: self.created_at.clone(),
        }
    }
}

fn blank(s: &str) -> (r: bool)
    ensures
        r == (s@.len() == 0),
{
    proof {
        reveal_strlit("");
        assert(s@.len() == 0 ==> s@ =~= ""@);
    }
    same(s, "")
}

/// The store of a hub is brought up to date: names without an identity get one, names move from
/// the retired column to the identity, participants' credentials get their present type, and the
/// credentials of agents and those that belong to no identity go.
pub fn migrate(tokens: &Vec<StoredToken>, identities: Vec<PersistedIdentity>, has_column: bool) -> (m: Migration)
    ensures
        ({
            let rows = tokens.deep_view();
            let ids = rows_of(identities@);
            let known = identities_after(ids, rows, has_column);
            &&& rows_of(m.identities@) == known
            &&& m.tokens.deep_view() == tokens_after(ids, rows, has_column)
            &&& m.identities_created == known.len() - ids.len()
            &&& m.listen_renamed == rows.filter(|r: StoredTokenRow| r.is_outdated()).len()
            &&& m.agent_purged == rows.filter(|r: StoredTokenRow| r.is_agent()).len()
            &&& m.orphan_purged == rows.filter(
                |r: StoredTokenRow| r.is_orphan(has_column, known),
            ).len()
            &&& m.name_col_dropped == has_column
        }),
{
    let ghost rows = tokens.deep_view();
    let ghost ids = rows_of(identities@);
    let had: usize = identities.len();
    let mut known = identities;
    if has_column {
        let mut i: usize = 0;
        assert(rows.take(0) =~= Seq::empty());
        while i < tokens.len()
            invariant
                i <= tokens@.len(),
                rows == tokens.deep_view(),
                had <= known@.len(),
                rows_of(known@) == enter_owned(ids, rows.take(i as int)),
            decreases tokens@.len() - i,
        {
            let t = &tokens[i];
            proof {
                assert(rows[i as int] == t.deep_view());
                assert(rows.take(i + 1).drop_last() =~= rows.take(i as int));
                assert(rows.take(i + 1).last() == rows[i as int]);
            }
            if t.session() && t.owned() {
                enter(&mut known, &t.identity, &t.created_at);
            }
            i += 1;
        }
        assert(rows.take(i as int) =~= rows);
        let ghost owned = rows_of(known@);
        i = 0;
        while i < tokens.len()
            invariant
                i <= tokens@.len(),
                rows == tokens.deep_view(),
                had <= known@.len(),
                rows_of(known@) == enter_named(owned, rows.take(i as int)),
            decreases tokens@.len() - i,
        {
            let t = &tokens[i];
            proof {
                assert(rows[i as int] == t.deep_view());
                assert(rows.take(i + 1).drop_last() =~= rows.take(i as int));
                assert(rows.take(i + 1).last() == rows[i as int]);
            }
            if let Some(name) = t.new_name(true) {
                enter(&mut known, name, &t.created_at);
            }
            i += 1;
        }
        assert(rows.take(i as int) =~= rows);
    }
    let ghost all = rows_of(known@);
    let ghost outdated = |r: StoredTokenRow| r.is_outdated();
    let ghost agent = |r: StoredTokenRow| r.is_agent();
    let ghost orphan = |r: StoredTokenRow| r.is_orphan(has_column, all);
    let ghost kept = |r: StoredTokenRow| r.is_kept(has_column, all);
    let ghost modern = |r: StoredTokenRow| r.modern(has_column);
    let mut left: Vec<StoredToken> = Vec::new();
    let mut listen_renamed: usize = 0;
    let mut agent_purged: usize = 0;
    let mut orphan_purged: usize = 0;
    let mut i: usize = 0;
    proof {
        assert(rows.take(0) =~= Seq::empty());
        seqs::lemma_filter_empty(rows.take(0), outdated);
        seqs::lemma_filter_empty(rows.take(0), agent);
        seqs::lemma_filter_empty(rows.take(0), orphan);
        seqs::lemma_filter_empty(rows.take(0), kept);
        assert(left.deep_view() =~= rows.take(0).filter(kept).map_values(modern));
    }
    while i < tokens.len()
        invariant
            i <= tokens@.len(),
            rows == tokens.deep_view(),
            all == rows_of(known@),
            outdated == (|r: StoredTokenRow| r.is_outdated()),
            agent == (|r: StoredTokenRow| r.is_agent()),
            orphan == (|r: StoredTokenRow| r.is_orphan(has_column, all)),
            kept == (|r: StoredTokenRow| r.is_kept(has_column, all)),
            modern == (|r: StoredTokenRow| r.modern(has_column)),
            listen_renamed <= i,
            agent_purged <= i,
            orphan_purged <= i,
            listen_renamed == rows.take(i as int).filter(outdated).len(),
            agent_purged == rows.take(i as int).filter(agent).len(),
            orphan_purged == rows.take(i as int).filter(orphan).len(),
            left.deep_view() == rows.take(i as int).filter(kept).map_values(modern),
        decreases tokens@.len() - i,
    {
        let t = &tokens[i];
        let ghost was = left.deep_view();
        proof {
            assert(rows[i as int] == t.deep_view());
            seqs::lemma_filter_next(rows, i as int, outdated);
            seqs::lemma_filter_next(rows, i as int, agent);
            seqs::lemma_filter_next(rows, i as int, orphan);
            seqs::lemma_filter_next(rows, i as int, kept);
        }
        if t.outdated() {
            listen_renamed += 1;
        }
        let gone = t.agent();
        if gone {
            agent_purged += 1;
        }
        let owner = t.owner_text(has_column);
        let lost = t.session() && (blank(owner) || !is_registered(&known, owner));
        if lost {
            orphan_purged += 1;
        }
        if !gone && !lost {
            let m = t.modernised(has_column);
            let ghost row = m.deep_view();
            left.push(m);
            assert(left.deep_view() =~= was.push(row));
        }
        i += 1;
        assert(left.deep_view() =~= rows.take(i as int).filter(kept).map_values(modern));
    }
    assert(rows.take(i as int) =~= rows);
    Migration {
        tokens: left,
        identities_created: known.len() - had,
        identities: known,
        listen_renamed,
        agent_purged,
        orphan_purged,
        name_col_dropped: has_column,
    }
}

/// What is forgotten when a store is emptied: so many tokens and identities, and all that stands in
/// the further tables named.
pub struct Cleared {
    pub tokens: usize,
    pub identities: usize,
    pub tables: Vec<&'static str>,
}

/// The tables, besides tokens and identities, that are emptied with the store.
pub open spec fn further_tables() -> Seq<Seq<char>> {
    seq!["grants"@, "denial_blocks"@, "governor"@]
}

impl Migration {
    /// A store is emptied once in its life: names and trust that were established before count
    /// for nothing, and everyone starts anew.
    pub fn reset(self, already_reset: bool) -> (r: (Migration, Option<Cleared>))
        ensures
            already_reset ==> r.0 == self && r.1 is None,
            !already_reset ==> {
                &&& r.1 matches Some(cleared) && cleared.tokens == self.tokens@.len()
                    && cleared.identities == self.identities@.len() && cleared.tables.deep_view()
                    == further_tables()
                &&& r.0 == (Migration { tokens: r.0.tokens, identities: r.0.identities, ..self })
                &&& r.0.tokens@.len() == 0
                &&& r.0.identities@.len() == 0
            },
    {
        if already_reset {
            return (self, None);
        }
        let tables: Vec<&'static str> = vec!["grants", "denial_blocks", "governor"];
        assert(tables.deep_view() =~= further_tables());
        let cleared = Cleared { tokens: self.tokens.len(), identities: self.identities.len(), tables };
        (Migration { tokens: Vec::new(), identities: Vec::new(), ..self }, Some(cleared))
    }
}

} // verus!
