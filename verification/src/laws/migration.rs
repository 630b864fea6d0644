//! Laws of bringing a store up to date.

use crate::migration;
use crate::migration::{IdentityRow, StoredTokenRow};
use crate::seqs;
use vstd::prelude::*;

verus! {

proof fn lemma_entered(ids: Seq<IdentityRow>, name: Seq<char>, created_at: Seq<char>)
    ensures
        migration::registered(migration::entered(ids, name, created_at), name),
        ids.len() <= migration::entered(ids, name, created_at).len(),
        migration::entered(ids, name, created_at).take(ids.len() as int) == ids,
{
    let after = migration::entered(ids, name, created_at);
    assert(after.take(ids.len() as int) =~= ids);
    if !migration::registered(ids, name) {
        assert(after[ids.len() as int].name == name);
    }
}

/// A longer list knows what the shorter one knows.
proof fn lemma_registered_longer(a: Seq<IdentityRow>, b: Seq<IdentityRow>, name: Seq<char>)
    requires
        a.len() <= b.len(),
        b.take(a.len() as int) == a,
        migration::registered(a, name),
    ensures
        migration::registered(b, name),
{
    let i = choose|i: int| 0 <= i < a.len() && (#[trigger] a[i]).name == name;
    assert(b.take(a.len() as int)[i] == b[i]);
}

proof fn lemma_owned_entered(ids: Seq<IdentityRow>, rows: Seq<StoredTokenRow>)
    ensures
        ids.len() <= migration::enter_owned(ids, rows).len(),
        migration::enter_owned(ids, rows).take(ids.len() as int) == ids,
        forall|i: int|
            0 <= i < rows.len() && (#[trigger] rows[i]).is_session() && rows[i].is_owned()
                ==> migration::registered(migration::enter_owned(ids, rows), rows[i].identity),
    decreases rows.len(),
{
    let after = migration::enter_owned(ids, rows);
    if rows.len() == 0 {
        assert(after.take(ids.len() as int) =~= ids);
    } else {
        let shorter = rows.drop_last();
        let before = migration::enter_owned(ids, shorter);
        lemma_owned_entered(ids, shorter);
        lemma_entered(before, rows.last().identity, rows.last().created_at);
        assert(before.take(before.len() as int) =~= before);
        assert(after.take(ids.len() as int) =~= after.take(before.len() as int).take(ids.len() as int));
        assert forall|i: int|
            0 <= i < rows.len() && (#[trigger] rows[i]).is_session()
                && rows[i].is_owned() implies migration::registered(after, rows[i].identity) by {
            if i < shorter.len() {
                assert(shorter[i] == rows[i]);
                lemma_registered_longer(before, after, rows[i].identity);
            }
        }
    }
}

proof fn lemma_named_entered(ids: Seq<IdentityRow>, rows: Seq<StoredTokenRow>)
    ensures
        ids.len() <= migration::enter_named(ids, rows).len(),
        migration::enter_named(ids, rows).take(ids.len() as int) == ids,
        forall|i: int|
            0 <= i < rows.len() && (#[trigger] rows[i]).is_renamed(true) ==> migration::registered(
                migration::enter_named(ids, rows),
                rows[i].name->0,
            ),
    decreases rows.len(),
{
    let after = migration::enter_named(ids, rows);
    if rows.len() == 0 {
        assert(after.take(ids.len() as int) =~= ids);
    } else {
        let shorter = rows.drop_last();
        let before = migration::enter_named(ids, shorter);
        lemma_named_entered(ids, shorter);
        lemma_entered(before, rows.last().name->0, rows.last().created_at);
        assert(before.take(before.len() as int) =~= before);
        assert(after.take(ids.len() as int) =~= after.take(before.len() as int).take(ids.len() as int));
        assert forall|i: int|
            0 <= i < rows.len() && (#[trigger] rows[i]).is_renamed(
                true,
            ) implies migration::registered(after, rows[i].name->0) by {
            if i < shorter.len() {
                assert(shorter[i] == rows[i]);
                lemma_registered_longer(before, after, rows[i].name->0);
            }
        }
    }
}

/// No identity is ever lost, nor is the time of its first announcement changed.
pub proof fn law_identities_stay(
    ids: Seq<IdentityRow>,
    rows: Seq<StoredTokenRow>,
    has_column: bool,
)
    ensures
        ids.len() <= migration::identities_after(ids, rows, has_column).len(),
        migration::identities_after(ids, rows, has_column).take(ids.len() as int) == ids,
{
    let owned = migration::enter_owned(ids, rows);
    let after = migration::identities_after(ids, rows, has_column);
    lemma_owned_entered(ids, rows);
    lemma_named_entered(owned, rows);
    if has_column {
        assert(after.take(ids.len() as int) =~= after.take(owned.len() as int).take(ids.len() as int));
    } else {
        assert(after.take(ids.len() as int) =~= ids);
    }
}

/// Every credential afterwards is the present form of one that was kept.
proof fn lemma_from_kept(
    ids: Seq<IdentityRow>,
    rows: Seq<StoredTokenRow>,
    has_column: bool,
    i: int,
) -> (row: StoredTokenRow)
    requires
        0 <= i < migration::tokens_after(ids, rows, has_column).len(),
    ensures
        rows.contains(row),
        row.is_kept(has_column, migration::identities_after(ids, rows, has_column)),
        migration::tokens_after(ids, rows, has_column)[i] == row.modern(has_column),
{
    broadcast use vstd::seq_lib::group_filter_ensures;

    let known = migration::identities_after(ids, rows, has_column);
    let p = |r: StoredTokenRow| r.is_kept(has_column, known);
    let kept = rows.filter(p);
    assert(kept.contains(kept[i]));
    rows.lemma_filter_contains_rev(p, kept[i]);
    kept[i]
}

/// Afterwards no credential is an agent's and none has an outdated type, and each participant's
/// belongs to a registered identity.
pub proof fn law_up_to_date(
    ids: Seq<IdentityRow>,
    rows: Seq<StoredTokenRow>,
    has_column: bool,
    i: int,
)
    requires
        0 <= i < migration::tokens_after(ids, rows, has_column).len(),
    ensures
        ({
            let known = migration::identities_after(ids, rows, has_column);
            let row = migration::tokens_after(ids, rows, has_column)[i];
            &&& !row.is_outdated()
            &&& !row.is_agent()
            &&& row.name is None
            &&& row.is_session() ==> row.identity.len() > 0 && migration::registered(
                known,
                row.identity,
            )
        }),
{
    reveal_strlit("v2");
    reveal_strlit("listen");
    reveal_strlit("participant");
    reveal_strlit("agent");
    assert("participant"@.len() == 11 && "agent"@.len() == 5 && "v2"@.len() == 2
        && "listen"@.len() == 6);
    let was = lemma_from_kept(ids, rows, has_column, i);
    assert(was.is_session() || was.modern(has_column).token_type == was.token_type);
}

/// A participant's credential that holds a name survives with that name, whether the name stands
/// in the identity or in the retired column, and whatever the name looks like.
pub proof fn law_named_credential_survives(
    ids: Seq<IdentityRow>,
    rows: Seq<StoredTokenRow>,
    row: StoredTokenRow,
)
    requires
        rows.contains(row),
        row.is_session(),
        row.is_owned() || row.is_named(),
    ensures
        migration::tokens_after(ids, rows, true).contains(row.modern(true)),
        row.modern(true).token == row.token,
        row.modern(true).token_type == "participant"@,
        row.is_owned() ==> row.modern(true).identity == row.identity,
        !row.is_owned() ==> Some(row.modern(true).identity) == row.name,
{
    broadcast use vstd::seq_lib::group_filter_ensures;

    reveal_strlit("participant");
    reveal_strlit("agent");
    reveal_strlit("v2");
    reveal_strlit("listen");
    assert("participant"@.len() == 11 && "agent"@.len() == 5 && "v2"@.len() == 2
        && "listen"@.len() == 6);
    let owned = migration::enter_owned(ids, rows);
    let known = migration::identities_after(ids, rows, true);
    lemma_owned_entered(ids, rows);
    lemma_named_entered(owned, rows);
    let i = rows.index_of(row);
    assert(rows[i] == row);
    if row.is_owned() {
        lemma_registered_longer(owned, known, row.identity);
    }
    assert(row.is_kept(true, known));
    let kept = rows.filter(|r: StoredTokenRow| r.is_kept(true, known));
    assert(kept.contains(row));
    let k = kept.index_of(row);
    assert(migration::tokens_after(ids, rows, true)[k] == row.modern(true));
}

/// Without the retired column a participant's credential survives where its identity is
/// registered.
pub proof fn law_registered_credential_survives(
    ids: Seq<IdentityRow>,
    rows: Seq<StoredTokenRow>,
    row: StoredTokenRow,
)
    requires
        rows.contains(row),
        row.is_session(),
        row.identity.len() > 0,
        migration::registered(ids, row.identity),
    ensures
        migration::tokens_after(ids, rows, false).contains(row.modern(false)),
        row.modern(false).token == row.token,
        row.modern(false).identity == row.identity,
{
    broadcast use vstd::seq_lib::group_filter_ensures;

    reveal_strlit("participant");
    reveal_strlit("agent");
    reveal_strlit("v2");
    reveal_strlit("listen");
    assert("participant"@.len() == 11 && "agent"@.len() == 5 && "v2"@.len() == 2
        && "listen"@.len() == 6);
    assert(row.is_kept(false, ids));
    let kept = rows.filter(|r: StoredTokenRow| r.is_kept(false, ids));
    assert(kept.contains(row));
    let k = kept.index_of(row);
    assert(migration::tokens_after(ids, rows, false)[k] == row.modern(false));
}

/// Entering names that are registered changes nothing.
proof fn lemma_nothing_to_enter(ids: Seq<IdentityRow>, rows: Seq<StoredTokenRow>)
    requires
        forall|i: int|
            0 <= i < rows.len() ==> (#[trigger] rows[i]).name is None && (rows[i].is_session()
                ==> migration::registered(ids, rows[i].identity)),
    ensures
        migration::enter_owned(ids, rows) == ids,
        migration::enter_named(ids, rows) == ids,
    decreases rows.len(),
{
    if rows.len() > 0 {
        let shorter = rows.drop_last();
        assert forall|i: int| 0 <= i < shorter.len() implies (#[trigger] shorter[i]).name is None && (
        shorter[i].is_session() ==> migration::registered(ids, shorter[i].identity)) by {
            assert(shorter[i] == rows[i]);
        }
        lemma_nothing_to_enter(ids, shorter);
        assert(rows.last() == rows[rows.len() - 1]);
    }
}

/// To bring a store up to date again changes nothing.
pub proof fn law_migration_idempotent(
    ids: Seq<IdentityRow>,
    rows: Seq<StoredTokenRow>,
    has_column: bool,
    again: bool,
)
    ensures
        ({
            let known = migration::identities_after(ids, rows, has_column);
            let left = migration::tokens_after(ids, rows, has_column);
            &&& migration::identities_after(known, left, again) == known
            &&& migration::tokens_after(known, left, again) == left
        }),
{
    let known = migration::identities_after(ids, rows, has_column);
    let left = migration::tokens_after(ids, rows, has_column);
    let kept = |r: StoredTokenRow| r.is_kept(again, known);
    assert forall|i: int| 0 <= i < left.len() implies (#[trigger] left[i]).name is None && (
    left[i].is_session() ==> migration::registered(known, left[i].identity)) && kept(left[i])
        && left[i].modern(again) == left[i] by {
        law_up_to_date(ids, rows, has_column, i);
    }
    lemma_nothing_to_enter(known, left);
    seqs::lemma_filter_all(left, kept);
    assert(left.map_values(|r: StoredTokenRow| r.modern(again)) =~= left);
}

// ── Row by row ───────────────────────────────────────────────────────────────

/// A credential with which a participant listens, in one of the forms there ever were.
pub open spec fn participants(row: StoredTokenRow) -> bool {
    row.token_type == "v2"@ || row.token_type == "listen"@ || row.token_type == "participant"@
}

/// The name that a participant's credential stands for: its identity, unless that is missing or
/// the credential itself, or else the name in the retired column.
pub open spec fn stands_for(row: StoredTokenRow, has_column: bool) -> Seq<char> {
    if row.identity.len() > 0 && row.identity != row.token {
        row.identity
    } else {
        match row.name {
            Some(name) => if has_column && name.len() > 0 {
                name
            } else {
                row.identity
            },
            None => row.identity,
        }
    }
}

/// A name is on the list of identities.
pub open spec fn on_list(ids: Seq<IdentityRow>, name: Seq<char>) -> bool {
    exists|i: int| 0 <= i < ids.len() && (#[trigger] ids[i]).name == name
}

/// What is left of each row: a participant's credential stays if it stands for an identity, in
/// the present form and under that identity; the credentials of agents go; all others stay as they
/// are but for the retired column.
pub proof fn law_each_row(
    ids: Seq<IdentityRow>,
    rows: Seq<StoredTokenRow>,
    has_column: bool,
    j: int,
    k: int,
)
    ensures
        ({
            let known = migration::identities_after(ids, rows, has_column);
            let after = migration::tokens_after(ids, rows, has_column);
            &&& 0 <= j < rows.len() && participants(rows[j]) && stands_for(rows[j], has_column).len()
                > 0 && on_list(known, stands_for(rows[j], has_column)) ==> after.contains(
                StoredTokenRow {
                    identity: stands_for(rows[j], has_column),
                    token_type: "participant"@,
                    name: None,
                    ..rows[j]
                },
            )
            &&& 0 <= j < rows.len() && !participants(rows[j]) && rows[j].token_type != "agent"@
                ==> after.contains(StoredTokenRow { name: None, ..rows[j] })
            &&& 0 <= k < after.len() ==> exists|i: int|
                0 <= i < rows.len() && {
                    let row = #[trigger] rows[i];
                    &&& after[k].token == row.token
                    &&& after[k].created_at == row.created_at
                    &&& after[k].expires_at == row.expires_at
                    &&& after[k].name is None
                    &&& row.token_type != "agent"@
                    &&& participants(row) ==> after[k].token_type == "participant"@
                        && after[k].identity == stands_for(row, has_column) && on_list(
                        known,
                        after[k].identity,
                    )
                    &&& !participants(row) ==> after[k].token_type == row.token_type
                        && after[k].identity == row.identity
                }
        }),
{
    broadcast use vstd::seq_lib::group_filter_ensures;

    reveal_strlit("participant");
    reveal_strlit("agent");
    reveal_strlit("v2");
    reveal_strlit("listen");
    assert("participant"@.len() == 11 && "agent"@.len() == 5 && "v2"@.len() == 2
        && "listen"@.len() == 6);
    let known = migration::identities_after(ids, rows, has_column);
    let after = migration::tokens_after(ids, rows, has_column);
    let p = |r: StoredTokenRow| r.is_kept(has_column, known);
    let kept = rows.filter(p);
    if 0 <= j < rows.len() && rows[j].is_kept(has_column, known) {
        assert(kept.contains(rows[j]));
        let i = kept.index_of(rows[j]);
        assert(after[i] == rows[j].modern(has_column));
    }
    if 0 <= k < after.len() {
        let row = lemma_from_kept(ids, rows, has_column, k);
        let i = rows.index_of(row);
        assert(rows[i] == row);
    }
}

/// Every name that a participant's credential stands for is on the list of identities afterwards,
/// where there was a retired column; where there was none, the list stays as it is.
pub proof fn law_names_listed(ids: Seq<IdentityRow>, rows: Seq<StoredTokenRow>, j: int)
    requires
        0 <= j < rows.len(),
        participants(rows[j]),
        stands_for(rows[j], true).len() > 0,
        stands_for(rows[j], true) != rows[j].token || rows[j].name == Some(rows[j].token),
    ensures
        on_list(migration::identities_after(ids, rows, true), stands_for(rows[j], true)),
        migration::identities_after(ids, rows, false) == ids,
{
    let owned = migration::enter_owned(ids, rows);
    let known = migration::identities_after(ids, rows, true);
    lemma_owned_entered(ids, rows);
    lemma_named_entered(owned, rows);
    if rows[j].is_owned() {
        lemma_registered_longer(owned, known, rows[j].identity);
    }
}

} // verus!
