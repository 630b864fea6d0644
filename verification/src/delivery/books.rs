//! How the books of the hub agree with each other.

use crate::delivery::model::HubModel;
use crate::delivery::HoldView;
use crate::trust;
use vstd::prelude::*;

verus! {

/// An identifier of a held message with a number up to `n`.
pub open spec fn held_under(id: Seq<char>, n: u64) -> bool {
    trust::counter_of(id) <= n && id == trust::numbered("med"@, trust::counter_of(id))
}

/// No two held messages have one identifier.
pub open spec fn ids_apart(holds: Seq<HoldView>) -> bool {
    forall|i: int, j: int|
        0 <= i < j < holds.len() ==> (#[trigger] holds[i]).mediation_id != (
        #[trigger] holds[j]).mediation_id
}

impl HubModel {
    /// Every name in use, whether a token holds it, it can be written to, or a token carries it,
    /// is an identity.
    pub open spec fn names_known(self) -> bool {
        &&& forall|n: Seq<char>| #[trigger]
            self.name_to_token.contains_key(n) ==> self.identities.contains(n)
        &&& forall|n: Seq<char>| #[trigger]
            self.agents.contains_key(n) ==> self.identities.contains(n)
        &&& forall|t: Seq<char>| #[trigger]
            self.token_to_name.contains_key(t) ==> self.identities.contains(self.token_to_name[t])
        &&& forall|t: Seq<char>| #[trigger]
            self.tokens.contains_key(t) && self.tokens[t].name is Some ==> self.identities.contains(
                self.tokens[t].name->0,
            )
    }

    /// A name is marked as one for which messages wait exactly while messages wait for it.
    pub open spec fn marks_true(self) -> bool {
        forall|n: Seq<char>|
            #![trigger self.kick_pending.contains(n)]
            #![trigger self.queue(n)]
            self.kick_pending.contains(n) <==> self.queue(n).len() > 0
    }

    /// The identifiers of held messages are numbered up to the hub's count, and no two are the
    /// same.
    pub open spec fn holds_apart(self) -> bool {
        &&& forall|i: int|
            0 <= i < self.holds.len() ==> held_under(
                (#[trigger] self.holds[i]).mediation_id,
                self.med_counter,
            )
        &&& ids_apart(self.holds)
    }

    /// The books of the hub agree with each other. A new hub's do, and every call keeps them so.
    #[verifier::opaque]
    pub open spec fn sound(self) -> bool {
        self.names_known() && self.marks_true() && self.holds_apart()
    }
}

} // verus!
