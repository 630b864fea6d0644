//! Maps and sets keyed by strings, kept in key order.

use crate::seqs;
use crate::text;
use crate::text::{precedes, same};
use vstd::prelude::*;

verus! {

/// The keys ascend strictly.
pub open spec fn ascending(keys: Seq<Seq<char>>) -> bool {
    forall|i: int, j: int| 0 <= i < j < keys.len() ==> #[trigger] text::lex_lt(keys[i], keys[j])
}

/// The map that binds each key to the value at the same place.
pub open spec fn assoc<W>(keys: Seq<Seq<char>>, vals: Seq<W>) -> Map<Seq<char>, W> {
    Map::new(|k: Seq<char>| keys.contains(k), |k: Seq<char>| vals[keys.index_of(k)])
}

/// The members of a finite set of strings in ascending order.
pub open spec fn sorted(s: Set<Seq<char>>) -> Seq<Seq<char>> {
    choose|ks: Seq<Seq<char>>| ascending(ks) && ks.to_set() == s
}

pub(crate) proof fn lemma_ascending_distinct(keys: Seq<Seq<char>>)
    requires
        ascending(keys),
    ensures
        keys.no_duplicates(),
        forall|i: int| 0 <= i < keys.len() ==> keys.index_of(#[trigger] keys[i]) == i,
{
    assert forall|i: int, j: int| 0 <= i < j < keys.len() implies keys[i] != keys[j] by {
        assert(text::lex_lt(keys[i], keys[j]));
        text::lemma_lex_irreflexive(keys[i]);
    }
    assert forall|i: int| 0 <= i < keys.len() implies keys.index_of(#[trigger] keys[i]) == i by {
        assert(keys.contains(keys[i]));
        let j = keys.index_of(keys[i]);
        assert(keys[j] == keys[i]);
    }
}

/// Only one ascending sequence holds a given set of strings.
pub proof fn lemma_sorted_unique(a: Seq<Seq<char>>, b: Seq<Seq<char>>)
    requires
        ascending(a),
        ascending(b),
        a.to_set() == b.to_set(),
    ensures
        a == b,
    decreases a.len(),
{
    if a.len() == 0 {
        if b.len() > 0 {
            assert(b.to_set().contains(b[0]));
            assert(a.to_set().contains(b[0]));
        }
        assert(a =~= b);
    } else {
        assert(a.to_set().contains(a.last()));
        assert(b.contains(a.last()));
        let i = b.index_of(a.last());
        assert(b.to_set().contains(b.last()));
        assert(a.contains(b.last()));
        let j = a.index_of(b.last());
        lemma_ascending_distinct(a);
        lemma_ascending_distinct(b);
        if i < b.len() - 1 {
            assert(text::lex_lt(b[i], b.last()));
            if j < a.len() - 1 {
                assert(text::lex_lt(a[j], a.last()));
                text::lemma_lex_transitive(a.last(), b.last(), a.last());
            }
            text::lemma_lex_irreflexive(a.last());
        }
        assert(a.last() == b.last());
        let c = a.drop_last();
        let d = b.drop_last();
        assert forall|k: Seq<char>| c.to_set().contains(k) == d.to_set().contains(k) by {
            if c.contains(k) {
                let p = c.index_of(k);
                assert(a[p] == k);
                assert(a.to_set().contains(k));
                assert(b.contains(k));
                let q = b.index_of(k);
                assert(q != b.len() - 1) by {
                    assert(a[p] != a[a.len() - 1]);
                }
                assert(d[q] == k);
            }
            if d.contains(k) {
                let p = d.index_of(k);
                assert(b[p] == k);
                assert(b.to_set().contains(k));
                assert(a.contains(k));
                let q = a.index_of(k);
                assert(q != a.len() - 1) by {
                    assert(b[p] != b[b.len() - 1]);
                }
                assert(c[q] == k);
            }
        }
        assert(c.to_set() =~= d.to_set());
        lemma_sorted_unique(c, d);
        assert(a =~= c.push(a.last()));
        assert(b =~= d.push(b.last()));
    }
}

/// An ascending sequence is the sorted form of its own members.
pub proof fn lemma_sorted_of(keys: Seq<Seq<char>>)
    requires
        ascending(keys),
    ensures
        sorted(keys.to_set()) == keys,
{
    let s = keys.to_set();
    assert(ascending(keys) && keys.to_set() == s);
    lemma_sorted_unique(sorted(s), keys);
}

proof fn lemma_insert_sorted(keys: Seq<Seq<char>>, a: Seq<char>) -> (more: Seq<Seq<char>>)
    requires
        ascending(keys),
        !keys.contains(a),
    ensures
        ascending(more),
        more.to_set() == keys.to_set().insert(a),
    decreases keys.len(),
{
    if keys.len() == 0 {
        let more = seq![a];
        assert(more.to_set() =~= keys.to_set().insert(a)) by {
            assert(more[0] == a);
        }
        more
    } else if text::lex_lt(keys.last(), a) {
        let more = keys.push(a);
        assert forall|i: int, j: int| 0 <= i < j < more.len() implies #[trigger] text::lex_lt(
            more[i],
            more[j],
        ) by {
            if j == keys.len() && i < keys.len() - 1 {
                assert(text::lex_lt(keys[i], keys[keys.len() - 1]));
                text::lemma_lex_transitive(keys[i], keys.last(), a);
            }
        }
        seqs::lemma_push_contains(keys, a);
        assert(more.to_set() =~= keys.to_set().insert(a));
        more
    } else {
        let last = keys.last();
        let rest = keys.drop_last();
        assert(keys[keys.len() - 1] == last);
        assert(!rest.contains(a)) by {
            if rest.contains(a) {
                assert(keys[rest.index_of(a)] == a);
            }
        }
        text::lemma_lex_total(last, a);
        let below = lemma_insert_sorted(rest, a);
        let more = below.push(last);
        assert forall|i: int| 0 <= i < below.len() implies text::lex_lt(#[trigger] below[i], last) by {
            assert(below.to_set().contains(below[i]));
            if below[i] != a {
                assert(rest.to_set().contains(below[i]));
                assert(text::lex_lt(keys[rest.index_of(below[i])], keys[keys.len() - 1]));
            }
        }
        seqs::lemma_push_contains(below, last);
        seqs::lemma_push_contains(rest, last);
        assert(keys =~= rest.push(last));
        assert forall|k: Seq<char>| more.to_set().contains(k) == keys.to_set().insert(a).contains(
            k,
        ) by {
            assert(below.to_set().contains(k) == rest.to_set().insert(a).contains(k));
        }
        assert(more.to_set() =~= keys.to_set().insert(a));
        more
    }
}

/// The members of a finite set can be sorted.
pub proof fn lemma_sorted_exists(s: Set<Seq<char>>)
    requires
        s.finite(),
    ensures
        ascending(sorted(s)),
        sorted(s).to_set() == s,
    decreases s.len(),
{
    if s.len() == 0 {
        let none: Seq<Seq<char>> = seq![];
        assert(none.to_set() =~= s);
        assert(ascending(none) && none.to_set() == s);
    } else {
        let a = s.choose();
        lemma_sorted_exists(s.remove(a));
        let rest = sorted(s.remove(a));
        assert(!rest.to_set().contains(a));
        let all = lemma_insert_sorted(rest, a);
        assert(all.to_set() =~= s);
        assert(ascending(all) && all.to_set() == s);
    }
}

proof fn lemma_assoc_at<W>(keys: Seq<Seq<char>>, vals: Seq<W>, i: int)
    requires
        ascending(keys),
        0 <= i < keys.len(),
    ensures
        assoc(keys, vals).contains_key(keys[i]),
        assoc(keys, vals)[keys[i]] == vals[i],
{
    lemma_ascending_distinct(keys);
    assert(keys.contains(keys[i]));
}

proof fn lemma_assoc_insert<W>(keys: Seq<Seq<char>>, vals: Seq<W>, i: int, k: Seq<char>, w: W)
    requires
        ascending(keys),
        keys.len() == vals.len(),
        0 <= i <= keys.len(),
        forall|j: int| 0 <= j < i ==> text::lex_lt(#[trigger] keys[j], k),
        forall|j: int| i <= j < keys.len() ==> text::lex_lt(k, #[trigger] keys[j]),
    ensures
        ascending(keys.insert(i, k)),
        assoc(keys.insert(i, k), vals.insert(i, w)) == assoc(keys, vals).insert(k, w),
{
    let ks = keys.insert(i, k);
    let vs = vals.insert(i, w);
    assert forall|a: int, b: int| 0 <= a < b < ks.len() implies #[trigger] text::lex_lt(ks[a], ks[b]) by {
        if a == i {
            assert(ks[b] == keys[b - 1]);
        } else if b == i {
            assert(ks[a] == keys[a]);
        } else {
            let a0 = if a < i { a } else { a - 1 };
            let b0 = if b < i { b } else { b - 1 };
            assert(text::lex_lt(keys[a0], keys[b0]));
        }
    }
    assert forall|x: Seq<char>| ks.contains(x) == (x == k || keys.contains(x)) by {
        if x == k {
            assert(ks[i] == k);
        }
        if keys.contains(x) {
            let j = keys.index_of(x);
            if j < i {
                assert(ks[j] == x);
            } else {
                assert(ks[j + 1] == x);
            }
        }
        if ks.contains(x) && x != k {
            let j = ks.index_of(x);
            if j < i {
                assert(keys[j] == x);
            } else {
                assert(keys[j - 1] == x);
            }
        }
    }
    let m = assoc(ks, vs);
    let n = assoc(keys, vals).insert(k, w);
    assert forall|x: Seq<char>| m.contains_key(x) implies #[trigger] m[x] == n[x] by {
        lemma_ascending_distinct(ks);
        lemma_ascending_distinct(keys);
        let j = ks.index_of(x);
        if x == k {
            assert(ks[i] == k);
        } else if j < i {
            assert(keys[j] == x);
        } else {
            assert(keys[j - 1] == x);
        }
    }
    assert(m =~= n);
}

proof fn lemma_assoc_update<W>(keys: Seq<Seq<char>>, vals: Seq<W>, i: int, w: W)
    requires
        ascending(keys),
        keys.len() == vals.len(),
        0 <= i < keys.len(),
    ensures
        assoc(keys, vals.update(i, w)) == assoc(keys, vals).insert(keys[i], w),
{
    lemma_ascending_distinct(keys);
    assert(keys.contains(keys[i]));
    assert(assoc(keys, vals.update(i, w)) =~= assoc(keys, vals).insert(keys[i], w));
}

proof fn lemma_assoc_remove<W>(keys: Seq<Seq<char>>, vals: Seq<W>, i: int)
    requires
        ascending(keys),
        keys.len() == vals.len(),
        0 <= i < keys.len(),
    ensures
        ascending(keys.remove(i)),
        assoc(keys.remove(i), vals.remove(i)) == assoc(keys, vals).remove(keys[i]),
{
    let ks = keys.remove(i);
    let vs = vals.remove(i);
    assert forall|a: int, b: int| 0 <= a < b < ks.len() implies #[trigger] text::lex_lt(ks[a], ks[b]) by {
        let a0 = if a < i { a } else { a + 1 };
        let b0 = if b < i { b } else { b + 1 };
        assert(text::lex_lt(keys[a0], keys[b0]));
    }
    lemma_ascending_distinct(keys);
    lemma_ascending_distinct(ks);
    assert forall|x: Seq<char>| ks.contains(x) == (x != keys[i] && keys.contains(x)) by {
        if keys.contains(x) && x != keys[i] {
            let j = keys.index_of(x);
            if j < i {
                assert(ks[j] == x);
            } else {
                assert(ks[j - 1] == x);
            }
        }
        if ks.contains(x) {
            let j = ks.index_of(x);
            if j < i {
                assert(keys[j] == x);
            } else {
                assert(keys[j + 1] == x);
            }
        }
    }
    let m = assoc(ks, vs);
    let n = assoc(keys, vals).remove(keys[i]);
    assert forall|x: Seq<char>| m.contains_key(x) implies #[trigger] m[x] == n[x] by {
        let j = ks.index_of(x);
        if j < i {
            assert(keys[j] == x);
        } else {
            assert(keys[j + 1] == x);
        }
    }
    assert(m =~= n);
}

/// A map from strings to values. The entries are kept in strictly ascending key order, so a
/// key occurs once and a walk over the map meets the keys in order.
pub struct StrMap<V> {
    entries: Vec<(String, V)>,
}

spec fn keys_of<V>(entries: Seq<(String, V)>) -> Seq<Seq<char>> {
    Seq::new(entries.len(), |i: int| entries[i].0@)
}

spec fn vals_of<V: DeepView>(entries: Seq<(String, V)>) -> Seq<V::V> {
    Seq::new(entries.len(), |i: int| entries[i].1.deep_view())
}

impl<V> StrMap<V> {
    #[verifier::type_invariant]
    spec fn in_order(self) -> bool {
        ascending(keys_of(self.entries@))
    }

    /// The keys in order.
    pub closed spec fn key_seq(self) -> Seq<Seq<char>> {
        keys_of(self.entries@)
    }
}

impl<V: DeepView> View for StrMap<V> {
    type V = Map<Seq<char>, V::V>;

    closed spec fn view(&self) -> Map<Seq<char>, V::V> {
        assoc(keys_of(self.entries@), vals_of(self.entries@))
    }
}

impl<V: DeepView> DeepView for StrMap<V> {
    type V = Map<Seq<char>, V::V>;

    open spec fn deep_view(&self) -> Map<Seq<char>, V::V> {
        self@
    }
}

impl<V: DeepView> StrMap<V> {
    pub fn new() -> (m: Self)
        ensures
            m@ == Map::<Seq<char>, V::V>::empty(),
    {
        let m = StrMap { entries: Vec::new() };
        assert(m@ =~= Map::<Seq<char>, V::V>::empty());
        m
    }

    /// The position of `key`, or the position at which it would stand.
    fn find(&self, key: &str) -> (r: (bool, usize))
        ensures
            r.1 <= self.key_seq().len(),
            r.0 ==> r.1 < self.key_seq().len() && self.key_seq()[r.1 as int] == key@,
            !r.0 ==> !self.key_seq().contains(key@),
            forall|i: int| 0 <= i < r.1 ==> text::lex_lt(#[trigger] self.key_seq()[i], key@),
            !r.0 ==> forall|i: int|
                r.1 <= i < self.key_seq().len() ==> text::lex_lt(key@, #[trigger] self.key_seq()[i]),
    {
        proof {
            use_type_invariant(self);
        }
        let mut lo: usize = 0;
        let mut hi: usize = self.entries.len();
        let ghost keys = self.key_seq();
        while lo < hi
            invariant
                keys == self.key_seq(),
                lo <= hi <= self.entries@.len(),
                ascending(keys),
                forall|i: int| 0 <= i < lo ==> text::lex_lt(#[trigger] keys[i], key@),
                forall|i: int| hi <= i < keys.len() ==> text::lex_lt(key@, #[trigger] keys[i]),
            decreases hi - lo,
        {
            let mid: usize = lo + (hi - lo) / 2;
            let k = &self.entries[mid].0;
            assert(keys[mid as int] == k@);
            if precedes(k.as_str(), key) {
                assert forall|i: int| 0 <= i < mid + 1 implies text::lex_lt(#[trigger] keys[i], key@) by {
                    if i < mid {
                        assert(text::lex_lt(keys[i], keys[mid as int]));
                        text::lemma_lex_transitive(keys[i], keys[mid as int], key@);
                    }
                }
                lo = mid + 1;
            } else if same(k.as_str(), key) {
                assert forall|i: int| 0 <= i < mid implies text::lex_lt(#[trigger] keys[i], key@) by {
                    assert(text::lex_lt(keys[i], keys[mid as int]));
                }
                return (true, mid);
            } else {
                proof {
                    text::lemma_lex_total(k@, key@);
                }
                assert forall|i: int| mid <= i < keys.len() implies text::lex_lt(key@, #[trigger] keys[i]) by {
                    if i > mid {
                        assert(text::lex_lt(keys[mid as int], keys[i]));
                        text::lemma_lex_transitive(key@, keys[mid as int], keys[i]);
                    }
                }
                hi = mid;
            }
        }
        assert(!keys.contains(key@)) by {
            if keys.contains(key@) {
                let i = keys.index_of(key@);
                text::lemma_lex_irreflexive(key@);
                assert(text::lex_lt(keys[i], key@) || text::lex_lt(key@, keys[i]));
            }
        }
        (false, lo)
    }

    pub fn contains_key(&self, key: &str) -> (r: bool)
        ensures
            r == self@.contains_key(key@),
    {
        let at = self.find(key);
        at.0
    }

    pub fn get(&self, key: &str) -> (r: Option<&V>)
        ensures
            match r {
                Some(v) => self@.contains_key(key@) && v.deep_view() == self@[key@],
                None => !self@.contains_key(key@),
            },
    {
        let at = self.find(key);
        if at.0 {
            proof {
                use_type_invariant(self);
                lemma_assoc_at(keys_of(self.entries@), vals_of(self.entries@), at.1 as int);
            }
            Some(&self.entries[at.1].1)
        } else {
            None
        }
    }

    /// Binds `key` to `value` and hands back the value it was bound to before.
    pub fn insert(&mut self, key: String, value: V) -> (r: Option<V>)
        ensures
            final(self)@ == old(self)@.insert(key@, value.deep_view()),
            r is Some == old(self)@.contains_key(key@),
            r matches Some(v) ==> v.deep_view() == old(self)@[key@],
    {
        let at = self.find(key.as_str());
        proof {
            use_type_invariant(&*self);
        }
        let ghost keys = keys_of(self.entries@);
        let ghost vals = vals_of(self.entries@);
        let ghost k = key@;
        let ghost w = value.deep_view();
        let i: usize = at.1;
        let mut entries: Vec<(String, V)> = Vec::new();
        std::mem::swap(&mut entries, &mut self.entries);
        let out: Option<V> = if at.0 {
            proof {
                lemma_assoc_at(keys, vals, i as int);
                lemma_assoc_update(keys, vals, i as int, w);
            }
            let removed = entries.remove(i);
            entries.insert(i, (key, value));
            assert(keys_of(entries@) =~= keys);
            assert(vals_of(entries@) =~= vals.update(i as int, w));
            Some(removed.1)
        } else {
            proof {
                lemma_assoc_insert(keys, vals, i as int, k, w);
            }
            entries.insert(i, (key, value));
            assert(keys_of(entries@) =~= keys.insert(i as int, k));
            assert(vals_of(entries@) =~= vals.insert(i as int, w));
            None
        };
        *self = StrMap { entries };
        out
    }

    /// Unbinds `key` and hands back the value it was bound to.
    pub fn remove(&mut self, key: &str) -> (r: Option<V>)
        ensures
            final(self)@ == old(self)@.remove(key@),
            r is Some == old(self)@.contains_key(key@),
            r matches Some(v) ==> v.deep_view() == old(self)@[key@],
    {
        let at = self.find(key);
        proof {
            use_type_invariant(&*self);
        }
        let ghost keys = keys_of(self.entries@);
        let ghost vals = vals_of(self.entries@);
        if at.0 {
            let i: usize = at.1;
            proof {
                lemma_assoc_at(keys, vals, i as int);
                lemma_assoc_remove(keys, vals, i as int);
            }
            let mut entries: Vec<(String, V)> = Vec::new();
            std::mem::swap(&mut entries, &mut self.entries);
            let removed = entries.remove(i);
            assert(keys_of(entries@) =~= keys.remove(i as int));
            assert(vals_of(entries@) =~= vals.remove(i as int));
            *self = StrMap { entries };
            Some(removed.1)
        } else {
            assert(self@.remove(key@) =~= self@);
            None
        }
    }

    /// Unbinds every key in `doomed`.
    pub fn remove_all(&mut self, doomed: &Vec<String>)
        ensures
            final(self)@ == old(self)@.remove_keys(doomed.deep_view().to_set()),
    {
        let ghost ks = doomed.deep_view();
        let ghost before = self@;
        let mut i: usize = 0;
        assert(self@ =~= before.remove_keys(ks.take(0).to_set()));
        while i < doomed.len()
            invariant
                i <= doomed@.len(),
                ks == doomed.deep_view(),
                self@ == before.remove_keys(ks.take(i as int).to_set()),
            decreases doomed@.len() - i,
        {
            proof {
                seqs::lemma_take_next(ks, i as int);
            }
            let _ = self.remove(doomed[i].as_str());
            i += 1;
            assert(self@ =~= before.remove_keys(ks.take(i as int).to_set()));
        }
        assert(ks.take(i as int) =~= ks);
    }

    pub fn len(&self) -> (n: usize)
        ensures
            n == self@.dom().len(),
            self@.dom().finite(),
    {
        proof {
            use_type_invariant(self);
            lemma_ascending_distinct(self.key_seq());
            self.key_seq().unique_seq_to_set();
            assert(self@.dom() =~= self.key_seq().to_set());
        }
        self.entries.len()
    }

    /// The keys in ascending order.
    pub fn keys(&self) -> (ks: Vec<String>)
        ensures
            ks.deep_view() == sorted(self@.dom()),
            ascending(ks.deep_view()),
            ks.deep_view().to_set() == self@.dom(),
    {
        proof {
            use_type_invariant(self);
        }
        let mut ks: Vec<String> = Vec::new();
        let mut i: usize = 0;
        while i < self.entries.len()
            invariant
                i <= self.entries@.len(),
                ks.deep_view() == self.key_seq().take(i as int),
            decreases self.entries@.len() - i,
        {
            let ghost before = ks.deep_view();
            let k = self.entries[i].0.clone();
            assert(k@ == self.key_seq()[i as int]);
            ks.push(k);
            assert(ks.deep_view() =~= before.push(k@));
            i += 1;
            assert(before.push(k@) =~= self.key_seq().take(i as int));
        }
        proof {
            assert(self.key_seq().take(i as int) =~= self.key_seq());
            lemma_sorted_of(self.key_seq());
            assert(self@.dom() =~= self.key_seq().to_set());
        }
        ks
    }
}

/// A set of strings, kept in order.
pub struct StrSet {
    members: StrMap<()>,
}

impl View for StrSet {
    type V = Set<Seq<char>>;

    closed spec fn view(&self) -> Set<Seq<char>> {
        self.members@.dom()
    }
}

impl DeepView for StrSet {
    type V = Set<Seq<char>>;

    open spec fn deep_view(&self) -> Set<Seq<char>> {
        self@
    }
}

impl StrSet {
    pub fn new() -> (s: Self)
        ensures
            s@ == Set::<Seq<char>>::empty(),
    {
        StrSet { members: StrMap::new() }
    }

    pub fn contains(&self, key: &str) -> (r: bool)
        ensures
            r == self@.contains(key@),
    {
        self.members.contains_key(key)
    }

    /// Adds `key`; true when it was not there.
    pub fn insert(&mut self, key: String) -> (added: bool)
        ensures
            final(self)@ == old(self)@.insert(key@),
            added == !old(self)@.contains(key@),
    {
        let before = self.members.insert(key, ());
        before.is_none()
    }

    pub fn remove(&mut self, key: &str)
        ensures
            final(self)@ == old(self)@.remove(key@),
    {
        let _ = self.members.remove(key);
    }

    pub fn len(&self) -> (n: usize)
        ensures
            n == self@.len(),
            self@.finite(),
    {
        self.members.len()
    }

    /// The members in ascending order.
    pub fn members(&self) -> (ks: Vec<String>)
        ensures
            ks.deep_view() == sorted(self@),
            ascending(ks.deep_view()),
            ks.deep_view().to_set() == self@,
    {
        self.members.keys()
    }
}

/// A map keyed by pairs of strings.
pub struct PairMap<V> {
    rows: StrMap<StrMap<V>>,
}

impl<V: DeepView> View for PairMap<V> {
    type V = Map<(Seq<char>, Seq<char>), V::V>;

    closed spec fn view(&self) -> Map<(Seq<char>, Seq<char>), V::V> {
        Map::new(
            |k: (Seq<char>, Seq<char>)|
                self.rows@.contains_key(k.0) && self.rows@[k.0].contains_key(k.1),
            |k: (Seq<char>, Seq<char>)| self.rows@[k.0][k.1],
        )
    }
}

impl<V: DeepView> PairMap<V> {
    pub fn new() -> (m: Self)
        ensures
            m@ == Map::<(Seq<char>, Seq<char>), V::V>::empty(),
    {
        let m = PairMap { rows: StrMap::new() };
        assert(m@ =~= Map::<(Seq<char>, Seq<char>), V::V>::empty());
        m
    }

    pub fn get(&self, a: &str, b: &str) -> (r: Option<&V>)
        ensures
            match r {
                Some(v) => self@.contains_key((a@, b@)) && v.deep_view() == self@[(a@, b@)],
                None => !self@.contains_key((a@, b@)),
            },
    {
        match self.rows.get(a) {
            Some(row) => row.get(b),
            None => None,
        }
    }

    pub fn insert(&mut self, a: String, b: String, value: V)
        ensures
            final(self)@ == old(self)@.insert((a@, b@), value.deep_view()),
    {
        let ghost w = value.deep_view();
        let mut row = match self.rows.remove(a.as_str()) {
            Some(row) => row,
            None => StrMap::new(),
        };
        let ghost ka = a@;
        let ghost kb = b@;
        let _ = row.insert(b, value);
        let _ = self.rows.insert(a, row);
        assert(self@ =~= old(self)@.insert((ka, kb), w));
    }

    pub fn remove(&mut self, a: &str, b: &str)
        ensures
            final(self)@ == old(self)@.remove((a@, b@)),
    {
        if let Some(mut row) = self.rows.remove(a) {
            let _ = row.remove(b);
            let _ = self.rows.insert(a.to_owned(), row);
        }
        assert(self@ =~= old(self)@.remove((a@, b@)));
    }

    /// The number of pairs, as far as it can be counted.
    pub fn len(&self) -> (n: u64)
        ensures
            self@.dom().finite(),
            n == if self@.dom().len() <= u64::MAX {
                self@.dom().len()
            } else {
                u64::MAX as nat
            },
    {
        let firsts = self.rows.keys();
        let ghost ks = firsts.deep_view();
        let ghost all = self@.dom();
        let ghost part = |i: int| all.filter(|p: (Seq<char>, Seq<char>)| ks.take(i).contains(p.0));
        let mut n: u64 = 0;
        let mut i: usize = 0;
        assert(part(0) =~= Set::<(Seq<char>, Seq<char>)>::empty());
        while i < firsts.len()
            invariant
                i <= firsts@.len(),
                ks == firsts.deep_view(),
                ks.to_set() == self.rows@.dom(),
                ascending(ks),
                all == self@.dom(),
                part == (|i: int|
                    all.filter(|p: (Seq<char>, Seq<char>)| ks.take(i).contains(p.0))),
                part(i as int).finite(),
                n == if part(i as int).len() <= u64::MAX {
                    part(i as int).len()
                } else {
                    u64::MAX as nat
                },
            decreases firsts@.len() - i,
        {
            let ghost k = ks[i as int];
            assert(ks.to_set().contains(k));
            if let Some(row) = self.rows.get(firsts[i].as_str()) {
                let m: usize = row.len();
                proof {
                    seqs::lemma_take_next(ks, i as int);
                    let pair = |b: Seq<char>| (k, b);
                    let slice = row@.dom().map(pair);
                    vstd::set_lib::lemma_map_size(row@.dom(), slice, pair);
                    assert(!ks.take(i as int).contains(k)) by {
                        lemma_ascending_distinct(ks);
                    }
                    assert(part(i + 1) =~= part(i as int).union(slice)) by {
                        assert forall|p: (Seq<char>, Seq<char>)| #[trigger]
                            part(i + 1).contains(p) == part(i as int).union(slice).contains(p) by {
                            if p.0 == k && row@.contains_key(p.1) {
                                assert(pair(p.1) == p);
                                assert(slice.contains(p));
                            }
                        }
                    }
                    assert(part(i as int).disjoint(slice));
                    vstd::set_lib::lemma_set_disjoint_lens(part(i as int), slice);
                }
                n = if m as u64 <= u64::MAX - n {
                    n + m as u64
                } else {
                    u64::MAX
                };
            }
            i += 1;
        }
        assert(ks.take(i as int) =~= ks);
        assert(part(i as int) =~= all) by {
            assert forall|p: (Seq<char>, Seq<char>)| all.contains(p) implies ks.contains(p.0) by {
                assert(ks.to_set().contains(p.0));
            }
        }
        n
    }
}

} // verus!
