//! A new hub, and one taken up from the token store.

use crate::clock;
use crate::clock::{Duration, Instant, Moment};
use crate::config::Settings;
use crate::delivery::hub::DeliveryHub;
use crate::delivery::model::HubModel;
use crate::delivery::{BlockView, DenialBlock, ListenTokenState, ListenView, REGISTRATION_GRACE};
use crate::laws::invariants;
use crate::persistence::{
    DenialRow, GrantRow, PersistedDenialBlock, PersistedGrant, PersistedIdentity, PersistedToken,
    TokenRow,
};
use crate::registry::{RegistryModel, RegistryTable};
use crate::rooms::RoomStore;
use crate::seqs;
use crate::strmap;
use crate::strmap::{PairMap, StrMap, StrSet};
use crate::text;
use crate::text::same;
use crate::trust::table::TrustTable;
use crate::trust::TrustModel;
use vstd::prelude::*;

verus! {

/// As much of a count as is shown.
pub open spec fn shown(n: nat) -> nat {
    if n <= u64::MAX {
        n
    } else {
        u64::MAX as nat
    }
}

/// A stored credential of a participant.
pub open spec fn is_participant(t: TokenRow) -> bool {
    t.token_type == "participant"@ || t.token_type == "listen"@
}

/// The name in a stored credential of a participant.
pub open spec fn stored_name(t: TokenRow) -> Option<Seq<char>> {
    if t.identity.len() > 0 && t.identity != t.token {
        Some(t.identity)
    } else {
        None
    }
}

impl HubModel {
    /// A hub in which nothing has happened.
    pub open spec fn empty(lapse_after: Duration, settings: Settings) -> HubModel {
        HubModel {
            trust: TrustModel::empty(),
            registry: RegistryModel { entries: Map::empty(), lapse_after },
            rooms: Map::empty(),
            agents: Map::empty(),
            token_to_name: Map::empty(),
            name_to_token: Map::empty(),
            active_sse: Map::empty(),
            queues: Map::empty(),
            kick_pending: Set::empty(),
            windows: Seq::empty(),
            holds: Seq::empty(),
            requests: Map::empty(),
            reply_ttl: settings.reply_ttl,
            hold_ttl: settings.hold_ttl,
            med_counter: 0,
            req_counter: 0,
            claim_counter: 0,
            tokens: Map::empty(),
            identities: Set::empty(),
            connections: Map::empty(),
            gc_unlisten: settings.gc_unlisten,
            gc_no_grant: settings.gc_no_grant,
            gc_grace: REGISTRATION_GRACE,
            blocks: Map::empty(),
            startup_announced: false,
            claims: Map::empty(),
            settling: Map::empty(),
            settle_window: settings.settle_window,
            next_stream: 0,
            next_timer: 0,
            persistent: false,
            outbox: Seq::empty(),
        }
    }

    /// The token of a stored participant is known, and bound to the name it is stored with.
    pub open spec fn load_participant(self, t: TokenRow, now: Instant) -> HubModel {
        let st = ListenView {
            ever_listened: true,
            ever_granted: true,
            name: stored_name(t),
            ..ListenView::fresh(now)
        };
        match stored_name(t) {
            Some(name) => self.bind(t.token, name).set_token(t.token, st),
            None => self.set_token(t.token, st),
        }
    }

    /// The stored participants are taken up one after the other.
    pub open spec fn load_participants(self, ts: Seq<TokenRow>, now: Instant) -> HubModel
        decreases ts.len(),
    {
        if ts.len() == 0 {
            self
        } else {
            self.load_participants(ts.drop_last(), now).load_participant(ts.last(), now)
        }
    }

    /// The stored denials stand.
    pub open spec fn load_blocks(self, rows: Seq<DenialRow>) -> HubModel
        decreases rows.len(),
    {
        if rows.len() == 0 {
            self
        } else {
            let row = rows.last();
            let m = self.load_blocks(rows.drop_last());
            HubModel {
                blocks: m.blocks.insert(
                    (row.from_identity, row.to_name),
                    BlockView { reason: row.reason, expires_at: row.expires_at },
                ),
                ..m
            }
        }
    }

    /// The names are identities.
    pub open spec fn load_identities(self, names: Seq<Seq<char>>) -> HubModel {
        HubModel { identities: self.identities.union(names.to_set()), ..self }
    }

    /// A hub that is taken up from the rows of a token store.
    pub open spec fn taken_up(
        lapse_after: Duration,
        settings: Settings,
        tokens: Seq<TokenRow>,
        grants: Seq<GrantRow>,
        blocks: Seq<DenialRow>,
        names: Seq<Seq<char>>,
        now: Moment,
    ) -> HubModel {
        let empty = HubModel::empty(lapse_after, settings);
        (HubModel {
            trust: empty.trust.load_tokens(
                tokens.filter(|t: TokenRow| !is_participant(t)),
                now.instant,
                now.unix() as u64,
            ).load_grants(grants, now.instant, now.unix() as u64),
            persistent: true,
            ..empty
        }).load_identities(names).load_participants(
            tokens.filter(|t: TokenRow| is_participant(t)),
            now.instant,
        ).load_blocks(blocks)
    }

    /// How many messages wait under the names.
    pub open spec fn waiting(self, names: Seq<Seq<char>>) -> nat
        decreases names.len(),
    {
        if names.len() == 0 {
            0
        } else {
            self.waiting(names.drop_last()) + self.queue(names.last()).len()
        }
    }

    /// How much the hub holds, as a line of text.
    pub open spec fn sizes(self) -> Seq<char> {
        "listen_tokens="@ + text::decimal(self.tokens.dom().len()) + " agents="@ + text::decimal(
            self.agents.dom().len(),
        ) + " name_to_token="@ + text::decimal(self.name_to_token.dom().len()) + " token_to_name="@
            + text::decimal(self.token_to_name.dom().len()) + " queues="@ + text::decimal(
            self.queues.dom().len(),
        ) + " queued_msgs="@ + text::decimal(shown(self.waiting(strmap::sorted(self.queues.dom()))))
            + " conn_reqs="@ + text::decimal(self.requests.dom().len()) + " reply_windows="@
            + text::decimal(self.windows.len()) + " mediation_holds="@ + text::decimal(
            self.holds.len(),
        ) + " denial_blocks="@ + text::decimal(shown(self.blocks.dom().len())) + " sse_conns="@
            + text::decimal(self.connections.dom().len()) + " active_sse="@ + text::decimal(
            self.active_sse.dom().len(),
        )
    }
}

/// A label and a number join a line of text.
fn append(line: &mut String, label: &str, n: u64)
    ensures
        final(line)@ == old(line)@ + label@ + text::decimal(n as nat),
{
    line.push_str(label);
    let numeral = text::decimal_text(n);
    line.push_str(numeral.as_str());
}

impl DeliveryHub {
    /// A hub that keeps nothing beyond its own life. `lapse_after` is the liveness window.
    pub fn new(lapse_after: Duration, settings: Settings) -> (hub: Self)
        ensures
            hub@ == HubModel::empty(lapse_after, settings),
            hub@.sound(),
    {
        let hub = DeliveryHub {
            trust: TrustTable::new(),
            registry: RegistryTable::new(lapse_after),
            rooms: RoomStore::new(),
            agents: StrMap::new(),
            token_to_name: StrMap::new(),
            name_to_token: StrMap::new(),
            active_sse: StrMap::new(),
            queues: StrMap::new(),
            kick_pending: StrSet::new(),
            windows: Vec::new(),
            holds: Vec::new(),
            requests: StrMap::new(),
            reply_ttl: settings.reply_ttl,
            hold_ttl: settings.hold_ttl,
            med_counter: 0,
            req_counter: 0,
            claim_counter: 0,
            tokens: StrMap::new(),
            identities: StrSet::new(),
            connections: StrMap::new(),
            gc_unlisten: settings.gc_unlisten,
            gc_no_grant: settings.gc_no_grant,
            gc_grace: REGISTRATION_GRACE,
            blocks: PairMap::new(),
            startup_announced: false,
            claims: StrMap::new(),
            settling: StrMap::new(),
            settle_window: settings.settle_window,
            next_stream: 0,
            next_timer: 0,
            persistent: false,
            outbox: Vec::new(),
        };
        assert(hub@ =~= HubModel::empty(lapse_after, settings));
        proof {
            invariants::law_new_sound(lapse_after, settings);
        }
        hub
    }

    fn load_participant(&mut self, t: &PersistedToken, now: Instant)
        ensures
            final(self)@ == old(self)@.load_participant(t.deep_view(), now),
    {
        let named = text::chars_of(t.identity.as_str()).len() > 0 && !same(
            t.identity.as_str(),
            t.token.as_str(),
        );
        let mut st = ListenTokenState::new(now);
        st.ever_listened = true;
        st.ever_granted = true;
        if named {
            st.name = Some(t.identity.clone());
            self.bind(t.token.as_str(), t.identity.as_str());
        }
        let _ = self.tokens.insert(t.token.clone(), st);
    }

    fn load_identities(&mut self, rows: &Vec<PersistedIdentity>)
        ensures
            final(self)@ == old(self)@.load_identities(rows.deep_view()),
    {
        let ghost names = rows.deep_view();
        let ghost before = self@;
        let mut i: usize = 0;
        assert(self@ =~= before.load_identities(names.take(0)));
        while i < rows.len()
            invariant
                i <= rows@.len(),
                names == rows.deep_view(),
                self@ == before.load_identities(names.take(i as int)),
            decreases rows@.len() - i,
        {
            proof {
                seqs::lemma_take_next(names, i as int);
                assert(names[i as int] == rows[i as int].name@);
            }
            let _ = self.identities.insert(rows[i].name.clone());
            i += 1;
            assert(self@ =~= before.load_identities(names.take(i as int)));
        }
        assert(names.take(i as int) =~= names);
    }

    fn load_participants(&mut self, rows: &Vec<PersistedToken>, now: Instant)
        ensures
            final(self)@ == old(self)@.load_participants(rows.deep_view(), now),
    {
        let ghost ts = rows.deep_view();
        let ghost before = self@;
        let mut i: usize = 0;
        assert(ts.take(0) =~= seq![]);
        while i < rows.len()
            invariant
                i <= rows@.len(),
                ts == rows.deep_view(),
                self@ == before.load_participants(ts.take(i as int), now),
            decreases rows@.len() - i,
        {
            proof {
                assert(ts[i as int] == rows[i as int].deep_view());
                assert(ts.take(i + 1).drop_last() =~= ts.take(i as int));
            }
            self.load_participant(&rows[i], now);
            i += 1;
        }
        assert(ts.take(i as int) =~= ts);
    }

    fn load_blocks(&mut self, rows: &Vec<PersistedDenialBlock>)
        ensures
            final(self)@ == old(self)@.load_blocks(rows.deep_view()),
    {
        let ghost bs = rows.deep_view();
        let ghost before = self@;
        let mut i: usize = 0;
        assert(bs.take(0) =~= seq![]);
        while i < rows.len()
            invariant
                i <= rows@.len(),
                bs == rows.deep_view(),
                self@ == before.load_blocks(bs.take(i as int)),
            decreases rows@.len() - i,
        {
            proof {
                assert(bs[i as int] == rows[i as int].deep_view());
                assert(bs.take(i + 1).drop_last() =~= bs.take(i as int));
                assert(bs.take(i + 1).last() == bs[i as int]);
            }
            let row = &rows[i];
            self.blocks.insert(
                row.from_identity.clone(),
                row.to_name.clone(),
                DenialBlock { reason: row.reason.clone(), expires_at: row.expires_at },
            );
            i += 1;
            assert(self@ =~= before.load_blocks(bs.take(i as int)));
        }
        assert(bs.take(i as int) =~= bs);
    }

    /// A hub taken up from the rows of a token store, to which it will write.
    pub fn new_with_persisted_state(
        lapse_after: Duration,
        settings: Settings,
        persisted_tokens: Vec<PersistedToken>,
        persisted_grants: Vec<PersistedGrant>,
        persisted_denial_blocks: Vec<PersistedDenialBlock>,
        persisted_identities: Vec<PersistedIdentity>,
        now: Moment,
    ) -> (hub: Self)
        requires
            now.in_range(),
        ensures
            hub@ == HubModel::taken_up(
                lapse_after,
                settings,
                persisted_tokens.deep_view(),
                persisted_grants.deep_view(),
                persisted_denial_blocks.deep_view(),
                persisted_identities.deep_view(),
                now,
            ),
            hub@.sound(),
    {
        let mut hub = DeliveryHub::new(lapse_after, settings);
        let (participants, others) = split_tokens(persisted_tokens);
        hub.trust.load_from_store(others, persisted_grants, now.instant, now.unix_now());
        hub.persistent = true;
        proof {
            invariants::law_start_sound(
                lapse_after,
                settings,
                hub@.trust,
                persisted_identities.deep_view(),
                participants.deep_view(),
                persisted_denial_blocks.deep_view(),
                now.instant,
            );
        }
        hub.load_identities(&persisted_identities);
        hub.load_participants(&participants, now.instant);
        hub.load_blocks(&persisted_denial_blocks);
        hub
    }

    /// Whether every call of the hub can be made.
    pub fn is_ready(&self) -> (r: bool)
        ensures
            r == self@.ready(),
    {
        self.med_counter < u64::MAX && self.req_counter < u64::MAX && self.claim_counter < u64::MAX
            && self.trust.counter() < u64::MAX && self.trust.has_headroom() && self.reply_ttl
            <= clock::LAST_INSTANT && self.hold_ttl <= clock::LAST_INSTANT
    }

    /// Sets how long a participant who went away still counts as there.
    pub fn set_settle_window_for_test(&mut self, window: Duration)
        ensures
            final(self)@ == (HubModel { settle_window: window, ..old(self)@ }),
            old(self)@.sound() ==> final(self)@.sound(),
    {
        proof {
            if self@.sound() {
                invariants::law_rest_sound(self@, HubModel { settle_window: window, ..self@ });
            }
        }
        self.settle_window = window;
    }

    /// The rooms.
    pub fn room_store(&mut self) -> (rooms: &mut RoomStore)
        ensures
            rooms@ == old(self)@.rooms,
            final(self)@ == (HubModel { rooms: final(rooms)@, ..old(self)@ }),
            old(self)@.sound() ==> final(self)@.sound(),
    {
        let rooms = &mut self.rooms;
        proof {
            if old(self)@.sound() {
                invariants::law_rest_sound(
                    old(self)@,
                    HubModel { rooms: final(rooms)@, ..old(self)@ },
                );
            }
        }
        rooms
    }

    fn waiting(&self) -> (n: u64)
        ensures
            n == shown(self@.waiting(strmap::sorted(self@.queues.dom()))),
    {
        let names = self.queues.keys();
        let ghost ks = names.deep_view();
        let mut n: u64 = 0;
        let mut i: usize = 0;
        assert(ks.take(0) =~= seq![]);
        while i < names.len()
            invariant
                i <= names@.len(),
                ks == names.deep_view(),
                n == shown(self@.waiting(ks.take(i as int))),
            decreases names@.len() - i,
        {
            proof {
                assert(ks.take(i + 1).drop_last() =~= ks.take(i as int));
                assert(ks.take(i + 1).last() == ks[i as int]);
            }
            let m: u64 = self.queue_len(names[i].as_str()) as u64;
            n = if m <= u64::MAX - n {
                n + m
            } else {
                u64::MAX
            };
            i += 1;
        }
        assert(ks.take(i as int) =~= ks);
        n
    }

    /// How much the hub holds, as a line of text.
    pub fn debug_state_sizes(&self) -> (line: String)
        ensures
            line@ == self@.sizes(),
    {
        let mut line = String::new();
        append(&mut line, "listen_tokens=", self.tokens.len() as u64);
        assert(line@ =~= "listen_tokens="@ + text::decimal(self@.tokens.dom().len()));
        append(&mut line, " agents=", self.agents.len() as u64);
        append(&mut line, " name_to_token=", self.name_to_token.len() as u64);
        append(&mut line, " token_to_name=", self.token_to_name.len() as u64);
        append(&mut line, " queues=", self.queues.len() as u64);
        append(&mut line, " queued_msgs=", self.waiting());
        append(&mut line, " conn_reqs=", self.requests.len() as u64);
        append(&mut line, " reply_windows=", self.windows.len() as u64);
        append(&mut line, " mediation_holds=", self.holds.len() as u64);
        append(&mut line, " denial_blocks=", self.blocks.len());
        append(&mut line, " sse_conns=", self.connections.len() as u64);
        append(&mut line, " active_sse=", self.active_sse.len() as u64);
        line
    }
}

/// The stored credentials of participants, and the others, each in the order in which they came.
fn split_tokens(rows: Vec<PersistedToken>) -> (r: (Vec<PersistedToken>, Vec<PersistedToken>))
    ensures
        r.0.deep_view() == rows.deep_view().filter(|t: TokenRow| is_participant(t)),
        r.1.deep_view() == rows.deep_view().filter(|t: TokenRow| !is_participant(t)),
{
    let ghost ts = rows.deep_view();
    let ghost p = |t: TokenRow| is_participant(t);
    let ghost q = |t: TokenRow| !is_participant(t);
    let mut left = rows;
    let mut participants: Vec<PersistedToken> = Vec::new();
    let mut others: Vec<PersistedToken> = Vec::new();
    let ghost mut n: int = 0;
    proof {
        seqs::lemma_filter_empty(ts.take(0), p);
        seqs::lemma_filter_empty(ts.take(0), q);
        assert(participants.deep_view() =~= ts.take(0).filter(p));
        assert(others.deep_view() =~= ts.take(0).filter(q));
        assert(left.deep_view() =~= ts.skip(0));
    }
    while left.len() > 0
        invariant
            0 <= n <= ts.len(),
            p == (|t: TokenRow| is_participant(t)),
            q == (|t: TokenRow| !is_participant(t)),
            left@.len() == ts.len() - n,
            left.deep_view() == ts.skip(n),
            participants.deep_view() == ts.take(n).filter(p),
            others.deep_view() == ts.take(n).filter(q),
        decreases left@.len(),
    {
        let ghost was = left.deep_view();
        proof {
            seqs::lemma_filter_next(ts, n, p);
            seqs::lemma_filter_next(ts, n, q);
            assert(was[0] == ts[n]);
        }
        let t = left.remove(0);
        assert(t.deep_view() == ts[n]);
        assert(left.deep_view() =~= was.drop_first());
        assert(was.drop_first() =~= ts.skip(n + 1));
        let ghost v = t.deep_view();
        if same(t.token_type.as_str(), "participant") || same(t.token_type.as_str(), "listen") {
            let ghost before = participants.deep_view();
            participants.push(t);
            assert(participants.deep_view() =~= before.push(v));
        } else {
            let ghost before = others.deep_view();
            others.push(t);
            assert(others.deep_view() =~= before.push(v));
        }
        proof {
            n = n + 1;
        }
    }
    assert(ts.take(n) =~= ts);
    (participants, others)
}

} // verus!
