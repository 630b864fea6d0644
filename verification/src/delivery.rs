//! The hub: it takes messages from sender to recipient, and decides who may reach whom.
//!
//! A call changes the hub's state and leaves what the outside has to do (texts to push on
//! streams, rows to write, timers to start) in the hub's outbox, in order.

use crate::clock::{Duration, Instant, SystemTime};
use crate::strmap::StrSet;
use crate::types::{MessageView, Payload, QueuedMessage};
use std::collections::VecDeque;
use vstd::prelude::*;

pub mod attachments;
pub mod books;
pub mod governance;
pub mod grants;
pub mod hub;
pub mod listen;
pub mod messaging;
pub mod model;
pub mod start;
pub mod visibility;

pub use crate::delivery::hub::DeliveryHub;

verus! {

/// How long a token that was registered and never used is kept: sixty seconds.
pub const REGISTRATION_GRACE: Duration = 60_000_000_000;

/// How long a request for a grant, or a claim to the governorship, stays open: thirty minutes.
pub const GRANT_REQUEST_TIMEOUT: Duration = 1_800_000_000_000;

/// Within this time two addresses on one token raise an alert: sixty seconds.
pub const CONCURRENT_USE_WINDOW: Duration = 60_000_000_000;

/// A participant as the governor sees it.
pub struct ParticipantInfo {
    pub name: String,
    pub identity: String,
    pub status: &'static str,
}

/// What a participant's entry holds.
pub struct ParticipantInfoView {
    pub name: Seq<char>,
    pub identity: Seq<char>,
    pub status: Seq<char>,
}

impl DeepView for ParticipantInfo {
    type V = ParticipantInfoView;

    open spec fn deep_view(&self) -> ParticipantInfoView {
        ParticipantInfoView { name: self.name@, identity: self.identity@, status: self.status@ }
    }
}

/// What becomes of a message that was taken.
#[derive(Debug, PartialEq, Eq)]
pub enum Ack {
    /// It is in the recipient's queue.
    Accepted,
    /// It waits for the governor under that identifier.
    PendingMediation { mediation_id: String },
}

/// What an acknowledgement holds.
pub enum AckView {
    Accepted,
    PendingMediation { mediation_id: Seq<char> },
}

impl DeepView for Ack {
    type V = AckView;

    open spec fn deep_view(&self) -> AckView {
        match self {
            Ack::Accepted => AckView::Accepted,
            Ack::PendingMediation { mediation_id } => AckView::PendingMediation {
                mediation_id: mediation_id@,
            },
        }
    }
}

/// Whose approval a request for a grant waits for.
#[derive(Debug, Clone, Copy, PartialEq, Eq, Structural)]
pub enum ConnectionStage {
    PendingGovernor,
    PendingRecipient,
}

/// A request for a grant.
pub struct ConnectionRequest {
    pub request_id: String,
    pub from_name: String,
    pub to_name: String,
    pub from_identity: String,
    pub to_identity: String,
    pub reason: Option<String>,
    pub stage: ConnectionStage,
    pub governor_expiry: Option<Duration>,
    pub recipient_expiry: Option<Duration>,
    /// The governor who approved; the grant is made in that name.
    pub approving_governor: Option<String>,
    /// Until then the request stands and another for the same pair is refused.
    pub expires_at: Instant,
}

/// What a request for a grant holds.
pub struct RequestView {
    pub request_id: Seq<char>,
    pub from_name: Seq<char>,
    pub to_name: Seq<char>,
    pub from_identity: Seq<char>,
    pub to_identity: Seq<char>,
    pub reason: Option<Seq<char>>,
    pub stage: ConnectionStage,
    pub governor_expiry: Option<Duration>,
    pub recipient_expiry: Option<Duration>,
    pub approving_governor: Option<Seq<char>>,
    pub expires_at: Instant,
}

impl DeepView for ConnectionRequest {
    type V = RequestView;

    open spec fn deep_view(&self) -> RequestView {
        RequestView {
            request_id: self.request_id@,
            from_name: self.from_name@,
            to_name: self.to_name@,
            from_identity: self.from_identity@,
            to_identity: self.to_identity@,
            reason: self.reason.deep_view(),
            stage: self.stage,
            governor_expiry: self.governor_expiry,
            recipient_expiry: self.recipient_expiry,
            approving_governor: self.approving_governor.deep_view(),
            expires_at: self.expires_at,
        }
    }
}

/// A standing refusal of messages from one identity to one name.
pub struct DenialBlock {
    pub reason: String,
    /// Unix seconds at which it ends; none where it does not.
    pub expires_at: Option<u64>,
}

/// What a denial holds.
pub struct BlockView {
    pub reason: Seq<char>,
    pub expires_at: Option<u64>,
}

impl DeepView for DenialBlock {
    type V = BlockView;

    open spec fn deep_view(&self) -> BlockView {
        BlockView { reason: self.reason@, expires_at: self.expires_at }
    }
}

impl BlockView {
    /// It has not ended.
    pub open spec fn active(self, unix: int) -> bool {
        self.expires_at matches Some(end) ==> end > unix
    }
}

/// How a claim to the governorship is decided.
#[derive(Debug, Clone, Copy, PartialEq, Eq, Structural)]
pub enum ClaimKind {
    /// By the participants that are online.
    Election,
    /// By the governors in office.
    Transfer,
}

/// A claim to the governorship.
pub struct GovernanceClaim {
    pub candidate_token: String,
    pub candidate_name: String,
    pub kind: ClaimKind,
    /// The names, in an election, or the governor tokens, in a transfer, that must approve.
    pub required: StrSet,
    pub approved: StrSet,
    pub expires_at: Instant,
}

/// What a claim to the governorship holds.
pub struct ClaimView {
    pub candidate_token: Seq<char>,
    pub candidate_name: Seq<char>,
    pub kind: ClaimKind,
    pub required: Set<Seq<char>>,
    pub approved: Set<Seq<char>>,
    pub expires_at: Instant,
}

impl ClaimView {
    /// An election comes to nothing after a time; a transfer is held until it is decided.
    pub open spec fn lapsed(self, now: Instant) -> bool {
        self.kind == ClaimKind::Election && now >= self.expires_at
    }
}

impl DeepView for GovernanceClaim {
    type V = ClaimView;

    open spec fn deep_view(&self) -> ClaimView {
        ClaimView {
            candidate_token: self.candidate_token@,
            candidate_name: self.candidate_name@,
            kind: self.kind,
            required: self.required@,
            approved: self.approved@,
            expires_at: self.expires_at,
        }
    }
}

/// What a claim to the governorship leads to at once.
pub enum ClaimOutcome {
    /// There was nobody to ask.
    Granted { governor_token: String },
    /// The other participants vote.
    Election { claim_id: String, voters: usize },
    /// The governors in office decide.
    Transfer { claim_id: String },
}

/// What the outcome of a claim holds.
pub enum ClaimOutcomeView {
    Granted { governor_token: Seq<char> },
    Election { claim_id: Seq<char>, voters: nat },
    Transfer { claim_id: Seq<char> },
}

impl DeepView for ClaimOutcome {
    type V = ClaimOutcomeView;

    open spec fn deep_view(&self) -> ClaimOutcomeView {
        match self {
            ClaimOutcome::Granted { governor_token } => ClaimOutcomeView::Granted {
                governor_token: governor_token@,
            },
            ClaimOutcome::Election { claim_id, voters } => ClaimOutcomeView::Election {
                claim_id: claim_id@,
                voters: *voters as nat,
            },
            ClaimOutcome::Transfer { claim_id } => ClaimOutcomeView::Transfer {
                claim_id: claim_id@,
            },
        }
    }
}

/// Where a claim stands after a vote.
pub enum ClaimResolution {
    /// Votes are missing.
    Waiting { approved: usize, required: usize },
    /// All approved; the candidate governs.
    Established { candidate_name: String, governor_token: String },
    /// One rejected.
    Rejected { candidate_name: String },
}

/// What the state of a claim holds.
pub enum ClaimResolutionView {
    Waiting { approved: nat, required: nat },
    Established { candidate_name: Seq<char>, governor_token: Seq<char> },
    Rejected { candidate_name: Seq<char> },
}

impl DeepView for ClaimResolution {
    type V = ClaimResolutionView;

    open spec fn deep_view(&self) -> ClaimResolutionView {
        match self {
            ClaimResolution::Waiting { approved, required } => ClaimResolutionView::Waiting {
                approved: *approved as nat,
                required: *required as nat,
            },
            ClaimResolution::Established { candidate_name, governor_token } =>
                ClaimResolutionView::Established {
                candidate_name: candidate_name@,
                governor_token: governor_token@,
            },
            ClaimResolution::Rejected { candidate_name } => ClaimResolutionView::Rejected {
                candidate_name: candidate_name@,
            },
        }
    }
}

/// Where a request stands after an approval.
#[derive(Debug, Clone, Copy, PartialEq, Eq, Structural)]
pub enum ApproveStatus {
    /// The governor approved; the recipient has yet to.
    PendingRecipient,
    /// The grant stands.
    Established,
}

impl DeepView for ApproveStatus {
    type V = ApproveStatus;

    open spec fn deep_view(&self) -> ApproveStatus {
        *self
    }
}

/// What a look into a queue brings.
#[derive(Debug)]
pub enum DequeueOutcome {
    Message(QueuedMessage),
    Empty,
}

/// What happened in the wait for a message.
#[derive(Debug, Clone, Copy, PartialEq, Eq, Structural)]
pub enum WaitEvent {
    /// The wait is to begin.
    Begun,
    /// Something changed at the hub.
    Changed,
    /// The time is up.
    Over,
}

/// What the one who waits for a message does next.
#[derive(Debug, Clone, Copy, PartialEq, Eq, Structural)]
pub enum WaitAction {
    /// There is a message of that number.
    Found(u64),
    /// Go on waiting.
    Wait,
    /// Give up.
    Stop,
}

impl DeepView for WaitAction {
    type V = WaitAction;

    open spec fn deep_view(&self) -> WaitAction {
        *self
    }
}

/// The governor's ruling on a message that waits for it.
pub enum MediationDecision {
    /// Deliver it as it is.
    Approve,
    /// Drop it.
    Block,
    /// Deliver this in its place.
    Modify(Payload),
}

/// What a ruling holds.
pub enum DecisionView {
    Approve,
    Block,
    Modify(Seq<u8>),
}

impl DeepView for MediationDecision {
    type V = DecisionView;

    open spec fn deep_view(&self) -> DecisionView {
        match self {
            MediationDecision::Approve => DecisionView::Approve,
            MediationDecision::Block => DecisionView::Block,
            MediationDecision::Modify(p) => DecisionView::Modify(p.deep_view()),
        }
    }
}

/// What came of a ruling.
pub enum MediationResult {
    /// The message is in the recipient's queue.
    Delivered { to_name: String },
    /// The message was dropped.
    Blocked,
    /// The recipient is no longer registered.
    RecipientOffline,
}

/// What the result of a ruling holds.
pub enum MediationResultView {
    Delivered { to_name: Seq<char> },
    Blocked,
    RecipientOffline,
}

impl DeepView for MediationResult {
    type V = MediationResultView;

    open spec fn deep_view(&self) -> MediationResultView {
        match self {
            MediationResult::Delivered { to_name } => MediationResultView::Delivered {
                to_name: to_name@,
            },
            MediationResult::Blocked => MediationResultView::Blocked,
            MediationResult::RecipientOffline => MediationResultView::RecipientOffline,
        }
    }
}

/// What came of announcing a name.
pub enum AnnounceResult {
    /// The name is bound to the token.
    Bound,
    /// The name belongs to someone else.
    NameInUse { resolution_stream: String },
}

/// What the result of an announcement holds.
pub enum AnnounceView {
    Bound,
    NameInUse { resolution_stream: Seq<char> },
}

impl DeepView for AnnounceResult {
    type V = AnnounceView;

    open spec fn deep_view(&self) -> AnnounceView {
        match self {
            AnnounceResult::Bound => AnnounceView::Bound,
            AnnounceResult::NameInUse { resolution_stream } => AnnounceView::NameInUse {
                resolution_stream: resolution_stream@,
            },
        }
    }
}

/// For a while, the recipient of a message may answer its sender once without a grant.
pub struct ReplyWindow {
    pub recipient: String,
    pub sender: String,
    pub expires: Instant,
    pub used: bool,
}

/// What a reply window holds.
pub struct WindowView {
    pub recipient: Seq<char>,
    pub sender: Seq<char>,
    pub expires: Instant,
    pub used: bool,
}

impl DeepView for ReplyWindow {
    type V = WindowView;

    open spec fn deep_view(&self) -> WindowView {
        WindowView {
            recipient: self.recipient@,
            sender: self.sender@,
            expires: self.expires,
            used: self.used,
        }
    }
}

impl WindowView {
    /// `from` may answer `to` through it.
    pub open spec fn lets(self, from: Seq<char>, to: Seq<char>, now: Instant) -> bool {
        self.recipient == from && self.sender == to && !self.used && self.expires > now
    }
}

/// A message that waits for the governor.
pub struct MediationHold {
    pub mediation_id: String,
    pub from_name: String,
    pub to_name: String,
    pub from_identity: String,
    pub to_identity: String,
    pub payload: Payload,
    pub reason: String,
    pub expires: Instant,
    pub resolved: bool,
    pub grant_id: Option<String>,
}

/// What a waiting message holds.
pub struct HoldView {
    pub mediation_id: Seq<char>,
    pub from_name: Seq<char>,
    pub to_name: Seq<char>,
    pub from_identity: Seq<char>,
    pub to_identity: Seq<char>,
    pub payload: Seq<u8>,
    pub reason: Seq<char>,
    pub expires: Instant,
    pub resolved: bool,
    pub grant_id: Option<Seq<char>>,
}

impl DeepView for MediationHold {
    type V = HoldView;

    open spec fn deep_view(&self) -> HoldView {
        HoldView {
            mediation_id: self.mediation_id@,
            from_name: self.from_name@,
            to_name: self.to_name@,
            from_identity: self.from_identity@,
            to_identity: self.to_identity@,
            payload: self.payload.deep_view(),
            reason: self.reason@,
            expires: self.expires,
            resolved: self.resolved,
            grant_id: self.grant_id.deep_view(),
        }
    }
}

impl HoldView {
    /// It can still be ruled on.
    pub open spec fn open(self, id: Seq<char>, now: Instant) -> bool {
        self.mediation_id == id && !self.resolved && self.expires > now
    }
}

/// What the sender of a file is told.
pub struct AttachmentMeta {
    pub id: String,
    pub filename: String,
    pub mime: String,
    pub size: usize,
}

/// A stream of events to a client.
#[derive(Clone, Copy)]
pub struct Stream {
    pub id: u64,
    /// The client's end has not gone away.
    pub open: bool,
}

/// What the hub knows of a participant's token.
pub struct ListenTokenState {
    /// When the token was last used; its age is measured from there.
    pub last_active: Instant,
    pub ever_listened: bool,
    pub ever_granted: bool,
    pub name: Option<String>,
    pub revoked: bool,
    pub hidden: bool,
    pub stream: Option<Stream>,
    /// The stream was told of waiting messages and none was fetched since.
    pub notify_suppressed: bool,
    pub last_ip: Option<String>,
    pub last_ip_at: Option<Instant>,
    /// The governor whose token opened the session.
    pub governor_id: Option<String>,
    /// How many messages were put into the queue of this token's name.
    pub msg_id: u64,
    /// Registered, and no stream opened yet.
    pub pending_first_listen: bool,
    /// The stream wants to hear who comes and goes.
    pub presence_push: bool,
}

/// What the state of a token holds.
pub struct ListenView {
    pub last_active: Instant,
    pub ever_listened: bool,
    pub ever_granted: bool,
    pub name: Option<Seq<char>>,
    pub revoked: bool,
    pub hidden: bool,
    pub stream: Option<Stream>,
    pub notify_suppressed: bool,
    pub last_ip: Option<Seq<char>>,
    pub last_ip_at: Option<Instant>,
    pub governor_id: Option<Seq<char>>,
    pub msg_id: u64,
    pub pending_first_listen: bool,
    pub presence_push: bool,
}

impl DeepView for ListenTokenState {
    type V = ListenView;

    open spec fn deep_view(&self) -> ListenView {
        ListenView {
            last_active: self.last_active,
            ever_listened: self.ever_listened,
            ever_granted: self.ever_granted,
            name: self.name.deep_view(),
            revoked: self.revoked,
            hidden: self.hidden,
            stream: self.stream,
            notify_suppressed: self.notify_suppressed,
            last_ip: self.last_ip.deep_view(),
            last_ip_at: self.last_ip_at,
            governor_id: self.governor_id.deep_view(),
            msg_id: self.msg_id,
            pending_first_listen: self.pending_first_listen,
            presence_push: self.presence_push,
        }
    }
}

impl ListenView {
    /// A token that was just made.
    pub open spec fn fresh(now: Instant) -> ListenView {
        ListenView {
            last_active: now,
            ever_listened: false,
            ever_granted: false,
            name: None,
            revoked: false,
            hidden: false,
            stream: None,
            notify_suppressed: false,
            last_ip: None,
            last_ip_at: None,
            governor_id: None,
            msg_id: 0,
            pending_first_listen: false,
            presence_push: false,
        }
    }

    /// A token that was just registered.
    pub open spec fn registered(now: Instant) -> ListenView {
        ListenView { pending_first_listen: true, ..ListenView::fresh(now) }
    }

    /// A token whose stream `id` has just opened.
    pub open spec fn running(self, id: u64, presence_push: bool, now: Instant) -> ListenView {
        ListenView {
            stream: Some(Stream { id, open: true }),
            ever_listened: true,
            pending_first_listen: false,
            presence_push,
            last_active: now,
            ..self
        }
    }

    /// The stream that presence events go to: one that wants them and is open.
    pub open spec fn presence_stream(self) -> Option<u64> {
        match self.stream {
            Some(s) => if self.presence_push && s.open {
                Some(s.id)
            } else {
                None
            },
            None => None,
        }
    }
}

impl ListenTokenState {
    /// A token that was just made.
    pub fn new(now: Instant) -> (s: Self)
        ensures
            s.deep_view() == ListenView::fresh(now),
    {
        ListenTokenState {
            last_active: now,
            ever_listened: false,
            ever_granted: false,
            name: None,
            revoked: false,
            hidden: false,
            stream: None,
            notify_suppressed: false,
            last_ip: None,
            last_ip_at: None,
            governor_id: None,
            msg_id: 0,
            pending_first_listen: false,
            presence_push: false,
        }
    }
}

/// The messages that wait for a participant, in the order in which they came.
pub struct Mailbox {
    pub messages: VecDeque<QueuedMessage>,
}

impl DeepView for Mailbox {
    type V = Seq<MessageView>;

    open spec fn deep_view(&self) -> Seq<MessageView> {
        self.messages.deep_view()
    }
}

/// A running countdown after which a participant counts as gone.
pub struct SettleTimer {
    pub timer: u64,
    /// The streams to tell when it runs out.
    pub streams: Vec<u64>,
    pub fired: bool,
}

/// What a countdown holds.
pub struct SettleView {
    pub timer: u64,
    pub streams: Seq<u64>,
    pub fired: bool,
}

impl DeepView for SettleTimer {
    type V = SettleView;

    open spec fn deep_view(&self) -> SettleView {
        SettleView { timer: self.timer, streams: self.streams@, fired: self.fired }
    }
}

/// A change to the token store.
pub enum StoreWrite {
    UpsertToken {
        token: String,
        identity: String,
        token_type: String,
        expires_at: Option<SystemTime>,
    },
    DeleteToken { token: String },
    UpsertIdentity { name: String },
    UpsertGrant {
        id: String,
        identity_a: String,
        identity_b: String,
        direction: String,
        mediation: String,
        max_messages: Option<u64>,
        conditions: Option<String>,
        opens_reply_window: bool,
        expires_at: Option<SystemTime>,
        governor_id: String,
        name_a: Option<String>,
        name_b: Option<String>,
    },
    IncrementGrantUsage { grant_id: String },
    DeleteGrant { grant_id: String },
    UpsertDenialBlock {
        from_identity: String,
        to_name: String,
        reason: String,
        expires_at: Option<u64>,
    },
    DeleteDenialBlock { from_identity: String, to_name: String },
    ResetGovernors { revoked: Vec<String>, new_token: String },
}

/// What a change to the token store holds.
pub enum StoreWriteView {
    UpsertToken {
        token: Seq<char>,
        identity: Seq<char>,
        token_type: Seq<char>,
        expires_at: Option<SystemTime>,
    },
    DeleteToken { token: Seq<char> },
    UpsertIdentity { name: Seq<char> },
    UpsertGrant {
        id: Seq<char>,
        identity_a: Seq<char>,
        identity_b: Seq<char>,
        direction: Seq<char>,
        mediation: Seq<char>,
        max_messages: Option<u64>,
        conditions: Option<Seq<char>>,
        opens_reply_window: bool,
        expires_at: Option<SystemTime>,
        governor_id: Seq<char>,
        name_a: Option<Seq<char>>,
        name_b: Option<Seq<char>>,
    },
    IncrementGrantUsage { grant_id: Seq<char> },
    DeleteGrant { grant_id: Seq<char> },
    UpsertDenialBlock {
        from_identity: Seq<char>,
        to_name: Seq<char>,
        reason: Seq<char>,
        expires_at: Option<u64>,
    },
    DeleteDenialBlock { from_identity: Seq<char>, to_name: Seq<char> },
    ResetGovernors { revoked: Seq<Seq<char>>, new_token: Seq<char> },
}

impl DeepView for StoreWrite {
    type V = StoreWriteView;

    open spec fn deep_view(&self) -> StoreWriteView {
        match self {
            StoreWrite::UpsertToken { token, identity, token_type, expires_at } =>
                StoreWriteView::UpsertToken {
                token: token@,
                identity: identity@,
                token_type: token_type@,
                expires_at: *expires_at,
            },
            StoreWrite::DeleteToken { token } => StoreWriteView::DeleteToken { token: token@ },
            StoreWrite::UpsertIdentity { name } => StoreWriteView::UpsertIdentity { name: name@ },
            StoreWrite::UpsertGrant {
                id,
                identity_a,
                identity_b,
                direction,
                mediation,
                max_messages,
                conditions,
                opens_reply_window,
                expires_at,
                governor_id,
                name_a,
                name_b,
            } => StoreWriteView::UpsertGrant {
                id: id@,
                identity_a: identity_a@,
                identity_b: identity_b@,
                direction: direction@,
                mediation: mediation@,
                max_messages: *max_messages,
                conditions: conditions.deep_view(),
                opens_reply_window: *opens_reply_window,
                expires_at: *expires_at,
                governor_id: governor_id@,
                name_a: name_a.deep_view(),
                name_b: name_b.deep_view(),
            },
            StoreWrite::IncrementGrantUsage { grant_id } => StoreWriteView::IncrementGrantUsage {
                grant_id: grant_id@,
            },
            StoreWrite::DeleteGrant { grant_id } => StoreWriteView::DeleteGrant {
                grant_id: grant_id@,
            },
            StoreWrite::UpsertDenialBlock { from_identity, to_name, reason, expires_at } =>
                StoreWriteView::UpsertDenialBlock {
                from_identity: from_identity@,
                to_name: to_name@,
                reason: reason@,
                expires_at: *expires_at,
            },
            StoreWrite::DeleteDenialBlock { from_identity, to_name } =>
                StoreWriteView::DeleteDenialBlock {
                from_identity: from_identity@,
                to_name: to_name@,
            },
            StoreWrite::ResetGovernors { revoked, new_token } => StoreWriteView::ResetGovernors {
                revoked: revoked.deep_view(),
                new_token: new_token@,
            },
        }
    }
}

/// Something the outside has to do.
pub enum Effect {
    /// Send a text down a stream.
    Push { stream: u64, text: String },
    /// Let a stream end.
    Close { stream: u64 },
    /// Send a text to everyone who listens to the governors' events.
    Governors { text: String },
    /// Start the countdown of a participant who went away.
    StartSettle { name: String, timer: u64, window: Duration },
    /// Change the token store.
    Store(StoreWrite),
}

/// What an effect holds.
pub enum EffectView {
    Push { stream: u64, text: Seq<char> },
    Close { stream: u64 },
    Governors { text: Seq<char> },
    StartSettle { name: Seq<char>, timer: u64, window: Duration },
    Store(StoreWriteView),
}

impl DeepView for Effect {
    type V = EffectView;

    open spec fn deep_view(&self) -> EffectView {
        match self {
            Effect::Push { stream, text } => EffectView::Push { stream: *stream, text: text@ },
            Effect::Close { stream } => EffectView::Close { stream: *stream },
            Effect::Governors { text } => EffectView::Governors { text: text@ },
            Effect::StartSettle { name, timer, window } => EffectView::StartSettle {
                name: name@,
                timer: *timer,
                window: *window,
            },
            Effect::Store(w) => EffectView::Store(w.deep_view()),
        }
    }
}

} // verus!
