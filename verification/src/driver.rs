//! The two drivers: one that pulls events from the network, and one that has
//! them pushed.
//!
//! Both run commands through the executor and events through the
//! reconciler. What differs is how events arrive: the pull driver polls with
//! a cursor that it keeps across restarts, the push driver takes batches
//! from a sender that shows a shared secret.

use vstd::prelude::*;
use vstd::string::*;
use crate::events::{IngestEvent, IngestEventView};
use crate::executor::{Acting, ActingView};
use crate::identity::{ghost_prefix_of, user_id, user_id_of};
use crate::reconciler::{
    handle_incoming_message, handle_incoming_redaction, push_intake, redaction_applied, Intake,
    IntakeView, MessageEvent, MessageEventView,
};
use crate::storage::{Db, DbView};
use crate::text::{chars_of, find_char, index_of_char, opt_clone, opt_view, slice_of, str_eq};

verus! {

/// How the push driver is set up.
#[derive(Debug)]
pub struct AppServiceConfig {
    pub homeserver_url: String,
    pub server_name: String,
    /// The secret that the bridge shows to the server.
    pub as_token: String,
    /// The secret that the server shows to the bridge.
    pub hs_token: String,
    pub bot_localpart: String,
    pub listen_port: u16,
    pub identity_salt: String,
    pub owner_id: Option<String>,
}

impl Clone for AppServiceConfig {
    fn clone(&self) -> (r: Self)
        ensures
            r.homeserver_url@ == self.homeserver_url@,
            r.server_name@ == self.server_name@,
            r.as_token@ == self.as_token@,
            r.hs_token@ == self.hs_token@,
            r.bot_localpart@ == self.bot_localpart@,
            r.listen_port == self.listen_port,
            r.identity_salt@ == self.identity_salt@,
            opt_view(r.owner_id) == opt_view(self.owner_id),
    {
        AppServiceConfig {
            homeserver_url: self.homeserver_url.clone(),
            server_name: self.server_name.clone(),
            as_token: self.as_token.clone(),
            hs_token: self.hs_token.clone(),
            bot_localpart: self.bot_localpart.clone(),
            listen_port: self.listen_port,
            identity_salt: self.identity_salt.clone(),
            owner_id: opt_clone(&self.owner_id),
        }
    }
}

/// How the pull driver is set up.
#[derive(Debug)]
pub struct BotConfig {
    pub homeserver_url: String,
    /// The full identifier of the service identity.
    pub user_id: String,
    pub access_token: String,
    pub identity_salt: String,
    pub device_id: String,
    pub owner_id: Option<String>,
}

/// The server of a user identifier: what stands behind its first colon, or
/// nothing where it has none.
pub open spec fn server_of(user_id: Seq<char>) -> Seq<char> {
    if user_id.contains(':') {
        user_id.skip(index_of_char(user_id, ':') + 1)
    } else {
        Seq::<char>::empty()
    }
}

/// The server of a user identifier.
pub fn server_name_of(user_id: &str) -> (r: String)
    ensures
        r@ == server_of(user_id@),
{
    let v = chars_of(user_id);
    match find_char(&v, ':') {
        Some(i) => {
            let n = v.len();
            slice_of(user_id, i + 1, n)
        },
        None => String::new(),
    }
}

/// The driver that pulls.
#[derive(Debug)]
pub struct BotDriver {
    config: BotConfig,
}

impl BotDriver {
    pub closed spec fn config(&self) -> BotConfig {
        self.config
    }

    pub fn new(config: BotConfig) -> (d: BotDriver)
        ensures
            d.config() == config,
    {
        BotDriver { config }
    }

    /// How the driver is set up.
    pub fn configuration(&self) -> (c: &BotConfig)
        ensures
            *c == self.config(),
    {
        &self.config
    }

    /// The service identity, which speaks for all guests.
    pub fn bot_id(&self) -> (id: &str)
        ensures
            id@ == self.config().user_id@,
    {
        self.config.user_id.as_str()
    }

    /// Under which identities the driver acts: under its own alone.
    pub fn acting(&self) -> (a: Acting)
        ensures
            a@ == (ActingView {
                server_name: server_of(self.config().user_id@),
                identity_salt: self.config().identity_salt@,
                owner_id: opt_view(self.config().owner_id),
                ghost_localpart: None,
            }),
    {
        Acting {
            server_name: server_name_of(self.config.user_id.as_str()),
            identity_salt: self.config.identity_salt.clone(),
            owner_id: opt_clone(&self.config.owner_id),
            ghost_localpart: None,
        }
    }
}

/// The driver that is pushed to.
#[derive(Debug)]
pub struct AppServiceDriver {
    config: AppServiceConfig,
}

impl AppServiceDriver {
    pub closed spec fn config(&self) -> AppServiceConfig {
        self.config
    }

    pub fn new(config: AppServiceConfig) -> (d: AppServiceDriver)
        ensures
            d.config() == config,
    {
        AppServiceDriver { config }
    }

    /// How the driver is set up.
    pub fn configuration(&self) -> (c: &AppServiceConfig)
        ensures
            *c == self.config(),
    {
        &self.config
    }

    /// The port on which batches of events are taken.
    pub fn listen_port(&self) -> (p: u16)
        ensures
            p == self.config().listen_port,
    {
        self.config.listen_port
    }

    /// The service identity.
    pub fn bot_id(&self) -> (id: String)
        ensures
            id@ == user_id_of(self.config().bot_localpart@, self.config().server_name@),
    {
        user_id(self.config.bot_localpart.as_str(), self.config.server_name.as_str())
    }

    /// What the identifiers of all ghosts begin with.
    pub fn ghost_prefix(&self) -> (p: String)
        ensures
            p@ == ghost_prefix_of(self.config().bot_localpart@),
    {
        let mut p = "@".to_string();
        p.append(self.config.bot_localpart.as_str());
        p.append("_");
        p
    }

    /// Under which identities the driver acts: every guest has a ghost.
    pub fn acting(&self) -> (a: Acting)
        ensures
            a@ == (ActingView {
                server_name: self.config().server_name@,
                identity_salt: self.config().identity_salt@,
                owner_id: opt_view(self.config().owner_id),
                ghost_localpart: Some(self.config().bot_localpart@),
            }),
    {
        Acting {
            server_name: self.config.server_name.clone(),
            identity_salt: self.config.identity_salt.clone(),
            owner_id: opt_clone(&self.config.owner_id),
            ghost_localpart: Some(self.config.bot_localpart.clone()),
        }
    }

    /// Whether a sender of events has shown the secret of the server.
    pub fn authenticates(&self, query: &TransactionQuery) -> (ok: bool)
        ensures
            ok == (query.access_token@ == self.config().hs_token@),
    {
        str_eq(query.access_token.as_str(), self.config.hs_token.as_str())
    }

    /// Takes a batch of events that was pushed. A sender without the secret
    /// of the server is turned away, and nothing happens. Else every event
    /// is dealt with by itself, in the order of the batch, and what became
    /// of each is handed back in that order.
    pub fn handle_transaction(
        &self,
        db: &mut Db,
        query: &TransactionQuery,
        events: &Vec<TimelineEvent>,
        now: i64,
    ) -> (r: Result<Vec<EventOutcome>, Forbidden>)
        requires
            old(db)@.wf(),
        ensures
            final(db)@.wf(),
            r is Ok <==> query.access_token@ == self.config().hs_token@,
            r is Err ==> final(db)@ == old(db)@,
            r is Ok ==> (final(db)@, outcome_views(r->Ok_0@)) == batch_applied(
                old(db)@,
                event_views(events@),
                user_id_of(self.config().bot_localpart@, self.config().server_name@),
                ghost_prefix_of(self.config().bot_localpart@),
                now as int,
            ),
    {
        if !self.authenticates(query) {
            return Err(Forbidden);
        }
        let bot = self.bot_id();
        let prefix = self.ghost_prefix();
        let mut outcomes: Vec<EventOutcome> = Vec::new();
        let mut i: usize = 0;
        let ghost all = event_views(events@);
        assert(all.take(0) =~= Seq::<TimelineEventView>::empty());
        assert(outcome_views(outcomes@) =~= Seq::<EventOutcomeView>::empty());
        while i < events.len()
            invariant
                i <= events.len(),
                all == event_views(events@),
                db@.wf(),
                (db@, outcome_views(outcomes@)) == batch_applied(
                    old(db)@,
                    all.take(i as int),
                    bot@,
                    prefix@,
                    now as int,
                ),
            decreases events.len() - i,
        {
            proof {
                let cur = all.take(i + 1);
                assert(cur.drop_last() =~= all.take(i as int));
                assert(cur.last() == events@[i as int]@);
            }
            let ghost before = outcome_views(outcomes@);
            let outcome = process_event(db, &events[i], bot.as_str(), prefix.as_str(), now);
            let ghost o = outcome@;
            outcomes.push(outcome);
            assert(outcome_views(outcomes@) =~= before.push(o));
            i += 1;
        }
        assert(all.take(events.len() as int) =~= all);
        Ok(outcomes)
    }
}

/// What a sender of events shows to be let in.
#[derive(Debug)]
pub struct TransactionQuery {
    pub access_token: String,
}

/// The answer to a sender that has not shown the secret of the server.
#[derive(Debug, PartialEq, Eq, Clone, Copy, Structural)]
pub struct Forbidden;

/// An event of a room, as far as it concerns the bridge.
#[derive(Debug)]
pub enum TimelineEvent {
    Message(MessageEvent),
    /// A redaction, and the event that it names.
    Redaction { redacts: Option<String> },
    /// Any other event.
    Other,
}

pub enum TimelineEventView {
    Message(MessageEventView),
    Redaction { redacts: Option<Seq<char>> },
    Other,
}

impl View for TimelineEvent {
    type V = TimelineEventView;

    open spec fn view(&self) -> TimelineEventView {
        match *self {
            TimelineEvent::Message(m) => TimelineEventView::Message(m@),
            TimelineEvent::Redaction { redacts } => TimelineEventView::Redaction {
                redacts: opt_view(redacts),
            },
            TimelineEvent::Other => TimelineEventView::Other,
        }
    }
}

/// What became of an event.
#[derive(Debug)]
pub enum EventOutcome {
    Message(Intake),
    /// A redaction, and what subscribers are told of it, if anything.
    Redaction(Option<IngestEvent>),
    Ignored,
}

pub enum EventOutcomeView {
    Message(IntakeView),
    Redaction(Option<IngestEventView>),
    Ignored,
}

impl View for EventOutcome {
    type V = EventOutcomeView;

    open spec fn view(&self) -> EventOutcomeView {
        match *self {
            EventOutcome::Message(i) => EventOutcomeView::Message(i@),
            EventOutcome::Redaction(e) => EventOutcomeView::Redaction(
                match e {
                    Some(e) => Some(e@),
                    None => None,
                },
            ),
            EventOutcome::Ignored => EventOutcomeView::Ignored,
        }
    }
}

pub open spec fn event_views(v: Seq<TimelineEvent>) -> Seq<TimelineEventView> {
    Seq::new(v.len(), |i: int| v[i]@)
}

pub open spec fn outcome_views(v: Seq<EventOutcome>) -> Seq<EventOutcomeView> {
    Seq::new(v.len(), |i: int| v[i]@)
}

/// What one pushed event does: a message is taken in, a redaction is
/// applied, and anything else is passed over.
pub open spec fn event_applied(
    db: DbView,
    e: TimelineEventView,
    bot: Seq<char>,
    ghost_prefix: Seq<char>,
    now: int,
) -> (DbView, EventOutcomeView) {
    match e {
        TimelineEventView::Message(m) => {
            let (d, i) = push_intake(db, m, bot, ghost_prefix, now);
            (d, EventOutcomeView::Message(i))
        },
        TimelineEventView::Redaction { redacts } => {
            let (d, told) = redaction_applied(db, redacts);
            (d, EventOutcomeView::Redaction(told))
        },
        TimelineEventView::Other => (db, EventOutcomeView::Ignored),
    }
}

/// What a batch of pushed events does: each event in turn.
pub open spec fn batch_applied(
    db: DbView,
    events: Seq<TimelineEventView>,
    bot: Seq<char>,
    ghost_prefix: Seq<char>,
    now: int,
) -> (DbView, Seq<EventOutcomeView>)
    decreases events.len(),
{
    if events.len() == 0 {
        (db, Seq::<EventOutcomeView>::empty())
    } else {
        let (d, done) = batch_applied(db, events.drop_last(), bot, ghost_prefix, now);
        let (d2, o) = event_applied(d, events.last(), bot, ghost_prefix, now);
        (d2, done.push(o))
    }
}

/// Deals with one pushed event.
pub fn process_event(db: &mut Db, event: &TimelineEvent, bot_id: &str, ghost_prefix: &str, now: i64) -> (r:
    EventOutcome)
    requires
        old(db)@.wf(),
    ensures
        final(db)@.wf(),
        (final(db)@, r@) == event_applied(old(db)@, event@, bot_id@, ghost_prefix@, now as int),
{
    match event {
        TimelineEvent::Message(m) => EventOutcome::Message(
            handle_incoming_message(db, m, bot_id, ghost_prefix, now),
        ),
        TimelineEvent::Redaction { redacts } => EventOutcome::Redaction(
            handle_incoming_redaction(
                db,
                match redacts {
                    Some(id) => Some(id.as_str()),
                    None => None,
                },
            ),
        ),
        TimelineEvent::Other => EventOutcome::Ignored,
    }
}

/// For how many seconds a poll waits for events.
pub const POLL_TIMEOUT_SECS: u64 = 30;

/// For how many seconds the pull driver rests after a poll has failed.
pub const BACKOFF_SECS: u64 = 5;

/// What has happened to the pull driver.
#[derive(Debug)]
pub enum SyncEvent {
    /// A poll has brought a batch, and this is the position behind it.
    Polled { next_batch: String },
    /// A poll has failed.
    PollFailed,
    /// The position was written down.
    TokenSaved,
    /// The position could not be written down.
    TokenSaveFailed,
    /// The rest after a failure is over.
    Rested,
    /// The driver is told to stop.
    Cancelled,
}

pub enum SyncEventView {
    Polled { next_batch: Seq<char> },
    PollFailed,
    TokenSaved,
    TokenSaveFailed,
    Rested,
    Cancelled,
}

impl View for SyncEvent {
    type V = SyncEventView;

    open spec fn view(&self) -> SyncEventView {
        match *self {
            SyncEvent::Polled { next_batch } => SyncEventView::Polled { next_batch: next_batch@ },
            SyncEvent::PollFailed => SyncEventView::PollFailed,
            SyncEvent::TokenSaved => SyncEventView::TokenSaved,
            SyncEvent::TokenSaveFailed => SyncEventView::TokenSaveFailed,
            SyncEvent::Rested => SyncEventView::Rested,
            SyncEvent::Cancelled => SyncEventView::Cancelled,
        }
    }
}

/// What the pull driver does next.
#[derive(Debug)]
pub enum SyncAction {
    /// Poll for events behind this position, or from the beginning.
    Poll { since: Option<String>, timeout_secs: u64 },
    /// Write this position down, before anything else.
    SaveToken { token: String },
    /// Rest.
    Backoff { secs: u64 },
    /// Report that the position was lost, at the highest level, and go on.
    ReportLostToken,
    Stop,
}

pub enum SyncActionView {
    Poll { since: Option<Seq<char>>, timeout_secs: u64 },
    SaveToken { token: Seq<char> },
    Backoff { secs: u64 },
    ReportLostToken,
    Stop,
}

impl View for SyncAction {
    type V = SyncActionView;

    open spec fn view(&self) -> SyncActionView {
        match *self {
            SyncAction::Poll { since, timeout_secs } => SyncActionView::Poll {
                since: opt_view(since),
                timeout_secs,
            },
            SyncAction::SaveToken { token } => SyncActionView::SaveToken { token: token@ },
            SyncAction::Backoff { secs } => SyncActionView::Backoff { secs },
            SyncAction::ReportLostToken => SyncActionView::ReportLostToken,
            SyncAction::Stop => SyncActionView::Stop,
        }
    }
}

/// What the pull driver waits for.
#[derive(Debug)]
pub enum SyncPhase {
    Polling,
    Saving { candidate: String },
    Reporting,
    Resting,
    Stopped,
}

pub enum SyncPhaseView {
    Polling,
    Saving { candidate: Seq<char> },
    Reporting,
    Resting,
    Stopped,
}

impl View for SyncPhase {
    type V = SyncPhaseView;

    open spec fn view(&self) -> SyncPhaseView {
        match *self {
            SyncPhase::Polling => SyncPhaseView::Polling,
            SyncPhase::Saving { candidate } => SyncPhaseView::Saving { candidate: candidate@ },
            SyncPhase::Reporting => SyncPhaseView::Reporting,
            SyncPhase::Resting => SyncPhaseView::Resting,
            SyncPhase::Stopped => SyncPhaseView::Stopped,
        }
    }
}

/// The polling loop as plain values: the position that is written down, and
/// what the loop waits for.
pub struct SyncLoopView {
    pub token: Option<Seq<char>>,
    pub phase: SyncPhaseView,
}

impl SyncLoopView {
    /// The request to poll from the position that is written down.
    pub open spec fn poll(self) -> SyncActionView {
        SyncActionView::Poll { since: self.token, timeout_secs: POLL_TIMEOUT_SECS }
    }

    /// The next step of the loop. A batch counts only once the position
    /// behind it is written down: the loop moves on from a position that
    /// it could not write down no more than from a poll that has failed.
    /// A poll that has failed is tried again after a rest, for ever. Once
    /// told to stop, the loop stops.
    pub open spec fn next(self, event: SyncEventView) -> (SyncLoopView, SyncActionView) {
        let polling = SyncLoopView { phase: SyncPhaseView::Polling, ..self };
        match (self.phase, event) {
            (SyncPhaseView::Stopped, _) => (self, SyncActionView::Stop),
            (_, SyncEventView::Cancelled) => (
                SyncLoopView { phase: SyncPhaseView::Stopped, ..self },
                SyncActionView::Stop,
            ),
            (SyncPhaseView::Polling, SyncEventView::Polled { next_batch }) => if self.token
                == Some(next_batch) {
                (polling, polling.poll())
            } else {
                (
                    SyncLoopView {
                        phase: SyncPhaseView::Saving { candidate: next_batch },
                        ..self
                    },
                    SyncActionView::SaveToken { token: next_batch },
                )
            },
            (SyncPhaseView::Polling, SyncEventView::PollFailed) => (
                SyncLoopView { phase: SyncPhaseView::Resting, ..self },
                SyncActionView::Backoff { secs: BACKOFF_SECS },
            ),
            (SyncPhaseView::Saving { candidate }, SyncEventView::TokenSaved) => {
                let moved = SyncLoopView { token: Some(candidate), phase: SyncPhaseView::Polling };
                (moved, moved.poll())
            },
            (SyncPhaseView::Saving { .. }, SyncEventView::TokenSaveFailed) => (
                SyncLoopView { phase: SyncPhaseView::Reporting, ..self },
                SyncActionView::ReportLostToken,
            ),
            _ => (polling, polling.poll()),
        }
    }
}

/// The polling loop of the pull driver.
#[derive(Debug)]
pub struct SyncLoop {
    token: Option<String>,
    phase: SyncPhase,
}

impl View for SyncLoop {
    type V = SyncLoopView;

    closed spec fn view(&self) -> SyncLoopView {
        SyncLoopView { token: opt_view(self.token), phase: self.phase@ }
    }
}

impl SyncLoop {
    /// Starts the loop from the position that the cache holds.
    pub fn start(db: &Db) -> (r: (SyncLoop, SyncAction))
        ensures
            r.0@ == (SyncLoopView { token: db@.sync_token, phase: SyncPhaseView::Polling }),
            r.1@ == r.0@.poll(),
    {
        let token = db.get_sync_token();
        let action = SyncAction::Poll { since: opt_clone(&token), timeout_secs: POLL_TIMEOUT_SECS };
        (SyncLoop { token, phase: SyncPhase::Polling }, action)
    }

    fn poll(&mut self) -> (a: SyncAction)
        ensures
            final(self)@ == (SyncLoopView { phase: SyncPhaseView::Polling, ..old(self)@ }),
            a@ == final(self)@.poll(),
    {
        self.phase = SyncPhase::Polling;
        SyncAction::Poll { since: opt_clone(&self.token), timeout_secs: POLL_TIMEOUT_SECS }
    }

    /// Takes what has happened and says what the loop does next. A position
    /// that was written down is taken over into the cache.
    pub fn step(&mut self, db: &mut Db, event: SyncEvent) -> (a: SyncAction)
        ensures
            (final(self)@, a@) == old(self)@.next(event@),
            final(db)@ == (if old(self)@.phase is Saving && event@ is TokenSaved {
                DbView { sync_token: final(self)@.token, ..old(db)@ }
            } else {
                old(db)@
            }),
    {
        let mut phase = SyncPhase::Stopped;
        std::mem::swap(&mut self.phase, &mut phase);
        match (phase, event) {
            (SyncPhase::Stopped, _) => SyncAction::Stop,
            (_, SyncEvent::Cancelled) => SyncAction::Stop,
            (SyncPhase::Polling, SyncEvent::Polled { next_batch }) => {
                let same = match &self.token {
                    Some(t) => str_eq(t.as_str(), next_batch.as_str()),
                    None => false,
                };
                if same {
                    self.poll()
                } else {
                    let a = SyncAction::SaveToken { token: next_batch.clone() };
                    self.phase = SyncPhase::Saving { candidate: next_batch };
                    a
                }
            },
            (SyncPhase::Polling, SyncEvent::PollFailed) => {
                self.phase = SyncPhase::Resting;
                SyncAction::Backoff { secs: BACKOFF_SECS }
            },
            (SyncPhase::Saving { candidate }, SyncEvent::TokenSaved) => {
                db.save_sync_token(candidate.as_str());
                self.token = Some(candidate);
                self.poll()
            },
            (SyncPhase::Saving { .. }, SyncEvent::TokenSaveFailed) => {
                self.phase = SyncPhase::Reporting;
                SyncAction::ReportLostToken
            },
            _ => self.poll(),
        }
    }
}

/// The loop never moves past what is written down: whatever happens, the
/// position it polls from next is the one it had, or the one that it was
/// just told is written down.
pub proof fn lemma_position_follows_record(s: SyncLoopView, event: SyncEventView)
    ensures
        ({
            let (after, action) = s.next(event);
            &&& after.token != s.token ==> s.phase is Saving && event is TokenSaved && after.token
                == Some(s.phase->candidate)
            &&& action is Poll ==> action->since == after.token
        }),
{
}

} // verus!
