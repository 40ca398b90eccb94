//! The command executor: what a command asks of the network, step by step.
//!
//! A command is first held against what can be known without the network:
//! whether its parts are well formed, and, where a guest changes or removes
//! a comment, whether the comment is theirs. Only then is anything asked of
//! the network. Like the router, the executor names one operation at a time
//! and is told how it ended.

use vstd::prelude::*;
use vstd::string::*;
use crate::commands::{AppCommand, AppCommandView};
use crate::foreign::{
    event_id_well_formed, is_event_id, is_room_alias, is_user_id, room_alias_well_formed,
    user_id_well_formed,
};
use crate::identity::{
    compute_user_fingerprint, fingerprint_of, ghost_localpart_of, ghost_user_id, user_id_of,
};
use crate::models::SiteId;
use crate::protocol::{
    build_outbound_event, fallback_body, text_msgtype, MetadataView, OutboundEvent,
    OutboundEventView,
};
use crate::remote::{
    CommandError, RemoteAction, RemoteActionView, RemoteResult, RemoteResultView,
};
use crate::router::{
    ensure_room_for_as, fresh_router, routable, thread_alias, thread_alias_text, RouteGoal,
    RouterStep,
    RouterStepView, RouterView, SpaceCache, ThreadRouter,
};
use crate::storage::{Db, DbView};
use crate::text::{opt_clone, opt_view, str_eq};

verus! {

/// Under which identities the bridge acts.
#[derive(Debug)]
pub struct Acting {
    /// The server that the rooms live on.
    pub server_name: String,
    /// What goes into every fingerprint besides the guest's own values.
    pub identity_salt: String,
    /// Who is invited into new rooms with elevated rights, if anyone.
    pub owner_id: Option<String>,
    /// The local part of the service identity, where guests speak through
    /// ghosts of their own; none where the service identity speaks for all.
    pub ghost_localpart: Option<String>,
}

pub struct ActingView {
    pub server_name: Seq<char>,
    pub identity_salt: Seq<char>,
    pub owner_id: Option<Seq<char>>,
    pub ghost_localpart: Option<Seq<char>>,
}

impl View for Acting {
    type V = ActingView;

    open spec fn view(&self) -> ActingView {
        ActingView {
            server_name: self.server_name@,
            identity_salt: self.identity_salt@,
            owner_id: opt_view(self.owner_id),
            ghost_localpart: opt_view(self.ghost_localpart),
        }
    }
}

/// What a command comes down to once it is admitted.
#[derive(Debug)]
pub enum Job {
    /// Send this message, under this display name.
    Send { event: OutboundEvent, nickname: String },
    /// Redact this event.
    Redact { event_id: String, reason: Option<String> },
    /// Replace the content of this event.
    Edit { target: String, content: String },
}

pub enum JobView {
    Send { event: OutboundEventView, nickname: Seq<char> },
    Redact { event_id: Seq<char>, reason: Option<Seq<char>> },
    Edit { target: Seq<char>, content: Seq<char> },
}

impl View for Job {
    type V = JobView;

    open spec fn view(&self) -> JobView {
        match *self {
            Job::Send { event, nickname } => JobView::Send { event: event@, nickname: nickname@ },
            Job::Redact { event_id, reason } => JobView::Redact {
                event_id: event_id@,
                reason: opt_view(reason),
            },
            Job::Edit { target, content } => JobView::Edit { target: target@, content: content@ },
        }
    }
}

/// Where the execution of a command stands.
#[derive(Debug)]
pub enum FlowPhase {
    /// The router looks for the room.
    Routing { router: ThreadRouter },
    /// The address of the room is being looked up.
    ResolvingRoom,
    /// The acting identity joins the room.
    Joining { room_id: String },
    /// The acting identity gets its display name.
    Naming { room_id: String },
    /// The operation that the command is about is under way.
    Acting,
    Finished,
}

pub enum FlowPhaseView {
    Routing { router: RouterView },
    ResolvingRoom,
    Joining { room_id: Seq<char> },
    Naming { room_id: Seq<char> },
    Acting,
    Finished,
}

impl View for FlowPhase {
    type V = FlowPhaseView;

    open spec fn view(&self) -> FlowPhaseView {
        match *self {
            FlowPhase::Routing { router } => FlowPhaseView::Routing { router: router@ },
            FlowPhase::ResolvingRoom => FlowPhaseView::ResolvingRoom,
            FlowPhase::Joining { room_id } => FlowPhaseView::Joining { room_id: room_id@ },
            FlowPhase::Naming { room_id } => FlowPhaseView::Naming { room_id: room_id@ },
            FlowPhase::Acting => FlowPhaseView::Acting,
            FlowPhase::Finished => FlowPhaseView::Finished,
        }
    }
}

/// What the executor says next.
#[derive(Debug)]
pub enum FlowStep {
    /// Perform this and come back with the answer.
    Do(RemoteAction),
    /// The command is answered.
    Done(Result<(), CommandError>),
}

pub enum FlowStepView {
    Do(RemoteActionView),
    Done(Result<(), CommandError>),
}

impl View for FlowStep {
    type V = FlowStepView;

    open spec fn view(&self) -> FlowStepView {
        match *self {
            FlowStep::Do(a) => FlowStepView::Do(a@),
            FlowStep::Done(r) => FlowStepView::Done(r),
        }
    }
}

/// The execution of a command as plain values.
pub struct FlowView {
    pub site: Seq<char>,
    pub slug: Seq<char>,
    pub server: Seq<char>,
    pub job: JobView,
    /// The identity that acts, where it is not the service identity.
    pub actor: Option<Seq<char>>,
    pub phase: FlowPhaseView,
}

/// The reason that is given for the redaction of a comment by its author.
pub open spec fn user_deletion_reason() -> Seq<char> {
    "User deleted their comment"@
}

/// What a reader without knowledge of edits sees of an edit.
pub open spec fn edit_fallback(content: Seq<char>) -> Seq<char> {
    "* "@ + content
}

/// Whether a guest with this fingerprint may change the comment: it is
/// there, and the fingerprint is that of its author.
pub open spec fn authorized(db: DbView, comment_id: Seq<char>, fingerprint: Seq<char>) -> Result<
    (),
    CommandError,
> {
    match db.comment(comment_id) {
        None => Err(CommandError::NotFound),
        Some(c) => if c.author_fingerprint == Some(fingerprint) {
            Ok(())
        } else {
            Err(CommandError::PermissionDenied)
        },
    }
}

impl FlowView {
    pub open spec fn at(self, phase: FlowPhaseView) -> FlowView {
        FlowView { phase, ..self }
    }

    pub open spec fn finish(self, r: Result<(), CommandError>) -> (FlowView, FlowStepView) {
        (self.at(FlowPhaseView::Finished), FlowStepView::Done(r))
    }

    /// The operation that the command is about, in a given room.
    pub open spec fn action_in(self, room_id: Seq<char>) -> RemoteActionView {
        match self.job {
            JobView::Send { event, .. } => RemoteActionView::SendMessage {
                room_id,
                user_id: self.actor,
                event,
            },
            JobView::Redact { event_id, reason } => RemoteActionView::Redact {
                room_id,
                event_id,
                reason,
            },
            JobView::Edit { target, content } => RemoteActionView::SendEdit {
                room_id,
                user_id: self.actor,
                target,
                fallback: edit_fallback(content),
                content,
            },
        }
    }

    /// What follows once the room is known: the acting identity joins it,
    /// where it is not the service identity, and else the operation itself.
    pub open spec fn room_known(self, room_id: Seq<char>) -> (FlowView, FlowStepView) {
        match self.actor {
            Some(user) => (
                self.at(FlowPhaseView::Joining { room_id }),
                FlowStepView::Do(RemoteActionView::JoinRoom { room_id, user_id: Some(user) }),
            ),
            None => (self.at(FlowPhaseView::Acting), FlowStepView::Do(self.action_in(room_id))),
        }
    }

    /// What follows once the acting identity has joined: a ghost that
    /// sends gets its name first.
    pub open spec fn joined(self, room_id: Seq<char>) -> (FlowView, FlowStepView) {
        if self.job is Send && self.actor is Some {
            (
                self.at(FlowPhaseView::Naming { room_id }),
                FlowStepView::Do(
                    RemoteActionView::SetDisplayName {
                        ghost_id: self.actor->0,
                        display_name: self.job->Send_nickname,
                    },
                ),
            )
        } else {
            (self.at(FlowPhaseView::Acting), FlowStepView::Do(self.action_in(room_id)))
        }
    }

    /// What follows a step of the router: its request is passed on, its
    /// failure is the command's, and the room it has found is made known
    /// to the cache, which may refuse it.
    pub open spec fn routed(self, db: DbView, router: RouterView, step: RouterStepView) -> (
        FlowView,
        DbView,
        FlowStepView,
    ) {
        match step {
            RouterStepView::Do(a) => (
                self.at(FlowPhaseView::Routing { router }),
                db,
                FlowStepView::Do(a),
            ),
            RouterStepView::Done(Err(e)) => {
                let (f, s) = self.finish(Err(e));
                (f, db, s)
            },
            RouterStepView::Done(Ok(room_id)) => if db.room_available(
                room_id,
                self.site,
                self.slug,
            ) {
                let (f, s) = self.room_known(room_id);
                (f, db.with_room(room_id, self.site, self.slug), s)
            } else {
                let (f, s) = self.finish(Err(CommandError::Internal));
                (f, db, s)
            },
        }
    }

    /// The next step, given how the operation has ended that the executor
    /// waited for.
    pub open spec fn next(
        self,
        db: DbView,
        cache: Map<Seq<char>, Seq<char>>,
        result: RemoteResultView,
    ) -> (FlowView, DbView, Map<Seq<char>, Seq<char>>, FlowStepView) {
        match self.phase {
            FlowPhaseView::Routing { router } => {
                let (r, c, step) = router.next(cache, result);
                let (f, d, s) = self.routed(db, r, step);
                (f, d, c, s)
            },
            FlowPhaseView::ResolvingRoom => match result {
                RemoteResultView::Resolved { room_id } => {
                    let (f, s) = self.room_known(room_id);
                    (f, db, cache, s)
                },
                RemoteResultView::NotFound => {
                    let (f, s) = self.finish(Err(CommandError::NotFound));
                    (f, db, cache, s)
                },
                _ => {
                    let (f, s) = self.finish(Err(CommandError::RemoteTransient));
                    (f, db, cache, s)
                },
            },
            FlowPhaseView::Joining { room_id } => match result {
                RemoteResultView::Done => {
                    let (f, s) = self.joined(room_id);
                    (f, db, cache, s)
                },
                _ => {
                    let (f, s) = self.finish(Err(CommandError::RemoteTransient));
                    (f, db, cache, s)
                },
            },
            FlowPhaseView::Naming { room_id } => (
                self.at(FlowPhaseView::Acting),
                db,
                cache,
                FlowStepView::Do(self.action_in(room_id)),
            ),
            FlowPhaseView::Acting => match result {
                RemoteResultView::Done => {
                    let (f, s) = self.finish(Ok(()));
                    (f, db, cache, s)
                },
                _ => {
                    let (f, s) = self.finish(Err(CommandError::RemoteTransient));
                    (f, db, cache, s)
                },
            },
            FlowPhaseView::Finished => (
                self,
                db,
                cache,
                FlowStepView::Done(Err(CommandError::Internal)),
            ),
        }
    }
}

/// The identity that sends for a guest with this fingerprint: a ghost of
/// their own, or the service identity.
pub open spec fn sender_for(acting: ActingView, fingerprint: Seq<char>) -> Option<Seq<char>> {
    match acting.ghost_localpart {
        Some(bot) => Some(user_id_of(ghost_localpart_of(bot, fingerprint), acting.server_name)),
        None => None,
    }
}

/// The message of a guest's comment, with what it answers.
pub open spec fn comment_event(
    nickname: Seq<char>,
    content: Seq<char>,
    fingerprint: Seq<char>,
    txn_id: Option<Seq<char>>,
    reply_to: Option<Seq<char>>,
) -> OutboundEventView {
    OutboundEventView {
        msgtype: text_msgtype(),
        body: fallback_body(nickname, content),
        metadata: MetadataView {
            author_name: nickname,
            is_guest: true,
            origin_content: content,
            author_fingerprint: Some(fingerprint),
            txn_id,
        },
        reply_to,
    }
}

/// The beginning of a search by address, for a redaction or an edit.
pub open spec fn begin_lookup(
    site: Seq<char>,
    slug: Seq<char>,
    server: Seq<char>,
    job: JobView,
    actor: Option<Seq<char>>,
) -> (FlowView, FlowStepView) {
    let flow = FlowView { site, slug, server, job, actor, phase: FlowPhaseView::Finished };
    if room_alias_well_formed(thread_alias(site, slug, server)) {
        (
            flow.at(FlowPhaseView::ResolvingRoom),
            FlowStepView::Do(
                RemoteActionView::ResolveAlias { alias: thread_alias(site, slug, server) },
            ),
        )
    } else {
        flow.finish(Err(CommandError::InvalidInput))
    }
}

/// A command that is answered before it has begun.
pub open spec fn refused(site: Seq<char>, slug: Seq<char>, server: Seq<char>, e: CommandError) -> (
    FlowView,
    FlowStepView,
) {
    (
        FlowView {
            site,
            slug,
            server,
            job: JobView::Redact { event_id: Seq::<char>::empty(), reason: None },
            actor: None,
            phase: FlowPhaseView::Finished,
        },
        FlowStepView::Done(Err(e)),
    )
}

/// The first step in sending a comment. The comment is sent by the ghost
/// of its author, or by the service identity; what it answers has to be an
/// event identifier. Where all is well formed, the router begins to look
/// for the room of the thread.
pub open spec fn send_begun(
    cache: Map<Seq<char>, Seq<char>>,
    acting: ActingView,
    site: Seq<char>,
    slug: Seq<char>,
    content: Seq<char>,
    nickname: Seq<char>,
    email: Option<Seq<char>>,
    guest_token: Seq<char>,
    reply_to: Option<Seq<char>>,
    txn_id: Option<Seq<char>>,
) -> (FlowView, FlowStepView) {
    let server = acting.server_name;
    let fingerprint = fingerprint_of(email, guest_token, acting.identity_salt);
    let actor = sender_for(acting, fingerprint);
    if reply_to is Some && !event_id_well_formed(reply_to->0) {
        refused(site, slug, server, CommandError::InvalidInput)
    } else if actor is Some && !user_id_well_formed(actor->0) {
        refused(site, slug, server, CommandError::InvalidInput)
    } else if !routable(site, slug, server, RouteGoal::Thread) {
        refused(site, slug, server, CommandError::InvalidInput)
    } else {
        let flow = FlowView {
            site,
            slug,
            server,
            job: JobView::Send {
                event: comment_event(nickname, content, fingerprint, txn_id, reply_to),
                nickname,
            },
            actor,
            phase: FlowPhaseView::Finished,
        };
        let (router, step) = fresh_router(
            site,
            slug,
            server,
            acting.owner_id,
            RouteGoal::Thread,
        ).first(cache);
        (flow.at(FlowPhaseView::Routing { router }), FlowStepView::Do(step->Do_0))
    }
}

/// The first step in redacting a comment, which has to be named by an
/// event identifier: the room of the thread is looked up.
pub open spec fn redact_begun(
    acting: ActingView,
    site: Seq<char>,
    slug: Seq<char>,
    comment_id: Seq<char>,
    reason: Option<Seq<char>>,
) -> (FlowView, FlowStepView) {
    if !event_id_well_formed(comment_id) {
        refused(site, slug, acting.server_name, CommandError::InvalidInput)
    } else {
        begin_lookup(
            site,
            slug,
            acting.server_name,
            JobView::Redact { event_id: comment_id, reason },
            None,
        )
    }
}

/// The first step in the removal of a comment by a guest, who may remove
/// it only with the fingerprint of its author: then it is redacted, with
/// the reason that is given for such removals.
pub open spec fn user_delete_begun(
    db: DbView,
    acting: ActingView,
    site: Seq<char>,
    slug: Seq<char>,
    comment_id: Seq<char>,
    fingerprint: Seq<char>,
) -> (FlowView, FlowStepView) {
    match authorized(db, comment_id, fingerprint) {
        Err(e) => refused(site, slug, acting.server_name, e),
        Ok(()) => redact_begun(acting, site, slug, comment_id, Some(user_deletion_reason())),
    }
}

/// The first step in the change of a comment by a guest, who may change
/// it only with the fingerprint of its author. The edit is sent as the
/// author of the comment, where guests have ghosts, and by the service
/// identity else.
pub open spec fn user_edit_begun(
    db: DbView,
    acting: ActingView,
    site: Seq<char>,
    slug: Seq<char>,
    comment_id: Seq<char>,
    content: Seq<char>,
    fingerprint: Seq<char>,
) -> (FlowView, FlowStepView) {
    let server = acting.server_name;
    match authorized(db, comment_id, fingerprint) {
        Err(e) => refused(site, slug, server, e),
        Ok(()) => {
            let author = db.comment(comment_id)->0.author_id;
            if !event_id_well_formed(comment_id) {
                refused(site, slug, server, CommandError::InvalidInput)
            } else if acting.ghost_localpart is Some && !user_id_well_formed(author) {
                refused(site, slug, server, CommandError::InvalidInput)
            } else {
                begin_lookup(
                    site,
                    slug,
                    server,
                    JobView::Edit { target: comment_id, content },
                    if acting.ghost_localpart is Some {
                        Some(author)
                    } else {
                        None
                    },
                )
            }
        },
    }
}

/// The first step of a command: its answer, where it can be given without
/// the network, and else the first operation.
pub open spec fn begun(
    db: DbView,
    cache: Map<Seq<char>, Seq<char>>,
    acting: ActingView,
    cmd: AppCommandView,
) -> (FlowView, FlowStepView) {
    match cmd {
        AppCommandView::SendComment {
            site_id,
            post_slug,
            content,
            nickname,
            email,
            guest_token,
            reply_to,
            txn_id,
        } => send_begun(
            cache,
            acting,
            site_id,
            post_slug,
            content,
            nickname,
            email,
            guest_token,
            reply_to,
            txn_id,
        ),
        AppCommandView::RedactComment {
            site_id,
            post_slug,
            comment_id,
            reason,
        } => redact_begun(acting, site_id, post_slug, comment_id, reason),
        AppCommandView::UserDeleteComment {
            site_id,
            post_slug,
            comment_id,
            user_fingerprint,
        } => user_delete_begun(db, acting, site_id, post_slug, comment_id, user_fingerprint),
        AppCommandView::UserEditComment {
            site_id,
            post_slug,
            comment_id,
            content,
            user_fingerprint,
        } => user_edit_begun(db, acting, site_id, post_slug, comment_id, content, user_fingerprint),
    }
}

/// The execution of a command.
#[derive(Debug)]
pub struct CommandFlow {
    site: SiteId,
    slug: String,
    server: String,
    job: Job,
    actor: Option<String>,
    phase: FlowPhase,
}

impl View for CommandFlow {
    type V = FlowView;

    closed spec fn view(&self) -> FlowView {
        FlowView {
            site: self.site@,
            slug: self.slug@,
            server: self.server@,
            job: self.job@,
            actor: opt_view(self.actor),
            phase: self.phase@,
        }
    }
}

/// Whether a guest with this fingerprint may change the comment.
pub fn authorize(db: &Db, comment_id: &str, fingerprint: &str) -> (r: Result<String, CommandError>)
    requires
        db@.wf(),
    ensures
        match r {
            Ok(author) => authorized(db@, comment_id@, fingerprint@) is Ok && author@
                == db@.comment(comment_id@)->0.author_id,
            Err(e) => authorized(db@, comment_id@, fingerprint@) == Err::<(), CommandError>(e),
        },
{
    match db.get_comment(comment_id) {
        None => Err(CommandError::NotFound),
        Some(c) => {
            let same = match &c.author_fingerprint {
                Some(fp) => str_eq(fp.as_str(), fingerprint),
                None => false,
            };
            if same {
                Ok(c.author_id)
            } else {
                Err(CommandError::PermissionDenied)
            }
        },
    }
}

impl CommandFlow {
    fn refuse(site: SiteId, slug: String, server: &str, e: CommandError) -> (r: (
        CommandFlow,
        FlowStep,
    ))
        ensures
            r.0@ == (FlowView {
                site: site@,
                slug: slug@,
                server: server@,
                job: JobView::Redact { event_id: Seq::<char>::empty(), reason: None },
                actor: None,
                phase: FlowPhaseView::Finished,
            }),
            r.1@ == FlowStepView::Done(Err(e)),
    {
        (
            CommandFlow {
                site,
                slug,
                server: server.to_owned(),
                job: Job::Redact { event_id: String::new(), reason: None },
                actor: None,
                phase: FlowPhase::Finished,
            },
            FlowStep::Done(Err(e)),
        )
    }

    fn lookup(site: SiteId, slug: String, server: &str, job: Job, actor: Option<String>) -> (r: (
        CommandFlow,
        FlowStep,
    ))
        ensures
            (r.0@, r.1@) == begin_lookup(site@, slug@, server@, job@, opt_view(actor)),
    {
        let alias = thread_alias_text(site.as_str(), slug.as_str(), server);
        let ok = is_room_alias(alias.as_str());
        let mut flow = CommandFlow {
            site,
            slug,
            server: server.to_owned(),
            job,
            actor,
            phase: FlowPhase::Finished,
        };
        if ok {
            flow.phase = FlowPhase::ResolvingRoom;
            (flow, FlowStep::Do(RemoteAction::ResolveAlias { alias }))
        } else {
            (flow, FlowStep::Done(Err(CommandError::InvalidInput)))
        }
    }

    /// Begins the execution of a command: answers it, where that can be done
    /// without the network, and else names the first operation.
    pub fn begin(db: &Db, cache: &SpaceCache, acting: &Acting, cmd: AppCommand) -> (r: (
        CommandFlow,
        FlowStep,
    ))
        requires
            db@.wf(),
        ensures
            (r.0@, r.1@) == begun(db@, cache@, acting@, cmd@),
    {
        match cmd {
            AppCommand::SendComment {
                site_id,
                post_slug,
                content,
                nickname,
                email,
                guest_token,
                reply_to,
                txn_id,
            } => execute_send(
                cache,
                acting,
                site_id,
                post_slug,
                content,
                nickname,
                email,
                guest_token,
                reply_to,
                txn_id,
            ),
            AppCommand::RedactComment { site_id, post_slug, comment_id, reason } => execute_redact(
                acting,
                site_id,
                post_slug,
                comment_id,
                reason,
            ),
            AppCommand::UserDeleteComment {
                site_id,
                post_slug,
                comment_id,
                user_fingerprint,
            } => execute_user_delete(db, acting, site_id, post_slug, comment_id, user_fingerprint),
            AppCommand::UserEditComment {
                site_id,
                post_slug,
                comment_id,
                content,
                user_fingerprint,
            } => execute_user_edit(
                db,
                acting,
                site_id,
                post_slug,
                comment_id,
                content,
                user_fingerprint,
            ),
        }
    }

    fn finish(&mut self, r: Result<(), CommandError>) -> (s: FlowStep)
        ensures
            (final(self)@, s@) == old(self)@.finish(r),
    {
        self.phase = FlowPhase::Finished;
        FlowStep::Done(r)
    }

    fn action_in(&self, room_id: String) -> (a: RemoteAction)
        ensures
            a@ == self@.action_in(room_id@),
    {
        match &self.job {
            Job::Send { event, .. } => RemoteAction::SendMessage {
                room_id,
                user_id: opt_clone(&self.actor),
                event: event.clone(),
            },
            Job::Redact { event_id, reason } => RemoteAction::Redact {
                room_id,
                event_id: event_id.clone(),
                reason: opt_clone(reason),
            },
            Job::Edit { target, content } => {
                let mut fallback = "* ".to_string();
                fallback.append(content.as_str());
                RemoteAction::SendEdit {
                    room_id,
                    user_id: opt_clone(&self.actor),
                    target: target.clone(),
                    fallback,
                    content: content.clone(),
                }
            },
        }
    }

    fn room_known(&mut self, room_id: String) -> (s: FlowStep)
        ensures
            (final(self)@, s@) == old(self)@.room_known(room_id@),
    {
        match &self.actor {
            Some(user) => {
                let a = RemoteAction::JoinRoom {
                    room_id: room_id.clone(),
                    user_id: Some(user.clone()),
                };
                self.phase = FlowPhase::Joining { room_id };
                FlowStep::Do(a)
            },
            None => {
                let a = self.action_in(room_id);
                self.phase = FlowPhase::Acting;
                FlowStep::Do(a)
            },
        }
    }

    fn joined(&mut self, room_id: String) -> (s: FlowStep)
        ensures
            (final(self)@, s@) == old(self)@.joined(room_id@),
    {
        let naming = match (&self.job, &self.actor) {
            (Job::Send { nickname, .. }, Some(user)) => Some(
                RemoteAction::SetDisplayName {
                    ghost_id: user.clone(),
                    display_name: nickname.clone(),
                },
            ),
            _ => None,
        };
        match naming {
            Some(a) => {
                self.phase = FlowPhase::Naming { room_id };
                FlowStep::Do(a)
            },
            None => {
                let a = self.action_in(room_id);
                self.phase = FlowPhase::Acting;
                FlowStep::Do(a)
            },
        }
    }

    /// Takes the answer to the operation that the executor has asked for,
    /// and says what is next.
    pub fn resume(&mut self, db: &mut Db, cache: &mut SpaceCache, result: RemoteResult) -> (s:
        FlowStep)
        requires
            old(db)@.wf(),
        ensures
            final(db)@.wf(),
            (final(self)@, final(db)@, final(cache)@, s@) == old(self)@.next(
                old(db)@,
                old(cache)@,
                result@,
            ),
    {
        let mut phase = FlowPhase::Finished;
        std::mem::swap(&mut self.phase, &mut phase);
        assert(self@ == old(self)@.at(FlowPhaseView::Finished));
        match phase {
            FlowPhase::Routing { router } => {
                let mut router = router;
                let step = router.advance(cache, result);
                match step {
                    RouterStep::Do(a) => {
                        self.phase = FlowPhase::Routing { router };
                        FlowStep::Do(a)
                    },
                    RouterStep::Done(Err(e)) => self.finish(Err(e)),
                    RouterStep::Done(Ok(room_id)) => {
                        match db.ensure_room(
                            room_id.as_str(),
                            self.site.as_str(),
                            self.slug.as_str(),
                        ) {
                            Ok(()) => self.room_known(room_id),
                            Err(_) => self.finish(Err(CommandError::Internal)),
                        }
                    },
                }
            },
            FlowPhase::ResolvingRoom => match result {
                RemoteResult::Resolved { room_id } => self.room_known(room_id),
                RemoteResult::NotFound => self.finish(Err(CommandError::NotFound)),
                _ => self.finish(Err(CommandError::RemoteTransient)),
            },
            FlowPhase::Joining { room_id } => match result {
                RemoteResult::Done => self.joined(room_id),
                _ => self.finish(Err(CommandError::RemoteTransient)),
            },
            FlowPhase::Naming { room_id } => {
                let a = self.action_in(room_id);
                self.phase = FlowPhase::Acting;
                FlowStep::Do(a)
            },
            FlowPhase::Acting => match result {
                RemoteResult::Done => self.finish(Ok(())),
                _ => self.finish(Err(CommandError::RemoteTransient)),
            },
            FlowPhase::Finished => FlowStep::Done(Err(CommandError::Internal)),
        }
    }
}

/// Begins to send the comment of a guest.
pub fn execute_send(
    cache: &SpaceCache,
    acting: &Acting,
    site_id: SiteId,
    post_slug: String,
    content: String,
    nickname: String,
    email: Option<String>,
    guest_token: String,
    reply_to: Option<String>,
    txn_id: Option<String>,
) -> (r: (CommandFlow, FlowStep))
    ensures
        (r.0@, r.1@) == send_begun(
            cache@,
            acting@,
            site_id@,
            post_slug@,
            content@,
            nickname@,
            opt_view(email),
            guest_token@,
            opt_view(reply_to),
            opt_view(txn_id),
        ),
{
    let server = acting.server_name.as_str();
    let fingerprint = compute_user_fingerprint(
        match &email {
            Some(e) => Some(e.as_str()),
            None => None,
        },
        guest_token.as_str(),
        acting.identity_salt.as_str(),
    );
    let reply_ok = match &reply_to {
        Some(r) => is_event_id(r.as_str()),
        None => true,
    };
    if !reply_ok {
        return CommandFlow::refuse(site_id, post_slug, server, CommandError::InvalidInput);
    }
    let actor = match &acting.ghost_localpart {
        Some(bot) => {
            match ghost_user_id(bot.as_str(), fingerprint.as_str(), server) {
                Some(id) => Some(id),
                None => {
                    return CommandFlow::refuse(
                        site_id,
                        post_slug,
                        server,
                        CommandError::InvalidInput,
                    );
                },
            }
        },
        None => None,
    };
    let started = ensure_room_for_as(
        cache,
        server,
        &site_id,
        post_slug.as_str(),
        match &acting.owner_id {
            Some(o) => Some(o.as_str()),
            None => None,
        },
    );
    match started {
        Err(_) => CommandFlow::refuse(site_id, post_slug, server, CommandError::InvalidInput),
        Ok((router, step)) => {
            let mut event = build_outbound_event(
                nickname.as_str(),
                content.as_str(),
                Some(fingerprint),
                txn_id,
            );
            event.reply_to = reply_to;
            match step {
                RouterStep::Do(action) => (
                    CommandFlow {
                        site: site_id,
                        slug: post_slug,
                        server: server.to_owned(),
                        job: Job::Send { event, nickname },
                        actor,
                        phase: FlowPhase::Routing { router },
                    },
                    FlowStep::Do(action),
                ),
                RouterStep::Done(_) => {
                    // a search for a thread begins with a lookup
                    assert(false);
                    CommandFlow::refuse(site_id, post_slug, server, CommandError::Internal)
                },
            }
        },
    }
}

/// Begins to redact a comment.
pub fn execute_redact(
    acting: &Acting,
    site_id: SiteId,
    slug: String,
    comment_id: String,
    reason: Option<String>,
) -> (r: (CommandFlow, FlowStep))
    ensures
        (r.0@, r.1@) == redact_begun(acting@, site_id@, slug@, comment_id@, opt_view(reason)),
{
    let server = acting.server_name.as_str();
    if !is_event_id(comment_id.as_str()) {
        return CommandFlow::refuse(site_id, slug, server, CommandError::InvalidInput);
    }
    CommandFlow::lookup(site_id, slug, server, Job::Redact { event_id: comment_id, reason }, None)
}

/// Begins to remove a comment for a guest who shows a fingerprint.
pub fn execute_user_delete(
    db: &Db,
    acting: &Acting,
    site_id: SiteId,
    slug: String,
    comment_id: String,
    user_fingerprint: String,
) -> (r: (CommandFlow, FlowStep))
    requires
        db@.wf(),
    ensures
        (r.0@, r.1@) == user_delete_begun(
            db@,
            acting@,
            site_id@,
            slug@,
            comment_id@,
            user_fingerprint@,
        ),
{
    match authorize(db, comment_id.as_str(), user_fingerprint.as_str()) {
        Err(e) => CommandFlow::refuse(site_id, slug, acting.server_name.as_str(), e),
        Ok(_) => execute_redact(
            acting,
            site_id,
            slug,
            comment_id,
            Some("User deleted their comment".to_string()),
        ),
    }
}

/// Begins to change a comment for a guest who shows a fingerprint.
pub fn execute_user_edit(
    db: &Db,
    acting: &Acting,
    site_id: SiteId,
    slug: String,
    comment_id: String,
    new_content: String,
    user_fingerprint: String,
) -> (r: (CommandFlow, FlowStep))
    requires
        db@.wf(),
    ensures
        (r.0@, r.1@) == user_edit_begun(
            db@,
            acting@,
            site_id@,
            slug@,
            comment_id@,
            new_content@,
            user_fingerprint@,
        ),
{
    let server = acting.server_name.as_str();
    match authorize(db, comment_id.as_str(), user_fingerprint.as_str()) {
        Err(e) => CommandFlow::refuse(site_id, slug, server, e),
        Ok(author) => {
            if !is_event_id(comment_id.as_str()) {
                return CommandFlow::refuse(site_id, slug, server, CommandError::InvalidInput);
            }
            let actor = if acting.ghost_localpart.is_some() {
                if !is_user_id(author.as_str()) {
                    return CommandFlow::refuse(site_id, slug, server, CommandError::InvalidInput);
                }
                Some(author)
            } else {
                None
            };
            CommandFlow::lookup(
                site_id,
                slug,
                server,
                Job::Edit { target: comment_id, content: new_content },
                actor,
            )
        },
    }
}

/// A guest who comes with another fingerprint than that of the author is
/// refused, for removing as for changing, and nothing is asked of the
/// network.
pub proof fn lemma_wrong_fingerprint_is_denied(
    db: DbView,
    cache: Map<Seq<char>, Seq<char>>,
    acting: ActingView,
    cmd: AppCommandView,
)
    requires
        cmd is UserDeleteComment || cmd is UserEditComment,
        ({
            let (id, fp) = match cmd {
                AppCommandView::UserDeleteComment { comment_id, user_fingerprint, .. } => (
                    comment_id,
                    user_fingerprint,
                ),
                AppCommandView::UserEditComment { comment_id, user_fingerprint, .. } => (
                    comment_id,
                    user_fingerprint,
                ),
                _ => arbitrary(),
            };
            db.comment(id) is Some && db.comment(id)->0.author_fingerprint != Some(fp)
        }),
    ensures
        begun(db, cache, acting, cmd).1 == FlowStepView::Done(Err(CommandError::PermissionDenied)),
        begun(db, cache, acting, cmd).0.phase is Finished,
{
}

/// A guest who comes with the fingerprint of the author may remove the
/// comment: the room is looked up, the event is redacted with the reason
/// that is given for such removals, and where the network does both the
/// command succeeds.
pub proof fn lemma_author_may_delete(
    db: DbView,
    cache: Map<Seq<char>, Seq<char>>,
    acting: ActingView,
    site: Seq<char>,
    slug: Seq<char>,
    comment_id: Seq<char>,
    fingerprint: Seq<char>,
    room_id: Seq<char>,
)
    requires
        db.comment(comment_id) is Some,
        db.comment(comment_id)->0.author_fingerprint == Some(fingerprint),
        event_id_well_formed(comment_id),
        room_alias_well_formed(thread_alias(site, slug, acting.server_name)),
    ensures
        ({
            let cmd = AppCommandView::UserDeleteComment {
                site_id: site,
                post_slug: slug,
                comment_id,
                user_fingerprint: fingerprint,
            };
            let (f0, s0) = begun(db, cache, acting, cmd);
            let (f1, d1, c1, s1) = f0.next(db, cache, RemoteResultView::Resolved { room_id });
            let (f2, d2, c2, s2) = f1.next(d1, c1, RemoteResultView::Done);
            &&& s0 == FlowStepView::Do(
                RemoteActionView::ResolveAlias {
                    alias: thread_alias(site, slug, acting.server_name),
                },
            )
            &&& s1 == FlowStepView::Do(
                RemoteActionView::Redact {
                    room_id,
                    event_id: comment_id,
                    reason: Some(user_deletion_reason()),
                },
            )
            &&& s2 == FlowStepView::Done(Ok(()))
            &&& d2 == db
        }),
{
}

/// A guest who comes with the fingerprint of the author may change the
/// comment. The edit names the comment it replaces and goes out under the
/// identity of the author, who joins the room first, or under the service
/// identity where that speaks for all; where the network does what is
/// asked the command succeeds.
pub proof fn lemma_author_may_edit(
    db: DbView,
    cache: Map<Seq<char>, Seq<char>>,
    acting: ActingView,
    site: Seq<char>,
    slug: Seq<char>,
    comment_id: Seq<char>,
    content: Seq<char>,
    fingerprint: Seq<char>,
    room_id: Seq<char>,
)
    requires
        db.comment(comment_id) is Some,
        db.comment(comment_id)->0.author_fingerprint == Some(fingerprint),
        event_id_well_formed(comment_id),
        room_alias_well_formed(thread_alias(site, slug, acting.server_name)),
        acting.ghost_localpart is Some ==> user_id_well_formed(
            db.comment(comment_id)->0.author_id,
        ),
    ensures
        ({
            let cmd = AppCommandView::UserEditComment {
                site_id: site,
                post_slug: slug,
                comment_id,
                content,
                user_fingerprint: fingerprint,
            };
            let author = db.comment(comment_id)->0.author_id;
            let actor = if acting.ghost_localpart is Some {
                Some(author)
            } else {
                None
            };
            let edit = RemoteActionView::SendEdit {
                room_id,
                user_id: actor,
                target: comment_id,
                fallback: edit_fallback(content),
                content,
            };
            let (f0, s0) = begun(db, cache, acting, cmd);
            let (f1, d1, c1, s1) = f0.next(db, cache, RemoteResultView::Resolved { room_id });
            let (f2, d2, c2, s2) = f1.next(d1, c1, RemoteResultView::Done);
            let (f3, d3, c3, s3) = f2.next(d2, c2, RemoteResultView::Done);
            &&& s0 is Do
            &&& acting.ghost_localpart is None ==> s1 == FlowStepView::Do(edit) && s2
                == FlowStepView::Done(Ok(()))
            &&& acting.ghost_localpart is Some ==> s1 == FlowStepView::Do(
                RemoteActionView::JoinRoom { room_id, user_id: actor },
            ) && s2 == FlowStepView::Do(edit) && s3 == FlowStepView::Done(Ok(()))
        }),
{
}

/// How many operations the execution of a command can still ask for, at most.
pub open spec fn flow_rank(f: FlowView) -> nat {
    match f.phase {
        FlowPhaseView::Finished => 0,
        FlowPhaseView::Acting => 1,
        FlowPhaseView::Naming { .. } => 2,
        FlowPhaseView::Joining { .. } => 3,
        FlowPhaseView::ResolvingRoom => 4,
        FlowPhaseView::Routing { router } => 4 + router.rank(),
    }
}

/// Every command is answered: with each answer of the network the
/// execution has fewer operations left to ask for, fifteen at the most,
/// and it is over exactly when it gives the answer to the command.
pub proof fn lemma_flow_terminates(
    f: FlowView,
    db: DbView,
    cache: Map<Seq<char>, Seq<char>>,
    result: RemoteResultView,
)
    requires
        f.phase is Routing ==> f.phase->router.phase !is Finished,
    ensures
        f.phase !is Finished ==> flow_rank(f.next(db, cache, result).0) < flow_rank(f),
        f.next(db, cache, result).3 is Done <==> f.next(db, cache, result).0.phase is Finished,
        f.next(db, cache, result).0.phase is Routing ==> f.next(
            db,
            cache,
            result,
        ).0.phase->router.phase !is Finished,
        flow_rank(f) <= 15,
{
    if f.phase is Routing {
        crate::router::lemma_router_terminates(f.phase->router, cache, result);
    }
}

} // verus!
