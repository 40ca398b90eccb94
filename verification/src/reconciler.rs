//! The event reconciler: what an event from a room does to the cache.
//!
//! A message becomes a comment under the identifier of the event, or, where
//! the message is an edit, under that of the event it replaces. A redaction
//! deletes the comment it names. Either can be delivered more than once and
//! in any order: the cache ends up the same.
//!
//! The reconciler does not reach out to the network itself. Where it needs
//! the profile of a sender that the cache does not have, it says so and
//! takes what the caller has fetched in a second step.

use vstd::prelude::*;
use vstd::string::*;
use crate::events::{IngestEvent, IngestEventView};
use crate::foreign::{chrono_holds_millis, millis_in_range};
use crate::models::{Comment, CommentView, SiteId, opt_time};
use crate::protocol::{
    extract_comment_data, extracted, guest_marker, parse_room_alias, room_alias_parts,
    MessageContent,
    MessageContentView, ALIAS_SIGIL,
};
use crate::storage::{Db, DbView, ProfileView, StorageError};
use crate::text::{
    chars_of, contains_pattern, find_char, find_pattern, index_of_char, is_blank, leading_run, occurs_at, opt_clone, opt_view,
    slice_of, str_eq, str_is_blank, str_starts_with, trim_leading_char,
};

verus! {

/// What a message refers to.
#[derive(Debug)]
pub enum Relation {
    /// Nothing: the message stands for itself.
    Plain,
    /// The event that the message answers.
    Reply { event_id: String },
    /// The event that the message replaces, and the content that it puts in
    /// its place, where that could be read.
    Replacement { event_id: String, new_content: Option<MessageContent> },
}

pub enum RelationView {
    Plain,
    Reply { event_id: Seq<char> },
    Replacement { event_id: Seq<char>, new_content: Option<MessageContentView> },
}

impl View for Relation {
    type V = RelationView;

    open spec fn view(&self) -> RelationView {
        match *self {
            Relation::Plain => RelationView::Plain,
            Relation::Reply { event_id } => RelationView::Reply { event_id: event_id@ },
            Relation::Replacement { event_id, new_content } => RelationView::Replacement {
                event_id: event_id@,
                new_content: match new_content {
                    Some(c) => Some(c@),
                    None => None,
                },
            },
        }
    }
}

/// A message event of a room, as far as the reconciler reads it. The time
/// is that of the server of origin, in milliseconds since the Unix epoch.
#[derive(Debug)]
pub struct MessageEvent {
    pub event_id: String,
    pub room_id: String,
    pub sender: String,
    pub origin_server_ts: i64,
    pub content: MessageContent,
    pub relation: Relation,
    /// The content as it was received, kept with the comment.
    pub raw: Option<String>,
}

pub struct MessageEventView {
    pub event_id: Seq<char>,
    pub room_id: Seq<char>,
    pub sender: Seq<char>,
    pub origin_server_ts: int,
    pub content: MessageContentView,
    pub relation: RelationView,
    pub raw: Option<Seq<char>>,
}

impl View for MessageEvent {
    type V = MessageEventView;

    open spec fn view(&self) -> MessageEventView {
        MessageEventView {
            event_id: self.event_id@,
            room_id: self.room_id@,
            sender: self.sender@,
            origin_server_ts: self.origin_server_ts as int,
            content: self.content@,
            relation: self.relation@,
            raw: opt_view(self.raw),
        }
    }
}

/// The identifier under which the comment of a message is kept: for an edit
/// that of the event it replaces, else its own.
pub open spec fn canonical_id(e: MessageEventView) -> Seq<char> {
    match e.relation {
        RelationView::Replacement { event_id, .. } => event_id,
        _ => e.event_id,
    }
}

/// The content that counts: for an edit the new content, where it could be
/// read, else that of the message itself.
pub open spec fn effective_content(e: MessageEventView) -> MessageContentView {
    match e.relation {
        RelationView::Replacement { new_content: Some(c), .. } => c,
        _ => e.content,
    }
}

/// The event that a message answers.
pub open spec fn reply_target(e: MessageEventView) -> Option<Seq<char>> {
    match e.relation {
        RelationView::Reply { event_id } => Some(event_id),
        _ => None,
    }
}

/// Whether a message is an edit.
pub open spec fn is_edit(e: MessageEventView) -> bool {
    e.relation is Replacement
}

/// The time of an event: the one it states, or, where that is no time that
/// can be kept, the time at which it is processed.
pub open spec fn event_time(stated: int, now: int) -> int {
    if chrono_holds_millis(stated) {
        stated
    } else {
        now
    }
}

/// The comment that a message gives before anything is known of its author
/// but what the message says.
pub open spec fn draft(
    e: MessageEventView,
    site: Seq<char>,
    slug: Seq<char>,
    bot: Seq<char>,
    now: int,
) -> CommentView {
    let x = extracted(effective_content(e), e.sender, bot);
    let t = event_time(e.origin_server_ts, now);
    CommentView {
        id: canonical_id(e),
        site_id: site,
        post_slug: slug,
        author_id: e.sender,
        author_name: x.author_name,
        author_fingerprint: if x.is_guest {
            x.author_fingerprint
        } else {
            None
        },
        avatar_url: None,
        is_guest: x.is_guest,
        content: x.content,
        is_redacted: false,
        reply_to: reply_target(e),
        created_at: t,
        updated_at: if is_edit(e) {
            Some(t)
        } else {
            None
        },
        txn_id: x.txn_id,
    }
}

/// A comment with what a profile says of its author: the name, where the
/// profile has one, and the avatar.
pub open spec fn enriched(
    c: CommentView,
    display_name: Option<Seq<char>>,
    avatar_url: Option<Seq<char>>,
) -> CommentView {
    CommentView {
        author_name: match display_name {
            Some(n) => n,
            None => c.author_name,
        },
        avatar_url,
        ..c
    }
}

/// The local part of a room address: what stands before the first colon,
/// without the sigils in front.
pub open spec fn alias_localpart(alias: Seq<char>) -> Seq<char> {
    let head = if alias.contains(':') {
        alias.take(index_of_char(alias, ':'))
    } else {
        alias
    };
    trim_leading_char(head, ALIAS_SIGIL)
}

/// The thread that a room address names.
pub open spec fn thread_of_alias(alias: Seq<char>) -> Option<(Seq<char>, Seq<char>)> {
    room_alias_parts(alias_localpart(alias))
}

/// Why an event leaves no trace.
#[derive(Debug, PartialEq, Eq, Clone, Copy, Structural)]
pub enum DropReason {
    /// The room is none of this bridge's threads.
    UnknownRoom,
    /// The bridge has sent the message itself.
    OwnMessage,
    /// There is no text in it.
    EmptyContent,
    /// The bridge speaks for itself in it, not for a guest.
    ServiceMessage,
}

/// A comment that waits for the profile of its author. Only the reconciler
/// makes one, so that what waits is always fit to be written.
#[derive(Debug)]
pub struct PendingComment {
    room_id: String,
    comment: Comment,
    raw_event: Option<String>,
}

pub struct PendingView {
    pub room_id: Seq<char>,
    pub comment: CommentView,
    pub raw_event: Option<Seq<char>>,
}

impl View for PendingComment {
    type V = PendingView;

    closed spec fn view(&self) -> PendingView {
        PendingView {
            room_id: self.room_id@,
            comment: self.comment@,
            raw_event: opt_view(self.raw_event),
        }
    }
}

impl PendingComment {
    #[verifier::type_invariant]
    spec fn fit(self) -> bool {
        self.comment@.wf() && !self.comment.is_redacted
    }

    /// The user whose profile the comment waits for.
    pub fn author_id(&self) -> (id: &str)
        ensures
            id@ == self@.comment.author_id,
    {
        self.comment.author_id.as_str()
    }

    /// The room that the comment came from.
    pub fn room_id(&self) -> (id: &str)
        ensures
            id@ == self@.room_id,
    {
        self.room_id.as_str()
    }
}

/// What the network says of a user.
#[derive(Debug)]
pub struct FetchedProfile {
    pub display_name: Option<String>,
    pub avatar_url: Option<String>,
}

pub struct FetchedProfileView {
    pub display_name: Option<Seq<char>>,
    pub avatar_url: Option<Seq<char>>,
}

impl View for FetchedProfile {
    type V = FetchedProfileView;

    open spec fn view(&self) -> FetchedProfileView {
        FetchedProfileView {
            display_name: opt_view(self.display_name),
            avatar_url: opt_view(self.avatar_url),
        }
    }
}

/// What became of a message.
#[derive(Debug)]
pub enum Intake {
    /// Nothing: the message is none that the cache keeps.
    Dropped(DropReason),
    /// Nothing yet: the caller fetches the profile of the author and hands
    /// it to `complete_with_profile`.
    NeedsProfile(PendingComment),
    /// The comment was written, and this is what subscribers are told.
    Saved(IngestEvent),
    /// The cache has refused the comment.
    Refused(StorageError),
}

pub enum IntakeView {
    Dropped(DropReason),
    NeedsProfile(PendingView),
    Saved(IngestEventView),
    Refused(StorageError),
}

impl View for Intake {
    type V = IntakeView;

    open spec fn view(&self) -> IntakeView {
        match *self {
            Intake::Dropped(r) => IntakeView::Dropped(r),
            Intake::NeedsProfile(p) => IntakeView::NeedsProfile(p@),
            Intake::Saved(e) => IntakeView::Saved(e@),
            Intake::Refused(e) => IntakeView::Refused(e),
        }
    }
}

/// Writing a comment: the cache after it, and what became of the comment.
pub open spec fn stored(
    db: DbView,
    room_id: Seq<char>,
    c: CommentView,
    raw: Option<Seq<char>>,
) -> (DbView, IntakeView) {
    if db.room_available(room_id, c.site_id, c.post_slug) {
        (
            db.upserted(room_id, c.site_id, c.post_slug, c, raw),
            IntakeView::Saved(
                IngestEventView::CommentSaved {
                    site_id: c.site_id,
                    post_slug: c.post_slug,
                    comment: c,
                },
            ),
        )
    } else {
        (db, IntakeView::Refused(StorageError::ThreadTaken))
    }
}

/// The plain body of a content, or nothing.
pub open spec fn body_of(content: MessageContentView) -> Seq<char> {
    match content.body {
        Some(b) => b,
        None => Seq::<char>::empty(),
    }
}

/// A message in which the bridge speaks for itself: it carries no
/// metadata, and comes from a ghost, or from the service identity without
/// the form of a guest's comment.
pub open spec fn service_message(
    content: MessageContentView,
    sender: Seq<char>,
    bot: Seq<char>,
    ghost_prefix: Option<Seq<char>>,
) -> bool {
    content.metadata is None && ((sender == bot && !contains_pattern(
        body_of(content),
        guest_marker(),
    )) || (ghost_prefix is Some && occurs_at(sender, ghost_prefix->0, 0)))
}

/// A stored comment with the text that an edit of the bridge itself gives
/// it: the author stays who it was.
pub open spec fn own_edit(
    was: CommentView,
    site: Seq<char>,
    slug: Seq<char>,
    text: Seq<char>,
    t: int,
) -> CommentView {
    CommentView {
        site_id: site,
        post_slug: slug,
        content: text,
        is_redacted: false,
        updated_at: Some(t),
        ..was
    }
}

/// What a message of a known thread does. A message in which the bridge
/// speaks for itself leaves no trace, unless it is an edit of a comment
/// that is there and not redacted: then the comment gets the new text. Of
/// any other message, nothing is kept where it has no text; else its
/// comment is written, a guest's as it is, another's with the cached
/// profile of its author; and where the cache has no fresh profile the
/// comment waits.
pub open spec fn taken_in(
    db: DbView,
    e: MessageEventView,
    site: Seq<char>,
    slug: Seq<char>,
    bot: Seq<char>,
    ghost_prefix: Option<Seq<char>>,
    now: int,
) -> (DbView, IntakeView) {
    let content = effective_content(e);
    if service_message(content, e.sender, bot, ghost_prefix) {
        let target = db.comment(canonical_id(e));
        if is_edit(e) && target is Some && !target->0.is_redacted && !is_blank(body_of(content)) {
            stored(
                db,
                e.room_id,
                own_edit(
                    target->0,
                    site,
                    slug,
                    body_of(content),
                    event_time(e.origin_server_ts, now),
                ),
                e.raw,
            )
        } else {
            (db, IntakeView::Dropped(DropReason::ServiceMessage))
        }
    } else {
        let c = draft(e, site, slug, bot, now);
        if is_blank(c.content) {
            (db, IntakeView::Dropped(DropReason::EmptyContent))
        } else if c.is_guest {
            stored(db, e.room_id, c, e.raw)
        } else {
            match db.fresh_profile(e.sender, now) {
                Some(p) => stored(db, e.room_id, enriched(c, p.display_name, p.avatar_url), e.raw),
                None => (
                    db,
                    IntakeView::NeedsProfile(
                        PendingView { room_id: e.room_id, comment: c, raw_event: e.raw },
                    ),
                ),
            }
        }
    }
}

/// What a message does that the pull driver has received, in a room with
/// the given address.
pub open spec fn sync_intake(
    db: DbView,
    e: MessageEventView,
    alias: Option<Seq<char>>,
    bot: Seq<char>,
    now: int,
) -> (DbView, IntakeView) {
    match alias {
        None => (db, IntakeView::Dropped(DropReason::UnknownRoom)),
        Some(a) => match thread_of_alias(a) {
            None => (db, IntakeView::Dropped(DropReason::UnknownRoom)),
            Some((site, slug)) => taken_in(db, e, site, slug, bot, None, now),
        },
    }
}

/// Whether a sender is one of the bridge's own identities: the service
/// identity itself, or one of its ghosts.
pub open spec fn own_identity(sender: Seq<char>, bot: Seq<char>, ghost_prefix: Seq<char>) -> bool {
    sender == bot || occurs_at(sender, ghost_prefix, 0)
}

/// What a message does that was pushed to the bridge. What the bridge has
/// sent itself is passed over, but for edits, which take effect here.
pub open spec fn push_intake(
    db: DbView,
    e: MessageEventView,
    bot: Seq<char>,
    ghost_prefix: Seq<char>,
    now: int,
) -> (DbView, IntakeView) {
    if own_identity(e.sender, bot, ghost_prefix) && !is_edit(e) {
        (db, IntakeView::Dropped(DropReason::OwnMessage))
    } else if !db.has_room(e.room_id) {
        (db, IntakeView::Dropped(DropReason::UnknownRoom))
    } else {
        let room = db.rooms[db.room_index(e.room_id)];
        taken_in(db, e, room.site_id, room.post_slug, bot, Some(ghost_prefix), now)
    }
}

/// What a comment does that has waited for a profile: the profile, where
/// there is one, is remembered and applied, and the comment is written.
pub open spec fn completed(
    db: DbView,
    pending: PendingView,
    fetched: Option<FetchedProfileView>,
    now: int,
) -> (DbView, IntakeView) {
    match fetched {
        Some(p) => stored(
            db.with_profile(
                ProfileView {
                    user_id: pending.comment.author_id,
                    display_name: p.display_name,
                    avatar_url: p.avatar_url,
                    last_updated_at: now,
                },
            ),
            pending.room_id,
            enriched(pending.comment, p.display_name, p.avatar_url),
            pending.raw_event,
        ),
        None => stored(db, pending.room_id, pending.comment, pending.raw_event),
    }
}

/// What a redaction does: the comment it names is deleted, and subscribers
/// are told so. One that names nothing, or nothing that is known, does nothing.
pub open spec fn redaction_applied(db: DbView, redacts: Option<Seq<char>>) -> (
    DbView,
    Option<IngestEventView>,
) {
    match redacts {
        None => (db, None),
        Some(id) => match db.comment(id) {
            None => (db, None),
            Some(c) => (
                db.deleted(id),
                Some(
                    IngestEventView::CommentDeleted {
                        site_id: c.site_id,
                        post_slug: c.post_slug,
                        comment_id: id,
                    },
                ),
            ),
        },
    }
}

/// The time of an event, as `event_time` gives it.
pub fn time_of_event(stated: i64, now: i64) -> (t: i64)
    ensures
        t == event_time(stated as int, now as int),
{
    if millis_in_range(stated) {
        stated
    } else {
        now
    }
}

/// The identifier under which the comment of a message is kept, the content
/// that counts, its time, and the time of change where the message is an edit.
pub fn resolve_event_details<'a>(event: &'a MessageEvent, now: i64) -> (r: (
    String,
    &'a MessageContent,
    i64,
    Option<i64>,
))
    ensures
        r.0@ == canonical_id(event@),
        r.1@ == effective_content(event@),
        r.2 == event_time(event@.origin_server_ts, now as int),
        opt_time(r.3) == (if is_edit(event@) {
            Some(r.2 as int)
        } else {
            None
        }),
{
    let t = time_of_event(event.origin_server_ts, now);
    match &event.relation {
        Relation::Replacement { event_id, new_content } => {
            let content = match new_content {
                Some(c) => c,
                None => &event.content,
            };
            (event_id.clone(), content, t, Some(t))
        },
        _ => (event.event_id.clone(), &event.content, t, None),
    }
}

/// The comment that a message gives, as `draft` says.
pub fn draft_comment(event: &MessageEvent, site: &SiteId, slug: &str, bot_id: &str, now: i64) -> (c:
    Comment)
    ensures
        c@ == draft(event@, site@, slug@, bot_id@, now as int),
        c@.wf(),
{
    let (id, content, t, updated_at) = resolve_event_details(event, now);
    let (author_name, is_guest, text, fingerprint, txn_id) = extract_comment_data(
        content,
        event.sender.as_str(),
        bot_id,
    );
    let reply_to = match &event.relation {
        Relation::Reply { event_id } => Some(event_id.clone()),
        _ => None,
    };
    Comment {
        id,
        site_id: site.clone(),
        post_slug: slug.to_owned(),
        author_id: event.sender.clone(),
        author_name,
        author_fingerprint: if is_guest {
            fingerprint
        } else {
            None
        },
        avatar_url: None,
        is_guest,
        content: text,
        is_redacted: false,
        reply_to,
        created_at: t,
        updated_at,
        txn_id,
    }
}

/// The thread that a room address names, if it names one.
pub fn parse_thread_alias(alias: &str) -> (r: Option<(SiteId, String)>)
    ensures
        match r {
            Some((site, slug)) => thread_of_alias(alias@) == Some((site@, slug@)),
            None => thread_of_alias(alias@) is None,
        },
{
    let v = chars_of(alias);
    let end = match find_char(&v, ':') {
        Some(i) => i,
        None => v.len(),
    };
    let head = slice_of(alias, 0, end);
    let h = chars_of(head.as_str());
    assert(h@ =~= (if alias@.contains(':') {
        alias@.take(index_of_char(alias@, ':'))
    } else {
        alias@
    }));
    let start = leading_run(&h, ALIAS_SIGIL);
    let n = h.len();
    let localpart = slice_of(head.as_str(), start, n);
    assert(localpart@ =~= alias_localpart(alias@));
    parse_room_alias(localpart.as_str())
}

/// Whether a sender is one of the bridge's own identities.
pub fn is_own_identity(sender: &str, bot_id: &str, ghost_prefix: &str) -> (r: bool)
    ensures
        r == own_identity(sender@, bot_id@, ghost_prefix@),
{
    str_eq(sender, bot_id) || str_starts_with(sender, ghost_prefix)
}

/// Applies a profile to a comment.
fn enrich(c: Comment, display_name: &Option<String>, avatar_url: &Option<String>) -> (r: Comment)
    ensures
        r@ == enriched(c@, opt_view(*display_name), opt_view(*avatar_url)),
{
    let mut c = c;
    match display_name {
        Some(n) => {
            c.author_name = n.clone();
        },
        None => {},
    }
    c.avatar_url = opt_clone(avatar_url);
    c
}

/// Writes a comment and says what subscribers are told.
fn store(db: &mut Db, room_id: &str, c: Comment, raw: Option<String>) -> (r: Intake)
    requires
        old(db)@.wf(),
        c@.wf(),
    ensures
        final(db)@.wf(),
        (final(db)@, r@) == stored(old(db)@, room_id@, c@, opt_view(raw)),
{
    match db.upsert_comment(room_id, c.site_id.as_str(), c.post_slug.as_str(), &c, raw) {
        Ok(()) => Intake::Saved(
            IngestEvent::CommentSaved {
                site_id: c.site_id.clone(),
                post_slug: c.post_slug.clone(),
                comment: c,
            },
        ),
        Err(e) => Intake::Refused(e),
    }
}

/// Whether the bridge speaks for itself in a message.
pub fn is_service_message(
    content: &MessageContent,
    sender: &str,
    bot_id: &str,
    ghost_prefix: Option<&str>,
) -> (r: bool)
    ensures
        r == service_message(
            content@,
            sender@,
            bot_id@,
            crate::identity::opt_str_view(ghost_prefix),
        ),
{
    if content.metadata.is_some() {
        return false;
    }
    let from_ghost = match ghost_prefix {
        Some(p) => str_starts_with(sender, p),
        None => false,
    };
    if from_ghost {
        return true;
    }
    if !str_eq(sender, bot_id) {
        return false;
    }
    let marker = chars_of(" (Guest): ");
    let found = match &content.body {
        Some(b) => {
            let v = chars_of(b.as_str());
            find_pattern(&v, &marker).is_some()
        },
        None => {
            let v: Vec<char> = Vec::new();
            find_pattern(&v, &marker).is_some()
        },
    };
    !found
}

/// Takes in a message of a known thread.
fn take_in(
    db: &mut Db,
    event: &MessageEvent,
    site: &SiteId,
    slug: &str,
    bot_id: &str,
    ghost_prefix: Option<&str>,
    now: i64,
) -> (r: Intake)
    requires
        old(db)@.wf(),
    ensures
        final(db)@.wf(),
        (final(db)@, r@) == taken_in(
            old(db)@,
            event@,
            site@,
            slug@,
            bot_id@,
            crate::identity::opt_str_view(ghost_prefix),
            now as int,
        ),
{
    let (id, content, t, _) = resolve_event_details(event, now);
    if is_service_message(content, event.sender.as_str(), bot_id, ghost_prefix) {
        let edit = match &event.relation {
            Relation::Replacement { .. } => true,
            _ => false,
        };
        if !edit {
            return Intake::Dropped(DropReason::ServiceMessage);
        }
        let text: String = match &content.body {
            Some(b) => b.clone(),
            None => String::new(),
        };
        return match db.get_comment(id.as_str()) {
            Some(was) => {
                if was.is_redacted || str_is_blank(text.as_str()) {
                    Intake::Dropped(DropReason::ServiceMessage)
                } else {
                    proof {
                        let k = db@.comment_index(id@);
                        assert(crate::storage::row_sound(db@.rooms, db@.comments[k]));
                    }
                    let mut c = was;
                    c.site_id = site.clone();
                    c.post_slug = slug.to_owned();
                    c.content = text;
                    c.is_redacted = false;
                    c.updated_at = Some(t);
                    store(db, event.room_id.as_str(), c, opt_clone(&event.raw))
                }
            },
            None => Intake::Dropped(DropReason::ServiceMessage),
        };
    }
    let c = draft_comment(event, site, slug, bot_id, now);
    if str_is_blank(c.content.as_str()) {
        return Intake::Dropped(DropReason::EmptyContent);
    }
    if c.is_guest {
        return store(db, event.room_id.as_str(), c, opt_clone(&event.raw));
    }
    match db.get_cached_profile_at(event.sender.as_str(), now) {
        Some(p) => {
            let c = enrich(c, &p.display_name, &p.avatar_url);
            store(db, event.room_id.as_str(), c, opt_clone(&event.raw))
        },
        None => Intake::NeedsProfile(
            PendingComment {
                room_id: event.room_id.clone(),
                comment: c,
                raw_event: opt_clone(&event.raw),
            },
        ),
    }
}

/// Takes in a message that the pull driver has received. `room_alias` is the
/// address of the room, as far as one could be found; `now` is the time of
/// processing in milliseconds.
pub fn handle_sync_event(
    db: &mut Db,
    event: &MessageEvent,
    room_alias: Option<&str>,
    bot_id: &str,
    now: i64,
) -> (r: Intake)
    requires
        old(db)@.wf(),
    ensures
        final(db)@.wf(),
        (final(db)@, r@) == sync_intake(
            old(db)@,
            event@,
            crate::identity::opt_str_view(room_alias),
            bot_id@,
            now as int,
        ),
{
    let alias = match room_alias {
        Some(a) => a,
        None => {
            return Intake::Dropped(DropReason::UnknownRoom);
        },
    };
    match parse_thread_alias(alias) {
        Some((site, slug)) => take_in(db, event, &site, slug.as_str(), bot_id, None, now),
        None => Intake::Dropped(DropReason::UnknownRoom),
    }
}

/// Takes in a message that was pushed to the bridge. `bot_id` is the
/// service identity, and `ghost_prefix` what the identities of its ghosts
/// begin with.
pub fn handle_incoming_message(
    db: &mut Db,
    event: &MessageEvent,
    bot_id: &str,
    ghost_prefix: &str,
    now: i64,
) -> (r: Intake)
    requires
        old(db)@.wf(),
    ensures
        final(db)@.wf(),
        (final(db)@, r@) == push_intake(old(db)@, event@, bot_id@, ghost_prefix@, now as int),
{
    let edit = match &event.relation {
        Relation::Replacement { .. } => true,
        _ => false,
    };
    if is_own_identity(event.sender.as_str(), bot_id, ghost_prefix) && !edit {
        return Intake::Dropped(DropReason::OwnMessage);
    }
    match db.get_room_meta(event.room_id.as_str()) {
        Some((site, slug)) => take_in(
            db,
            event,
            &site,
            slug.as_str(),
            bot_id,
            Some(ghost_prefix),
            now,
        ),
        None => Intake::Dropped(DropReason::UnknownRoom),
    }
}

/// Writes a comment that has waited for the profile of its author. `fetched`
/// is what the network has said of the author, or nothing where it could not
/// be asked: the comment is written all the same.
pub fn complete_with_profile(
    db: &mut Db,
    pending: PendingComment,
    fetched: Option<FetchedProfile>,
    now: i64,
) -> (r: Intake)
    requires
        old(db)@.wf(),
    ensures
        final(db)@.wf(),
        (final(db)@, r@) == completed(
            old(db)@,
            pending@,
            match fetched {
                Some(p) => Some(p@),
                None => None,
            },
            now as int,
        ),
{
    proof {
        use_type_invariant(&pending);
    }
    let PendingComment { room_id, comment, raw_event } = pending;
    match fetched {
        Some(p) => {
            db.upsert_profile_at(
                comment.author_id.as_str(),
                match &p.display_name {
                    Some(s) => Some(s.as_str()),
                    None => None,
                },
                match &p.avatar_url {
                    Some(s) => Some(s.as_str()),
                    None => None,
                },
                now,
            );
            let c = enrich(comment, &p.display_name, &p.avatar_url);
            store(db, room_id.as_str(), c, raw_event)
        },
        None => store(db, room_id.as_str(), comment, raw_event),
    }
}

/// Applies a redaction. `redacts` is the event that the redaction names.
pub fn handle_incoming_redaction(db: &mut Db, redacts: Option<&str>) -> (r: Option<IngestEvent>)
    requires
        old(db)@.wf(),
    ensures
        final(db)@.wf(),
        (
            final(db)@,
            match r {
                Some(e) => Some(e@),
                None => None,
            },
        ) == redaction_applied(old(db)@, crate::identity::opt_str_view(redacts)),
{
    let id = match redacts {
        Some(id) => id,
        None => {
            return None;
        },
    };
    match db.delete_comment(id) {
        Some((site_id, post_slug)) => Some(
            IngestEvent::CommentDeleted { site_id, post_slug, comment_id: id.to_owned() },
        ),
        None => None,
    }
}

/// An edit is kept under the identifier of the event it replaces, not
/// under its own, and carries a time of change.
pub proof fn lemma_edit_targets_original(
    e: MessageEventView,
    site: Seq<char>,
    slug: Seq<char>,
    bot: Seq<char>,
    now: int,
)
    requires
        e.relation is Replacement,
    ensures
        draft(e, site, slug, bot, now).id == e.relation->Replacement_event_id,
        draft(e, site, slug, bot, now).updated_at is Some,
{
}

/// The comment that is written where a message is saved at once.
pub open spec fn written(
    db: DbView,
    e: MessageEventView,
    site: Seq<char>,
    slug: Seq<char>,
    bot: Seq<char>,
    ghost_prefix: Option<Seq<char>>,
    now: int,
) -> CommentView {
    let content = effective_content(e);
    let c = draft(e, site, slug, bot, now);
    if service_message(content, e.sender, bot, ghost_prefix) {
        own_edit(
            db.comment(canonical_id(e))->0,
            site,
            slug,
            body_of(content),
            event_time(e.origin_server_ts, now),
        )
    } else if c.is_guest {
        c
    } else {
        let p = db.fresh_profile(e.sender, now)->0;
        enriched(c, p.display_name, p.avatar_url)
    }
}

/// A stored comment has a time of change exactly if the message that was
/// written last was an edit. It is kept under the canonical identifier of
/// that message: for an edit, that of the event which the edit replaces.
pub proof fn lemma_time_of_change_marks_edits(
    db: DbView,
    e: MessageEventView,
    site: Seq<char>,
    slug: Seq<char>,
    bot: Seq<char>,
    ghost_prefix: Option<Seq<char>>,
    now: int,
)
    requires
        db.wf(),
        taken_in(db, e, site, slug, bot, ghost_prefix, now).1 is Saved,
    ensures
        ({
            let after = taken_in(db, e, site, slug, bot, ghost_prefix, now).0;
            let id = canonical_id(e);
            &&& after.comment(id) is Some
            &&& after.comment(id)->0.id == id
            &&& after.comment(id)->0.updated_at is Some <==> is_edit(e)
            &&& is_edit(e) ==> id == e.relation->Replacement_event_id
        }),
{
    let w = written(db, e, site, slug, bot, ghost_prefix, now);
    lemma_written_is_sound(db, e, site, slug, bot, ghost_prefix, now);
    crate::storage::lemma_upserted_comment(db, e.room_id, site, slug, w, e.raw);
}

/// What is written of a message that is saved at once is a sound comment
/// under the canonical identifier of the message.
pub proof fn lemma_written_is_sound(
    db: DbView,
    e: MessageEventView,
    site: Seq<char>,
    slug: Seq<char>,
    bot: Seq<char>,
    ghost_prefix: Option<Seq<char>>,
    now: int,
)
    requires
        db.wf(),
        taken_in(db, e, site, slug, bot, ghost_prefix, now).1 is Saved,
    ensures
        ({
            let w = written(db, e, site, slug, bot, ghost_prefix, now);
            &&& w.wf()
            &&& w.id == canonical_id(e)
            &&& w.site_id == site
            &&& w.post_slug == slug
            &&& taken_in(db, e, site, slug, bot, ghost_prefix, now) == stored(db, e.room_id, w, e.raw)
        }),
{
    let content = effective_content(e);
    if service_message(content, e.sender, bot, ghost_prefix) {
        let id = canonical_id(e);
        let k = db.comment_index(id);
        assert(crate::storage::row_sound(db.rooms, db.comments[k]));
    }
}

/// Delivering a message a second time changes nothing: the cache after the
/// second delivery is the cache after the first, with one row for the
/// comment, and subscribers are told the same.
pub proof fn lemma_replay_changes_nothing(
    db: DbView,
    e: MessageEventView,
    site: Seq<char>,
    slug: Seq<char>,
    bot: Seq<char>,
    ghost_prefix: Option<Seq<char>>,
    now: int,
)
    requires
        db.wf(),
        taken_in(db, e, site, slug, bot, ghost_prefix, now).1 is Saved,
    ensures
        ({
            let first = taken_in(db, e, site, slug, bot, ghost_prefix, now);
            &&& taken_in(first.0, e, site, slug, bot, ghost_prefix, now).0 == first.0
            &&& taken_in(first.0, e, site, slug, bot, ghost_prefix, now).1 is Saved
            &&& !service_message(effective_content(e), e.sender, bot, ghost_prefix) ==> taken_in(
                first.0,
                e,
                site,
                slug,
                bot,
                ghost_prefix,
                now,
            ) == first
        }),
{
    let w = written(db, e, site, slug, bot, ghost_prefix, now);
    lemma_written_is_sound(db, e, site, slug, bot, ghost_prefix, now);
    crate::storage::lemma_upserted_comment(db, e.room_id, site, slug, w, e.raw);
    crate::storage::lemma_upserted_sound(db, e.room_id, site, slug, w, e.raw);
    crate::storage::lemma_upsert_idempotent(db, e.room_id, site, slug, w, e.raw);
    let first = taken_in(db, e, site, slug, bot, ghost_prefix, now);
    let d1 = first.0;
    assert(d1.profiles == db.profiles);
    if service_message(effective_content(e), e.sender, bot, ghost_prefix) {
        let id = canonical_id(e);
        let k = db.comment_index(id);
        let row1 = d1.comments[d1.comment_index(id)];
        let w2 = written(d1, e, site, slug, bot, ghost_prefix, now);
        assert(row1 == crate::storage::merged(db.comments[k], w));
        assert(crate::storage::row_sound(d1.rooms, row1));
        // the row that the first delivery has left takes the second as it took the first
        crate::storage::lemma_upserted_comment(d1, e.room_id, site, slug, w2, e.raw);
        let d2 = d1.upserted(e.room_id, site, slug, w2, e.raw);
        assert(crate::storage::merged(row1, w2) == row1);
        assert(d2.comments =~= d1.comments);
        assert(d1.with_room(e.room_id, site, slug) == d1);
    }
}

/// A redaction of a comment that is not known does nothing: the cache stays
/// as it is, and subscribers are told nothing.
pub proof fn lemma_unknown_redaction_is_noop(db: DbView, id: Seq<char>)
    requires
        !db.has_comment(id),
    ensures
        redaction_applied(db, Some(id)) == (db, None::<IngestEventView>),
{
}

/// A redaction of a known comment leaves the comment without content and
/// author, marks it as redacted, and tells subscribers once. A second
/// delivery of the redaction leaves the cache as the first has left it.
pub proof fn lemma_redaction_blanks_comment(db: DbView, id: Seq<char>)
    requires
        db.wf(),
        db.has_comment(id),
    ensures
        ({
            let (after, told) = redaction_applied(db, Some(id));
            &&& told == Some(
                IngestEventView::CommentDeleted {
                    site_id: db.comment(id)->0.site_id,
                    post_slug: db.comment(id)->0.post_slug,
                    comment_id: id,
                },
            )
            &&& after.comment(id) is Some
            &&& after.comment(id)->0.content.len() == 0
            &&& after.comment(id)->0.author_name == crate::models::deleted_author()
            &&& after.comment(id)->0.is_redacted
            &&& redaction_applied(after, Some(id)).0 == after
        }),
{
    crate::storage::lemma_deleted_comment(db, id);
    crate::storage::lemma_deleted_sound(db, id);
    let after = db.deleted(id);
    let k = after.comment_index(id);
    let k0 = db.comment_index(id);
    assert(after.comments[k0].comment.id == id);
    crate::storage::lemma_comment_index(after, k0);
    assert(crate::storage::redacted(after.comments[k]) == after.comments[k]);
    assert(after.deleted(id).comments =~= after.comments);
}

} // verus!
