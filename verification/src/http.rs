//! What the web side decides before it hands a command to the bridge, and
//! what it makes of the answer.
//!
//! Nothing here speaks HTTP. Requests arrive as plain values and leave as a
//! command or as a refusal with a status and a text; routing, headers and
//! bodies are the caller's.

use vstd::prelude::*;
use vstd::string::*;
use crate::commands::{AppCommand, AppCommandView};
use crate::events::{IngestEvent, IngestEventView};
use crate::foreign::{event_id_well_formed, is_event_id};
use crate::models::{site_id_rejection, valid_site_id, Comment, CommentView, SiteId};
use crate::pow::{PowGuard, PowGuardView};
use crate::remote::CommandError;
use crate::router::{thread_alias, thread_alias_text};
use crate::storage::{comment_views, page_bounds, thread_comments, Db, DbView};
use crate::text::{
    chars_of, find_char, index_of_char, opt_view, slice_of, str_eq,
};

verus! {

pub const BAD_REQUEST: u16 = 400;

pub const UNAUTHORIZED: u16 = 401;

pub const FORBIDDEN: u16 = 403;

pub const NOT_FOUND: u16 = 404;

pub const INTERNAL_SERVER_ERROR: u16 = 500;

pub const BAD_GATEWAY: u16 = 502;

pub const GATEWAY_TIMEOUT: u16 = 504;

/// A refusal: the status and what is said with it.
#[derive(Debug)]
pub struct HttpError {
    pub status: u16,
    pub message: String,
}

pub struct HttpErrorView {
    pub status: u16,
    pub message: Seq<char>,
}

impl View for HttpError {
    type V = HttpErrorView;

    open spec fn view(&self) -> HttpErrorView {
        HttpErrorView { status: self.status, message: self.message@ }
    }
}

/// What a guest sends to post a comment.
#[derive(Debug)]
pub struct CreateCommentRequest {
    pub post_slug: String,
    pub content: String,
    pub nickname: String,
    pub email: Option<String>,
    pub guest_token: String,
    /// Challenge and answer, with a bar between them.
    pub challenge_response: String,
    pub reply_to: Option<String>,
}

/// What a guest sends to remove a comment of their own.
#[derive(Debug)]
pub struct DeleteCommentRequest {
    pub user_fingerprint: String,
}

/// What a guest sends to change a comment of their own.
#[derive(Debug)]
pub struct EditCommentRequest {
    pub content: String,
    pub user_fingerprint: String,
}

/// Which page of a thread is asked for.
#[derive(Debug, Clone, Copy)]
pub struct PaginationQuery {
    pub page: Option<i64>,
    pub per_page: Option<i64>,
}

/// What goes with a page of comments.
#[derive(Debug)]
pub struct PaginationMeta {
    pub total: i64,
    pub page: i64,
    pub per_page: i64,
    pub total_pages: i64,
    /// The address of the room of the thread.
    pub room_alias: String,
    /// A link that opens the room in a client.
    pub matrix_to_link: String,
}

/// A page of comments.
#[derive(Debug)]
pub struct PaginatedResponse {
    pub data: Vec<Comment>,
    pub meta: PaginationMeta,
}

/// What separates challenge and answer.
pub const BAR: char = '|';

/// Challenge and answer in what a guest has sent: what stands before and
/// behind the one bar. There is none where there is no bar, or more than one.
pub open spec fn challenge_and_answer(s: Seq<char>) -> Option<(Seq<char>, Seq<char>)> {
    if !s.contains(BAR) {
        None
    } else {
        let i = index_of_char(s, BAR);
        if s.skip(i + 1).contains(BAR) {
            None
        } else {
            Some((s.take(i), s.skip(i + 1)))
        }
    }
}

/// Takes apart what a guest has sent as challenge and answer.
pub fn split_challenge_response(s: &str) -> (r: Option<(String, String)>)
    ensures
        match r {
            Some((c, a)) => challenge_and_answer(s@) == Some((c@, a@)),
            None => challenge_and_answer(s@) is None,
        },
{
    let v = chars_of(s);
    let i = match find_char(&v, BAR) {
        Some(i) => i,
        None => {
            return None;
        },
    };
    let n = v.len();
    let answer = slice_of(s, i + 1, n);
    let a = chars_of(answer.as_str());
    assert(a@ =~= v@.skip(i + 1));
    if find_char(&a, BAR).is_some() {
        return None;
    }
    let challenge = slice_of(s, 0, i);
    assert(challenge@ =~= v@.take(i as int));
    Some((challenge, answer))
}

/// What is said to a guest whose proof of work is not taken.
pub open spec fn pow_rejection() -> Seq<char> {
    "Invalid PoW Challenge"@
}

/// What is said where a comment answers what is no event.
pub open spec fn reply_rejection(reply_to: Seq<char>) -> Seq<char> {
    "Invalid reply_to ID format: "@ + reply_to
}

/// Whether a request to post would be let in by the guard at `now`, as far
/// as the proof of work goes.
pub open spec fn work_accepted(guard: PowGuardView, challenge_response: Seq<char>, now: nat) -> bool {
    match challenge_and_answer(challenge_response) {
        Some((c, a)) => guard.accepts(c, a, now),
        None => false,
    }
}

/// The guard after a request to post was held against it.
pub open spec fn guard_after(guard: PowGuardView, challenge_response: Seq<char>, now: nat) -> PowGuardView {
    match challenge_and_answer(challenge_response) {
        Some((c, a)) => guard.after(c, a, now),
        None => guard,
    }
}

/// The command that a request to post a comment comes down to.
pub open spec fn send_command(site: Seq<char>, req: CreateCommentRequest) -> AppCommandView {
    AppCommandView::SendComment {
        site_id: site,
        post_slug: req.post_slug@,
        content: req.content@,
        nickname: req.nickname@,
        email: opt_view(req.email),
        guest_token: req.guest_token@,
        reply_to: opt_view(req.reply_to),
        txn_id: None,
    }
}

/// Admits a request to post a comment, or refuses it: for a tenant that is
/// none, for an answer to what is no event, and for a proof of work that
/// the guard does not take, in this order. The guard is asked only once
/// all else is in order, and an admitted request has used its challenge up.
pub fn post_comment(
    guard: &mut PowGuard,
    site_id: &str,
    payload: CreateCommentRequest,
    now: u64,
) -> (r: Result<AppCommand, HttpError>)
    ensures
        match r {
            Ok(cmd) => {
                &&& valid_site_id(site_id@)
                &&& payload.reply_to is Some ==> event_id_well_formed(payload.reply_to->0@)
                &&& work_accepted(old(guard)@, payload.challenge_response@, now as nat)
                &&& cmd@ == send_command(site_id@, payload)
            },
            Err(e) => if !valid_site_id(site_id@) {
                e@ == (HttpErrorView { status: BAD_REQUEST, message: site_id_rejection(site_id@) })
            } else if payload.reply_to is Some && !event_id_well_formed(payload.reply_to->0@) {
                e@ == (HttpErrorView {
                    status: BAD_REQUEST,
                    message: reply_rejection(payload.reply_to->0@),
                })
            } else {
                !work_accepted(old(guard)@, payload.challenge_response@, now as nat) && e@ == (
                HttpErrorView { status: FORBIDDEN, message: pow_rejection() })
            },
        },
        final(guard)@ == (if valid_site_id(site_id@) && (payload.reply_to is Some
            ==> event_id_well_formed(payload.reply_to->0@)) {
            guard_after(old(guard)@, payload.challenge_response@, now as nat)
        } else {
            old(guard)@
        }),
{
    let site = match SiteId::new(site_id) {
        Ok(s) => s,
        Err(message) => {
            return Err(HttpError { status: BAD_REQUEST, message });
        },
    };
    match &payload.reply_to {
        Some(reply_id) => {
            if !is_event_id(reply_id.as_str()) {
                let mut message = "Invalid reply_to ID format: ".to_string();
                message.append(reply_id.as_str());
                return Err(HttpError { status: BAD_REQUEST, message });
            }
        },
        None => {},
    }
    let taken = match split_challenge_response(payload.challenge_response.as_str()) {
        Some((challenge, answer)) => guard.verify_at(challenge.as_str(), answer.as_str(), now),
        None => false,
    };
    if !taken {
        return Err(HttpError { status: FORBIDDEN, message: "Invalid PoW Challenge".to_string() });
    }
    Ok(
        AppCommand::SendComment {
            site_id: site,
            post_slug: payload.post_slug,
            content: payload.content,
            nickname: payload.nickname,
            email: payload.email,
            guest_token: payload.guest_token,
            reply_to: payload.reply_to,
            txn_id: None,
        },
    )
}

/// The page that is meant: the first where none is named, or none before it.
pub open spec fn page_of(q: PaginationQuery) -> int {
    match q.page {
        Some(p) => if p < 1 {
            1
        } else {
            p as int
        },
        None => 1,
    }
}

/// How many comments a page holds: twenty where nothing is said, and at
/// least one and at most a hundred.
pub open spec fn per_page_of(q: PaginationQuery) -> int {
    match q.per_page {
        Some(n) => if n < 1 {
            1
        } else if n > 100 {
            100
        } else {
            n as int
        },
        None => 20,
    }
}

/// How many comments stand before a page; for pages beyond all counting
/// this is the greatest number there is.
pub open spec fn offset_of(q: PaginationQuery) -> int {
    let o = (page_of(q) - 1) * per_page_of(q);
    if o > i64::MAX {
        i64::MAX as int
    } else {
        o
    }
}

/// How many pages a thread with `total` comments has.
pub open spec fn pages_of(total: int, per_page: int) -> int {
    if total > 0 {
        (total + per_page - 1) / per_page
    } else {
        0
    }
}

/// What every link begins with that opens a room in a client.
pub open spec fn link_prefix() -> Seq<char> {
    "https://matrix.to/#/"@
}

/// What is said where a tenant is asked for that is none.
pub open spec fn site_rejection() -> Seq<char> {
    "Invalid Site ID format"@
}

/// A page of the comments of a thread, oldest first, with the count of all
/// and a link to the room of the thread.
pub fn list_comments(
    db: &Db,
    site_id: &str,
    slug: &str,
    pagination: PaginationQuery,
    server_name: &str,
) -> (r: Result<PaginatedResponse, HttpError>)
    requires
        db@.wf(),
        db@.comments.len() <= i64::MAX,
    ensures
        match r {
            Ok(page) => {
                let all = thread_comments(db@.comments, site_id@, slug@);
                let (from, to) = page_bounds(
                    all.len() as int,
                    per_page_of(pagination),
                    offset_of(pagination),
                );
                &&& valid_site_id(site_id@)
                &&& comment_views(page.data@) == all.subrange(from, to)
                &&& page.meta.total == all.len()
                &&& page.meta.page == page_of(pagination)
                &&& page.meta.per_page == per_page_of(pagination)
                &&& page.meta.total_pages == pages_of(all.len() as int, per_page_of(pagination))
                &&& page.meta.room_alias@ == thread_alias(site_id@, slug@, server_name@)
                &&& page.meta.matrix_to_link@ == link_prefix() + thread_alias(
                    site_id@,
                    slug@,
                    server_name@,
                )
            },
            Err(e) => !valid_site_id(site_id@) && e@ == (HttpErrorView {
                status: BAD_REQUEST,
                message: site_rejection(),
            }),
        },
{
    if SiteId::new(site_id).is_err() {
        return Err(
            HttpError { status: BAD_REQUEST, message: "Invalid Site ID format".to_string() },
        );
    }
    let page: i64 = match pagination.page {
        Some(p) => if p < 1 {
            1
        } else {
            p
        },
        None => 1,
    };
    let per_page: i64 = match pagination.per_page {
        Some(n) => if n < 1 {
            1
        } else if n > 100 {
            100
        } else {
            n
        },
        None => 20,
    };
    let offset: i64 = if page - 1 > i64::MAX / per_page {
        assert((page - 1) * per_page > i64::MAX) by (nonlinear_arith)
            requires
                page - 1 > i64::MAX / per_page,
                1 <= per_page <= 100,
        ;
        i64::MAX
    } else {
        assert((page - 1) * per_page <= i64::MAX) by (nonlinear_arith)
            requires
                0 <= page - 1 <= i64::MAX / per_page,
                1 <= per_page <= 100,
        ;
        (page - 1) * per_page
    };
    let (data, total) = db.list_comments(site_id, slug, per_page, offset);
    let total_pages: i64 = if total > 0 {
        (total - 1) / per_page + 1
    } else {
        0
    };
    assert(total_pages == pages_of(total as int, per_page as int)) by (nonlinear_arith)
        requires
            total_pages == (if total > 0 {
                (total - 1) / per_page as int + 1
            } else {
                0
            }),
            1 <= per_page <= 100,
            0 <= total,
    ;
    let room_alias = thread_alias_text(site_id, slug, server_name);
    let mut matrix_to_link = "https://matrix.to/#/".to_string();
    matrix_to_link.append(room_alias.as_str());
    Ok(
        PaginatedResponse {
            data,
            meta: PaginationMeta { total, page, per_page, total_pages, room_alias, matrix_to_link },
        },
    )
}

/// What is said to a guest who asks for the removal of a comment.
pub open spec fn deletion_refusal(db: DbView, site: Seq<char>, comment_id: Seq<char>, fingerprint: Seq<char>) -> Option<
    HttpErrorView,
> {
    if !valid_site_id(site) {
        Some(HttpErrorView { status: BAD_REQUEST, message: site_id_rejection(site) })
    } else {
        match db.comment(comment_id) {
            None => Some(HttpErrorView { status: NOT_FOUND, message: "Comment not found"@ }),
            Some(c) => if c.author_fingerprint != Some(fingerprint) {
                Some(
                    HttpErrorView {
                        status: FORBIDDEN,
                        message: "Permission Denied: Fingerprint mismatch"@,
                    },
                )
            } else if c.is_redacted {
                Some(HttpErrorView { status: BAD_REQUEST, message: "Already deleted"@ })
            } else {
                None
            },
        }
    }
}

/// Admits the request of a guest to remove a comment, or refuses it: for a
/// tenant that is none, a comment that is not there, a comment of another,
/// and a comment that is gone already.
pub fn delete_comment(
    db: &Db,
    site_id: &str,
    slug: &str,
    comment_id: &str,
    payload: DeleteCommentRequest,
) -> (r: Result<AppCommand, HttpError>)
    requires
        db@.wf(),
    ensures
        match r {
            Ok(cmd) => deletion_refusal(db@, site_id@, comment_id@, payload.user_fingerprint@)
                is None && cmd@ == (AppCommandView::UserDeleteComment {
                site_id: site_id@,
                post_slug: slug@,
                comment_id: comment_id@,
                user_fingerprint: payload.user_fingerprint@,
            }),
            Err(e) => deletion_refusal(db@, site_id@, comment_id@, payload.user_fingerprint@)
                == Some(e@),
        },
{
    let site = match SiteId::new(site_id) {
        Ok(s) => s,
        Err(message) => {
            return Err(HttpError { status: BAD_REQUEST, message });
        },
    };
    match db.get_comment(comment_id) {
        None => Err(HttpError { status: NOT_FOUND, message: "Comment not found".to_string() }),
        Some(c) => {
            let same = match &c.author_fingerprint {
                Some(fp) => str_eq(fp.as_str(), payload.user_fingerprint.as_str()),
                None => false,
            };
            if !same {
                Err(
                    HttpError {
                        status: FORBIDDEN,
                        message: "Permission Denied: Fingerprint mismatch".to_string(),
                    },
                )
            } else if c.is_redacted {
                Err(HttpError { status: BAD_REQUEST, message: "Already deleted".to_string() })
            } else {
                Ok(
                    AppCommand::UserDeleteComment {
                        site_id: site,
                        post_slug: slug.to_owned(),
                        comment_id: comment_id.to_owned(),
                        user_fingerprint: payload.user_fingerprint,
                    },
                )
            }
        },
    }
}

/// The command that the request of a guest to change a comment comes down
/// to. Whether the comment is theirs is for the executor to say.
pub fn edit_comment(site_id: &str, slug: &str, comment_id: &str, payload: EditCommentRequest) -> (r:
    Result<AppCommand, HttpError>)
    ensures
        match r {
            Ok(cmd) => valid_site_id(site_id@) && cmd@ == (AppCommandView::UserEditComment {
                site_id: site_id@,
                post_slug: slug@,
                comment_id: comment_id@,
                content: payload.content@,
                user_fingerprint: payload.user_fingerprint@,
            }),
            Err(e) => !valid_site_id(site_id@) && e@ == (HttpErrorView {
                status: BAD_REQUEST,
                message: site_id_rejection(site_id@),
            }),
        },
{
    let site = match SiteId::new(site_id) {
        Ok(s) => s,
        Err(message) => {
            return Err(HttpError { status: BAD_REQUEST, message });
        },
    };
    Ok(
        AppCommand::UserEditComment {
            site_id: site,
            post_slug: slug.to_owned(),
            comment_id: comment_id.to_owned(),
            content: payload.content,
            user_fingerprint: payload.user_fingerprint,
        },
    )
}

/// What an administrator has to show: the word `Bearer` and the token.
pub open spec fn bearer(token: Seq<char>) -> Seq<char> {
    "Bearer "@ + token
}

/// The reason that is given for a removal by an administrator.
pub open spec fn admin_reason() -> Seq<char> {
    "Admin deleted via API"@
}

/// What is said to one who asks for a removal as an administrator.
pub open spec fn admin_refusal(
    authorization: Option<Seq<char>>,
    admin_token: Seq<char>,
    site: Seq<char>,
) -> Option<HttpErrorView> {
    match authorization {
        None => Some(
            HttpErrorView { status: UNAUTHORIZED, message: "Missing Authorization header"@ },
        ),
        Some(a) => if a != bearer(admin_token) {
            Some(HttpErrorView { status: FORBIDDEN, message: "Invalid Admin Token"@ })
        } else if !valid_site_id(site) {
            Some(HttpErrorView { status: BAD_REQUEST, message: site_id_rejection(site) })
        } else {
            None
        },
    }
}

/// Admits the removal of a comment by an administrator, who shows the
/// token of the administration, or refuses it.
pub fn admin_delete_comment(
    authorization: Option<&str>,
    admin_token: &str,
    site_id: &str,
    slug: &str,
    comment_id: &str,
) -> (r: Result<AppCommand, HttpError>)
    ensures
        match r {
            Ok(cmd) => admin_refusal(
                crate::identity::opt_str_view(authorization),
                admin_token@,
                site_id@,
            ) is None && cmd@ == (AppCommandView::RedactComment {
                site_id: site_id@,
                post_slug: slug@,
                comment_id: comment_id@,
                reason: Some(admin_reason()),
            }),
            Err(e) => admin_refusal(
                crate::identity::opt_str_view(authorization),
                admin_token@,
                site_id@,
            ) == Some(e@),
        },
{
    let shown = match authorization {
        Some(a) => a,
        None => {
            return Err(
                HttpError {
                    status: UNAUTHORIZED,
                    message: "Missing Authorization header".to_string(),
                },
            );
        },
    };
    let mut expected = "Bearer ".to_string();
    expected.append(admin_token);
    if !str_eq(shown, expected.as_str()) {
        return Err(HttpError { status: FORBIDDEN, message: "Invalid Admin Token".to_string() });
    }
    let site = match SiteId::new(site_id) {
        Ok(s) => s,
        Err(message) => {
            return Err(HttpError { status: BAD_REQUEST, message });
        },
    };
    Ok(
        AppCommand::RedactComment {
            site_id: site,
            post_slug: slug.to_owned(),
            comment_id: comment_id.to_owned(),
            reason: Some("Admin deleted via API".to_string()),
        },
    )
}

/// How the wait for the answer to a command has ended.
#[derive(Debug, Clone, Copy)]
pub enum Reply {
    /// The command was answered.
    Answered(Result<(), CommandError>),
    /// The executor has gone without an answer.
    Dropped,
    /// No answer has come in time.
    TimedOut,
}

/// The status that the web side gives for the outcome of a command: none
/// for success, and for each kind of failure one of its own, so that a
/// caller can tell what is not theirs from what is gone, and a failure
/// from no answer at all.
pub open spec fn status_of(reply: Reply) -> Option<u16> {
    match reply {
        Reply::Answered(Ok(())) => None,
        Reply::Answered(Err(CommandError::InvalidInput)) => Some(BAD_REQUEST),
        Reply::Answered(Err(CommandError::PermissionDenied)) => Some(FORBIDDEN),
        Reply::Answered(Err(CommandError::NotFound)) => Some(NOT_FOUND),
        Reply::Answered(Err(CommandError::RemoteTransient)) => Some(BAD_GATEWAY),
        Reply::Answered(Err(CommandError::Internal)) => Some(INTERNAL_SERVER_ERROR),
        Reply::Dropped => Some(INTERNAL_SERVER_ERROR),
        Reply::TimedOut => Some(GATEWAY_TIMEOUT),
    }
}

/// A caller can tell the outcomes apart that matter to it: what is not
/// theirs from what is gone, either from a request that is wrong, and a
/// failure of any kind from no answer in time.
pub proof fn lemma_outcomes_are_told_apart()
    ensures
        status_of(Reply::Answered(Err(CommandError::PermissionDenied))) != status_of(
            Reply::Answered(Err(CommandError::NotFound)),
        ),
        status_of(Reply::Answered(Err(CommandError::PermissionDenied))) != status_of(
            Reply::Answered(Err(CommandError::InvalidInput)),
        ),
        status_of(Reply::Answered(Err(CommandError::NotFound))) != status_of(
            Reply::Answered(Err(CommandError::InvalidInput)),
        ),
        forall|e: CommandError|
            status_of(Reply::TimedOut) != #[trigger] status_of(Reply::Answered(Err(e))),
        forall|r: Reply| #[trigger] status_of(r) is None <==> r is Answered && r->Answered_0 is Ok,
{
}

/// The status for the outcome of a command.
pub fn reply_status(reply: Reply) -> (s: Option<u16>)
    ensures
        s == status_of(reply),
{
    match reply {
        Reply::Answered(Ok(())) => None,
        Reply::Answered(Err(CommandError::InvalidInput)) => Some(BAD_REQUEST),
        Reply::Answered(Err(CommandError::PermissionDenied)) => Some(FORBIDDEN),
        Reply::Answered(Err(CommandError::NotFound)) => Some(NOT_FOUND),
        Reply::Answered(Err(CommandError::RemoteTransient)) => Some(BAD_GATEWAY),
        Reply::Answered(Err(CommandError::Internal)) => Some(INTERNAL_SERVER_ERROR),
        Reply::Dropped => Some(INTERNAL_SERVER_ERROR),
        Reply::TimedOut => Some(GATEWAY_TIMEOUT),
    }
}

/// What a subscriber of a thread is sent.
#[derive(Debug)]
pub enum StreamMessage {
    NewComment(Comment),
    UpdateComment(Comment),
    DeleteComment { id: String },
}

pub enum StreamMessageView {
    NewComment(CommentView),
    UpdateComment(CommentView),
    DeleteComment { id: Seq<char> },
}

impl View for StreamMessage {
    type V = StreamMessageView;

    open spec fn view(&self) -> StreamMessageView {
        match *self {
            StreamMessage::NewComment(c) => StreamMessageView::NewComment(c@),
            StreamMessage::UpdateComment(c) => StreamMessageView::UpdateComment(c@),
            StreamMessage::DeleteComment { id } => StreamMessageView::DeleteComment { id: id@ },
        }
    }
}

impl StreamMessage {
    /// The name under which the message goes out.
    pub fn event_name(&self) -> (name: &'static str)
        ensures
            name@ == (match self@ {
                StreamMessageView::NewComment(_) => "new_comment"@,
                StreamMessageView::UpdateComment(_) => "update_comment"@,
                StreamMessageView::DeleteComment { .. } => "delete_comment"@,
            }),
    {
        match self {
            StreamMessage::NewComment(_) => "new_comment",
            StreamMessage::UpdateComment(_) => "update_comment",
            StreamMessage::DeleteComment { .. } => "delete_comment",
        }
    }
}

/// What a subscriber of a thread is told of a change: nothing of other
/// threads; of a comment that it was changed where it has a time of
/// change, and that it is new else; and of a deletion the identifier.
pub open spec fn streamed(event: IngestEventView, site: Seq<char>, slug: Seq<char>) -> Option<
    StreamMessageView,
> {
    match event {
        IngestEventView::CommentSaved { site_id, post_slug, comment } => if site_id == site
            && post_slug == slug {
            if comment.updated_at is Some {
                Some(StreamMessageView::UpdateComment(comment))
            } else {
                Some(StreamMessageView::NewComment(comment))
            }
        } else {
            None
        },
        IngestEventView::CommentDeleted { site_id, post_slug, comment_id } => if site_id == site
            && post_slug == slug {
            Some(StreamMessageView::DeleteComment { id: comment_id })
        } else {
            None
        },
    }
}

/// What a subscriber of a thread is told of a change.
pub fn sse_message(event: &IngestEvent, site_id: &str, slug: &str) -> (r: Option<StreamMessage>)
    ensures
        (match r {
            Some(m) => Some(m@),
            None => None,
        }) == streamed(event@, site_id@, slug@),
{
    match event {
        IngestEvent::CommentSaved { site_id: event_site, post_slug, comment } => {
            if str_eq(event_site.as_str(), site_id) && str_eq(post_slug.as_str(), slug) {
                if comment.updated_at.is_some() {
                    Some(StreamMessage::UpdateComment(comment.clone()))
                } else {
                    Some(StreamMessage::NewComment(comment.clone()))
                }
            } else {
                None
            }
        },
        IngestEvent::CommentDeleted { site_id: event_site, post_slug, comment_id } => {
            if str_eq(event_site.as_str(), site_id) && str_eq(post_slug.as_str(), slug) {
                Some(StreamMessage::DeleteComment { id: comment_id.clone() })
            } else {
                None
            }
        },
    }
}

} // verus!
