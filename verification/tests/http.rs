use cumments::commands::AppCommand;
use cumments::events::IngestEvent;
use cumments::http::{
    admin_delete_comment, delete_comment, edit_comment, list_comments, post_comment,
    reply_status, split_challenge_response, sse_message, CreateCommentRequest,
    DeleteCommentRequest, EditCommentRequest, PaginationQuery, Reply, StreamMessage,
};
use cumments::models::{Comment, SiteId};
use cumments::pow::{solve_pow, PowGuard};
use cumments::remote::CommandError;
use cumments::storage::Db;

fn comment(id: &str, created_at: i64) -> Comment {
    Comment {
        id: id.to_string(),
        site_id: SiteId::new("demo.example").unwrap(),
        post_slug: "hello".to_string(),
        author_id: "@bot:example.org".to_string(),
        author_name: "Ferris".to_string(),
        author_fingerprint: Some("fp".to_string()),
        avatar_url: None,
        is_guest: true,
        content: "hi".to_string(),
        is_redacted: false,
        reply_to: None,
        created_at,
        updated_at: None,
        txn_id: None,
    }
}

fn request(challenge_response: &str, reply_to: Option<&str>) -> CreateCommentRequest {
    CreateCommentRequest {
        post_slug: "hello".to_string(),
        content: "hi".to_string(),
        nickname: "Ferris".to_string(),
        email: None,
        guest_token: "token".to_string(),
        challenge_response: challenge_response.to_string(),
        reply_to: reply_to.map(|s| s.to_string()),
    }
}

fn solved(guard: &PowGuard, at: u64) -> String {
    let c = guard.challenge_at(at, &[1, 2, 3, 4]);
    let n = solve_pow(&c, 10_000_000).unwrap();
    format!("{}|{}", c, n)
}

#[test]
fn challenge_and_answer_stand_on_either_side_of_one_bar() {
    assert_eq!(split_challenge_response("a|b"), Some(("a".to_string(), "b".to_string())));
    assert_eq!(split_challenge_response("|"), Some(("".to_string(), "".to_string())));
    assert_eq!(split_challenge_response("ab"), None);
    assert_eq!(split_challenge_response("a|b|c"), None);
    assert_eq!(split_challenge_response(""), None);
}

#[test]
fn request_with_proof_of_work_becomes_a_command() {
    let mut guard = PowGuard::with_secret("secret");
    let proof = solved(&guard, 1_000);
    let cmd = post_comment(&mut guard, "demo.example", request(&proof, Some("$p:example.org")), 1_000)
        .unwrap();
    match cmd {
        AppCommand::SendComment {
            site_id, post_slug, content, nickname, email, guest_token, reply_to, txn_id,
        } => {
            assert_eq!(site_id.as_str(), "demo.example");
            assert_eq!(post_slug, "hello");
            assert_eq!(content, "hi");
            assert_eq!(nickname, "Ferris");
            assert_eq!(email, None);
            assert_eq!(guest_token, "token");
            assert_eq!(reply_to.as_deref(), Some("$p:example.org"));
            assert_eq!(txn_id, None);
        }
        other => panic!("{:?}", other),
    }
    // the challenge is used up
    let e = post_comment(&mut guard, "demo.example", request(&proof, None), 1_000).unwrap_err();
    assert_eq!((e.status, e.message.as_str()), (403, "Invalid PoW Challenge"));
}

#[test]
fn request_is_refused_for_the_first_thing_that_is_wrong() {
    let mut guard = PowGuard::with_secret("secret");
    let proof = solved(&guard, 1_000);
    let e = post_comment(&mut guard, "Demo_", request(&proof, Some("nope")), 1_000).unwrap_err();
    assert_eq!(e.status, 400);
    assert_eq!(
        e.message,
        "Site ID cannot contain underscores ('_'). Please use hyphens ('-') or dots ('.') instead."
    );
    let e = post_comment(&mut guard, "demo", request(&proof, Some("nope")), 1_000).unwrap_err();
    assert_eq!((e.status, e.message.as_str()), (400, "Invalid reply_to ID format: nope"));
    let e = post_comment(&mut guard, "demo", request("no bar", None), 1_000).unwrap_err();
    assert_eq!((e.status, e.message.as_str()), (403, "Invalid PoW Challenge"));
    let e = post_comment(&mut guard, "demo", request("a|b|c", None), 1_000).unwrap_err();
    assert_eq!(e.status, 403);
    // none of this has used the challenge up
    assert!(post_comment(&mut guard, "demo", request(&proof, None), 1_000).is_ok());
}

#[test]
fn page_of_comments_comes_with_its_numbers() {
    let mut db = Db::new();
    for i in 0..45 {
        db.upsert_comment("!t:x", "demo.example", "hello", &comment(&format!("${}", i), i), None)
            .unwrap();
    }
    let q = |page, per_page| PaginationQuery { page, per_page };
    let r = list_comments(&db, "demo.example", "hello", q(None, None), "example.org").unwrap();
    assert_eq!(r.data.len(), 20);
    assert_eq!(r.data[0].id, "$0");
    assert_eq!((r.meta.total, r.meta.page, r.meta.per_page, r.meta.total_pages), (45, 1, 20, 3));
    assert_eq!(r.meta.room_alias, "#demo.example_hello:example.org");
    assert_eq!(r.meta.matrix_to_link, "https://matrix.to/#/#demo.example_hello:example.org");
    let r = list_comments(&db, "demo.example", "hello", q(Some(3), Some(20)), "x").unwrap();
    assert_eq!(r.data.len(), 5);
    assert_eq!(r.data[0].id, "$40");
    let r = list_comments(&db, "demo.example", "hello", q(Some(4), Some(20)), "x").unwrap();
    assert!(r.data.is_empty());
    assert_eq!((r.meta.total, r.meta.page, r.meta.total_pages), (45, 4, 3));
    let r = list_comments(&db, "demo.example", "hello", q(Some(-5), Some(0)), "x").unwrap();
    assert_eq!((r.meta.page, r.meta.per_page, r.meta.total_pages, r.data.len()), (1, 1, 45, 1));
    let r = list_comments(&db, "demo.example", "hello", q(Some(1), Some(1000)), "x").unwrap();
    assert_eq!((r.meta.per_page, r.meta.total_pages, r.data.len()), (100, 1, 45));
    let r = list_comments(&db, "demo.example", "hello", q(Some(2), Some(15)), "x").unwrap();
    assert_eq!((r.meta.total_pages, r.data.len()), (3, 15));
    assert_eq!(r.data[0].id, "$15");
    let r = list_comments(&db, "demo.example", "hello", q(Some(i64::MAX), Some(100)), "x").unwrap();
    assert!(r.data.is_empty());
    assert_eq!(r.meta.page, i64::MAX);
    let r = list_comments(&db, "demo.example", "none", q(None, None), "x").unwrap();
    assert_eq!((r.meta.total, r.meta.total_pages, r.data.len()), (0, 0, 0));
    let e = list_comments(&db, "Demo", "hello", q(None, None), "x").unwrap_err();
    assert_eq!((e.status, e.message.as_str()), (400, "Invalid Site ID format"));
}

#[test]
fn guest_may_ask_to_remove_their_own_comment() {
    let mut db = Db::new();
    db.upsert_comment("!t:x", "demo.example", "hello", &comment("$1", 1), None).unwrap();
    let fp = |s: &str| DeleteCommentRequest { user_fingerprint: s.to_string() };
    let cmd = delete_comment(&db, "demo.example", "hello", "$1", fp("fp")).unwrap();
    assert!(matches!(cmd, AppCommand::UserDeleteComment { comment_id, user_fingerprint, post_slug, .. }
        if comment_id == "$1" && user_fingerprint == "fp" && post_slug == "hello"));
    let e = delete_comment(&db, "demo.example", "hello", "$1", fp("other")).unwrap_err();
    assert_eq!((e.status, e.message.as_str()), (403, "Permission Denied: Fingerprint mismatch"));
    let e = delete_comment(&db, "demo.example", "hello", "$2", fp("fp")).unwrap_err();
    assert_eq!((e.status, e.message.as_str()), (404, "Comment not found"));
    let e = delete_comment(&db, "Demo", "hello", "$1", fp("fp")).unwrap_err();
    assert_eq!((e.status, e.message.as_str()), (400, "Site ID contains invalid characters."));
    db.delete_comment("$1");
    let e = delete_comment(&db, "demo.example", "hello", "$1", fp("fp")).unwrap_err();
    assert_eq!((e.status, e.message.as_str()), (400, "Already deleted"));
}

#[test]
fn request_to_edit_becomes_a_command() {
    let req = || EditCommentRequest {
        content: "hi there".to_string(),
        user_fingerprint: "fp".to_string(),
    };
    let cmd = edit_comment("demo.example", "hello", "$1", req()).unwrap();
    assert!(matches!(cmd, AppCommand::UserEditComment { site_id, post_slug, comment_id, content, user_fingerprint }
        if site_id.as_str() == "demo.example" && post_slug == "hello" && comment_id == "$1"
            && content == "hi there" && user_fingerprint == "fp"));
    let e = edit_comment(&"a".repeat(65), "hello", "$1", req()).unwrap_err();
    assert_eq!((e.status, e.message.as_str()), (400, "Site ID is too long (max 64 chars)."));
}

#[test]
fn administrator_shows_the_token() {
    let cmd = admin_delete_comment(Some("Bearer admin"), "admin", "demo", "hello", "$1").unwrap();
    assert!(matches!(cmd, AppCommand::RedactComment { site_id, post_slug, comment_id, reason }
        if site_id.as_str() == "demo" && post_slug == "hello" && comment_id == "$1"
            && reason.as_deref() == Some("Admin deleted via API")));
    let e = admin_delete_comment(None, "admin", "demo", "hello", "$1").unwrap_err();
    assert_eq!((e.status, e.message.as_str()), (401, "Missing Authorization header"));
    for shown in ["admin", "Bearer", "Bearer  admin", "bearer admin", "Bearer admin2"] {
        let e = admin_delete_comment(Some(shown), "admin", "demo", "hello", "$1").unwrap_err();
        assert_eq!((e.status, e.message.as_str()), (403, "Invalid Admin Token"));
    }
    let e = admin_delete_comment(Some("Bearer admin"), "admin", "de_mo", "hello", "$1").unwrap_err();
    assert_eq!(e.status, 400);
}

#[test]
fn every_outcome_has_a_status_of_its_own() {
    assert_eq!(reply_status(Reply::Answered(Ok(()))), None);
    assert_eq!(reply_status(Reply::Answered(Err(CommandError::InvalidInput))), Some(400));
    assert_eq!(reply_status(Reply::Answered(Err(CommandError::PermissionDenied))), Some(403));
    assert_eq!(reply_status(Reply::Answered(Err(CommandError::NotFound))), Some(404));
    assert_eq!(reply_status(Reply::Answered(Err(CommandError::RemoteTransient))), Some(502));
    assert_eq!(reply_status(Reply::Answered(Err(CommandError::Internal))), Some(500));
    assert_eq!(reply_status(Reply::Dropped), Some(500));
    assert_eq!(reply_status(Reply::TimedOut), Some(504));
}

#[test]
fn subscribers_hear_of_their_thread_only() {
    let site = SiteId::new("demo.example").unwrap();
    let new = IngestEvent::CommentSaved {
        site_id: site.clone(),
        post_slug: "hello".to_string(),
        comment: comment("$1", 1),
    };
    let m = sse_message(&new, "demo.example", "hello").unwrap();
    assert_eq!(m.event_name(), "new_comment");
    assert!(matches!(m, StreamMessage::NewComment(c) if c.id == "$1"));
    assert!(sse_message(&new, "demo.example", "other").is_none());
    assert!(sse_message(&new, "other", "hello").is_none());

    let mut c = comment("$1", 1);
    c.updated_at = Some(2);
    let changed = IngestEvent::CommentSaved {
        site_id: site.clone(),
        post_slug: "hello".to_string(),
        comment: c,
    };
    let m = sse_message(&changed, "demo.example", "hello").unwrap();
    assert_eq!(m.event_name(), "update_comment");
    assert!(matches!(m, StreamMessage::UpdateComment(c) if c.updated_at == Some(2)));

    let gone = IngestEvent::CommentDeleted {
        site_id: site,
        post_slug: "hello".to_string(),
        comment_id: "$1".to_string(),
    };
    let m = sse_message(&gone, "demo.example", "hello").unwrap();
    assert_eq!(m.event_name(), "delete_comment");
    assert!(matches!(m, StreamMessage::DeleteComment { id } if id == "$1"));
    assert!(sse_message(&gone, "demo.example", "x").is_none());
}
