use cumments::commands::AppCommand;
use cumments::executor::{
    authorize, execute_redact, execute_send, execute_user_delete, execute_user_edit, Acting,
    CommandFlow, FlowStep,
};
use cumments::identity::compute_user_fingerprint;
use cumments::models::{Comment, SiteId};
use cumments::remote::{CommandError, RemoteAction, RemoteResult};
use cumments::router::SpaceCache;
use cumments::storage::Db;

const THREAD: &str = "#demo.example_hello:example.org";

fn bot() -> Acting {
    Acting {
        server_name: "example.org".to_string(),
        identity_salt: "salt".to_string(),
        owner_id: None,
        ghost_localpart: None,
    }
}

fn ghosts() -> Acting {
    Acting { ghost_localpart: Some("cumments".to_string()), ..bot() }
}

fn site() -> SiteId {
    SiteId::new("demo.example").unwrap()
}

fn send(reply_to: Option<&str>) -> AppCommand {
    AppCommand::SendComment {
        site_id: site(),
        post_slug: "hello".to_string(),
        content: "hi".to_string(),
        nickname: "Ferris".to_string(),
        email: Some("ferris@example.org".to_string()),
        guest_token: "token".to_string(),
        reply_to: reply_to.map(|s| s.to_string()),
        txn_id: Some("txn-1".to_string()),
    }
}

fn fingerprint() -> String {
    compute_user_fingerprint(Some("ferris@example.org"), "token", "salt")
}

fn stored(db: &mut Db, id: &str, fp: Option<&str>, author: &str) {
    let c = Comment {
        id: id.to_string(),
        site_id: site(),
        post_slug: "hello".to_string(),
        author_id: author.to_string(),
        author_name: "Ferris".to_string(),
        author_fingerprint: fp.map(|s| s.to_string()),
        avatar_url: None,
        is_guest: fp.is_some(),
        content: "hi".to_string(),
        is_redacted: false,
        reply_to: None,
        created_at: 1,
        updated_at: None,
        txn_id: None,
    };
    db.upsert_comment("!t:x", "demo.example", "hello", &c, None).unwrap();
}

fn action(step: FlowStep) -> RemoteAction {
    match step {
        FlowStep::Do(a) => a,
        other => panic!("no action: {:?}", other),
    }
}

fn done(step: FlowStep) -> Result<(), CommandError> {
    match step {
        FlowStep::Done(r) => r,
        other => panic!("not done: {:?}", other),
    }
}

fn resolved(id: &str) -> RemoteResult {
    RemoteResult::Resolved { room_id: id.to_string() }
}

#[test]
fn comment_is_sent_by_the_service_identity() {
    let mut db = Db::new();
    let mut cache = SpaceCache::new();
    let (mut flow, step) = CommandFlow::begin(&db, &cache, &bot(), send(Some("$parent:example.org")));
    assert!(matches!(action(step), RemoteAction::ResolveAlias { alias } if alias == THREAD));
    let a = action(flow.resume(&mut db, &mut cache, resolved("!t:x")));
    assert!(matches!(a, RemoteAction::JoinRoom { room_id, user_id: None } if room_id == "!t:x"));
    let a = action(flow.resume(&mut db, &mut cache, RemoteResult::Done));
    match a {
        RemoteAction::SendMessage { room_id, user_id, event } => {
            assert_eq!(room_id, "!t:x");
            assert_eq!(user_id, None);
            assert_eq!(event.msgtype, "m.text");
            assert_eq!(event.body, "**Ferris** (Guest): hi");
            assert_eq!(event.metadata.author_name, "Ferris");
            assert!(event.metadata.is_guest);
            assert_eq!(event.metadata.origin_content, "hi");
            assert_eq!(event.metadata.author_fingerprint, Some(fingerprint()));
            assert_eq!(event.metadata.txn_id.as_deref(), Some("txn-1"));
            assert_eq!(event.reply_to.as_deref(), Some("$parent:example.org"));
        }
        other => panic!("{:?}", other),
    }
    // the room is known to the cache before the message goes out
    let (s, slug) = db.get_room_meta("!t:x").unwrap();
    assert_eq!((s.as_str(), slug.as_str()), ("demo.example", "hello"));
    assert_eq!(done(flow.resume(&mut db, &mut cache, RemoteResult::Done)), Ok(()));
    assert_eq!(
        done(flow.resume(&mut db, &mut cache, RemoteResult::Done)),
        Err(CommandError::Internal)
    );
}

#[test]
fn comment_is_sent_by_the_ghost_of_its_author() {
    let mut db = Db::new();
    let mut cache = SpaceCache::new();
    let ghost = format!("@cumments_{}:example.org", fingerprint());
    let (mut flow, _) = CommandFlow::begin(&db, &cache, &ghosts(), send(None));
    flow.resume(&mut db, &mut cache, resolved("!t:x"));
    let a = action(flow.resume(&mut db, &mut cache, RemoteResult::Done));
    assert!(matches!(&a, RemoteAction::JoinRoom { room_id, user_id: Some(u) }
        if room_id == "!t:x" && u == &ghost));
    let a = action(flow.resume(&mut db, &mut cache, RemoteResult::Done));
    assert!(matches!(&a, RemoteAction::SetDisplayName { ghost_id, display_name }
        if ghost_id == &ghost && display_name == "Ferris"));
    // the name is a courtesy
    let a = action(flow.resume(&mut db, &mut cache, RemoteResult::Failed));
    assert!(matches!(&a, RemoteAction::SendMessage { room_id, user_id: Some(u), event }
        if room_id == "!t:x" && u == &ghost && event.reply_to.is_none()));
    assert_eq!(done(flow.resume(&mut db, &mut cache, RemoteResult::Done)), Ok(()));
}

#[test]
fn room_is_created_for_the_first_comment() {
    let mut db = Db::new();
    let mut cache = SpaceCache::new();
    let (mut flow, _) = CommandFlow::begin(&db, &cache, &bot(), send(None));
    flow.resume(&mut db, &mut cache, RemoteResult::NotFound);
    flow.resume(&mut db, &mut cache, RemoteResult::NotFound);
    flow.resume(&mut db, &mut cache, RemoteResult::Created { room_id: "!s:x".to_string() });
    flow.resume(&mut db, &mut cache, RemoteResult::Created { room_id: "!t:x".to_string() });
    let a = action(flow.resume(&mut db, &mut cache, RemoteResult::Done));
    assert!(matches!(&a, RemoteAction::SendMessage { room_id, .. } if room_id == "!t:x"));
    assert!(db.get_room_meta("!t:x").is_some());
    assert_eq!(cache.get("demo.example").as_deref(), Some("!s:x"));
}

#[test]
fn comment_that_answers_no_event_is_refused_at_once() {
    let db = Db::new();
    let cache = SpaceCache::new();
    let (_, step) = CommandFlow::begin(&db, &cache, &bot(), send(Some("not an event")));
    assert_eq!(done(step), Err(CommandError::InvalidInput));
}

#[test]
fn comment_for_a_server_that_is_none_is_refused_at_once() {
    let db = Db::new();
    let cache = SpaceCache::new();
    let acting = Acting { server_name: "no server".to_string(), ..bot() };
    let (_, step) = CommandFlow::begin(&db, &cache, &acting, send(None));
    assert_eq!(done(step), Err(CommandError::InvalidInput));
    let acting = Acting { server_name: "no server".to_string(), ..ghosts() };
    let (_, step) = CommandFlow::begin(&db, &cache, &acting, send(None));
    assert_eq!(done(step), Err(CommandError::InvalidInput));
}

#[test]
fn room_of_another_thread_is_an_internal_failure() {
    let mut db = Db::new();
    db.ensure_room("!first:x", "demo.example", "hello").unwrap();
    let mut cache = SpaceCache::new();
    let (mut flow, _) = CommandFlow::begin(&db, &cache, &bot(), send(None));
    flow.resume(&mut db, &mut cache, resolved("!second:x"));
    assert_eq!(
        done(flow.resume(&mut db, &mut cache, RemoteResult::Done)),
        Err(CommandError::Internal)
    );
}

#[test]
fn failure_to_send_is_the_commands() {
    let mut db = Db::new();
    let mut cache = SpaceCache::new();
    let (mut flow, _) = CommandFlow::begin(&db, &cache, &bot(), send(None));
    flow.resume(&mut db, &mut cache, resolved("!t:x"));
    flow.resume(&mut db, &mut cache, RemoteResult::Done);
    assert_eq!(
        done(flow.resume(&mut db, &mut cache, RemoteResult::Failed)),
        Err(CommandError::RemoteTransient)
    );
    let (mut flow, _) = CommandFlow::begin(&db, &cache, &ghosts(), send(None));
    flow.resume(&mut db, &mut cache, resolved("!t:x"));
    flow.resume(&mut db, &mut cache, RemoteResult::Done);
    assert_eq!(
        done(flow.resume(&mut db, &mut cache, RemoteResult::Failed)),
        Err(CommandError::RemoteTransient)
    );
}

#[test]
fn administrator_redacts() {
    let mut db = Db::new();
    let mut cache = SpaceCache::new();
    let cmd = AppCommand::RedactComment {
        site_id: site(),
        post_slug: "hello".to_string(),
        comment_id: "$1:example.org".to_string(),
        reason: Some("spam".to_string()),
    };
    let (mut flow, step) = CommandFlow::begin(&db, &cache, &ghosts(), cmd);
    assert!(matches!(action(step), RemoteAction::ResolveAlias { alias } if alias == THREAD));
    let a = action(flow.resume(&mut db, &mut cache, resolved("!t:x")));
    assert!(matches!(&a, RemoteAction::Redact { room_id, event_id, reason }
        if room_id == "!t:x" && event_id == "$1:example.org" && reason.as_deref() == Some("spam")));
    assert_eq!(done(flow.resume(&mut db, &mut cache, RemoteResult::Done)), Ok(()));
}

#[test]
fn redaction_in_a_thread_without_room_is_not_found() {
    let mut db = Db::new();
    let mut cache = SpaceCache::new();
    let cmd = AppCommand::RedactComment {
        site_id: site(),
        post_slug: "hello".to_string(),
        comment_id: "$1".to_string(),
        reason: None,
    };
    let (mut flow, _) = CommandFlow::begin(&db, &cache, &bot(), cmd);
    assert_eq!(
        done(flow.resume(&mut db, &mut cache, RemoteResult::NotFound)),
        Err(CommandError::NotFound)
    );
}

#[test]
fn redaction_of_what_is_no_event_is_refused_at_once() {
    let db = Db::new();
    let cache = SpaceCache::new();
    let cmd = AppCommand::RedactComment {
        site_id: site(),
        post_slug: "hello".to_string(),
        comment_id: "1".to_string(),
        reason: None,
    };
    let (_, step) = CommandFlow::begin(&db, &cache, &bot(), cmd);
    assert_eq!(done(step), Err(CommandError::InvalidInput));
}

fn delete(fp: &str) -> AppCommand {
    AppCommand::UserDeleteComment {
        site_id: site(),
        post_slug: "hello".to_string(),
        comment_id: "$1".to_string(),
        user_fingerprint: fp.to_string(),
    }
}

fn edit(fp: &str) -> AppCommand {
    AppCommand::UserEditComment {
        site_id: site(),
        post_slug: "hello".to_string(),
        comment_id: "$1".to_string(),
        content: "hi there".to_string(),
        user_fingerprint: fp.to_string(),
    }
}

#[test]
fn only_the_author_is_authorized() {
    let mut db = Db::new();
    stored(&mut db, "$1", Some("fp"), "@cumments_fp:example.org");
    stored(&mut db, "$2", None, "@alice:example.org");
    assert_eq!(authorize(&db, "$1", "fp"), Ok("@cumments_fp:example.org".to_string()));
    assert_eq!(authorize(&db, "$1", "other"), Err(CommandError::PermissionDenied));
    assert_eq!(authorize(&db, "$1", ""), Err(CommandError::PermissionDenied));
    assert_eq!(authorize(&db, "$2", ""), Err(CommandError::PermissionDenied));
    assert_eq!(authorize(&db, "$3", "fp"), Err(CommandError::NotFound));
}

#[test]
fn another_fingerprint_is_denied_and_nothing_changes() {
    let mut db = Db::new();
    stored(&mut db, "$1", Some("fp"), "@cumments_fp:example.org");
    let before = format!("{:?}", db);
    let cache = SpaceCache::new();
    for acting in [bot(), ghosts()] {
        let (_, step) = CommandFlow::begin(&db, &cache, &acting, delete("other"));
        assert_eq!(done(step), Err(CommandError::PermissionDenied));
        let (_, step) = CommandFlow::begin(&db, &cache, &acting, edit("other"));
        assert_eq!(done(step), Err(CommandError::PermissionDenied));
    }
    assert_eq!(format!("{:?}", db), before);
}

#[test]
fn comment_that_is_not_there_is_not_found() {
    let db = Db::new();
    let cache = SpaceCache::new();
    let (_, step) = CommandFlow::begin(&db, &cache, &bot(), delete("fp"));
    assert_eq!(done(step), Err(CommandError::NotFound));
    let (_, step) = CommandFlow::begin(&db, &cache, &bot(), edit("fp"));
    assert_eq!(done(step), Err(CommandError::NotFound));
}

#[test]
fn author_deletes() {
    let mut db = Db::new();
    stored(&mut db, "$1", Some("fp"), "@cumments_fp:example.org");
    let mut cache = SpaceCache::new();
    let (mut flow, step) = CommandFlow::begin(&db, &cache, &ghosts(), delete("fp"));
    assert!(matches!(action(step), RemoteAction::ResolveAlias { alias } if alias == THREAD));
    let a = action(flow.resume(&mut db, &mut cache, resolved("!t:x")));
    assert!(matches!(&a, RemoteAction::Redact { room_id, event_id, reason }
        if room_id == "!t:x" && event_id == "$1"
            && reason.as_deref() == Some("User deleted their comment")));
    assert_eq!(done(flow.resume(&mut db, &mut cache, RemoteResult::Done)), Ok(()));
}

#[test]
fn author_edits_as_themselves() {
    let mut db = Db::new();
    stored(&mut db, "$1", Some("fp"), "@cumments_fp:example.org");
    let mut cache = SpaceCache::new();
    let (mut flow, _) = CommandFlow::begin(&db, &cache, &ghosts(), edit("fp"));
    let a = action(flow.resume(&mut db, &mut cache, resolved("!t:x")));
    assert!(matches!(&a, RemoteAction::JoinRoom { room_id, user_id: Some(u) }
        if room_id == "!t:x" && u == "@cumments_fp:example.org"));
    let a = action(flow.resume(&mut db, &mut cache, RemoteResult::Done));
    assert!(matches!(&a, RemoteAction::SendEdit { room_id, user_id: Some(u), target, fallback, content }
        if room_id == "!t:x" && u == "@cumments_fp:example.org" && target == "$1"
            && fallback == "* hi there" && content == "hi there"));
    assert_eq!(done(flow.resume(&mut db, &mut cache, RemoteResult::Done)), Ok(()));
}

#[test]
fn author_edits_through_the_service_identity() {
    let mut db = Db::new();
    stored(&mut db, "$1", Some("fp"), "@bot:example.org");
    let mut cache = SpaceCache::new();
    let (mut flow, _) = CommandFlow::begin(&db, &cache, &bot(), edit("fp"));
    let a = action(flow.resume(&mut db, &mut cache, resolved("!t:x")));
    assert!(matches!(&a, RemoteAction::SendEdit { user_id: None, target, .. } if target == "$1"));
    assert_eq!(done(flow.resume(&mut db, &mut cache, RemoteResult::Done)), Ok(()));
}

#[test]
fn edit_by_an_author_who_is_no_user_is_refused() {
    let mut db = Db::new();
    stored(&mut db, "$1", Some("fp"), "nobody");
    let cache = SpaceCache::new();
    let (_, step) = CommandFlow::begin(&db, &cache, &ghosts(), edit("fp"));
    assert_eq!(done(step), Err(CommandError::InvalidInput));
}

#[test]
fn each_command_has_a_beginning_of_its_own() {
    let mut db = Db::new();
    stored(&mut db, "$1", Some("fp"), "@cumments_fp:example.org");
    let cache = SpaceCache::new();
    let (_, step) = execute_send(
        &cache,
        &bot(),
        site(),
        "hello".to_string(),
        "hi".to_string(),
        "Ferris".to_string(),
        None,
        "token".to_string(),
        None,
        None,
    );
    assert!(matches!(action(step), RemoteAction::ResolveAlias { alias } if alias == THREAD));
    let (_, step) = execute_redact(&bot(), site(), "hello".to_string(), "$1".to_string(), None);
    assert!(matches!(action(step), RemoteAction::ResolveAlias { alias } if alias == THREAD));
    let (_, step) = execute_redact(&bot(), site(), "hello".to_string(), "x".to_string(), None);
    assert_eq!(done(step), Err(CommandError::InvalidInput));
    let (_, step) =
        execute_user_delete(&db, &bot(), site(), "hello".to_string(), "$1".to_string(), "fp".to_string());
    assert!(matches!(action(step), RemoteAction::ResolveAlias { alias } if alias == THREAD));
    let (_, step) =
        execute_user_delete(&db, &bot(), site(), "hello".to_string(), "$1".to_string(), "no".to_string());
    assert_eq!(done(step), Err(CommandError::PermissionDenied));
    let (_, step) = execute_user_edit(
        &db,
        &ghosts(),
        site(),
        "hello".to_string(),
        "$1".to_string(),
        "new".to_string(),
        "fp".to_string(),
    );
    assert!(matches!(action(step), RemoteAction::ResolveAlias { alias } if alias == THREAD));
    let (_, step) = execute_user_edit(
        &db,
        &ghosts(),
        site(),
        "hello".to_string(),
        "$2".to_string(),
        "new".to_string(),
        "fp".to_string(),
    );
    assert_eq!(done(step), Err(CommandError::NotFound));
}
