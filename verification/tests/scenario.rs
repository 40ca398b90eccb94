use cumments::commands::AppCommand;
use cumments::driver::BotConfig;
use cumments::driver::BotDriver;
use cumments::events::IngestEvent;
use cumments::executor::{CommandFlow, FlowStep};
use cumments::http::{
    admin_delete_comment, delete_comment, edit_comment, list_comments, post_comment,
    CreateCommentRequest, DeleteCommentRequest, EditCommentRequest, PaginationQuery,
};
use cumments::identity::compute_user_fingerprint;
use cumments::pow::{solve_pow, PowGuard};
use cumments::protocol::MessageContent;
use cumments::reconciler::{
    handle_incoming_redaction, handle_sync_event, Intake, MessageEvent, Relation,
};
use cumments::remote::{CommandError, RemoteAction, RemoteResult};
use cumments::router::SpaceCache;
use cumments::storage::Db;

/// A network of rooms in memory, with the bridge's side of it: commands go
/// out through the executor, and what the network has taken comes back
/// through the reconciler, as the pull driver would bring it.
struct Bridge {
    driver: BotDriver,
    db: Db,
    cache: SpaceCache,
    guard: PowGuard,
    aliases: Vec<(String, String)>,
    rooms: u32,
    events: u32,
    clock: i64,
    told: Vec<IngestEvent>,
}

impl Bridge {
    fn new() -> Bridge {
        Bridge {
            driver: BotDriver::new(BotConfig {
                homeserver_url: "http://localhost".to_string(),
                user_id: "@bot:example.org".to_string(),
                access_token: "t".to_string(),
                identity_salt: "salt".to_string(),
                device_id: "D".to_string(),
                owner_id: None,
            }),
            db: Db::new(),
            cache: SpaceCache::new(),
            guard: PowGuard::with_secret("pow"),
            aliases: Vec::new(),
            rooms: 0,
            events: 0,
            clock: 1_700_000_000_000,
            told: Vec::new(),
        }
    }

    fn alias_of(&self, room_id: &str) -> Option<String> {
        self.aliases.iter().find(|e| e.1 == room_id).map(|e| e.0.clone())
    }

    fn deliver(&mut self, room_id: &str, content: MessageContent, relation: Relation) {
        self.events += 1;
        self.clock += 1_000;
        let event = MessageEvent {
            event_id: format!("$e{}:example.org", self.events),
            room_id: room_id.to_string(),
            sender: "@bot:example.org".to_string(),
            origin_server_ts: self.clock,
            content,
            relation,
            raw: None,
        };
        let alias = self.alias_of(room_id);
        let bot = self.driver.bot_id().to_string();
        match handle_sync_event(&mut self.db, &event, alias.as_deref(), &bot, self.clock) {
            Intake::Saved(e) => self.told.push(e),
            other => panic!("{:?}", other),
        }
    }

    fn perform(&mut self, action: RemoteAction) -> RemoteResult {
        match action {
            RemoteAction::ResolveAlias { alias } => {
                match self.aliases.iter().find(|e| e.0 == alias) {
                    Some(e) => RemoteResult::Resolved { room_id: e.1.clone() },
                    None => RemoteResult::NotFound,
                }
            }
            RemoteAction::CreateRoom { alias_localpart, .. } => {
                let alias = format!("#{}:example.org", alias_localpart);
                if self.aliases.iter().any(|e| e.0 == alias) {
                    return RemoteResult::Conflict;
                }
                self.rooms += 1;
                let id = format!("!r{}:example.org", self.rooms);
                self.aliases.push((alias, id.clone()));
                RemoteResult::Created { room_id: id }
            }
            RemoteAction::SendMessage { room_id, event, .. } => {
                let relation = match event.reply_to {
                    Some(id) => Relation::Reply { event_id: id },
                    None => Relation::Plain,
                };
                let content =
                    MessageContent { metadata: Some(event.metadata), body: Some(event.body) };
                self.deliver(&room_id, content, relation);
                RemoteResult::Done
            }
            RemoteAction::SendEdit { room_id, target, fallback, content, .. } => {
                let relation = Relation::Replacement {
                    event_id: target,
                    new_content: Some(MessageContent { metadata: None, body: Some(content) }),
                };
                self.deliver(&room_id, MessageContent { metadata: None, body: Some(fallback) }, relation);
                RemoteResult::Done
            }
            RemoteAction::Redact { event_id, .. } => {
                if let Some(e) = handle_incoming_redaction(&mut self.db, Some(&event_id)) {
                    self.told.push(e);
                }
                RemoteResult::Done
            }
            _ => RemoteResult::Done,
        }
    }

    fn execute(&mut self, cmd: AppCommand) -> Result<(), CommandError> {
        let acting = self.driver.acting();
        let (mut flow, mut step) = CommandFlow::begin(&self.db, &self.cache, &acting, cmd);
        let mut steps = 0;
        loop {
            match step {
                FlowStep::Done(r) => return r,
                FlowStep::Do(action) => {
                    let result = self.perform(action);
                    step = flow.resume(&mut self.db, &mut self.cache, result);
                }
            }
            steps += 1;
            assert!(steps <= 15);
        }
    }

    fn post(&mut self, nickname: &str, content: &str) -> Result<(), CommandError> {
        let now = 1_700_000_000;
        let challenge = self.guard.challenge_at(now, &[self.events as u8; 16]);
        let answer = solve_pow(&challenge, 10_000_000).unwrap();
        let request = CreateCommentRequest {
            post_slug: "hello".to_string(),
            content: content.to_string(),
            nickname: nickname.to_string(),
            email: None,
            guest_token: "guest-token".to_string(),
            challenge_response: format!("{}|{}", challenge, answer),
            reply_to: None,
        };
        let cmd = post_comment(&mut self.guard, "demo.example", request, now).unwrap();
        self.execute(cmd)
    }

    fn list(&self) -> Vec<cumments::models::Comment> {
        list_comments(
            &self.db,
            "demo.example",
            "hello",
            PaginationQuery { page: None, per_page: None },
            "example.org",
        )
        .unwrap()
        .data
    }
}

fn guest_fingerprint() -> String {
    compute_user_fingerprint(None, "guest-token", "salt")
}

#[test]
fn guest_posts_a_comment() {
    let mut b = Bridge::new();
    assert_eq!(b.post("Ferris", "hi"), Ok(()));
    let comments = b.list();
    assert_eq!(comments.len(), 1);
    assert_eq!(comments[0].author_name, "Ferris");
    assert!(comments[0].is_guest);
    assert!(!comments[0].is_redacted);
    assert_eq!(comments[0].content, "hi");
    assert_eq!(comments[0].author_fingerprint, Some(guest_fingerprint()));
    assert_eq!(b.rooms, 2);
    assert_eq!(b.told.len(), 1);
    // a second comment goes to the same room
    assert_eq!(b.post("Ferris", "again"), Ok(()));
    assert_eq!(b.rooms, 2);
    assert_eq!(b.list().len(), 2);
}

#[test]
fn guest_edits_their_comment() {
    let mut b = Bridge::new();
    b.post("Ferris", "hi").unwrap();
    let id = b.list()[0].id.clone();
    let request = EditCommentRequest {
        content: "hi there".to_string(),
        user_fingerprint: guest_fingerprint(),
    };
    let cmd = edit_comment("demo.example", "hello", &id, request).unwrap();
    assert_eq!(b.execute(cmd), Ok(()));
    let comments = b.list();
    assert_eq!(comments.len(), 1);
    assert_eq!(comments[0].id, id);
    assert_eq!(comments[0].content, "hi there");
    assert!(comments[0].updated_at.is_some());
    assert_eq!(comments[0].author_name, "Ferris");
}

#[test]
fn another_guest_may_not_delete_it() {
    let mut b = Bridge::new();
    b.post("Ferris", "hi").unwrap();
    let id = b.list()[0].id.clone();
    let before = format!("{:?}", b.db);
    let request = DeleteCommentRequest { user_fingerprint: "someone else".to_string() };
    let e = delete_comment(&b.db, "demo.example", "hello", &id, request).unwrap_err();
    assert_eq!(e.status, 403);
    let cmd = AppCommand::UserDeleteComment {
        site_id: cumments::models::SiteId::new("demo.example").unwrap(),
        post_slug: "hello".to_string(),
        comment_id: id.clone(),
        user_fingerprint: "someone else".to_string(),
    };
    assert_eq!(b.execute(cmd), Err(CommandError::PermissionDenied));
    assert_eq!(format!("{:?}", b.db), before);
    assert_eq!(b.told.len(), 1);
    // the author may
    let request = DeleteCommentRequest { user_fingerprint: guest_fingerprint() };
    let cmd = delete_comment(&b.db, "demo.example", "hello", &id, request).unwrap();
    assert_eq!(b.execute(cmd), Ok(()));
    assert!(b.list()[0].is_redacted);
}

#[test]
fn administrator_redacts_it() {
    let mut b = Bridge::new();
    b.post("Ferris", "hi").unwrap();
    let id = b.list()[0].id.clone();
    let cmd = admin_delete_comment(Some("Bearer admin"), "admin", "demo.example", "hello", &id)
        .unwrap();
    assert_eq!(b.execute(cmd), Ok(()));
    let comments = b.list();
    assert_eq!(comments.len(), 1);
    assert_eq!(comments[0].content, "");
    assert_eq!(comments[0].author_name, "[Deleted]");
    assert!(comments[0].is_redacted);
    let deleted: Vec<&IngestEvent> = b
        .told
        .iter()
        .filter(|e| matches!(e, IngestEvent::CommentDeleted { comment_id, .. } if comment_id == &id))
        .collect();
    assert_eq!(deleted.len(), 1);
}
