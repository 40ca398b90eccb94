use cumments::driver::{
    process_event, server_name_of, AppServiceConfig, AppServiceDriver, BotConfig, BotDriver,
    EventOutcome, Forbidden, SyncAction, SyncEvent, SyncLoop, TimelineEvent, TransactionQuery,
};
use cumments::protocol::MessageContent;
use cumments::reconciler::{DropReason, Intake, MessageEvent, Relation};
use cumments::storage::Db;

fn as_config() -> AppServiceConfig {
    AppServiceConfig {
        homeserver_url: "http://localhost:8008".to_string(),
        server_name: "example.org".to_string(),
        as_token: "as-secret".to_string(),
        hs_token: "hs-secret".to_string(),
        bot_localpart: "cumments".to_string(),
        listen_port: 9000,
        identity_salt: "salt".to_string(),
        owner_id: Some("@owner:example.org".to_string()),
    }
}

fn bot_config() -> BotConfig {
    BotConfig {
        homeserver_url: "http://localhost:8008".to_string(),
        user_id: "@bot:example.org".to_string(),
        access_token: "token".to_string(),
        identity_salt: "salt".to_string(),
        device_id: "DEVICE".to_string(),
        owner_id: None,
    }
}

fn message(id: &str, sender: &str, text: &str) -> TimelineEvent {
    TimelineEvent::Message(MessageEvent {
        event_id: id.to_string(),
        room_id: "!t:x".to_string(),
        sender: sender.to_string(),
        origin_server_ts: 1_000,
        content: MessageContent { metadata: None, body: Some(text.to_string()) },
        relation: Relation::Plain,
        raw: None,
    })
}

fn query(token: &str) -> TransactionQuery {
    TransactionQuery { access_token: token.to_string() }
}

#[test]
fn push_driver_names_its_identities() {
    let d = AppServiceDriver::new(as_config());
    assert_eq!(d.bot_id(), "@cumments:example.org");
    assert_eq!(d.ghost_prefix(), "@cumments_");
    assert_eq!(d.listen_port(), 9000);
    let a = d.acting();
    assert_eq!(a.server_name, "example.org");
    assert_eq!(a.identity_salt, "salt");
    assert_eq!(a.owner_id.as_deref(), Some("@owner:example.org"));
    assert_eq!(a.ghost_localpart.as_deref(), Some("cumments"));
}

#[test]
fn pull_driver_acts_as_itself() {
    let d = BotDriver::new(bot_config());
    assert_eq!(d.bot_id(), "@bot:example.org");
    let a = d.acting();
    assert_eq!(a.server_name, "example.org");
    assert_eq!(a.identity_salt, "salt");
    assert_eq!(a.owner_id, None);
    assert_eq!(a.ghost_localpart, None);
    assert_eq!(server_name_of("@bot:example.org:8448"), "example.org:8448");
    assert_eq!(server_name_of("bot"), "");
}

#[test]
fn sender_without_the_secret_is_turned_away() {
    let d = AppServiceDriver::new(as_config());
    let mut db = Db::new();
    db.ensure_room("!t:x", "demo", "hello").unwrap();
    db.upsert_profile_at("@alice:example.org", Some("Alice"), None, 0);
    let before = format!("{:?}", db);
    let events = vec![message("$1", "@alice:example.org", "hi")];
    for token in ["", "as-secret", "hs-secret ", "HS-SECRET"] {
        assert!(!d.authenticates(&query(token)));
        let r = d.handle_transaction(&mut db, &query(token), &events, 5);
        assert_eq!(r.err(), Some(Forbidden));
    }
    assert_eq!(format!("{:?}", db), before);
    assert!(d.authenticates(&query("hs-secret")));
}

#[test]
fn batch_is_dealt_with_event_by_event() {
    let d = AppServiceDriver::new(as_config());
    let mut db = Db::new();
    db.ensure_room("!t:x", "demo", "hello").unwrap();
    db.upsert_profile_at("@alice:example.org", Some("Alice"), None, 0);
    let events = vec![
        message("$1", "@alice:example.org", "hi"),
        TimelineEvent::Other,
        message("$2", "@cumments_abc:example.org", "echo"),
        message("$3", "@bob:example.org", "needs a profile"),
        TimelineEvent::Redaction { redacts: Some("$1".to_string()) },
        TimelineEvent::Redaction { redacts: Some("$nope".to_string()) },
        TimelineEvent::Redaction { redacts: None },
    ];
    let out = d.handle_transaction(&mut db, &query("hs-secret"), &events, 5).unwrap();
    assert_eq!(out.len(), 7);
    assert!(matches!(&out[0], EventOutcome::Message(Intake::Saved(_))));
    assert!(matches!(&out[1], EventOutcome::Ignored));
    assert!(matches!(&out[2], EventOutcome::Message(Intake::Dropped(DropReason::OwnMessage))));
    assert!(matches!(&out[3], EventOutcome::Message(Intake::NeedsProfile(_))));
    assert!(matches!(&out[4], EventOutcome::Redaction(Some(_))));
    assert!(matches!(&out[5], EventOutcome::Redaction(None)));
    assert!(matches!(&out[6], EventOutcome::Redaction(None)));
    let c = db.get_comment("$1").unwrap();
    assert!(c.is_redacted);
    assert_eq!(db.comment_count(), 1);
}

#[test]
fn empty_batch_is_acknowledged() {
    let d = AppServiceDriver::new(as_config());
    let mut db = Db::new();
    let out = d.handle_transaction(&mut db, &query("hs-secret"), &Vec::new(), 5).unwrap();
    assert!(out.is_empty());
}

#[test]
fn single_event_is_processed() {
    let mut db = Db::new();
    let out = process_event(&mut db, &message("$1", "@a:x", "hi"), "@bot:x", "@bot_", 5);
    assert!(matches!(out, EventOutcome::Message(Intake::Dropped(DropReason::UnknownRoom))));
    let out = process_event(&mut db, &TimelineEvent::Other, "@bot:x", "@bot_", 5);
    assert!(matches!(out, EventOutcome::Ignored));
}

fn polled(token: &str) -> SyncEvent {
    SyncEvent::Polled { next_batch: token.to_string() }
}

fn is_poll(a: &SyncAction, since: Option<&str>) -> bool {
    matches!(a, SyncAction::Poll { since: s, timeout_secs: 30 } if s.as_deref() == since)
}

#[test]
fn loop_starts_from_the_position_that_was_kept() {
    let mut db = Db::new();
    let (_, a) = SyncLoop::start(&db);
    assert!(is_poll(&a, None));
    db.save_sync_token("s7");
    let (_, a) = SyncLoop::start(&db);
    assert!(is_poll(&a, Some("s7")));
}

#[test]
fn position_is_written_down_before_the_loop_moves_on() {
    let mut db = Db::new();
    let (mut l, _) = SyncLoop::start(&db);
    let a = l.step(&mut db, polled("s1"));
    assert!(matches!(&a, SyncAction::SaveToken { token } if token == "s1"));
    assert_eq!(db.get_sync_token(), None);
    let a = l.step(&mut db, SyncEvent::TokenSaved);
    assert!(is_poll(&a, Some("s1")));
    assert_eq!(db.get_sync_token().as_deref(), Some("s1"));
    // nothing new: nothing to write down
    let a = l.step(&mut db, polled("s1"));
    assert!(is_poll(&a, Some("s1")));
}

#[test]
fn position_that_could_not_be_written_down_is_not_moved_to() {
    let mut db = Db::new();
    db.save_sync_token("s1");
    let (mut l, _) = SyncLoop::start(&db);
    l.step(&mut db, polled("s2"));
    let a = l.step(&mut db, SyncEvent::TokenSaveFailed);
    assert!(matches!(a, SyncAction::ReportLostToken));
    let a = l.step(&mut db, SyncEvent::Rested);
    assert!(is_poll(&a, Some("s1")));
    assert_eq!(db.get_sync_token().as_deref(), Some("s1"));
}

#[test]
fn failed_poll_is_tried_again_after_a_rest() {
    let mut db = Db::new();
    let (mut l, _) = SyncLoop::start(&db);
    for _ in 0..3 {
        let a = l.step(&mut db, SyncEvent::PollFailed);
        assert!(matches!(a, SyncAction::Backoff { secs: 5 }));
        let a = l.step(&mut db, SyncEvent::Rested);
        assert!(is_poll(&a, None));
    }
}

#[test]
fn loop_stops_when_told_and_stays_stopped() {
    let mut db = Db::new();
    let (mut l, _) = SyncLoop::start(&db);
    l.step(&mut db, SyncEvent::PollFailed);
    assert!(matches!(l.step(&mut db, SyncEvent::Cancelled), SyncAction::Stop));
    assert!(matches!(l.step(&mut db, polled("s1")), SyncAction::Stop));
    assert!(matches!(l.step(&mut db, SyncEvent::TokenSaved), SyncAction::Stop));
    assert_eq!(db.get_sync_token(), None);
    let (mut l, _) = SyncLoop::start(&db);
    l.step(&mut db, polled("s1"));
    assert!(matches!(l.step(&mut db, SyncEvent::Cancelled), SyncAction::Stop));
    assert_eq!(db.get_sync_token(), None);
}
