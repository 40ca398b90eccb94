use cumments::models::SiteId;
use cumments::remote::{CommandError, RemoteAction, RemoteResult};
use cumments::router::{
    ensure_room_for_as, ensure_site_space, full_alias_text, resolve_room_alias_chain, room_localpart_text, space_alias_text,
    space_localpart_text, thread_alias_text, thread_room_name_text, AliasLookup, AliasSource,
    RouteGoal, RouterStep, SpaceCache, ThreadRouter,
};

const SERVER: &str = "example.org";
const THREAD: &str = "#demo.example_hello:example.org";
const SPACE: &str = "#cumments_demo.example:example.org";

fn start(cache: &SpaceCache, goal: RouteGoal) -> (ThreadRouter, RouterStep) {
    let site = SiteId::new("demo.example").unwrap();
    ThreadRouter::start(cache, &site, "hello", SERVER, Some("@owner:example.org"), goal).unwrap()
}

fn action(step: RouterStep) -> RemoteAction {
    match step {
        RouterStep::Do(a) => a,
        other => panic!("no action: {:?}", other),
    }
}

fn done(step: RouterStep) -> Result<String, CommandError> {
    match step {
        RouterStep::Done(r) => r,
        other => panic!("not done: {:?}", other),
    }
}

fn resolved(id: &str) -> RemoteResult {
    RemoteResult::Resolved { room_id: id.to_string() }
}

fn created(id: &str) -> RemoteResult {
    RemoteResult::Created { room_id: id.to_string() }
}

fn is_resolve(a: &RemoteAction, alias: &str) -> bool {
    matches!(a, RemoteAction::ResolveAlias { alias: x } if x == alias)
}

fn is_join(a: &RemoteAction, room: &str) -> bool {
    matches!(a, RemoteAction::JoinRoom { room_id, user_id: None } if room_id == room)
}

fn is_create_space(a: &RemoteAction) -> bool {
    matches!(a, RemoteAction::CreateRoom { alias_localpart, name, space: true, owner: None }
        if alias_localpart == "cumments_demo.example" && name == "demo.example")
}

fn is_create_thread(a: &RemoteAction) -> bool {
    matches!(a, RemoteAction::CreateRoom { alias_localpart, name, space: false, owner: Some(o) }
        if alias_localpart == "demo.example_hello" && name == "Comments for hello"
            && o == "@owner:example.org")
}

#[test]
fn addresses_are_made_from_tenant_and_thread() {
    assert_eq!(room_localpart_text("demo.example", "hello"), "demo.example_hello");
    assert_eq!(space_localpart_text("demo.example"), "cumments_demo.example");
    assert_eq!(full_alias_text("a_b", "example.org"), "#a_b:example.org");
    assert_eq!(thread_alias_text("demo.example", "hello", SERVER), THREAD);
    assert_eq!(space_alias_text("demo.example", SERVER), SPACE);
    assert_eq!(thread_room_name_text("hello"), "Comments for hello");
}

#[test]
fn room_that_exists_is_joined_and_taken() {
    let mut cache = SpaceCache::new();
    let (mut r, step) = start(&cache, RouteGoal::Thread);
    assert!(is_resolve(&action(step), THREAD));
    let step = r.advance(&mut cache, resolved("!t:x"));
    assert!(is_join(&action(step), "!t:x"));
    let step = r.advance(&mut cache, RemoteResult::Done);
    assert_eq!(done(step), Ok("!t:x".to_string()));
    assert_eq!(cache.get("demo.example"), None);
    // the router has said its last word
    assert_eq!(done(r.advance(&mut cache, RemoteResult::Done)), Err(CommandError::Internal));
}

#[test]
fn room_and_space_are_created_where_there_are_none() {
    let mut cache = SpaceCache::new();
    let (mut r, _) = start(&cache, RouteGoal::Thread);
    let a = action(r.advance(&mut cache, RemoteResult::NotFound));
    assert!(is_resolve(&a, SPACE));
    let a = action(r.advance(&mut cache, RemoteResult::NotFound));
    assert!(is_create_space(&a));
    let a = action(r.advance(&mut cache, created("!s:x")));
    assert!(is_create_thread(&a));
    assert_eq!(cache.get("demo.example").as_deref(), Some("!s:x"));
    let a = action(r.advance(&mut cache, created("!t:x")));
    assert!(matches!(&a, RemoteAction::LinkChild { space_id, room_id, via }
        if space_id == "!s:x" && room_id == "!t:x" && via == SERVER));
    // the link is a courtesy: the room is there with or without it
    assert_eq!(done(r.advance(&mut cache, RemoteResult::Failed)), Ok("!t:x".to_string()));
}

#[test]
fn space_that_exists_is_joined_and_remembered() {
    let mut cache = SpaceCache::new();
    let (mut r, _) = start(&cache, RouteGoal::Thread);
    r.advance(&mut cache, RemoteResult::NotFound);
    let a = action(r.advance(&mut cache, resolved("!s:x")));
    assert!(is_join(&a, "!s:x"));
    assert_eq!(cache.get("demo.example"), None);
    let a = action(r.advance(&mut cache, RemoteResult::Done));
    assert!(is_create_thread(&a));
    assert_eq!(cache.get("demo.example").as_deref(), Some("!s:x"));
}

#[test]
fn remembered_space_is_not_looked_up() {
    let mut cache = SpaceCache::new();
    cache.insert("demo.example", "!s:x");
    cache.insert("other", "!o:x");
    let (mut r, _) = start(&cache, RouteGoal::Thread);
    let a = action(r.advance(&mut cache, RemoteResult::NotFound));
    assert!(is_create_thread(&a));
    let a = action(r.advance(&mut cache, created("!t:x")));
    assert!(matches!(&a, RemoteAction::LinkChild { space_id, .. } if space_id == "!s:x"));
}

#[test]
fn memory_of_spaces_keeps_the_last_entry() {
    let mut cache = SpaceCache::new();
    assert_eq!(cache.get("a"), None);
    cache.insert("a", "!1:x");
    cache.insert("b", "!2:x");
    cache.insert("a", "!3:x");
    assert_eq!(cache.get("a").as_deref(), Some("!3:x"));
    assert_eq!(cache.get("b").as_deref(), Some("!2:x"));
    assert_eq!(cache.get("c"), None);
}

#[test]
fn loser_of_the_race_for_a_room_takes_the_winners() {
    let mut cache = SpaceCache::new();
    cache.insert("demo.example", "!s:x");
    let (mut r, _) = start(&cache, RouteGoal::Thread);
    r.advance(&mut cache, RemoteResult::NotFound);
    let a = action(r.advance(&mut cache, RemoteResult::Conflict));
    assert!(is_resolve(&a, THREAD));
    assert_eq!(done(r.advance(&mut cache, resolved("!winner:x"))), Ok("!winner:x".to_string()));
}

#[test]
fn loser_of_the_race_for_a_space_takes_the_winners() {
    let mut cache = SpaceCache::new();
    let (mut r, _) = start(&cache, RouteGoal::Thread);
    r.advance(&mut cache, RemoteResult::NotFound);
    r.advance(&mut cache, RemoteResult::NotFound);
    let a = action(r.advance(&mut cache, RemoteResult::Conflict));
    assert!(is_resolve(&a, SPACE));
    let a = action(r.advance(&mut cache, resolved("!winner:x")));
    assert!(is_create_thread(&a));
    assert_eq!(cache.get("demo.example").as_deref(), Some("!winner:x"));
}

#[test]
fn two_callers_end_with_one_room() {
    // a directory that gives an address to the first who asks for it
    let mut dir: Vec<(String, String)> = Vec::new();
    let mut made = 0;
    let mut answer = |a: &RemoteAction| -> RemoteResult {
        match a {
            RemoteAction::ResolveAlias { alias } => match dir.iter().find(|e| &e.0 == alias) {
                Some(e) => RemoteResult::Resolved { room_id: e.1.clone() },
                None => RemoteResult::NotFound,
            },
            RemoteAction::CreateRoom { alias_localpart, .. } => {
                let alias = format!("#{}:{}", alias_localpart, SERVER);
                if dir.iter().any(|e| e.0 == alias) {
                    RemoteResult::Conflict
                } else {
                    made += 1;
                    let id = format!("!{}:x", made);
                    dir.push((alias, id.clone()));
                    RemoteResult::Created { room_id: id }
                }
            }
            _ => RemoteResult::Done,
        }
    };
    let mut cache_a = SpaceCache::new();
    let mut cache_b = SpaceCache::new();
    let (mut a, step_a) = start(&cache_a, RouteGoal::Thread);
    let (mut b, step_b) = start(&cache_b, RouteGoal::Thread);
    let mut step_a = step_a;
    let mut step_b = step_b;
    // turn by turn
    let mut turns = 0;
    loop {
        let mut moved = false;
        if let RouterStep::Do(act) = &step_a {
            let res = answer(act);
            step_a = a.advance(&mut cache_a, res);
            moved = true;
        }
        if let RouterStep::Do(act) = &step_b {
            let res = answer(act);
            step_b = b.advance(&mut cache_b, res);
            moved = true;
        }
        turns += 1;
        if !moved {
            break;
        }
        assert!(turns <= 12);
    }
    let room_a = done(step_a).unwrap();
    let room_b = done(step_b).unwrap();
    assert_eq!(room_a, room_b);
    assert_eq!(made, 2); // one space, one room
}

#[test]
fn room_that_cannot_be_joined_is_replaced() {
    let mut cache = SpaceCache::new();
    cache.insert("demo.example", "!s:x");
    let (mut r, _) = start(&cache, RouteGoal::Thread);
    r.advance(&mut cache, resolved("!stale:x"));
    let a = action(r.advance(&mut cache, RemoteResult::Failed));
    assert!(matches!(&a, RemoteAction::RetireAlias { alias } if alias == THREAD));
    let a = action(r.advance(&mut cache, RemoteResult::Done));
    assert!(is_create_thread(&a));
    r.advance(&mut cache, created("!new:x"));
    assert_eq!(done(r.advance(&mut cache, RemoteResult::Done)), Ok("!new:x".to_string()));
}

#[test]
fn space_that_cannot_be_joined_is_looked_up_again_before_another_is_made() {
    let mut cache = SpaceCache::new();
    let (mut r, _) = start(&cache, RouteGoal::Container);
    r.advance(&mut cache, resolved("!s:x"));
    let a = action(r.advance(&mut cache, RemoteResult::Failed));
    assert!(is_resolve(&a, SPACE));
    let a = action(r.advance(&mut cache, resolved("!s:x")));
    assert!(is_join(&a, "!s:x"));
    let a = action(r.advance(&mut cache, RemoteResult::Failed));
    assert!(is_create_space(&a));
    assert_eq!(done(r.advance(&mut cache, created("!s2:x"))), Ok("!s2:x".to_string()));
    assert_eq!(cache.get("demo.example").as_deref(), Some("!s2:x"));
}

#[test]
fn search_begins_under_either_name() {
    let mut cache = SpaceCache::new();
    let site = SiteId::new("demo.example").unwrap();
    let (_, step) = ensure_room_for_as(&cache, SERVER, &site, "hello", None).unwrap();
    assert!(is_resolve(&action(step), THREAD));
    let (_, step) = ensure_site_space(&cache, SERVER, &site).unwrap();
    assert!(is_resolve(&action(step), SPACE));
    cache.insert("demo.example", "!s:x");
    let (_, step) = ensure_site_space(&cache, SERVER, &site).unwrap();
    assert_eq!(done(step), Ok("!s:x".to_string()));
    assert_eq!(ensure_site_space(&cache, "no server", &site).err(), Some(CommandError::InvalidInput));
    assert_eq!(
        ensure_room_for_as(&cache, "no server", &site, "hello", None).err(),
        Some(CommandError::InvalidInput)
    );
}

#[test]
fn space_alone_can_be_asked_for() {
    let mut cache = SpaceCache::new();
    let (mut r, step) = start(&cache, RouteGoal::Container);
    assert!(is_resolve(&action(step), SPACE));
    r.advance(&mut cache, resolved("!s:x"));
    assert_eq!(done(r.advance(&mut cache, RemoteResult::Done)), Ok("!s:x".to_string()));
    let (_, step) = start(&cache, RouteGoal::Container);
    assert_eq!(done(step), Ok("!s:x".to_string()));
}

#[test]
fn failure_of_the_network_ends_the_search() {
    let mut cache = SpaceCache::new();
    let (mut r, _) = start(&cache, RouteGoal::Thread);
    assert_eq!(
        done(r.advance(&mut cache, RemoteResult::Failed)),
        Err(CommandError::RemoteTransient)
    );
    let (mut r, _) = start(&cache, RouteGoal::Thread);
    r.advance(&mut cache, RemoteResult::NotFound);
    assert_eq!(
        done(r.advance(&mut cache, RemoteResult::Failed)),
        Err(CommandError::RemoteTransient)
    );
    let (mut r, _) = start(&cache, RouteGoal::Thread);
    r.advance(&mut cache, RemoteResult::NotFound);
    r.advance(&mut cache, RemoteResult::NotFound);
    assert_eq!(
        done(r.advance(&mut cache, RemoteResult::Failed)),
        Err(CommandError::RemoteTransient)
    );
}

#[test]
fn addresses_that_are_not_well_formed_are_refused_at_once() {
    let cache = SpaceCache::new();
    let site = SiteId::new("demo.example").unwrap();
    let r = ThreadRouter::start(&cache, &site, "hello", "not a server", None, RouteGoal::Thread);
    assert_eq!(r.err(), Some(CommandError::InvalidInput));
    let r = ThreadRouter::start(&cache, &site, "hello", "", None, RouteGoal::Container);
    assert_eq!(r.err(), Some(CommandError::InvalidInput));
    assert!(ThreadRouter::start(&cache, &site, "hello", "example.org:8448", None, RouteGoal::Thread).is_ok());
}

#[test]
fn address_of_a_room_is_taken_from_the_nearest_source() {
    let found = |r: AliasLookup| match r {
        AliasLookup::Found(a) => a,
        other => panic!("{:?}", other),
    };
    for source in [
        AliasSource::Canonical,
        AliasSource::Alternative,
        AliasSource::RoomState,
        AliasSource::Network,
    ] {
        assert_eq!(found(resolve_room_alias_chain(source, Some("#a:x".to_string()))), "#a:x");
    }
    assert!(matches!(
        resolve_room_alias_chain(AliasSource::Canonical, None),
        AliasLookup::Try(AliasSource::Alternative)
    ));
    assert!(matches!(
        resolve_room_alias_chain(AliasSource::Alternative, None),
        AliasLookup::Try(AliasSource::RoomState)
    ));
    assert!(matches!(
        resolve_room_alias_chain(AliasSource::RoomState, None),
        AliasLookup::Try(AliasSource::Network)
    ));
    assert!(matches!(resolve_room_alias_chain(AliasSource::Network, None), AliasLookup::Unknown));
}
