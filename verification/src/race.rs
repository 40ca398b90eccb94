//! Two callers, one thread, one directory of addresses: what the router
//! guarantees when the room of a thread is looked for twice at the same
//! time.
//!
//! The directory is that of the network: it gives an address to the first
//! who asks for it and turns the second away. The callers take turns in any
//! order. The model shows that both come to an end, that both succeed, and
//! that both name the one room that the directory holds for the thread.

use vstd::prelude::*;
use crate::remote::{RemoteActionView, RemoteResultView};
use crate::router::{
    fresh_router, full_alias, lemma_router_terminates, RouteGoal, RouterPhaseView, RouterStepView,
    RouterView,
};

verus! {

/// The directory of the network: which address stands for which room.
pub type Directory = Map<Seq<char>, Seq<char>>;

/// What the network does with a request and how it answers, when it works
/// and every room can be joined. An address is looked up in the directory;
/// a room is created under an address that is free, with the identifier
/// `fresh`, and refused under one that is taken; an address is taken out
/// of the directory when it is retired.
pub open spec fn answered(
    dir: Directory,
    server: Seq<char>,
    action: RemoteActionView,
    fresh: Seq<char>,
) -> (Directory, RemoteResultView) {
    match action {
        RemoteActionView::ResolveAlias { alias } => if dir.contains_key(alias) {
            (dir, RemoteResultView::Resolved { room_id: dir[alias] })
        } else {
            (dir, RemoteResultView::NotFound)
        },
        RemoteActionView::CreateRoom { alias_localpart, .. } => {
            let alias = full_alias(alias_localpart, server);
            if dir.contains_key(alias) {
                (dir, RemoteResultView::Conflict)
            } else {
                (dir.insert(alias, fresh), RemoteResultView::Created { room_id: fresh })
            }
        },
        RemoteActionView::RetireAlias { alias } => (dir.remove(alias), RemoteResultView::Done),
        _ => (dir, RemoteResultView::Done),
    }
}

/// One who looks for the room of a thread: the router, and what it has
/// said last.
pub struct Caller {
    pub router: RouterView,
    pub pending: RouterStepView,
}

/// The two callers, the directory, and the memory of spaces that the
/// callers share.
pub struct World {
    pub dir: Directory,
    pub cache: Map<Seq<char>, Seq<char>>,
    pub first: Caller,
    pub second: Caller,
}

/// One turn of a caller: its request is answered, and the router says what
/// is next. A caller that has come to its end stays there.
pub open spec fn turn(
    c: Caller,
    dir: Directory,
    cache: Map<Seq<char>, Seq<char>>,
    fresh: Seq<char>,
) -> (Caller, Directory, Map<Seq<char>, Seq<char>>) {
    match c.pending {
        RouterStepView::Do(action) => {
            let (d, result) = answered(dir, c.router.server, action, fresh);
            let (r, m, s) = c.router.next(cache, result);
            (Caller { router: r, pending: s }, d, m)
        },
        RouterStepView::Done(_) => (c, dir, cache),
    }
}

/// One turn in the world: of the first caller or of the second.
pub open spec fn world_turn(w: World, first: bool, fresh: Seq<char>) -> World {
    if first {
        let (c, d, m) = turn(w.first, w.dir, w.cache, fresh);
        World { dir: d, cache: m, first: c, ..w }
    } else {
        let (c, d, m) = turn(w.second, w.dir, w.cache, fresh);
        World { dir: d, cache: m, second: c, ..w }
    }
}

/// The world after a sequence of turns. Each turn says whose it is, and
/// which identifier a room gets that is created in it.
pub open spec fn after_turns(w: World, turns: Seq<(bool, Seq<char>)>) -> World
    decreases turns.len(),
{
    if turns.len() == 0 {
        w
    } else {
        world_turn(after_turns(w, turns.drop_last()), turns.last().0, turns.last().1)
    }
}

/// How many of the turns are the first caller's, or the second's.
pub open spec fn turns_of(turns: Seq<(bool, Seq<char>)>, first: bool) -> nat
    decreases turns.len(),
{
    if turns.len() == 0 {
        0
    } else {
        turns_of(turns.drop_last(), first) + (if turns.last().0 == first {
            1nat
        } else {
            0nat
        })
    }
}

/// One who begins to look for the room of a thread.
pub open spec fn beginner(
    cache: Map<Seq<char>, Seq<char>>,
    site: Seq<char>,
    slug: Seq<char>,
    server: Seq<char>,
    owner: Option<Seq<char>>,
) -> Caller {
    let (router, pending) = fresh_router(site, slug, server, owner, RouteGoal::Thread).first(cache);
    Caller { router, pending }
}

/// The world in which two begin to look for the room of the same thread.
pub open spec fn beginning(
    dir: Directory,
    cache: Map<Seq<char>, Seq<char>>,
    site: Seq<char>,
    slug: Seq<char>,
    server: Seq<char>,
    owner: Option<Seq<char>>,
) -> World {
    World {
        dir,
        cache,
        first: beginner(cache, site, slug, server, owner),
        second: beginner(cache, site, slug, server, owner),
    }
}

/// What holds of a caller at every time: it looks for the thread; what it
/// has said last is what its phase asks for; a room that it has seen under
/// the address of the thread is the one that the directory holds; and it
/// has not failed.
pub open spec fn on_course(
    c: Caller,
    dir: Directory,
    site: Seq<char>,
    slug: Seq<char>,
    server: Seq<char>,
) -> bool {
    let r = c.router;
    let thread = r.thread_alias();
    let space = r.space_alias();
    &&& r.goal == RouteGoal::Thread
    &&& r.site == site
    &&& r.slug == slug
    &&& r.server == server
    &&& match r.phase {
        RouterPhaseView::ResolvingThread => c.pending == RouterStepView::Do(r.resolve_thread()),
        RouterPhaseView::JoiningThread { room_id } => c.pending == RouterStepView::Do(
            RemoteActionView::JoinRoom { room_id, user_id: None },
        ) && dir.contains_key(thread) && dir[thread] == room_id,
        RouterPhaseView::RetiringThread => false,
        RouterPhaseView::ResolvingSpace => c.pending == RouterStepView::Do(r.resolve_space()),
        RouterPhaseView::JoiningSpace { space_id } => c.pending == RouterStepView::Do(
            RemoteActionView::JoinRoom { room_id: space_id, user_id: None },
        ),
        RouterPhaseView::CreatingSpace => c.pending == RouterStepView::Do(r.create_space()),
        RouterPhaseView::ResolvingSpaceAgain => c.pending == RouterStepView::Do(
            r.resolve_space(),
        ) && dir.contains_key(space),
        RouterPhaseView::CreatingThread { .. } => c.pending == RouterStepView::Do(
            r.create_thread(),
        ),
        RouterPhaseView::LinkingThread { room_id } => c.pending is Do && c.pending->Do_0
            is LinkChild && dir.contains_key(thread) && dir[thread] == room_id,
        RouterPhaseView::ResolvingThreadAgain => c.pending == RouterStepView::Do(
            r.resolve_thread(),
        ) && dir.contains_key(thread),
        RouterPhaseView::Finished => dir.contains_key(thread) && c.pending
            == RouterStepView::Done(Ok(dir[thread])),
    }
}

/// A turn of a caller that is on course leaves it on course, and with it
/// every other caller that is: the directory gains addresses and loses none.
pub proof fn lemma_turn_keeps_course(
    c: Caller,
    other: Caller,
    dir: Directory,
    cache: Map<Seq<char>, Seq<char>>,
    fresh: Seq<char>,
    site: Seq<char>,
    slug: Seq<char>,
    server: Seq<char>,
)
    requires
        on_course(c, dir, site, slug, server),
        on_course(other, dir, site, slug, server),
    ensures
        on_course(turn(c, dir, cache, fresh).0, turn(c, dir, cache, fresh).1, site, slug, server),
        on_course(other, turn(c, dir, cache, fresh).1, site, slug, server),
        c.router.phase !is Finished ==> turn(c, dir, cache, fresh).0.router.rank() < c.router.rank(),
{
    if c.pending is Do {
        let (d, result) = answered(dir, c.router.server, c.pending->Do_0, fresh);
        lemma_router_terminates(c.router, cache, result);
    }
}

/// Both callers are on course after any sequence of turns, and each has at
/// most as many operations left as eleven less its turns.
pub proof fn lemma_world_on_course(
    dir: Directory,
    cache: Map<Seq<char>, Seq<char>>,
    site: Seq<char>,
    slug: Seq<char>,
    server: Seq<char>,
    owner: Option<Seq<char>>,
    turns: Seq<(bool, Seq<char>)>,
)
    ensures
        ({
            let w = after_turns(beginning(dir, cache, site, slug, server, owner), turns);
            &&& on_course(w.first, w.dir, site, slug, server)
            &&& on_course(w.second, w.dir, site, slug, server)
            &&& w.first.router.rank() + turns_of(turns, true) <= 11 || w.first.router.phase
                is Finished
            &&& w.second.router.rank() + turns_of(turns, false) <= 11 || w.second.router.phase
                is Finished
        }),
    decreases turns.len(),
{
    let start = beginning(dir, cache, site, slug, server, owner);
    if turns.len() == 0 {
    } else {
        lemma_world_on_course(dir, cache, site, slug, server, owner, turns.drop_last());
        let w = after_turns(start, turns.drop_last());
        let fresh = turns.last().1;
        if turns.last().0 {
            lemma_turn_keeps_course(w.first, w.second, w.dir, w.cache, fresh, site, slug, server);
        } else {
            lemma_turn_keeps_course(w.second, w.first, w.dir, w.cache, fresh, site, slug, server);
        }
    }
}

/// The room of a thread is made once. When two look for it at the same
/// time, in a network that works, then whatever the order of their turns:
/// each has come to its end after eleven turns at the most; each has
/// succeeded; and both name the same room, which is the one that the
/// directory holds under the address of the thread.
pub proof fn lemma_race_yields_one_room(
    dir: Directory,
    cache: Map<Seq<char>, Seq<char>>,
    site: Seq<char>,
    slug: Seq<char>,
    server: Seq<char>,
    owner: Option<Seq<char>>,
    turns: Seq<(bool, Seq<char>)>,
)
    requires
        turns_of(turns, true) >= 11,
        turns_of(turns, false) >= 11,
    ensures
        ({
            let w = after_turns(beginning(dir, cache, site, slug, server, owner), turns);
            let thread = crate::router::thread_alias(site, slug, server);
            &&& w.dir.contains_key(thread)
            &&& w.first.pending == RouterStepView::Done(Ok(w.dir[thread]))
            &&& w.second.pending == RouterStepView::Done(Ok(w.dir[thread]))
        }),
{
    lemma_world_on_course(dir, cache, site, slug, server, owner, turns);
}

} // verus!
