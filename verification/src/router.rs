//! The router: from a tenant and a thread to the room that holds the thread.
//!
//! Rooms are found by their addresses, which are made from tenant and thread
//! alone. A thread that has no room gets one, inside the space of its
//! tenant, which is made on the same occasion where there is none. The
//! router is a machine of a few phases: it names the next operation, is told
//! how it ended, and names the next, until the room is known.

use vstd::prelude::*;
use vstd::string::*;
use crate::foreign::{is_room_alias, room_alias_well_formed};
use crate::models::{valid_site_id, SiteId, SEPARATOR};
use crate::protocol::{room_localpart, ALIAS_SIGIL};
use crate::remote::{
    CommandError, RemoteAction, RemoteActionView, RemoteResult, RemoteResultView,
};
use crate::text::{opt_clone, opt_view, str_eq};

verus! {

/// What the local part of the address of every tenant's space begins with.
pub open spec fn space_prefix() -> Seq<char> {
    "cumments_"@
}

/// The local part of the address of a tenant's space.
pub open spec fn space_localpart(site: Seq<char>) -> Seq<char> {
    space_prefix() + site
}

/// The full address that a local part has on a server.
pub open spec fn full_alias(localpart: Seq<char>, server: Seq<char>) -> Seq<char> {
    seq![ALIAS_SIGIL] + localpart + seq![':'] + server
}

/// The address of the room of a thread.
pub open spec fn thread_alias(site: Seq<char>, slug: Seq<char>, server: Seq<char>) -> Seq<char> {
    full_alias(room_localpart(site, slug), server)
}

/// The address of the space of a tenant.
pub open spec fn space_alias(site: Seq<char>, server: Seq<char>) -> Seq<char> {
    full_alias(space_localpart(site), server)
}

/// The name of the room of a thread.
pub open spec fn thread_room_name(slug: Seq<char>) -> Seq<char> {
    "Comments for "@ + slug
}

/// The local part of the address of the room of a thread.
pub fn room_localpart_text(site: &str, slug: &str) -> (r: String)
    ensures
        r@ == room_localpart(site@, slug@),
{
    proof {
        reveal_strlit("_");
    }
    let mut r = site.to_owned();
    r.append("_");
    r.append(slug);
    assert(r@ =~= room_localpart(site@, slug@));
    r
}

/// The local part of the address of the space of a tenant.
pub fn space_localpart_text(site: &str) -> (r: String)
    ensures
        r@ == space_localpart(site@),
{
    let mut r = "cumments_".to_string();
    r.append(site);
    r
}

/// The full address that a local part has on a server.
pub fn full_alias_text(localpart: &str, server: &str) -> (r: String)
    ensures
        r@ == full_alias(localpart@, server@),
{
    proof {
        reveal_strlit("#");
        reveal_strlit(":");
    }
    let mut r = "#".to_string();
    r.append(localpart);
    r.append(":");
    r.append(server);
    assert(r@ =~= full_alias(localpart@, server@));
    r
}

/// The address of the room of a thread.
pub fn thread_alias_text(site: &str, slug: &str, server: &str) -> (r: String)
    ensures
        r@ == thread_alias(site@, slug@, server@),
{
    let l = room_localpart_text(site, slug);
    full_alias_text(l.as_str(), server)
}

/// The address of the space of a tenant.
pub fn space_alias_text(site: &str, server: &str) -> (r: String)
    ensures
        r@ == space_alias(site@, server@),
{
    let l = space_localpart_text(site);
    full_alias_text(l.as_str(), server)
}

/// The name of the room of a thread.
pub fn thread_room_name_text(slug: &str) -> (r: String)
    ensures
        r@ == thread_room_name(slug@),
{
    let mut r = "Comments for ".to_string();
    r.append(slug);
    r
}

/// The address of a thread is that of a space for one tenant only: the one
/// whose name is what all addresses of spaces begin with.
pub proof fn lemma_thread_alias_is_no_space_alias(site: Seq<char>, slug: Seq<char>, tenant: Seq<char>)
    requires
        valid_site_id(site),
        room_localpart(site, slug) == space_localpart(tenant),
    ensures
        site == "cumments"@,
{
    reveal_strlit("cumments_");
    reveal_strlit("cumments");
    let l = room_localpart(site, slug);
    let p = space_prefix();
    let n = site.len() as int;
    assert(l[n] == SEPARATOR);
    assert(l[8] == SEPARATOR);
    if n < 8 {
        assert(l[n] == p[n]);
        assert(false);
    } else if n > 8 {
        assert(l[8] == site[8]);
        assert(site.contains(site[8]));
        assert(false);
    } else {
        assert forall|i: int| 0 <= i < 8 implies site[i] == "cumments"@[i] by {
            assert(l[i] == site[i]);
            assert(l[i] == p[i]);
        }
        assert(site =~= "cumments"@);
    }
}

/// Which space belongs to which tenant, as far as it is remembered. The
/// memory makes resolving faster and nothing else: what it does not hold is
/// looked up.
#[derive(Debug)]
pub struct SpaceCache {
    entries: Vec<(String, String)>,
}

/// The entries as a map from tenant to space: a later entry for a tenant
/// replaces an earlier one.
pub open spec fn entries_map(entries: Seq<(Seq<char>, Seq<char>)>) -> Map<Seq<char>, Seq<char>>
    decreases entries.len(),
{
    if entries.len() == 0 {
        Map::empty()
    } else {
        entries_map(entries.drop_last()).insert(entries.last().0, entries.last().1)
    }
}

pub closed spec fn entry_views(v: Seq<(String, String)>) -> Seq<(Seq<char>, Seq<char>)> {
    Seq::new(v.len(), |i: int| (v[i].0@, v[i].1@))
}

impl View for SpaceCache {
    type V = Map<Seq<char>, Seq<char>>;

    closed spec fn view(&self) -> Map<Seq<char>, Seq<char>> {
        entries_map(entry_views(self.entries@))
    }
}

/// What a map holds under a key, if it holds anything.
pub open spec fn lookup(m: Map<Seq<char>, Seq<char>>, key: Seq<char>) -> Option<Seq<char>> {
    if m.contains_key(key) {
        Some(m[key])
    } else {
        None
    }
}

impl SpaceCache {
    /// A memory that holds nothing.
    pub fn new() -> (c: SpaceCache)
        ensures
            c@ == Map::<Seq<char>, Seq<char>>::empty(),
    {
        let c = SpaceCache { entries: Vec::new() };
        assert(entry_views(c.entries@) =~= Seq::<(Seq<char>, Seq<char>)>::empty());
        c
    }

    /// The space of a tenant, if it is remembered.
    pub fn get(&self, site: &str) -> (r: Option<String>)
        ensures
            opt_view(r) == lookup(self@, site@),
    {
        let mut found: Option<String> = None;
        let mut i: usize = 0;
        let ghost all = entry_views(self.entries@);
        assert(all.take(0) =~= Seq::<(Seq<char>, Seq<char>)>::empty());
        while i < self.entries.len()
            invariant
                i <= self.entries.len(),
                all == entry_views(self.entries@),
                opt_view(found) == lookup(entries_map(all.take(i as int)), site@),
            decreases self.entries.len() - i,
        {
            proof {
                let cur = all.take(i + 1);
                assert(cur.drop_last() =~= all.take(i as int));
                assert(cur.last() == all[i as int]);
            }
            if str_eq(self.entries[i].0.as_str(), site) {
                found = Some(self.entries[i].1.clone());
            }
            i += 1;
        }
        assert(all.take(self.entries.len() as int) =~= all);
        found
    }

    /// Remembers the space of a tenant.
    pub fn insert(&mut self, site: &str, room_id: &str)
        ensures
            final(self)@ == old(self)@.insert(site@, room_id@),
    {
        let ghost before = entry_views(self.entries@);
        self.entries.push((site.to_owned(), room_id.to_owned()));
        proof {
            let after = entry_views(self.entries@);
            assert(after.drop_last() =~= before);
            assert(after.last() == (site@, room_id@));
        }
    }
}

/// What is to be found.
#[derive(Debug, PartialEq, Eq, Clone, Copy, Structural)]
pub enum RouteGoal {
    /// The room of a thread.
    Thread,
    /// The space of a tenant.
    Container,
}

/// Where the router stands: the operation whose end it waits for.
#[derive(Debug)]
pub enum RouterPhase {
    ResolvingThread,
    JoiningThread { room_id: String },
    RetiringThread,
    ResolvingSpace,
    JoiningSpace { space_id: String },
    CreatingSpace,
    ResolvingSpaceAgain,
    CreatingThread { space_id: String },
    LinkingThread { room_id: String },
    ResolvingThreadAgain,
    Finished,
}

pub enum RouterPhaseView {
    ResolvingThread,
    JoiningThread { room_id: Seq<char> },
    RetiringThread,
    ResolvingSpace,
    JoiningSpace { space_id: Seq<char> },
    CreatingSpace,
    ResolvingSpaceAgain,
    CreatingThread { space_id: Seq<char> },
    LinkingThread { room_id: Seq<char> },
    ResolvingThreadAgain,
    Finished,
}

impl View for RouterPhase {
    type V = RouterPhaseView;

    open spec fn view(&self) -> RouterPhaseView {
        match *self {
            RouterPhase::ResolvingThread => RouterPhaseView::ResolvingThread,
            RouterPhase::JoiningThread { room_id } => RouterPhaseView::JoiningThread {
                room_id: room_id@,
            },
            RouterPhase::RetiringThread => RouterPhaseView::RetiringThread,
            RouterPhase::ResolvingSpace => RouterPhaseView::ResolvingSpace,
            RouterPhase::JoiningSpace { space_id } => RouterPhaseView::JoiningSpace {
                space_id: space_id@,
            },
            RouterPhase::CreatingSpace => RouterPhaseView::CreatingSpace,
            RouterPhase::ResolvingSpaceAgain => RouterPhaseView::ResolvingSpaceAgain,
            RouterPhase::CreatingThread { space_id } => RouterPhaseView::CreatingThread {
                space_id: space_id@,
            },
            RouterPhase::LinkingThread { room_id } => RouterPhaseView::LinkingThread {
                room_id: room_id@,
            },
            RouterPhase::ResolvingThreadAgain => RouterPhaseView::ResolvingThreadAgain,
            RouterPhase::Finished => RouterPhaseView::Finished,
        }
    }
}

/// The router as plain values.
pub struct RouterView {
    pub site: Seq<char>,
    pub slug: Seq<char>,
    pub server: Seq<char>,
    pub owner: Option<Seq<char>>,
    pub goal: RouteGoal,
    pub phase: RouterPhaseView,
    /// Whether the address of the space was looked up a second time
    /// already, after the space could not be joined.
    pub retried: bool,
}

/// What the router says next.
#[derive(Debug)]
pub enum RouterStep {
    /// Perform this and come back with the answer.
    Do(RemoteAction),
    /// The room is known, or it cannot be had.
    Done(Result<String, CommandError>),
}

pub enum RouterStepView {
    Do(RemoteActionView),
    Done(Result<Seq<char>, CommandError>),
}

impl View for RouterStep {
    type V = RouterStepView;

    open spec fn view(&self) -> RouterStepView {
        match *self {
            RouterStep::Do(a) => RouterStepView::Do(a@),
            RouterStep::Done(r) => RouterStepView::Done(
                match r {
                    Ok(id) => Ok(id@),
                    Err(e) => Err(e),
                },
            ),
        }
    }
}

impl RouterView {
    pub open spec fn thread_alias(self) -> Seq<char> {
        thread_alias(self.site, self.slug, self.server)
    }

    pub open spec fn space_alias(self) -> Seq<char> {
        space_alias(self.site, self.server)
    }

    /// The request to look up the address of the thread.
    pub open spec fn resolve_thread(self) -> RemoteActionView {
        RemoteActionView::ResolveAlias { alias: self.thread_alias() }
    }

    /// The request to look up the address of the space.
    pub open spec fn resolve_space(self) -> RemoteActionView {
        RemoteActionView::ResolveAlias { alias: self.space_alias() }
    }

    /// The request to create the space of the tenant.
    pub open spec fn create_space(self) -> RemoteActionView {
        RemoteActionView::CreateRoom {
            alias_localpart: space_localpart(self.site),
            name: self.site,
            space: true,
            owner: None,
        }
    }

    /// The request to create the room of the thread.
    pub open spec fn create_thread(self) -> RemoteActionView {
        RemoteActionView::CreateRoom {
            alias_localpart: room_localpart(self.site, self.slug),
            name: thread_room_name(self.slug),
            space: false,
            owner: self.owner,
        }
    }

    /// The router in another phase.
    pub open spec fn at(self, phase: RouterPhaseView) -> RouterView {
        RouterView { phase, ..self }
    }

    /// The end: nothing more is asked.
    pub open spec fn finish(self, r: Result<Seq<char>, CommandError>) -> (
        RouterView,
        RouterStepView,
    ) {
        (self.at(RouterPhaseView::Finished), RouterStepView::Done(r))
    }

    /// What follows once the space is known: the end, where the space was
    /// asked for, and the creation of the room of the thread else.
    pub open spec fn container_known(self, space_id: Seq<char>) -> (RouterView, RouterStepView) {
        match self.goal {
            RouteGoal::Container => self.finish(Ok(space_id)),
            RouteGoal::Thread => (
                self.at(RouterPhaseView::CreatingThread { space_id }),
                RouterStepView::Do(self.create_thread()),
            ),
        }
    }

    /// What follows once the space is needed: it is taken from memory, or
    /// looked up.
    pub open spec fn seek_container(self, cache: Map<Seq<char>, Seq<char>>) -> (
        RouterView,
        RouterStepView,
    ) {
        if cache.contains_key(self.site) {
            self.container_known(cache[self.site])
        } else {
            (self.at(RouterPhaseView::ResolvingSpace), RouterStepView::Do(self.resolve_space()))
        }
    }

    /// The first step.
    pub open spec fn first(self, cache: Map<Seq<char>, Seq<char>>) -> (RouterView, RouterStepView) {
        match self.goal {
            RouteGoal::Thread => (
                self.at(RouterPhaseView::ResolvingThread),
                RouterStepView::Do(self.resolve_thread()),
            ),
            RouteGoal::Container => self.seek_container(cache),
        }
    }

    /// The next step, given how the operation has ended that the router
    /// waited for: the router after it, the memory after it, and what the
    /// router says.
    pub open spec fn next(self, cache: Map<Seq<char>, Seq<char>>, result: RemoteResultView) -> (
        RouterView,
        Map<Seq<char>, Seq<char>>,
        RouterStepView,
    ) {
        match self.phase {
            RouterPhaseView::ResolvingThread => match result {
                RemoteResultView::Resolved { room_id } => (
                    self.at(RouterPhaseView::JoiningThread { room_id }),
                    cache,
                    RouterStepView::Do(RemoteActionView::JoinRoom { room_id, user_id: None }),
                ),
                RemoteResultView::NotFound => {
                    let (r, s) = self.seek_container(cache);
                    (r, cache, s)
                },
                _ => {
                    let (r, s) = self.finish(Err(CommandError::RemoteTransient));
                    (r, cache, s)
                },
            },
            RouterPhaseView::JoiningThread { room_id } => match result {
                RemoteResultView::Done => {
                    let (r, s) = self.finish(Ok(room_id));
                    (r, cache, s)
                },
                _ => (
                    self.at(RouterPhaseView::RetiringThread),
                    cache,
                    RouterStepView::Do(
                        RemoteActionView::RetireAlias { alias: self.thread_alias() },
                    ),
                ),
            },
            RouterPhaseView::RetiringThread => {
                let (r, s) = self.seek_container(cache);
                (r, cache, s)
            },
            RouterPhaseView::ResolvingSpace => match result {
                RemoteResultView::Resolved { room_id } => (
                    self.at(RouterPhaseView::JoiningSpace { space_id: room_id }),
                    cache,
                    RouterStepView::Do(RemoteActionView::JoinRoom { room_id, user_id: None }),
                ),
                RemoteResultView::NotFound => (
                    self.at(RouterPhaseView::CreatingSpace),
                    cache,
                    RouterStepView::Do(self.create_space()),
                ),
                _ => {
                    let (r, s) = self.finish(Err(CommandError::RemoteTransient));
                    (r, cache, s)
                },
            },
            RouterPhaseView::JoiningSpace { space_id } => match result {
                RemoteResultView::Done => {
                    let (r, s) = self.container_known(space_id);
                    (r, cache.insert(self.site, space_id), s)
                },
                _ => if !self.retried {
                    (
                        RouterView {
                            retried: true,
                            phase: RouterPhaseView::ResolvingSpace,
                            ..self
                        },
                        cache,
                        RouterStepView::Do(self.resolve_space()),
                    )
                } else {
                    (
                        self.at(RouterPhaseView::CreatingSpace),
                        cache,
                        RouterStepView::Do(self.create_space()),
                    )
                },
            },
            RouterPhaseView::CreatingSpace => match result {
                RemoteResultView::Created { room_id } => {
                    let (r, s) = self.container_known(room_id);
                    (r, cache.insert(self.site, room_id), s)
                },
                RemoteResultView::Conflict => (
                    self.at(RouterPhaseView::ResolvingSpaceAgain),
                    cache,
                    RouterStepView::Do(self.resolve_space()),
                ),
                _ => {
                    let (r, s) = self.finish(Err(CommandError::RemoteTransient));
                    (r, cache, s)
                },
            },
            RouterPhaseView::ResolvingSpaceAgain => match result {
                RemoteResultView::Resolved { room_id } => {
                    let (r, s) = self.container_known(room_id);
                    (r, cache.insert(self.site, room_id), s)
                },
                _ => {
                    let (r, s) = self.finish(Err(CommandError::RemoteTransient));
                    (r, cache, s)
                },
            },
            RouterPhaseView::CreatingThread { space_id } => match result {
                RemoteResultView::Created { room_id } => (
                    self.at(RouterPhaseView::LinkingThread { room_id }),
                    cache,
                    RouterStepView::Do(
                        RemoteActionView::LinkChild { space_id, room_id, via: self.server },
                    ),
                ),
                RemoteResultView::Conflict => (
                    self.at(RouterPhaseView::ResolvingThreadAgain),
                    cache,
                    RouterStepView::Do(self.resolve_thread()),
                ),
                _ => {
                    let (r, s) = self.finish(Err(CommandError::RemoteTransient));
                    (r, cache, s)
                },
            },
            RouterPhaseView::LinkingThread { room_id } => {
                let (r, s) = self.finish(Ok(room_id));
                (r, cache, s)
            },
            RouterPhaseView::ResolvingThreadAgain => match result {
                RemoteResultView::Resolved { room_id } => {
                    let (r, s) = self.finish(Ok(room_id));
                    (r, cache, s)
                },
                _ => {
                    let (r, s) = self.finish(Err(CommandError::RemoteTransient));
                    (r, cache, s)
                },
            },
            RouterPhaseView::Finished => (self, cache, RouterStepView::Done(Err(CommandError::Internal))),
        }
    }

    /// How many operations the router can still ask for, at most.
    pub open spec fn rank(self) -> nat {
        match self.phase {
            RouterPhaseView::Finished => 0,
            RouterPhaseView::LinkingThread { .. } => 1,
            RouterPhaseView::ResolvingThreadAgain => 1,
            RouterPhaseView::CreatingThread { .. } => 2,
            RouterPhaseView::ResolvingSpaceAgain => 3,
            RouterPhaseView::CreatingSpace => 4,
            RouterPhaseView::JoiningSpace { .. } => if self.retried {
                5
            } else {
                7
            },
            RouterPhaseView::ResolvingSpace => if self.retried {
                6
            } else {
                8
            },
            RouterPhaseView::RetiringThread => 9,
            RouterPhaseView::JoiningThread { .. } => 10,
            RouterPhaseView::ResolvingThread => 11,
        }
    }
}

/// The router comes to an end: with every answer it has fewer operations
/// left to ask for, and it asks for none once it has none left.
pub proof fn lemma_router_terminates(
    r: RouterView,
    cache: Map<Seq<char>, Seq<char>>,
    result: RemoteResultView,
)
    ensures
        r.phase !is Finished ==> r.next(cache, result).0.rank() < r.rank(),
        r.next(cache, result).2 is Done <==> r.next(cache, result).0.phase is Finished,
        r.rank() <= 11,
{
}

/// A space is made only where the lookup has found none, or where the one
/// it has found could not be joined, the lookup was repeated, and the one
/// it has found then could not be joined either.
pub proof fn lemma_space_is_made_last(
    r: RouterView,
    cache: Map<Seq<char>, Seq<char>>,
    result: RemoteResultView,
)
    requires
        r.next(cache, result).2 == RouterStepView::Do(r.create_space()),
    ensures
        (r.phase is ResolvingSpace && result is NotFound) || (r.phase is JoiningSpace && r.retried
            && result !is Done),
{
}

/// A room that is found but cannot be joined is no failure: its address is
/// retired, and the search goes on to make the room anew.
pub proof fn lemma_stale_room_is_repaired(
    r: RouterView,
    cache: Map<Seq<char>, Seq<char>>,
    result: RemoteResultView,
    answer: RemoteResultView,
)
    requires
        r.phase is JoiningThread,
        result !is Done,
    ensures
        ({
            let (retiring, c1, s1) = r.next(cache, result);
            let (after, c2, s2) = retiring.next(c1, answer);
            &&& s1 == RouterStepView::Do(RemoteActionView::RetireAlias { alias: r.thread_alias() })
            &&& s2 is Do || (r.goal == RouteGoal::Container && s2 is Done && s2->Done_0 is Ok)
            &&& r.goal == RouteGoal::Thread && cache.contains_key(r.site) ==> s2
                == RouterStepView::Do(r.create_thread())
        }),
{
}

/// To lose the race for an address is to succeed: the one who finds the
/// address taken looks it up and takes the room of the winner.
pub proof fn lemma_lost_race_is_success(
    r: RouterView,
    cache: Map<Seq<char>, Seq<char>>,
    winner: Seq<char>,
)
    requires
        r.phase is CreatingThread,
    ensures
        ({
            let (looking, c1, s1) = r.next(cache, RemoteResultView::Conflict);
            let (after, c2, s2) = looking.next(c1, RemoteResultView::Resolved { room_id: winner });
            &&& s1 == RouterStepView::Do(r.resolve_thread())
            &&& s2 == RouterStepView::Done(Ok(winner))
        }),
{
}

/// Remembering a space saves the lookup and changes nothing else: with the
/// space in memory the router is where it would be had it looked the space
/// up, found it and joined it.
pub proof fn lemma_cache_only_saves_lookup(
    r: RouterView,
    cache: Map<Seq<char>, Seq<char>>,
    space_id: Seq<char>,
)
    requires
        !cache.contains_key(r.site),
        !r.retried,
    ensures
        ({
            let warm = cache.insert(r.site, space_id);
            let (looked_up, _) = r.seek_container(cache);
            let (found, c1, _) = looked_up.next(cache, RemoteResultView::Resolved { room_id: space_id });
            let (joined, c2, step) = found.next(c1, RemoteResultView::Done);
            &&& (joined, step) == r.seek_container(warm)
            &&& c2 == warm
        }),
{
}

/// The router: a thread or a tenant, and the phase it is in.
#[derive(Debug)]
pub struct ThreadRouter {
    site: SiteId,
    slug: String,
    server: String,
    owner: Option<String>,
    goal: RouteGoal,
    phase: RouterPhase,
    retried: bool,
}

impl View for ThreadRouter {
    type V = RouterView;

    closed spec fn view(&self) -> RouterView {
        RouterView {
            site: self.site@,
            slug: self.slug@,
            server: self.server@,
            owner: opt_view(self.owner),
            goal: self.goal,
            phase: self.phase@,
            retried: self.retried,
        }
    }
}

/// A router before its first step.
pub open spec fn fresh_router(
    site: Seq<char>,
    slug: Seq<char>,
    server: Seq<char>,
    owner: Option<Seq<char>>,
    goal: RouteGoal,
) -> RouterView {
    RouterView {
        site,
        slug,
        server,
        owner,
        goal,
        phase: RouterPhaseView::Finished,
        retried: false,
    }
}

/// Whether the addresses that a router works with are well formed.
pub open spec fn routable(site: Seq<char>, slug: Seq<char>, server: Seq<char>, goal: RouteGoal) -> bool {
    match goal {
        RouteGoal::Thread => room_alias_well_formed(thread_alias(site, slug, server))
            && room_alias_well_formed(space_alias(site, server)),
        RouteGoal::Container => room_alias_well_formed(space_alias(site, server)),
    }
}

impl ThreadRouter {
    fn resolve_thread(&self) -> (a: RemoteAction)
        ensures
            a@ == self@.resolve_thread(),
    {
        RemoteAction::ResolveAlias {
            alias: thread_alias_text(
                self.site.as_str(),
                self.slug.as_str(),
                self.server.as_str(),
            ),
        }
    }

    fn resolve_space(&self) -> (a: RemoteAction)
        ensures
            a@ == self@.resolve_space(),
    {
        RemoteAction::ResolveAlias {
            alias: space_alias_text(self.site.as_str(), self.server.as_str()),
        }
    }

    fn create_space(&self) -> (a: RemoteAction)
        ensures
            a@ == self@.create_space(),
    {
        RemoteAction::CreateRoom {
            alias_localpart: space_localpart_text(self.site.as_str()),
            name: self.site.as_str().to_owned(),
            space: true,
            owner: None,
        }
    }

    fn create_thread(&self) -> (a: RemoteAction)
        ensures
            a@ == self@.create_thread(),
    {
        RemoteAction::CreateRoom {
            alias_localpart: room_localpart_text(self.site.as_str(), self.slug.as_str()),
            name: thread_room_name_text(self.slug.as_str()),
            space: false,
            owner: opt_clone(&self.owner),
        }
    }

    fn finish(&mut self, r: Result<String, CommandError>) -> (s: RouterStep)
        ensures
            (final(self)@, s@) == old(self)@.finish(
                match r {
                    Ok(id) => Ok(id@),
                    Err(e) => Err(e),
                },
            ),
    {
        self.phase = RouterPhase::Finished;
        RouterStep::Done(r)
    }

    fn container_known(&mut self, space_id: String) -> (s: RouterStep)
        ensures
            (final(self)@, s@) == old(self)@.container_known(space_id@),
    {
        match self.goal {
            RouteGoal::Container => self.finish(Ok(space_id)),
            RouteGoal::Thread => {
                let a = self.create_thread();
                self.phase = RouterPhase::CreatingThread { space_id };
                RouterStep::Do(a)
            },
        }
    }

    fn seek_container(&mut self, cache: &SpaceCache) -> (s: RouterStep)
        ensures
            (final(self)@, s@) == old(self)@.seek_container(cache@),
    {
        match cache.get(self.site.as_str()) {
            Some(space_id) => self.container_known(space_id),
            None => {
                let a = self.resolve_space();
                self.phase = RouterPhase::ResolvingSpace;
                RouterStep::Do(a)
            },
        }
    }

    /// Starts the search for the room of a thread, or for the space of a
    /// tenant. Addresses that are not well formed are refused before
    /// anything is asked of the network.
    pub fn start(
        cache: &SpaceCache,
        site: &SiteId,
        slug: &str,
        server: &str,
        owner: Option<&str>,
        goal: RouteGoal,
    ) -> (r: Result<(ThreadRouter, RouterStep), CommandError>)
        ensures
            match r {
                Ok((router, step)) => routable(site@, slug@, server@, goal) && (router@, step@)
                    == fresh_router(
                    site@,
                    slug@,
                    server@,
                    crate::identity::opt_str_view(owner),
                    goal,
                ).first(cache@),
                Err(e) => !routable(site@, slug@, server@, goal) && e == CommandError::InvalidInput,
            },
    {
        let space = space_alias_text(site.as_str(), server);
        if !is_room_alias(space.as_str()) {
            return Err(CommandError::InvalidInput);
        }
        let mut router = ThreadRouter {
            site: site.clone(),
            slug: slug.to_owned(),
            server: server.to_owned(),
            owner: match owner {
                Some(o) => Some(o.to_owned()),
                None => None,
            },
            goal,
            phase: RouterPhase::Finished,
            retried: false,
        };
        match goal {
            RouteGoal::Thread => {
                let thread = thread_alias_text(site.as_str(), slug, server);
                if !is_room_alias(thread.as_str()) {
                    return Err(CommandError::InvalidInput);
                }
                let a = router.resolve_thread();
                router.phase = RouterPhase::ResolvingThread;
                Ok((router, RouterStep::Do(a)))
            },
            RouteGoal::Container => {
                let step = router.seek_container(cache);
                Ok((router, step))
            },
        }
    }

    /// Takes the answer to the operation that the router has asked for, and
    /// says what is next.
    pub fn advance(&mut self, cache: &mut SpaceCache, result: RemoteResult) -> (s: RouterStep)
        ensures
            (final(self)@, final(cache)@, s@) == old(self)@.next(old(cache)@, result@),
    {
        let mut phase = RouterPhase::Finished;
        std::mem::swap(&mut self.phase, &mut phase);
        let ghost at_start = old(self)@;
        assert(self@ == at_start.at(RouterPhaseView::Finished));
        match phase {
            RouterPhase::ResolvingThread => match result {
                RemoteResult::Resolved { room_id } => {
                    let a = RemoteAction::JoinRoom { room_id: room_id.clone(), user_id: None };
                    self.phase = RouterPhase::JoiningThread { room_id };
                    RouterStep::Do(a)
                },
                RemoteResult::NotFound => self.seek_container(cache),
                _ => self.finish(Err(CommandError::RemoteTransient)),
            },
            RouterPhase::JoiningThread { room_id } => match result {
                RemoteResult::Done => self.finish(Ok(room_id)),
                _ => {
                    let a = RemoteAction::RetireAlias {
                        alias: thread_alias_text(
                            self.site.as_str(),
                            self.slug.as_str(),
                            self.server.as_str(),
                        ),
                    };
                    self.phase = RouterPhase::RetiringThread;
                    RouterStep::Do(a)
                },
            },
            RouterPhase::RetiringThread => self.seek_container(cache),
            RouterPhase::ResolvingSpace => match result {
                RemoteResult::Resolved { room_id } => {
                    let a = RemoteAction::JoinRoom { room_id: room_id.clone(), user_id: None };
                    self.phase = RouterPhase::JoiningSpace { space_id: room_id };
                    RouterStep::Do(a)
                },
                RemoteResult::NotFound => {
                    let a = self.create_space();
                    self.phase = RouterPhase::CreatingSpace;
                    RouterStep::Do(a)
                },
                _ => self.finish(Err(CommandError::RemoteTransient)),
            },
            RouterPhase::JoiningSpace { space_id } => match result {
                RemoteResult::Done => {
                    cache.insert(self.site.as_str(), space_id.as_str());
                    self.container_known(space_id)
                },
                _ => if !self.retried {
                    let a = self.resolve_space();
                    self.retried = true;
                    self.phase = RouterPhase::ResolvingSpace;
                    RouterStep::Do(a)
                } else {
                    let a = self.create_space();
                    self.phase = RouterPhase::CreatingSpace;
                    RouterStep::Do(a)
                },
            },
            RouterPhase::CreatingSpace => match result {
                RemoteResult::Created { room_id } => {
                    cache.insert(self.site.as_str(), room_id.as_str());
                    self.container_known(room_id)
                },
                RemoteResult::Conflict => {
                    let a = self.resolve_space();
                    self.phase = RouterPhase::ResolvingSpaceAgain;
                    RouterStep::Do(a)
                },
                _ => self.finish(Err(CommandError::RemoteTransient)),
            },
            RouterPhase::ResolvingSpaceAgain => match result {
                RemoteResult::Resolved { room_id } => {
                    cache.insert(self.site.as_str(), room_id.as_str());
                    self.container_known(room_id)
                },
                _ => self.finish(Err(CommandError::RemoteTransient)),
            },
            RouterPhase::CreatingThread { space_id } => match result {
                RemoteResult::Created { room_id } => {
                    let a = RemoteAction::LinkChild {
                        space_id,
                        room_id: room_id.clone(),
                        via: self.server.clone(),
                    };
                    self.phase = RouterPhase::LinkingThread { room_id };
                    RouterStep::Do(a)
                },
                RemoteResult::Conflict => {
                    let a = self.resolve_thread();
                    self.phase = RouterPhase::ResolvingThreadAgain;
                    RouterStep::Do(a)
                },
                _ => self.finish(Err(CommandError::RemoteTransient)),
            },
            RouterPhase::LinkingThread { room_id } => self.finish(Ok(room_id)),
            RouterPhase::ResolvingThreadAgain => match result {
                RemoteResult::Resolved { room_id } => self.finish(Ok(room_id)),
                _ => self.finish(Err(CommandError::RemoteTransient)),
            },
            RouterPhase::Finished => RouterStep::Done(Err(CommandError::Internal)),
        }
    }
}

/// Begins to look for the space of a tenant, which is made where there is
/// none. A space that is remembered is the answer at once.
pub fn ensure_site_space(cache: &SpaceCache, server_name: &str, site_id: &SiteId) -> (r: Result<
    (ThreadRouter, RouterStep),
    CommandError,
>)
    ensures
        match r {
            Ok((router, step)) => routable(
                site_id@,
                Seq::<char>::empty(),
                server_name@,
                RouteGoal::Container,
            ) && (router@, step@) == fresh_router(
                site_id@,
                Seq::<char>::empty(),
                server_name@,
                None,
                RouteGoal::Container,
            ).first(cache@),
            Err(e) => !routable(
                site_id@,
                Seq::<char>::empty(),
                server_name@,
                RouteGoal::Container,
            ) && e == CommandError::InvalidInput,
        },
{
    proof {
        reveal_strlit("");
        assert(""@ =~= Seq::<char>::empty());
    }
    ThreadRouter::start(cache, site_id, "", server_name, None, RouteGoal::Container)
}

/// Begins to look for the room of a thread, which is made where there is
/// none, inside the space of its tenant, and with the owner invited.
pub fn ensure_room_for_as(
    cache: &SpaceCache,
    server_name: &str,
    site_id: &SiteId,
    slug: &str,
    owner_id: Option<&str>,
) -> (r: Result<(ThreadRouter, RouterStep), CommandError>)
    ensures
        match r {
            Ok((router, step)) => routable(site_id@, slug@, server_name@, RouteGoal::Thread) && (
            router@, step@) == fresh_router(
                site_id@,
                slug@,
                server_name@,
                crate::identity::opt_str_view(owner_id),
                RouteGoal::Thread,
            ).first(cache@),
            Err(e) => !routable(site_id@, slug@, server_name@, RouteGoal::Thread) && e
                == CommandError::InvalidInput,
        },
{
    ThreadRouter::start(cache, site_id, slug, server_name, owner_id, RouteGoal::Thread)
}

/// Where the address of a room can be looked for, from the nearest source
/// to the farthest.
#[derive(Debug, PartialEq, Eq, Clone, Copy, Structural)]
pub enum AliasSource {
    /// The main address that the room is known to have.
    Canonical,
    /// The first of its other addresses.
    Alternative,
    /// The state of the room as the client holds it.
    RoomState,
    /// The state of the room as the server gives it.
    Network,
}

/// What the search for the address of a room says next.
#[derive(Debug)]
pub enum AliasLookup {
    /// This is the address.
    Found(String),
    /// Ask this source.
    Try(AliasSource),
    /// No source has one.
    Unknown,
}

pub enum AliasLookupView {
    Found(Seq<char>),
    Try(AliasSource),
    Unknown,
}

impl View for AliasLookup {
    type V = AliasLookupView;

    open spec fn view(&self) -> AliasLookupView {
        match *self {
            AliasLookup::Found(a) => AliasLookupView::Found(a@),
            AliasLookup::Try(s) => AliasLookupView::Try(s),
            AliasLookup::Unknown => AliasLookupView::Unknown,
        }
    }
}

/// The chain of sources: what an answer of one source leads to. The first
/// address that a source gives is taken, and a source that gives none
/// leads to the next.
pub open spec fn alias_chain(asked: AliasSource, answer: Option<Seq<char>>) -> AliasLookupView {
    match answer {
        Some(a) => AliasLookupView::Found(a),
        None => match asked {
            AliasSource::Canonical => AliasLookupView::Try(AliasSource::Alternative),
            AliasSource::Alternative => AliasLookupView::Try(AliasSource::RoomState),
            AliasSource::RoomState => AliasLookupView::Try(AliasSource::Network),
            AliasSource::Network => AliasLookupView::Unknown,
        },
    }
}

/// One step in the search for the address of a room: `asked` is the source
/// that was asked, beginning with `Canonical`, and `answer` what it gave.
pub fn resolve_room_alias_chain(asked: AliasSource, answer: Option<String>) -> (r: AliasLookup)
    ensures
        r@ == alias_chain(asked, opt_view(answer)),
{
    match answer {
        Some(a) => AliasLookup::Found(a),
        None => match asked {
            AliasSource::Canonical => AliasLookup::Try(AliasSource::Alternative),
            AliasSource::Alternative => AliasLookup::Try(AliasSource::RoomState),
            AliasSource::RoomState => AliasLookup::Try(AliasSource::Network),
            AliasSource::Network => AliasLookup::Unknown,
        },
    }
}

} // verus!
