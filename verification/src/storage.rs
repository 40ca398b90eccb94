//! The local cache: rooms, comments, profiles and the resume token, as tables
//! in memory with the rules that keep them sound.
//!
//! The tables are the state that the reconciler and the executor work on.
//! Writing them to disk is left to the caller, who gets every change as the
//! result of the call that made it.

use vstd::prelude::*;
use vstd::string::*;
use crate::foreign::now_millis;
use crate::models::{Comment, CommentView, SiteId, deleted_author};
use crate::text::{opt_clone, opt_view, str_eq};

verus! {

/// For how long a cached profile is good: a day, in milliseconds.
pub const PROFILE_TTL_MILLIS: i64 = 86_400_000;

/// Which room holds which thread.
#[derive(Debug)]
pub struct RoomRecord {
    pub room_id: String,
    pub site_id: SiteId,
    pub post_slug: String,
}

pub struct RoomView {
    pub room_id: Seq<char>,
    pub site_id: Seq<char>,
    pub post_slug: Seq<char>,
}

impl View for RoomRecord {
    type V = RoomView;

    open spec fn view(&self) -> RoomView {
        RoomView { room_id: self.room_id@, site_id: self.site_id@, post_slug: self.post_slug@ }
    }
}

/// A stored comment: the comment, the room it came from, and the event as it
/// was received.
#[derive(Debug)]
pub struct CommentRow {
    pub room_id: String,
    pub comment: Comment,
    pub raw_event: Option<String>,
}

pub struct CommentRowView {
    pub room_id: Seq<char>,
    pub comment: CommentView,
    pub raw_event: Option<Seq<char>>,
}

impl View for CommentRow {
    type V = CommentRowView;

    open spec fn view(&self) -> CommentRowView {
        CommentRowView {
            room_id: self.room_id@,
            comment: self.comment@,
            raw_event: opt_view(self.raw_event),
        }
    }
}

/// What is remembered of a user of the network.
#[derive(Debug)]
pub struct ProfileRow {
    pub user_id: String,
    pub display_name: Option<String>,
    pub avatar_url: Option<String>,
    pub last_updated_at: i64,
}

pub struct ProfileView {
    pub user_id: Seq<char>,
    pub display_name: Option<Seq<char>>,
    pub avatar_url: Option<Seq<char>>,
    pub last_updated_at: int,
}

impl View for ProfileRow {
    type V = ProfileView;

    open spec fn view(&self) -> ProfileView {
        ProfileView {
            user_id: self.user_id@,
            display_name: opt_view(self.display_name),
            avatar_url: opt_view(self.avatar_url),
            last_updated_at: self.last_updated_at as int,
        }
    }
}

impl Clone for ProfileRow {
    fn clone(&self) -> (r: Self)
        ensures
            r@ == self@,
    {
        ProfileRow {
            user_id: self.user_id.clone(),
            display_name: opt_clone(&self.display_name),
            avatar_url: opt_clone(&self.avatar_url),
            last_updated_at: self.last_updated_at,
        }
    }
}

/// Why the cache refuses a write.
#[derive(Debug, PartialEq, Eq, Clone, Copy, Structural)]
pub enum StorageError {
    /// The thread belongs to another room already.
    ThreadTaken,
}

/// The cache as plain values.
pub struct DbView {
    pub rooms: Seq<RoomView>,
    pub comments: Seq<CommentRowView>,
    pub profiles: Seq<ProfileView>,
    pub sync_token: Option<Seq<char>>,
}

/// Where a comment created at `t` goes among rows in order of creation:
/// behind every row that is not younger.
pub open spec fn insertion_point(rows: Seq<CommentRowView>, t: int) -> int
    decreases rows.len(),
{
    if rows.len() == 0 || rows.last().comment.created_at <= t {
        rows.len() as int
    } else {
        insertion_point(rows.drop_last(), t)
    }
}

/// The comments of one thread, in the order of the rows.
pub open spec fn thread_comments(
    rows: Seq<CommentRowView>,
    site: Seq<char>,
    slug: Seq<char>,
) -> Seq<CommentView>
    decreases rows.len(),
{
    if rows.len() == 0 {
        Seq::<CommentView>::empty()
    } else {
        let rest = thread_comments(rows.drop_last(), site, slug);
        let c = rows.last().comment;
        if c.site_id == site && c.post_slug == slug {
            rest.push(c)
        } else {
            rest
        }
    }
}

/// The part of a list that a query for `limit` items from `offset` on gets.
/// A negative limit asks for all, a negative offset counts as none.
pub open spec fn page_bounds(len: int, limit: int, offset: int) -> (int, int) {
    let from = if offset < 0 {
        0
    } else if offset > len {
        len
    } else {
        offset
    };
    let to = if limit < 0 || limit > len - from {
        len
    } else {
        from + limit
    };
    (from, to)
}

/// The stored comment after a later version of it has come in: content,
/// redaction, time of change, author name and avatar are the new ones, all
/// else stays as it was when the comment was created.
pub open spec fn merged(old_row: CommentRowView, c: CommentView) -> CommentRowView {
    CommentRowView {
        comment: CommentView {
            content: c.content,
            is_redacted: c.is_redacted,
            updated_at: c.updated_at,
            author_name: c.author_name,
            avatar_url: c.avatar_url,
            ..old_row.comment
        },
        ..old_row
    }
}

/// A stored comment after its deletion: nothing is left of content, author
/// name and avatar.
pub open spec fn redacted(old_row: CommentRowView) -> CommentRowView {
    CommentRowView {
        comment: CommentView {
            content: Seq::<char>::empty(),
            author_name: deleted_author(),
            is_redacted: true,
            avatar_url: None,
            ..old_row.comment
        },
        ..old_row
    }
}

/// A room with this identifier is among the rooms.
pub open spec fn room_known(rooms: Seq<RoomView>, room_id: Seq<char>) -> bool {
    exists|k: int| 0 <= k < rooms.len() && (#[trigger] rooms[k]).room_id == room_id
}

/// Where the room with this identifier stands among the rooms.
pub open spec fn room_at(rooms: Seq<RoomView>, room_id: Seq<char>) -> int {
    choose|k: int| 0 <= k < rooms.len() && (#[trigger] rooms[k]).room_id == room_id
}

/// A comment with this identifier is among the rows.
pub open spec fn comment_known(rows: Seq<CommentRowView>, id: Seq<char>) -> bool {
    exists|k: int| 0 <= k < rows.len() && (#[trigger] rows[k]).comment.id == id
}

/// Where the comment with this identifier stands among the rows.
pub open spec fn comment_at(rows: Seq<CommentRowView>, id: Seq<char>) -> int {
    choose|k: int| 0 <= k < rows.len() && (#[trigger] rows[k]).comment.id == id
}

/// A profile of this user is among the profiles.
pub open spec fn profile_known(profiles: Seq<ProfileView>, user_id: Seq<char>) -> bool {
    exists|k: int| 0 <= k < profiles.len() && (#[trigger] profiles[k]).user_id == user_id
}

/// Where the profile of this user stands among the profiles.
pub open spec fn profile_at(profiles: Seq<ProfileView>, user_id: Seq<char>) -> int {
    choose|k: int| 0 <= k < profiles.len() && (#[trigger] profiles[k]).user_id == user_id
}

/// No room stands twice among the rooms.
pub open spec fn distinct_rooms(rooms: Seq<RoomView>) -> bool {
    forall|i: int, j: int|
        0 <= i < j < rooms.len() ==> (#[trigger] rooms[i]).room_id != (#[trigger] rooms[j]).room_id
}

/// No thread has two rooms.
pub open spec fn distinct_threads(rooms: Seq<RoomView>) -> bool {
    forall|i: int, j: int|
        0 <= i < j < rooms.len() ==> !((#[trigger] rooms[i]).site_id == (
        #[trigger] rooms[j]).site_id && rooms[i].post_slug == rooms[j].post_slug)
}

/// No comment stands twice among the rows.
pub open spec fn distinct_comments(rows: Seq<CommentRowView>) -> bool {
    forall|i: int, j: int|
        0 <= i < j < rows.len() ==> (#[trigger] rows[i]).comment.id != (
        #[trigger] rows[j]).comment.id
}

/// The rows stand in order of creation.
pub open spec fn in_order(rows: Seq<CommentRowView>) -> bool {
    forall|i: int, j: int|
        0 <= i < j < rows.len() ==> (#[trigger] rows[i]).comment.created_at <= (
        #[trigger] rows[j]).comment.created_at
}

/// No user has two profiles.
pub open spec fn distinct_profiles(profiles: Seq<ProfileView>) -> bool {
    forall|i: int, j: int|
        0 <= i < j < profiles.len() ==> (#[trigger] profiles[i]).user_id != (
        #[trigger] profiles[j]).user_id
}

/// A row is sound: its comment is, and it stands under the thread of its room.
pub open spec fn row_sound(rooms: Seq<RoomView>, row: CommentRowView) -> bool {
    &&& row.comment.wf()
    &&& room_known(rooms, row.room_id)
    &&& rooms[room_at(rooms, row.room_id)].site_id == row.comment.site_id
    &&& rooms[room_at(rooms, row.room_id)].post_slug == row.comment.post_slug
}

impl DbView {
    pub open spec fn has_room(self, room_id: Seq<char>) -> bool {
        room_known(self.rooms, room_id)
    }

    pub open spec fn room_index(self, room_id: Seq<char>) -> int {
        room_at(self.rooms, room_id)
    }

    /// Some room holds this thread.
    pub open spec fn has_thread(self, site: Seq<char>, slug: Seq<char>) -> bool {
        exists|k: int|
            0 <= k < self.rooms.len() && (#[trigger] self.rooms[k]).site_id == site
                && self.rooms[k].post_slug == slug
    }

    pub open spec fn has_comment(self, id: Seq<char>) -> bool {
        comment_known(self.comments, id)
    }

    pub open spec fn comment_index(self, id: Seq<char>) -> int {
        comment_at(self.comments, id)
    }

    /// The stored comment with this identifier, if there is one.
    pub open spec fn comment(self, id: Seq<char>) -> Option<CommentView> {
        if self.has_comment(id) {
            Some(self.comments[self.comment_index(id)].comment)
        } else {
            None
        }
    }

    pub open spec fn has_profile(self, user_id: Seq<char>) -> bool {
        profile_known(self.profiles, user_id)
    }

    pub open spec fn profile_index(self, user_id: Seq<char>) -> int {
        profile_at(self.profiles, user_id)
    }

    /// The profile of a user as far as the cache can vouch for it at `now`:
    /// an entry that is older than a day counts as none.
    pub open spec fn fresh_profile(self, user_id: Seq<char>, now: int) -> Option<ProfileView> {
        if self.has_profile(user_id) && self.profiles[self.profile_index(user_id)].last_updated_at
            > now - PROFILE_TTL_MILLIS {
            Some(self.profiles[self.profile_index(user_id)])
        } else {
            None
        }
    }

    /// What the tables keep: no room, thread, comment or user twice; every
    /// comment in a known room, under the thread of that room; the comments
    /// in order of creation; and every comment sound in itself.
    pub open spec fn wf(self) -> bool {
        &&& distinct_rooms(self.rooms)
        &&& distinct_threads(self.rooms)
        &&& distinct_comments(self.comments)
        &&& in_order(self.comments)
        &&& forall|i: int|
            0 <= i < self.comments.len() ==> row_sound(self.rooms, #[trigger] self.comments[i])
        &&& distinct_profiles(self.profiles)
    }

    /// The rooms after a room was made known, where that was possible: a
    /// known room stays as it is, and a thread that has a room gets no other.
    pub open spec fn with_room(self, room_id: Seq<char>, site: Seq<char>, slug: Seq<char>) -> DbView {
        if self.has_room(room_id) || self.has_thread(site, slug) {
            self
        } else {
            DbView { rooms: self.rooms.push(RoomView { room_id, site_id: site, post_slug: slug }), ..self }
        }
    }

    /// Whether a room can stand for a thread: it is known, or the thread is free.
    pub open spec fn room_available(self, room_id: Seq<char>, site: Seq<char>, slug: Seq<char>) -> bool {
        self.has_room(room_id) || !self.has_thread(site, slug)
    }

    /// The row that a new comment gets: the comment under the thread of its room.
    pub open spec fn new_row(
        self,
        room_id: Seq<char>,
        c: CommentView,
        raw: Option<Seq<char>>,
    ) -> CommentRowView {
        let room = self.rooms[self.room_index(room_id)];
        CommentRowView {
            room_id,
            comment: CommentView { site_id: room.site_id, post_slug: room.post_slug, ..c },
            raw_event: raw,
        }
    }

    /// The cache after a comment was written: a new comment goes in whole,
    /// behind those that are not younger; a known one is merged. Where the
    /// room cannot stand for the thread nothing is written.
    pub open spec fn upserted(
        self,
        room_id: Seq<char>,
        site: Seq<char>,
        slug: Seq<char>,
        c: CommentView,
        raw: Option<Seq<char>>,
    ) -> DbView {
        if !self.room_available(room_id, site, slug) {
            self
        } else {
            let d = self.with_room(room_id, site, slug);
            if d.has_comment(c.id) {
                let k = d.comment_index(c.id);
                DbView { comments: d.comments.update(k, merged(d.comments[k], c)), ..d }
            } else {
                let p = insertion_point(d.comments, c.created_at);
                DbView { comments: d.comments.insert(p, d.new_row(room_id, c, raw)), ..d }
            }
        }
    }

    /// The cache after a comment was deleted: an unknown one leaves it as it was.
    pub open spec fn deleted(self, id: Seq<char>) -> DbView {
        if self.has_comment(id) {
            let k = self.comment_index(id);
            DbView { comments: self.comments.update(k, redacted(self.comments[k])), ..self }
        } else {
            self
        }
    }

    /// The cache after a profile was written with the time `now`.
    pub open spec fn with_profile(self, p: ProfileView) -> DbView {
        if self.has_profile(p.user_id) {
            DbView { profiles: self.profiles.update(self.profile_index(p.user_id), p), ..self }
        } else {
            DbView { profiles: self.profiles.push(p), ..self }
        }
    }
}

/// In sound tables a room is found at one index only.
pub proof fn lemma_room_index(d: DbView, k: int)
    requires
        distinct_rooms(d.rooms),
        0 <= k < d.rooms.len(),
    ensures
        d.has_room(d.rooms[k].room_id),
        d.room_index(d.rooms[k].room_id) == k,
{
    let j = d.room_index(d.rooms[k].room_id);
    assert(d.rooms[j].room_id == d.rooms[k].room_id);
    if j < k {
        assert(d.rooms[j].room_id != d.rooms[k].room_id);
    } else if k < j {
        assert(d.rooms[k].room_id != d.rooms[j].room_id);
    }
}

/// In sound tables a comment is found at one index only.
pub proof fn lemma_comment_index(d: DbView, k: int)
    requires
        distinct_comments(d.comments),
        0 <= k < d.comments.len(),
    ensures
        d.has_comment(d.comments[k].comment.id),
        d.comment_index(d.comments[k].comment.id) == k,
        d.comment(d.comments[k].comment.id) == Some(d.comments[k].comment),
{
    let j = d.comment_index(d.comments[k].comment.id);
    assert(d.comments[j].comment.id == d.comments[k].comment.id);
    if j < k {
        assert(d.comments[j].comment.id != d.comments[k].comment.id);
    } else if k < j {
        assert(d.comments[k].comment.id != d.comments[j].comment.id);
    }
}

/// In sound tables a profile is found at one index only.
pub proof fn lemma_profile_index(d: DbView, k: int)
    requires
        distinct_profiles(d.profiles),
        0 <= k < d.profiles.len(),
    ensures
        d.has_profile(d.profiles[k].user_id),
        d.profile_index(d.profiles[k].user_id) == k,
{
    let j = d.profile_index(d.profiles[k].user_id);
    assert(d.profiles[j].user_id == d.profiles[k].user_id);
    if j < k {
        assert(d.profiles[j].user_id != d.profiles[k].user_id);
    } else if k < j {
        assert(d.profiles[k].user_id != d.profiles[j].user_id);
    }
}

/// Among rows in order of creation, those before the insertion point are
/// not younger than `t`, and those from it on are.
pub proof fn lemma_insertion_point(rows: Seq<CommentRowView>, t: int)
    requires
        in_order(rows),
    ensures
        0 <= insertion_point(rows, t) <= rows.len(),
        forall|i: int|
            0 <= i < insertion_point(rows, t) ==> (#[trigger] rows[i]).comment.created_at <= t,
        forall|i: int|
            insertion_point(rows, t) <= i < rows.len() ==> (#[trigger] rows[i]).comment.created_at
                > t,
    decreases rows.len(),
{
    if rows.len() == 0 {
    } else if rows.last().comment.created_at <= t {
        assert forall|i: int| 0 <= i < rows.len() implies (#[trigger] rows[i]).comment.created_at
            <= t by {
            if i < rows.len() - 1 {
                assert(rows[i].comment.created_at <= rows[rows.len() - 1].comment.created_at);
            }
        }
    } else {
        let rest = rows.drop_last();
        assert forall|i: int, j: int| 0 <= i < j < rest.len() implies (
        #[trigger] rest[i]).comment.created_at <= (#[trigger] rest[j]).comment.created_at by {
            assert(rows[i].comment.created_at <= rows[j].comment.created_at);
        }
        lemma_insertion_point(rest, t);
        assert forall|i: int| 0 <= i < insertion_point(rows, t) implies (
        #[trigger] rows[i]).comment.created_at <= t by {
            assert(rest[i] == rows[i]);
        }
        assert forall|i: int| insertion_point(rows, t) <= i < rows.len() implies (
        #[trigger] rows[i]).comment.created_at > t by {
            if i < rest.len() {
                assert(rest[i] == rows[i]);
            }
        }
    }
}

/// The local cache.
#[derive(Debug)]
pub struct Db {
    rooms: Vec<RoomRecord>,
    comments: Vec<CommentRow>,
    profiles: Vec<ProfileRow>,
    sync_token: Option<String>,
}

pub closed spec fn room_views(v: Seq<RoomRecord>) -> Seq<RoomView> {
    Seq::new(v.len(), |i: int| v[i]@)
}

pub closed spec fn row_views(v: Seq<CommentRow>) -> Seq<CommentRowView> {
    Seq::new(v.len(), |i: int| v[i]@)
}

pub closed spec fn profile_views(v: Seq<ProfileRow>) -> Seq<ProfileView> {
    Seq::new(v.len(), |i: int| v[i]@)
}

/// The comments of a list as plain values.
pub open spec fn comment_views(v: Seq<Comment>) -> Seq<CommentView> {
    Seq::new(v.len(), |i: int| v[i]@)
}

impl View for Db {
    type V = DbView;

    closed spec fn view(&self) -> DbView {
        DbView {
            rooms: room_views(self.rooms@),
            comments: row_views(self.comments@),
            profiles: profile_views(self.profiles@),
            sync_token: opt_view(self.sync_token),
        }
    }
}

impl Db {
    /// An empty cache.
    pub fn new() -> (db: Db)
        ensures
            db@.wf(),
            db@.rooms.len() == 0,
            db@.comments.len() == 0,
            db@.profiles.len() == 0,
            db@.sync_token is None,
    {
        Db { rooms: Vec::new(), comments: Vec::new(), profiles: Vec::new(), sync_token: None }
    }

    fn find_room(&self, room_id: &str) -> (r: Option<usize>)
        ensures
            match r {
                Some(k) => k < self.rooms.len() && self@.rooms[k as int].room_id == room_id@,
                None => !self@.has_room(room_id@),
            },
    {
        let mut k: usize = 0;
        while k < self.rooms.len()
            invariant
                k <= self.rooms.len(),
                forall|m: int| 0 <= m < k ==> (#[trigger] self@.rooms[m]).room_id != room_id@,
            decreases self.rooms.len() - k,
        {
            if str_eq(self.rooms[k].room_id.as_str(), room_id) {
                return Some(k);
            }
            k += 1;
        }
        None
    }

    fn find_thread(&self, site: &str, slug: &str) -> (r: bool)
        ensures
            r == self@.has_thread(site@, slug@),
    {
        let mut k: usize = 0;
        while k < self.rooms.len()
            invariant
                k <= self.rooms.len(),
                forall|m: int|
                    0 <= m < k ==> !((#[trigger] self@.rooms[m]).site_id == site@
                        && self@.rooms[m].post_slug == slug@),
            decreases self.rooms.len() - k,
        {
            if str_eq(self.rooms[k].site_id.as_str(), site) && str_eq(
                self.rooms[k].post_slug.as_str(),
                slug,
            ) {
                assert(self@.rooms[k as int].site_id == site@);
                return true;
            }
            k += 1;
        }
        false
    }

    fn find_comment(&self, id: &str) -> (r: Option<usize>)
        ensures
            match r {
                Some(k) => k < self.comments.len() && self@.comments[k as int].comment.id == id@,
                None => !self@.has_comment(id@),
            },
    {
        let mut k: usize = 0;
        while k < self.comments.len()
            invariant
                k <= self.comments.len(),
                forall|m: int| 0 <= m < k ==> (#[trigger] self@.comments[m]).comment.id != id@,
            decreases self.comments.len() - k,
        {
            if str_eq(self.comments[k].comment.id.as_str(), id) {
                return Some(k);
            }
            k += 1;
        }
        None
    }

    fn find_profile(&self, user_id: &str) -> (r: Option<usize>)
        ensures
            match r {
                Some(k) => k < self.profiles.len() && self@.profiles[k as int].user_id
                    == user_id@,
                None => !self@.has_profile(user_id@),
            },
    {
        let mut k: usize = 0;
        while k < self.profiles.len()
            invariant
                k <= self.profiles.len(),
                forall|m: int| 0 <= m < k ==> (#[trigger] self@.profiles[m]).user_id != user_id@,
            decreases self.profiles.len() - k,
        {
            if str_eq(self.profiles[k].user_id.as_str(), user_id) {
                return Some(k);
            }
            k += 1;
        }
        None
    }

    /// Makes known that `room_id` holds the thread. A room that is known
    /// stays as it is. A thread that another room holds is not given away:
    /// that is refused, and nothing changes.
    pub fn ensure_room(&mut self, room_id: &str, site_id: &str, slug: &str) -> (r: Result<
        (),
        StorageError,
    >)
        requires
            old(self)@.wf(),
        ensures
            final(self)@.wf(),
            r is Ok <==> old(self)@.room_available(room_id@, site_id@, slug@),
            r is Err ==> r == Err::<(), StorageError>(StorageError::ThreadTaken),
            final(self)@ == old(self)@.with_room(room_id@, site_id@, slug@),
            r is Ok ==> final(self)@.has_room(room_id@),
    {
        if self.find_room(room_id).is_some() {
            return Ok(());
        }
        if self.find_thread(site_id, slug) {
            return Err(StorageError::ThreadTaken);
        }
        let ghost before = self@;
        self.rooms.push(
            RoomRecord {
                room_id: room_id.to_owned(),
                site_id: SiteId::new_unchecked(site_id.to_owned()),
                post_slug: slug.to_owned(),
            },
        );
        proof {
            let added = RoomView { room_id: room_id@, site_id: site_id@, post_slug: slug@ };
            assert(self@.rooms =~= before.rooms.push(added));
            assert(self@ == before.with_room(room_id@, site_id@, slug@));
            lemma_with_room_sound(before, room_id@, site_id@, slug@);
            assert(self@.rooms[before.rooms.len() as int].room_id == room_id@);
        }
        Ok(())
    }

    /// The thread that a room holds, if the room is known.
    pub fn get_room_meta(&self, room_id: &str) -> (r: Option<(SiteId, String)>)
        requires
            self@.wf(),
        ensures
            match r {
                Some((site, slug)) => self@.has_room(room_id@) && site@
                    == self@.rooms[self@.room_index(room_id@)].site_id && slug@
                    == self@.rooms[self@.room_index(room_id@)].post_slug,
                None => !self@.has_room(room_id@),
            },
    {
        match self.find_room(room_id) {
            Some(k) => {
                proof {
                    lemma_room_index(self@, k as int);
                }
                Some((self.rooms[k].site_id.clone(), self.rooms[k].post_slug.clone()))
            },
            None => None,
        }
    }

    /// Writes a comment that came from `room_id`. A comment that is not yet
    /// known is stored whole; of one that is known only content, redaction,
    /// time of change, author name and avatar are renewed.
    pub fn upsert_comment(
        &mut self,
        room_id: &str,
        site_id: &str,
        slug: &str,
        c: &Comment,
        raw_event_json: Option<String>,
    ) -> (r: Result<(), StorageError>)
        requires
            old(self)@.wf(),
            c@.wf(),
        ensures
            final(self)@.wf(),
            r is Ok <==> old(self)@.room_available(room_id@, site_id@, slug@),
            r is Err ==> r == Err::<(), StorageError>(StorageError::ThreadTaken),
            final(self)@ == old(self)@.upserted(
                room_id@,
                site_id@,
                slug@,
                c@,
                opt_view(raw_event_json),
            ),
    {
        let ghost before = self@;
        match self.ensure_room(room_id, site_id, slug) {
            Err(e) => {
                return Err(e);
            },
            Ok(()) => {},
        }
        let ghost d = self@;
        let room = match self.find_room(room_id) {
            Some(k) => k,
            None => {
                assert(false);
                return Err(StorageError::ThreadTaken);
            },
        };
        proof {
            lemma_room_index(d, room as int);
            lemma_upserted_sound(before, room_id@, site_id@, slug@, c@, opt_view(raw_event_json));
        }
        match self.find_comment(c.id.as_str()) {
            Some(k) => {
                proof {
                    lemma_comment_index(d, k as int);
                }
                let old_row = &self.comments[k];
                let row = CommentRow {
                    room_id: old_row.room_id.clone(),
                    comment: Comment {
                        id: old_row.comment.id.clone(),
                        site_id: old_row.comment.site_id.clone(),
                        post_slug: old_row.comment.post_slug.clone(),
                        author_id: old_row.comment.author_id.clone(),
                        author_name: c.author_name.clone(),
                        author_fingerprint: opt_clone(&old_row.comment.author_fingerprint),
                        avatar_url: opt_clone(&c.avatar_url),
                        is_guest: old_row.comment.is_guest,
                        content: c.content.clone(),
                        is_redacted: c.is_redacted,
                        reply_to: opt_clone(&old_row.comment.reply_to),
                        created_at: old_row.comment.created_at,
                        updated_at: c.updated_at,
                        txn_id: opt_clone(&old_row.comment.txn_id),
                    },
                    raw_event: opt_clone(&old_row.raw_event),
                };
                assert(row@ == merged(d.comments[k as int], c@));
                self.comments[k] = row;
                assert(self@.comments =~= d.comments.update(k as int, merged(d.comments[k as int], c@)));
            },
            None => {
                let p = self.insertion_index(c.created_at);
                let row = CommentRow {
                    room_id: room_id.to_owned(),
                    comment: Comment {
                        id: c.id.clone(),
                        site_id: self.rooms[room].site_id.clone(),
                        post_slug: self.rooms[room].post_slug.clone(),
                        author_id: c.author_id.clone(),
                        author_name: c.author_name.clone(),
                        author_fingerprint: opt_clone(&c.author_fingerprint),
                        avatar_url: opt_clone(&c.avatar_url),
                        is_guest: c.is_guest,
                        content: c.content.clone(),
                        is_redacted: c.is_redacted,
                        reply_to: opt_clone(&c.reply_to),
                        created_at: c.created_at,
                        updated_at: c.updated_at,
                        txn_id: opt_clone(&c.txn_id),
                    },
                    raw_event: raw_event_json,
                };
                assert(row@ == d.new_row(room_id@, c@, opt_view(raw_event_json)));
                self.comments.insert(p, row);
                assert(self@.comments =~= d.comments.insert(p as int, row@));
            },
        }
        Ok(())
    }

    /// Where a comment created at `t` goes among the rows.
    fn insertion_index(&self, t: i64) -> (p: usize)
        ensures
            p == insertion_point(self@.comments, t as int),
            p <= self.comments.len(),
    {
        let mut p: usize = self.comments.len();
        assert(self@.comments.take(p as int) =~= self@.comments);
        while p > 0 && self.comments[p - 1].comment.created_at > t
            invariant
                p <= self.comments.len(),
                insertion_point(self@.comments, t as int) == insertion_point(
                    self@.comments.take(p as int),
                    t as int,
                ),
            decreases p,
        {
            proof {
                let cur = self@.comments.take(p as int);
                assert(cur.last() == self@.comments[p - 1]);
                assert(cur.drop_last() =~= self@.comments.take(p - 1));
            }
            p -= 1;
        }
        proof {
            let cur = self@.comments.take(p as int);
            if p > 0 {
                assert(cur.last() == self@.comments[p - 1]);
            }
        }
        p
    }

    /// Deletes a comment: the row stays, so that answers to it keep their
    /// place, but content, author name and avatar are gone. Gives the thread
    /// of the comment, or nothing where the comment is not known, and then
    /// nothing has changed.
    pub fn delete_comment(&mut self, id: &str) -> (r: Option<(SiteId, String)>)
        requires
            old(self)@.wf(),
        ensures
            final(self)@.wf(),
            final(self)@ == old(self)@.deleted(id@),
            match r {
                Some((site, slug)) => old(self)@.comment(id@) is Some && site@ == old(
                    self,
                )@.comment(id@)->0.site_id && slug@ == old(self)@.comment(id@)->0.post_slug,
                None => old(self)@.comment(id@) is None && final(self)@ == old(self)@,
            },
    {
        let ghost d = self@;
        match self.find_comment(id) {
            Some(k) => {
                proof {
                    lemma_comment_index(d, k as int);
                    lemma_deleted_sound(d, id@);
                }
                let old_row = &self.comments[k];
                let site = old_row.comment.site_id.clone();
                let slug = old_row.comment.post_slug.clone();
                let row = CommentRow {
                    room_id: old_row.room_id.clone(),
                    comment: Comment {
                        id: old_row.comment.id.clone(),
                        site_id: old_row.comment.site_id.clone(),
                        post_slug: old_row.comment.post_slug.clone(),
                        author_id: old_row.comment.author_id.clone(),
                        author_name: "[Deleted]".to_string(),
                        author_fingerprint: opt_clone(&old_row.comment.author_fingerprint),
                        avatar_url: None,
                        is_guest: old_row.comment.is_guest,
                        content: String::new(),
                        is_redacted: true,
                        reply_to: opt_clone(&old_row.comment.reply_to),
                        created_at: old_row.comment.created_at,
                        updated_at: old_row.comment.updated_at,
                        txn_id: opt_clone(&old_row.comment.txn_id),
                    },
                    raw_event: opt_clone(&old_row.raw_event),
                };
                assert(row@ == redacted(d.comments[k as int]));
                self.comments[k] = row;
                assert(self@.comments =~= d.comments.update(k as int, redacted(d.comments[k as int])));
                Some((site, slug))
            },
            None => None,
        }
    }

    /// The stored comment with this identifier.
    pub fn get_comment(&self, comment_id: &str) -> (r: Option<Comment>)
        requires
            self@.wf(),
        ensures
            match r {
                Some(c) => self@.comment(comment_id@) == Some(c@),
                None => self@.comment(comment_id@) is None,
            },
    {
        match self.find_comment(comment_id) {
            Some(k) => {
                proof {
                    lemma_comment_index(self@, k as int);
                }
                Some(self.comments[k].comment.clone())
            },
            None => None,
        }
    }

    /// The room that a stored comment came from.
    pub fn room_of_comment(&self, comment_id: &str) -> (r: Option<String>)
        requires
            self@.wf(),
        ensures
            match r {
                Some(room) => self@.has_comment(comment_id@) && room@
                    == self@.comments[self@.comment_index(comment_id@)].room_id,
                None => !self@.has_comment(comment_id@),
            },
    {
        match self.find_comment(comment_id) {
            Some(k) => {
                proof {
                    lemma_comment_index(self@, k as int);
                }
                Some(self.comments[k].room_id.clone())
            },
            None => None,
        }
    }

    /// A page of the comments of a thread, oldest first, and how many the
    /// thread has in all. A negative `limit` asks for all of them, a
    /// negative `offset` counts as none.
    pub fn list_comments(&self, site_id: &str, slug: &str, limit: i64, offset: i64) -> (r: (
        Vec<Comment>,
        i64,
    ))
        requires
            self@.wf(),
            self@.comments.len() <= i64::MAX,
        ensures
            ({
                let all = thread_comments(self@.comments, site_id@, slug@);
                let (from, to) = page_bounds(all.len() as int, limit as int, offset as int);
                &&& r.1 == all.len()
                &&& comment_views(r.0@) == all.subrange(from, to)
            }),
    {
        let mut all: Vec<Comment> = Vec::new();
        let mut k: usize = 0;
        assert(self@.comments.take(0) =~= Seq::<CommentRowView>::empty());
        while k < self.comments.len()
            invariant
                k <= self.comments.len(),
                all.len() <= k,
                comment_views(all@) == thread_comments(
                    self@.comments.take(k as int),
                    site_id@,
                    slug@,
                ),
            decreases self.comments.len() - k,
        {
            let c = &self.comments[k].comment;
            proof {
                let cur = self@.comments.take(k + 1);
                assert(cur.drop_last() =~= self@.comments.take(k as int));
                assert(cur.last() == self@.comments[k as int]);
            }
            if str_eq(c.site_id.as_str(), site_id) && str_eq(c.post_slug.as_str(), slug) {
                let ghost prev = comment_views(all@);
                all.push(c.clone());
                assert(comment_views(all@) =~= prev.push(c@));
            }
            k += 1;
        }
        assert(self@.comments.take(self.comments.len() as int) =~= self@.comments);
        let total = all.len();
        let from: usize = if offset < 0 {
            0
        } else if offset as u64 > total as u64 {
            total
        } else {
            offset as usize
        };
        let to: usize = if limit < 0 || limit as u64 > (total - from) as u64 {
            total
        } else {
            from + limit as usize
        };
        let mut page: Vec<Comment> = Vec::new();
        let mut i: usize = from;
        while i < to
            invariant
                from <= i <= to,
                to <= all.len(),
                comment_views(page@) == comment_views(all@).subrange(from as int, i as int),
            decreases to - i,
        {
            let ghost prev = comment_views(page@);
            let item = all[i].clone();
            page.push(item);
            assert(comment_views(page@) =~= prev.push(item@));
            assert(comment_views(all@)[i as int] == item@);
            assert(comment_views(page@) =~= comment_views(all@).subrange(from as int, i + 1));
            i += 1;
        }
        (page, total as i64)
    }

    /// The cached profile of a user, unless it is older than a day at `now`.
    pub fn get_cached_profile_at(&self, user_id: &str, now: i64) -> (r: Option<ProfileRow>)
        requires
            self@.wf(),
        ensures
            match r {
                Some(p) => self@.fresh_profile(user_id@, now as int) == Some(p@),
                None => self@.fresh_profile(user_id@, now as int) is None,
            },
    {
        match self.find_profile(user_id) {
            Some(k) => {
                proof {
                    lemma_profile_index(self@, k as int);
                }
                let p = &self.profiles[k];
                let fresh = if now >= i64::MIN + PROFILE_TTL_MILLIS {
                    p.last_updated_at > now - PROFILE_TTL_MILLIS
                } else {
                    true
                };
                if fresh {
                    Some(p.clone())
                } else {
                    None
                }
            },
            None => None,
        }
    }

    /// The cached profile of a user, unless it is older than a day by the
    /// clock of the system.
    pub fn get_cached_profile(&self, user_id: &str) -> (r: Option<ProfileRow>)
        requires
            self@.wf(),
        ensures
            exists|now: int|
                match r {
                    Some(p) => #[trigger] self@.fresh_profile(user_id@, now) == Some(p@),
                    None => self@.fresh_profile(user_id@, now) is None,
                },
    {
        let now = now_millis();
        let r = self.get_cached_profile_at(user_id, now);
        proof {
            let w = now as int;
            assert(match r {
                Some(p) => self@.fresh_profile(user_id@, w) == Some(p@),
                None => self@.fresh_profile(user_id@, w) is None,
            });
        }
        r
    }

    /// Remembers the profile of a user as of `now`.
    pub fn upsert_profile_at(
        &mut self,
        user_id: &str,
        display_name: Option<&str>,
        avatar_url: Option<&str>,
        now: i64,
    )
        requires
            old(self)@.wf(),
        ensures
            final(self)@.wf(),
            final(self)@ == old(self)@.with_profile(
                ProfileView {
                    user_id: user_id@,
                    display_name: crate::identity::opt_str_view(display_name),
                    avatar_url: crate::identity::opt_str_view(avatar_url),
                    last_updated_at: now as int,
                },
            ),
    {
        let ghost d = self@;
        let row = ProfileRow {
            user_id: user_id.to_owned(),
            display_name: match display_name {
                Some(s) => Some(s.to_owned()),
                None => None,
            },
            avatar_url: match avatar_url {
                Some(s) => Some(s.to_owned()),
                None => None,
            },
            last_updated_at: now,
        };
        let ghost pv = row@;
        match self.find_profile(user_id) {
            Some(k) => {
                proof {
                    lemma_profile_index(d, k as int);
                }
                self.profiles[k] = row;
                assert(self@.profiles =~= d.profiles.update(k as int, pv));
                assert forall|i: int, j: int| 0 <= i < j < self@.profiles.len() implies (
                #[trigger] self@.profiles[i]).user_id != (#[trigger] self@.profiles[j]).user_id by {
                    assert(d.profiles[i].user_id != d.profiles[j].user_id);
                }
            },
            None => {
                self.profiles.push(row);
                assert(self@.profiles =~= d.profiles.push(pv));
                assert forall|i: int, j: int| 0 <= i < j < self@.profiles.len() implies (
                #[trigger] self@.profiles[i]).user_id != (#[trigger] self@.profiles[j]).user_id by {
                    if j < d.profiles.len() {
                        assert(d.profiles[i].user_id != d.profiles[j].user_id);
                    } else {
                        assert(d.profiles[i].user_id != user_id@);
                    }
                }
            },
        }
        assert(self@.rooms == d.rooms);
        assert(self@.comments == d.comments);
    }

    /// Remembers the profile of a user as of now, by the clock of the system.
    pub fn upsert_profile(
        &mut self,
        user_id: &str,
        display_name: Option<&str>,
        avatar_url: Option<&str>,
    )
        requires
            old(self)@.wf(),
        ensures
            final(self)@.wf(),
            exists|now: int|
                final(self)@ == #[trigger] old(self)@.with_profile(
                    ProfileView {
                        user_id: user_id@,
                        display_name: crate::identity::opt_str_view(display_name),
                        avatar_url: crate::identity::opt_str_view(avatar_url),
                        last_updated_at: now,
                    },
                ),
    {
        let now = now_millis();
        self.upsert_profile_at(user_id, display_name, avatar_url, now);
        proof {
            let w = now as int;
            assert(self@ == old(self)@.with_profile(
                ProfileView {
                    user_id: user_id@,
                    display_name: crate::identity::opt_str_view(display_name),
                    avatar_url: crate::identity::opt_str_view(avatar_url),
                    last_updated_at: w,
                },
            ));
        }
    }

    /// The position in the stream of events up to which all was processed.
    pub fn get_sync_token(&self) -> (r: Option<String>)
        ensures
            opt_view(r) == self@.sync_token,
    {
        opt_clone(&self.sync_token)
    }

    /// Remembers the position in the stream of events.
    pub fn save_sync_token(&mut self, token: &str)
        ensures
            final(self)@ == (DbView { sync_token: Some(token@), ..old(self)@ }),
    {
        self.sync_token = Some(token.to_owned());
    }

    /// How many comments are stored.
    pub fn comment_count(&self) -> (n: usize)
        ensures
            n == self@.comments.len(),
    {
        self.comments.len()
    }
}

/// Making a room known keeps the tables sound.
pub proof fn lemma_with_room_sound(d: DbView, room_id: Seq<char>, site: Seq<char>, slug: Seq<char>)
    requires
        d.wf(),
    ensures
        d.with_room(room_id, site, slug).wf(),
        forall|id: Seq<char>| d.has_room(id) ==> #[trigger] d.with_room(room_id, site, slug).has_room(id)
            && d.with_room(room_id, site, slug).room_index(id) == d.room_index(id),
{
    let n = d.with_room(room_id, site, slug);
    if d.has_room(room_id) || d.has_thread(site, slug) {
    } else {
        assert forall|i: int, j: int| 0 <= i < j < n.rooms.len() implies (
        #[trigger] n.rooms[i]).room_id != (#[trigger] n.rooms[j]).room_id by {
            if j < d.rooms.len() {
                assert(d.rooms[i].room_id != d.rooms[j].room_id);
            } else {
                assert(d.rooms[i].room_id != room_id);
            }
        }
        assert forall|i: int, j: int| 0 <= i < j < n.rooms.len() implies !((
        #[trigger] n.rooms[i]).site_id == (#[trigger] n.rooms[j]).site_id && n.rooms[i].post_slug
            == n.rooms[j].post_slug) by {
            if j < d.rooms.len() {
                assert(!(d.rooms[i].site_id == d.rooms[j].site_id && d.rooms[i].post_slug
                    == d.rooms[j].post_slug));
            } else {
                assert(!(d.rooms[i].site_id == site && d.rooms[i].post_slug == slug));
            }
        }
        assert forall|id: Seq<char>| d.has_room(id) implies #[trigger] n.has_room(id)
            && n.room_index(id) == d.room_index(id) by {
            let k = d.room_index(id);
            assert(n.rooms[k] == d.rooms[k]);
            lemma_room_index(n, k);
        }
        assert forall|i: int| 0 <= i < n.comments.len() implies row_sound(
            n.rooms,
            #[trigger] n.comments[i],
        ) by {
            let row = d.comments[i];
            assert(row_sound(d.rooms, row));
            let k = d.room_index(row.room_id);
            assert(n.rooms[k] == d.rooms[k]);
        }
    }
}

/// Writing a comment keeps the tables sound.
pub proof fn lemma_upserted_sound(
    before: DbView,
    room_id: Seq<char>,
    site: Seq<char>,
    slug: Seq<char>,
    c: CommentView,
    raw: Option<Seq<char>>,
)
    requires
        before.wf(),
        c.wf(),
    ensures
        before.upserted(room_id, site, slug, c, raw).wf(),
{
    if before.room_available(room_id, site, slug) {
        lemma_with_room_sound(before, room_id, site, slug);
        let d = before.with_room(room_id, site, slug);
        let n = before.upserted(room_id, site, slug, c, raw);
        assert(d.has_room(room_id)) by {
            if !before.has_room(room_id) {
                assert(d.rooms[before.rooms.len() as int].room_id == room_id);
            }
        }
        if d.has_comment(c.id) {
            let k = d.comment_index(c.id);
            assert forall|i: int, j: int| 0 <= i < j < n.comments.len() implies (
            #[trigger] n.comments[i]).comment.id != (#[trigger] n.comments[j]).comment.id by {
                assert(d.comments[i].comment.id != d.comments[j].comment.id);
            }
            assert forall|i: int, j: int| 0 <= i < j < n.comments.len() implies (
            #[trigger] n.comments[i]).comment.created_at <= (
            #[trigger] n.comments[j]).comment.created_at by {
                assert(d.comments[i].comment.created_at <= d.comments[j].comment.created_at);
            }
            assert forall|i: int| 0 <= i < n.comments.len() implies row_sound(
                n.rooms,
                #[trigger] n.comments[i],
            ) by {
                assert(row_sound(d.rooms, d.comments[i]));
            }
        } else {
            let p = insertion_point(d.comments, c.created_at);
            lemma_insertion_point(d.comments, c.created_at);
            let row = d.new_row(room_id, c, raw);
            assert forall|i: int, j: int| 0 <= i < j < n.comments.len() implies (
            #[trigger] n.comments[i]).comment.id != (#[trigger] n.comments[j]).comment.id by {
                let oi = if i < p { i } else { i - 1 };
                let oj = if j < p { j } else { j - 1 };
                if i == p {
                    assert(n.comments[j] == d.comments[oj]);
                    assert(d.comments[oj].comment.id != c.id);
                } else if j == p {
                    assert(n.comments[i] == d.comments[oi]);
                    assert(d.comments[oi].comment.id != c.id);
                } else {
                    assert(n.comments[i] == d.comments[oi]);
                    assert(n.comments[j] == d.comments[oj]);
                    assert(d.comments[oi].comment.id != d.comments[oj].comment.id);
                }
            }
            assert forall|i: int, j: int| 0 <= i < j < n.comments.len() implies (
            #[trigger] n.comments[i]).comment.created_at <= (
            #[trigger] n.comments[j]).comment.created_at by {
                let oi = if i < p { i } else { i - 1 };
                let oj = if j < p { j } else { j - 1 };
                if i == p {
                    assert(n.comments[j] == d.comments[oj]);
                    assert(d.comments[oj].comment.created_at > c.created_at);
                } else if j == p {
                    assert(n.comments[i] == d.comments[oi]);
                    assert(d.comments[oi].comment.created_at <= c.created_at);
                } else {
                    assert(n.comments[i] == d.comments[oi]);
                    assert(n.comments[j] == d.comments[oj]);
                    assert(d.comments[oi].comment.created_at <= d.comments[oj].comment.created_at);
                }
            }
            assert forall|i: int| 0 <= i < n.comments.len() implies row_sound(
                n.rooms,
                #[trigger] n.comments[i],
            ) by {
                if i == p {
                    assert(n.comments[i] == row);
                } else {
                    let oi = if i < p { i } else { i - 1 };
                    assert(n.comments[i] == d.comments[oi]);
                    assert(row_sound(d.rooms, d.comments[oi]));
                }
            }
        }
    }
}

/// Deleting a comment keeps the tables sound.
pub proof fn lemma_deleted_sound(d: DbView, id: Seq<char>)
    requires
        d.wf(),
    ensures
        d.deleted(id).wf(),
{
    let n = d.deleted(id);
    if d.has_comment(id) {
        assert forall|i: int, j: int| 0 <= i < j < n.comments.len() implies (
        #[trigger] n.comments[i]).comment.id != (#[trigger] n.comments[j]).comment.id by {
            assert(d.comments[i].comment.id != d.comments[j].comment.id);
        }
        assert forall|i: int, j: int| 0 <= i < j < n.comments.len() implies (
        #[trigger] n.comments[i]).comment.created_at <= (
        #[trigger] n.comments[j]).comment.created_at by {
            assert(d.comments[i].comment.created_at <= d.comments[j].comment.created_at);
        }
        assert forall|i: int| 0 <= i < n.comments.len() implies row_sound(
            n.rooms,
            #[trigger] n.comments[i],
        ) by {
            assert(row_sound(d.rooms, d.comments[i]));
        }
    }
}

/// After a comment was written it is there: as it came, under the thread of
/// its room, where it was not known before, and merged into what was known
/// where it was. The number of rows grows by one in the first case and stays
/// in the second.
pub proof fn lemma_upserted_comment(
    before: DbView,
    room_id: Seq<char>,
    site: Seq<char>,
    slug: Seq<char>,
    c: CommentView,
    raw: Option<Seq<char>>,
)
    requires
        before.wf(),
        c.wf(),
        before.room_available(room_id, site, slug),
    ensures
        ({
            let after = before.upserted(room_id, site, slug, c, raw);
            &&& after.has_room(room_id)
            &&& after.comment(c.id) is Some
            &&& before.has_comment(c.id) ==> after.comments.len() == before.comments.len()
                && after.comments[after.comment_index(c.id)] == merged(
                before.comments[before.comment_index(c.id)],
                c,
            ) && after.comment_index(c.id) == before.comment_index(c.id)
            &&& !before.has_comment(c.id) ==> after.comments.len() == before.comments.len() + 1
                && after.comments[after.comment_index(c.id)] == after.new_row(room_id, c, raw)
        }),
{
    lemma_with_room_sound(before, room_id, site, slug);
    lemma_upserted_sound(before, room_id, site, slug, c, raw);
    let d = before.with_room(room_id, site, slug);
    let after = before.upserted(room_id, site, slug, c, raw);
    assert(d.has_room(room_id)) by {
        if !before.has_room(room_id) {
            assert(d.rooms[before.rooms.len() as int].room_id == room_id);
        }
    }
    assert(d.comments == before.comments);
    if d.has_comment(c.id) {
        let k = d.comment_index(c.id);
        assert(after.comments[k].comment.id == c.id);
        lemma_comment_index(after, k);
    } else {
        let p = insertion_point(d.comments, c.created_at);
        lemma_insertion_point(d.comments, c.created_at);
        assert(after.comments[p] == d.new_row(room_id, c, raw));
        lemma_comment_index(after, p);
    }
}

/// The comments of a thread are all the stored comments of that thread
/// and no others, and where the rows stand in order of creation, so do they:
/// a thread is listed oldest first.
pub proof fn lemma_thread_comments(rows: Seq<CommentRowView>, site: Seq<char>, slug: Seq<char>)
    ensures
        forall|i: int|
            0 <= i < thread_comments(rows, site, slug).len() ==> (#[trigger] thread_comments(
                rows,
                site,
                slug,
            )[i]).site_id == site && thread_comments(rows, site, slug)[i].post_slug == slug
                && comment_known(rows, thread_comments(rows, site, slug)[i].id),
        forall|k: int|
            0 <= k < rows.len() && (#[trigger] rows[k]).comment.site_id == site
                && rows[k].comment.post_slug == slug ==> thread_comments(
                rows,
                site,
                slug,
            ).contains(rows[k].comment),
        thread_comments(rows, site, slug).len() <= rows.len(),
        in_order(rows) ==> forall|i: int, j: int|
            0 <= i < j < thread_comments(rows, site, slug).len() ==> (#[trigger] thread_comments(
                rows,
                site,
                slug,
            )[i]).created_at <= (#[trigger] thread_comments(rows, site, slug)[j]).created_at,
        in_order(rows) ==> forall|i: int|
            0 <= i < thread_comments(rows, site, slug).len() && rows.len() > 0 ==> (
            #[trigger] thread_comments(rows, site, slug)[i]).created_at
                <= rows.last().comment.created_at,
    decreases rows.len(),
{
    let all = thread_comments(rows, site, slug);
    if rows.len() == 0 {
    } else {
        let rest = rows.drop_last();
        let last = rows.last();
        let before = thread_comments(rest, site, slug);
        lemma_thread_comments(rest, site, slug);
        assert forall|i: int| 0 <= i < all.len() implies (#[trigger] all[i]).site_id == site
            && all[i].post_slug == slug && comment_known(rows, all[i].id) by {
            if i < before.len() {
                assert(all[i] == before[i]);
                let k = choose|k: int|
                    0 <= k < rest.len() && (#[trigger] rest[k]).comment.id == before[i].id;
                assert(rows[k].comment.id == all[i].id);
            } else {
                assert(all[i] == last.comment);
                assert(rows[rows.len() - 1].comment.id == all[i].id);
            }
        }
        assert forall|k: int|
            0 <= k < rows.len() && (#[trigger] rows[k]).comment.site_id == site
                && rows[k].comment.post_slug == slug implies all.contains(rows[k].comment) by {
            if k < rest.len() {
                assert(rest[k] == rows[k]);
                assert(before.contains(rows[k].comment));
                let i = choose|i: int| 0 <= i < before.len() && before[i] == rows[k].comment;
                assert(all[i] == rows[k].comment);
            } else {
                assert(all[all.len() - 1] == rows[k].comment);
            }
        }
        if in_order(rows) {
            assert(in_order(rest)) by {
                assert forall|i: int, j: int| 0 <= i < j < rest.len() implies (
                #[trigger] rest[i]).comment.created_at <= (
                #[trigger] rest[j]).comment.created_at by {
                    assert(rows[i].comment.created_at <= rows[j].comment.created_at);
                }
            }
            assert forall|i: int| 0 <= i < all.len() implies (#[trigger] all[i]).created_at
                <= last.comment.created_at by {
                if i < before.len() {
                    assert(all[i] == before[i]);
                    if rest.len() > 0 {
                        assert(rows[rest.len() - 1].comment.created_at
                            <= rows[rows.len() - 1].comment.created_at);
                    }
                }
            }
            assert forall|i: int, j: int| 0 <= i < j < all.len() implies (
            #[trigger] all[i]).created_at <= (#[trigger] all[j]).created_at by {
                if j < before.len() {
                    assert(all[i] == before[i] && all[j] == before[j]);
                } else {
                    assert(all[j] == last.comment);
                }
            }
        }
    }
}

/// Writing a comment changes no other comment, and no profile.
pub proof fn lemma_upsert_touches_one_comment(
    before: DbView,
    room_id: Seq<char>,
    site: Seq<char>,
    slug: Seq<char>,
    c: CommentView,
    raw: Option<Seq<char>>,
    other: Seq<char>,
)
    requires
        before.wf(),
        c.wf(),
        other != c.id,
    ensures
        before.upserted(room_id, site, slug, c, raw).comment(other) == before.comment(other),
        before.upserted(room_id, site, slug, c, raw).profiles == before.profiles,
        before.upserted(room_id, site, slug, c, raw).sync_token == before.sync_token,
{
    if before.room_available(room_id, site, slug) {
        lemma_with_room_sound(before, room_id, site, slug);
        lemma_upserted_sound(before, room_id, site, slug, c, raw);
        let d = before.with_room(room_id, site, slug);
        let after = before.upserted(room_id, site, slug, c, raw);
        assert(d.comments == before.comments);
        if d.has_comment(c.id) {
            let k = d.comment_index(c.id);
            if before.has_comment(other) {
                let m = before.comment_index(other);
                assert(after.comments[m] == before.comments[m]);
                lemma_comment_index(after, m);
            } else if after.has_comment(other) {
                let m = after.comment_index(other);
                assert(before.comments[m].comment.id == other);
            }
        } else {
            let p = insertion_point(d.comments, c.created_at);
            lemma_insertion_point(d.comments, c.created_at);
            if before.has_comment(other) {
                let m = before.comment_index(other);
                let shifted = if m < p {
                    m
                } else {
                    m + 1
                };
                assert(after.comments[shifted] == before.comments[m]);
                lemma_comment_index(after, shifted);
            } else if after.has_comment(other) {
                let m = after.comment_index(other);
                let back = if m < p {
                    m
                } else {
                    m - 1
                };
                assert(m != p);
                assert(before.comments[back] == after.comments[m]);
            }
        }
    }
}

/// Writing the same comment twice is writing it once.
pub proof fn lemma_upsert_idempotent(
    before: DbView,
    room_id: Seq<char>,
    site: Seq<char>,
    slug: Seq<char>,
    c: CommentView,
    raw: Option<Seq<char>>,
)
    requires
        before.wf(),
        c.wf(),
    ensures
        ({
            let once = before.upserted(room_id, site, slug, c, raw);
            once.upserted(room_id, site, slug, c, raw) == once
        }),
{
    let once = before.upserted(room_id, site, slug, c, raw);
    if before.room_available(room_id, site, slug) {
        lemma_upserted_comment(before, room_id, site, slug, c, raw);
        lemma_upserted_sound(before, room_id, site, slug, c, raw);
        let k = once.comment_index(c.id);
        let twice = once.upserted(room_id, site, slug, c, raw);
        assert(once.with_room(room_id, site, slug) == once);
        assert(merged(once.comments[k], c) == once.comments[k]);
        assert(twice.comments =~= once.comments);
    } else {
        assert(once == before);
    }
}

/// A later version of a comment changes nothing of what was fixed when the
/// comment was created: identifier, room and thread, author, guest flag and
/// fingerprint, time of creation, the event it answers and the transaction
/// identifier stay, and so does the number of rows.
pub proof fn lemma_upsert_keeps_creation(
    before: DbView,
    room_id: Seq<char>,
    site: Seq<char>,
    slug: Seq<char>,
    c: CommentView,
    raw: Option<Seq<char>>,
)
    requires
        before.wf(),
        c.wf(),
        before.has_comment(c.id),
    ensures
        ({
            let after = before.upserted(room_id, site, slug, c, raw);
            let was = before.comment(c.id)->0;
            let is = after.comment(c.id)->0;
            &&& after.comments.len() == before.comments.len()
            &&& after.comment(c.id) is Some
            &&& is.id == was.id
            &&& is.site_id == was.site_id
            &&& is.post_slug == was.post_slug
            &&& is.author_id == was.author_id
            &&& is.is_guest == was.is_guest
            &&& is.author_fingerprint == was.author_fingerprint
            &&& is.created_at == was.created_at
            &&& is.reply_to == was.reply_to
            &&& is.txn_id == was.txn_id
        }),
{
    if before.room_available(room_id, site, slug) {
        lemma_upserted_comment(before, room_id, site, slug, c, raw);
    }
}

/// A deleted comment is still there, without content, author name and
/// avatar, and all other comments are as they were.
pub proof fn lemma_deleted_comment(d: DbView, id: Seq<char>)
    requires
        d.wf(),
        d.has_comment(id),
    ensures
        ({
            let after = d.deleted(id);
            let was = d.comment(id)->0;
            &&& after.comments.len() == d.comments.len()
            &&& after.comment(id) == Some(
                CommentView {
                    content: Seq::<char>::empty(),
                    author_name: deleted_author(),
                    is_redacted: true,
                    avatar_url: None,
                    ..was
                },
            )
            &&& forall|other: Seq<char>| other != id ==> #[trigger] after.comment(other) == d.comment(other)
        }),
{
    let after = d.deleted(id);
    let k = d.comment_index(id);
    lemma_deleted_sound(d, id);
    assert(after.comments[k].comment.id == id);
    lemma_comment_index(after, k);
    assert forall|other: Seq<char>| other != id implies #[trigger] after.comment(other) == d.comment(
        other,
    ) by {
        if d.has_comment(other) {
            let m = d.comment_index(other);
            assert(after.comments[m] == d.comments[m]);
            lemma_comment_index(after, m);
        } else if after.has_comment(other) {
            let m = after.comment_index(other);
            assert(d.comments[m].comment.id == other);
        }
    }
}

} // verus!
