//! Tenant identifiers and the comment entity.

use vstd::prelude::*;
use vstd::string::*;
use crate::text::{chars_of, find_char, opt_view, opt_clone, str_eq};

verus! {

/// Largest number of characters a tenant identifier may have.
pub const MAX_SITE_ID_LEN: usize = 64;

/// The character that separates tenant and thread in a room address, and that
/// a tenant identifier may therefore not contain.
pub const SEPARATOR: char = '_';

/// Whether `c` may appear in a tenant identifier.
pub open spec fn site_id_char(c: char) -> bool {
    ('a' <= c && c <= 'z') || ('0' <= c && c <= '9') || c == '.' || c == '-'
}

/// Every character of `s` may appear in a tenant identifier.
pub open spec fn site_id_charset(s: Seq<char>) -> bool {
    forall|i: int| 0 <= i < s.len() ==> site_id_char(#[trigger] s[i])
}

/// The rule for tenant identifiers: lower-case letters, digits, `.` and `-`,
/// at most 64 of them.
pub open spec fn valid_site_id(s: Seq<char>) -> bool {
    !s.contains(SEPARATOR) && site_id_charset(s) && s.len() <= MAX_SITE_ID_LEN
}

/// What a rejected tenant identifier is told: the first rule that it breaks.
pub open spec fn site_id_rejection(s: Seq<char>) -> Seq<char> {
    if s.contains(SEPARATOR) {
        "Site ID cannot contain underscores ('_'). Please use hyphens ('-') or dots ('.') instead."@
    } else if !site_id_charset(s) {
        "Site ID contains invalid characters."@
    } else {
        "Site ID is too long (max 64 chars)."@
    }
}

/// The name of a site whose comments are kept.
#[derive(Debug)]
pub struct SiteId(String);

impl View for SiteId {
    type V = Seq<char>;

    closed spec fn view(&self) -> Seq<char> {
        self.0@
    }
}

impl Clone for SiteId {
    fn clone(&self) -> (r: Self)
        ensures
            r@ == self@,
    {
        SiteId(self.0.clone())
    }
}

impl PartialEq for SiteId {
    fn eq(&self, other: &Self) -> (r: bool) {
        str_eq(self.0.as_str(), other.0.as_str())
    }
}

impl Eq for SiteId {

}

impl vstd::std_specs::cmp::PartialEqSpecImpl for SiteId {
    open spec fn obeys_eq_spec() -> bool {
        true
    }

    open spec fn eq_spec(&self, other: &Self) -> bool {
        self@ == other@
    }
}

pub fn is_site_id_char(c: char) -> (ok: bool)
    ensures
        ok == site_id_char(c),
{
    (c >= 'a' && c <= 'z') || (c >= '0' && c <= '9') || c == '.' || c == '-'
}

impl SiteId {
    /// Accepts `s` as a tenant identifier if it keeps the rule, and says
    /// which part of the rule it breaks if it does not.
    pub fn new(s: &str) -> (r: Result<SiteId, String>)
        ensures
            match r {
                Ok(id) => valid_site_id(s@) && id@ == s@,
                Err(msg) => !valid_site_id(s@) && msg@ == site_id_rejection(s@),
            },
    {
        let v = chars_of(s);
        if find_char(&v, SEPARATOR).is_some() {
            return Err(
                "Site ID cannot contain underscores ('_'). Please use hyphens ('-') or dots ('.') instead.".to_string(),
            );
        }
        let mut i: usize = 0;
        while i < v.len()
            invariant
                i <= v.len(),
                v@ == s@,
                !s@.contains(SEPARATOR),
                forall|j: int| 0 <= j < i ==> site_id_char(#[trigger] v@[j]),
            decreases v.len() - i,
        {
            if !is_site_id_char(v[i]) {
                assert(!site_id_char(s@[i as int]));
                return Err("Site ID contains invalid characters.".to_string());
            }
            i += 1;
        }
        if v.len() > MAX_SITE_ID_LEN {
            return Err("Site ID is too long (max 64 chars).".to_string());
        }
        Ok(SiteId(s.to_owned()))
    }

    /// Takes `s` as a tenant identifier without looking at it: for values
    /// that were accepted before and stored.
    pub fn new_unchecked(s: String) -> (id: SiteId)
        ensures
            id@ == s@,
    {
        SiteId(s)
    }

    pub fn as_str(&self) -> (s: &str)
        ensures
            s@ == self@,
    {
        self.0.as_str()
    }

    /// Whether the identifier keeps the rule; one made by `new` always does.
    pub fn is_valid(&self) -> (ok: bool)
        ensures
            ok == valid_site_id(self@),
    {
        match SiteId::new(self.0.as_str()) {
            Ok(_) => true,
            Err(_) => false,
        }
    }
}

/// The author name that a deleted comment shows.
pub open spec fn deleted_author() -> Seq<char> {
    "[Deleted]"@
}

/// One comment, keyed by the identifier of the room event that carried it.
/// Times are milliseconds since the Unix epoch.
#[derive(Debug)]
pub struct Comment {
    pub id: String,
    pub site_id: SiteId,
    pub post_slug: String,
    pub author_id: String,
    pub author_name: String,
    pub author_fingerprint: Option<String>,
    pub avatar_url: Option<String>,
    pub is_guest: bool,
    pub content: String,
    pub is_redacted: bool,
    pub reply_to: Option<String>,
    pub created_at: i64,
    pub updated_at: Option<i64>,
    pub txn_id: Option<String>,
}

/// A comment as plain values.
pub struct CommentView {
    pub id: Seq<char>,
    pub site_id: Seq<char>,
    pub post_slug: Seq<char>,
    pub author_id: Seq<char>,
    pub author_name: Seq<char>,
    pub author_fingerprint: Option<Seq<char>>,
    pub avatar_url: Option<Seq<char>>,
    pub is_guest: bool,
    pub content: Seq<char>,
    pub is_redacted: bool,
    pub reply_to: Option<Seq<char>>,
    pub created_at: int,
    pub updated_at: Option<int>,
    pub txn_id: Option<Seq<char>>,
}

/// The view of an optional time.
pub open spec fn opt_time(o: Option<i64>) -> Option<int> {
    match o {
        Some(t) => Some(t as int),
        None => None,
    }
}

impl View for Comment {
    type V = CommentView;

    open spec fn view(&self) -> CommentView {
        CommentView {
            id: self.id@,
            site_id: self.site_id@,
            post_slug: self.post_slug@,
            author_id: self.author_id@,
            author_name: self.author_name@,
            author_fingerprint: opt_view(self.author_fingerprint),
            avatar_url: opt_view(self.avatar_url),
            is_guest: self.is_guest,
            content: self.content@,
            is_redacted: self.is_redacted,
            reply_to: opt_view(self.reply_to),
            created_at: self.created_at as int,
            updated_at: opt_time(self.updated_at),
            txn_id: opt_view(self.txn_id),
        }
    }
}

impl CommentView {
    /// What holds of every comment: a redacted one shows neither content nor
    /// author, and only a guest has a fingerprint.
    pub open spec fn wf(self) -> bool {
        &&& self.is_redacted ==> self.content.len() == 0 && self.author_name == deleted_author()
        &&& self.author_fingerprint is Some ==> self.is_guest
    }
}

impl Comment {
    /// Whether the comment is sound in itself: a redacted one shows neither
    /// content nor author, and only a guest has a fingerprint.
    pub fn is_sound(&self) -> (ok: bool)
        ensures
            ok == self@.wf(),
    {
        let blank = !self.is_redacted || (self.content.as_str().is_empty() && str_eq(
            self.author_name.as_str(),
            "[Deleted]",
        ));
        let known = self.author_fingerprint.is_none() || self.is_guest;
        blank && known
    }
}

impl Clone for Comment {
    fn clone(&self) -> (r: Self)
        ensures
            r@ == self@,
    {
        Comment {
            id: self.id.clone(),
            site_id: self.site_id.clone(),
            post_slug: self.post_slug.clone(),
            author_id: self.author_id.clone(),
            author_name: self.author_name.clone(),
            author_fingerprint: opt_clone(&self.author_fingerprint),
            avatar_url: opt_clone(&self.avatar_url),
            is_guest: self.is_guest,
            content: self.content.clone(),
            is_redacted: self.is_redacted,
            reply_to: opt_clone(&self.reply_to),
            created_at: self.created_at,
            updated_at: self.updated_at,
            txn_id: opt_clone(&self.txn_id),
        }
    }
}

} // verus!
