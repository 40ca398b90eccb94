//! The shape of a comment inside a room message, and the room addresses that
//! name a thread.

use vstd::prelude::*;
use vstd::string::*;
use crate::models::{valid_site_id, SiteId, SEPARATOR};
use crate::text::{
    chars_of, contains_pattern, find_char, find_pattern, index_of_char, index_of_pattern,
    leading_pattern_run, leading_run, opt_clone, opt_view, slice_of, str_eq,
    trailing_pattern_keep, trim_leading_char, trim_leading_pattern, trim_trailing_pattern,
};

verus! {

/// What a message carries about the comment in it, under a key of its own.
#[derive(Debug)]
pub struct CummentsMetadata {
    pub author_name: String,
    pub is_guest: bool,
    pub origin_content: String,
    pub author_fingerprint: Option<String>,
    pub txn_id: Option<String>,
}

/// The metadata as plain values.
pub struct MetadataView {
    pub author_name: Seq<char>,
    pub is_guest: bool,
    pub origin_content: Seq<char>,
    pub author_fingerprint: Option<Seq<char>>,
    pub txn_id: Option<Seq<char>>,
}

impl View for CummentsMetadata {
    type V = MetadataView;

    open spec fn view(&self) -> MetadataView {
        MetadataView {
            author_name: self.author_name@,
            is_guest: self.is_guest,
            origin_content: self.origin_content@,
            author_fingerprint: opt_view(self.author_fingerprint),
            txn_id: opt_view(self.txn_id),
        }
    }
}

impl Clone for CummentsMetadata {
    fn clone(&self) -> (r: Self)
        ensures
            r@ == self@,
    {
        CummentsMetadata {
            author_name: self.author_name.clone(),
            is_guest: self.is_guest,
            origin_content: self.origin_content.clone(),
            author_fingerprint: opt_clone(&self.author_fingerprint),
            txn_id: opt_clone(&self.txn_id),
        }
    }
}

/// The sigil that a room address begins with.
pub const ALIAS_SIGIL: char = '#';

/// The tenant and the thread that the local part of a room address names:
/// what stands before the first separator, once leading sigils are gone, and
/// what stands after it. There is none where no separator occurs or where
/// what stands before it is no tenant identifier.
pub open spec fn room_alias_parts(localpart: Seq<char>) -> Option<(Seq<char>, Seq<char>)> {
    let t = trim_leading_char(localpart, ALIAS_SIGIL);
    if !t.contains(SEPARATOR) {
        None
    } else {
        let i = index_of_char(t, SEPARATOR);
        if valid_site_id(t.take(i)) {
            Some((t.take(i), t.skip(i + 1)))
        } else {
            None
        }
    }
}

/// The local part of the address of the room that holds a thread.
pub open spec fn room_localpart(site: Seq<char>, slug: Seq<char>) -> Seq<char> {
    site + seq![SEPARATOR] + slug
}

/// Reads tenant and thread out of the local part of a room address.
pub fn parse_room_alias(localpart: &str) -> (r: Option<(SiteId, String)>)
    ensures
        match r {
            Some((site, slug)) => room_alias_parts(localpart@) == Some((site@, slug@)),
            None => room_alias_parts(localpart@) is None,
        },
{
    let v = chars_of(localpart);
    let start = leading_run(&v, ALIAS_SIGIL);
    let rest = slice_of(localpart, start, v.len());
    let t = chars_of(rest.as_str());
    assert(t@ =~= trim_leading_char(localpart@, ALIAS_SIGIL));
    match find_char(&t, SEPARATOR) {
        None => None,
        Some(i) => {
            let head = slice_of(rest.as_str(), 0, i);
            let tail = slice_of(rest.as_str(), i + 1, t.len());
            assert(head@ =~= t@.take(i as int));
            assert(tail@ =~= t@.skip(i + 1));
            match SiteId::new(head.as_str()) {
                Ok(site) => Some((site, tail)),
                Err(_) => None,
            }
        },
    }
}

/// A thread's address names that thread and no other: the local part that
/// `room_localpart` builds from a valid tenant and a thread reads back as
/// exactly the two.
pub proof fn lemma_room_alias_round_trip(site: Seq<char>, slug: Seq<char>)
    requires
        valid_site_id(site),
    ensures
        room_alias_parts(room_localpart(site, slug)) == Some((site, slug)),
{
    let l = room_localpart(site, slug);
    assert(l.len() > 0);
    if site.len() > 0 {
        assert(l[0] == site[0]);
        assert(crate::models::site_id_char(site[0]));
    } else {
        assert(l[0] == SEPARATOR);
    }
    assert(trim_leading_char(l, ALIAS_SIGIL) == l);
    let i = site.len() as int;
    assert(l[i] == SEPARATOR);
    assert forall|j: int| 0 <= j < i implies l[j] != SEPARATOR by {
        assert(l[j] == site[j]);
        assert(site.contains(site[j]));
    }
    crate::text::lemma_index_of_char(l, SEPARATOR, i);
    assert(l.take(i) =~= site);
    assert(l.skip(i + 1) =~= slug);
}

/// Two threads never share an address: tenants are kept apart by the names
/// of their rooms alone.
pub proof fn lemma_room_alias_injective(
    site1: Seq<char>,
    slug1: Seq<char>,
    site2: Seq<char>,
    slug2: Seq<char>,
)
    requires
        valid_site_id(site1),
        valid_site_id(site2),
        room_localpart(site1, slug1) == room_localpart(site2, slug2),
    ensures
        site1 == site2,
        slug1 == slug2,
{
    lemma_room_alias_round_trip(site1, slug1);
    lemma_room_alias_round_trip(site2, slug2);
}

/// The message type of a comment.
pub open spec fn text_msgtype() -> Seq<char> {
    "m.text"@
}

/// What a reader without knowledge of the metadata sees of a guest's comment.
pub open spec fn fallback_body(nickname: Seq<char>, content: Seq<char>) -> Seq<char> {
    "**"@ + nickname + "** (Guest): "@ + content
}

/// A message on its way to a room, before it is serialised.
#[derive(Debug)]
pub struct OutboundEvent {
    pub msgtype: String,
    pub body: String,
    pub metadata: CummentsMetadata,
    /// The event that this message answers, if any.
    pub reply_to: Option<String>,
}

/// An outbound message as plain values.
pub struct OutboundEventView {
    pub msgtype: Seq<char>,
    pub body: Seq<char>,
    pub metadata: MetadataView,
    pub reply_to: Option<Seq<char>>,
}

impl View for OutboundEvent {
    type V = OutboundEventView;

    open spec fn view(&self) -> OutboundEventView {
        OutboundEventView {
            msgtype: self.msgtype@,
            body: self.body@,
            metadata: self.metadata@,
            reply_to: opt_view(self.reply_to),
        }
    }
}

impl Clone for OutboundEvent {
    fn clone(&self) -> (r: Self)
        ensures
            r@ == self@,
    {
        OutboundEvent {
            msgtype: self.msgtype.clone(),
            body: self.body.clone(),
            metadata: self.metadata.clone(),
            reply_to: opt_clone(&self.reply_to),
        }
    }
}

/// The message that carries a guest's comment: the metadata, and a body for
/// readers that do not know it.
pub fn build_outbound_event(
    nickname: &str,
    content: &str,
    fingerprint: Option<String>,
    txn_id: Option<String>,
) -> (event: OutboundEvent)
    ensures
        event@ == (OutboundEventView {
            msgtype: text_msgtype(),
            body: fallback_body(nickname@, content@),
            metadata: MetadataView {
                author_name: nickname@,
                is_guest: true,
                origin_content: content@,
                author_fingerprint: opt_view(fingerprint),
                txn_id: opt_view(txn_id),
            },
            reply_to: None,
        }),
{
    let mut body = "**".to_string();
    body.append(nickname);
    body.append("** (Guest): ");
    body.append(content);
    OutboundEvent {
        msgtype: "m.text".to_string(),
        body,
        metadata: CummentsMetadata {
            author_name: nickname.to_owned(),
            is_guest: true,
            origin_content: content.to_owned(),
            author_fingerprint: fingerprint,
            txn_id,
        },
        reply_to: None,
    }
}

/// What the logic reads of a received message's content: the metadata, where
/// the content carries it in readable form, and the plain body, where it has one.
#[derive(Debug)]
pub struct MessageContent {
    pub metadata: Option<CummentsMetadata>,
    pub body: Option<String>,
}

/// A received message's content as plain values.
pub struct MessageContentView {
    pub metadata: Option<MetadataView>,
    pub body: Option<Seq<char>>,
}

impl View for MessageContent {
    type V = MessageContentView;

    open spec fn view(&self) -> MessageContentView {
        MessageContentView {
            metadata: match self.metadata {
                Some(m) => Some(m@),
                None => None,
            },
            body: opt_view(self.body),
        }
    }
}

/// What a message says of the comment in it: author name, guest flag,
/// content, fingerprint and transaction id.
pub struct Extracted {
    pub author_name: Seq<char>,
    pub is_guest: bool,
    pub content: Seq<char>,
    pub author_fingerprint: Option<Seq<char>>,
    pub txn_id: Option<Seq<char>>,
}

/// What separates name and text in the body of a guest's comment.
pub open spec fn guest_marker() -> Seq<char> {
    " (Guest): "@
}

/// The emphasis marks round the name in the body of a guest's comment.
pub open spec fn emphasis() -> Seq<char> {
    "**"@
}

/// The name that a message of the service itself goes by.
pub open spec fn service_name() -> Seq<char> {
    "Bot"@
}

/// The comment in a message. The metadata decides where there is any. Else
/// the body is read: a message of the service identity in the form
/// `**name** (Guest): text` is a guest's, any other of its messages is the
/// service's own, and every other sender speaks for itself.
pub open spec fn extracted(content: MessageContentView, sender: Seq<char>, bot: Seq<char>) -> Extracted {
    match content.metadata {
        Some(m) => Extracted {
            author_name: m.author_name,
            is_guest: m.is_guest,
            content: m.origin_content,
            author_fingerprint: m.author_fingerprint,
            txn_id: m.txn_id,
        },
        None => {
            let body = match content.body {
                Some(b) => b,
                None => Seq::<char>::empty(),
            };
            if sender == bot {
                if contains_pattern(body, guest_marker()) {
                    let i = index_of_pattern(body, guest_marker());
                    Extracted {
                        author_name: trim_trailing_pattern(
                            trim_leading_pattern(body.take(i), emphasis()),
                            emphasis(),
                        ),
                        is_guest: true,
                        content: body.skip(i + guest_marker().len()),
                        author_fingerprint: None,
                        txn_id: None,
                    }
                } else {
                    Extracted {
                        author_name: service_name(),
                        is_guest: false,
                        content: body,
                        author_fingerprint: None,
                        txn_id: None,
                    }
                }
            } else {
                Extracted {
                    author_name: sender,
                    is_guest: false,
                    content: body,
                    author_fingerprint: None,
                    txn_id: None,
                }
            }
        },
    }
}

/// Reads the comment out of a message: author name, guest flag, content,
/// fingerprint and transaction id, in this order.
pub fn extract_comment_data(content: &MessageContent, sender_id: &str, bot_id: &str) -> (r: (
    String,
    bool,
    String,
    Option<String>,
    Option<String>,
))
    ensures
        (Extracted {
            author_name: r.0@,
            is_guest: r.1,
            content: r.2@,
            author_fingerprint: opt_view(r.3),
            txn_id: opt_view(r.4),
        }) == extracted(content@, sender_id@, bot_id@),
{
    if let Some(meta) = &content.metadata {
        return (
            meta.author_name.clone(),
            meta.is_guest,
            meta.origin_content.clone(),
            opt_clone(&meta.author_fingerprint),
            opt_clone(&meta.txn_id),
        );
    }
    let body: String = match &content.body {
        Some(b) => b.clone(),
        None => String::new(),
    };
    if str_eq(sender_id, bot_id) {
        let v = chars_of(body.as_str());
        let marker = chars_of(" (Guest): ");
        proof {
            reveal_strlit(" (Guest): ");
        }
        match find_pattern(&v, &marker) {
            Some(i) => {
                let stars = chars_of("**");
                let head = slice_of(body.as_str(), 0, i);
                let h = chars_of(head.as_str());
                assert(h@ =~= v@.take(i as int));
                let from = leading_pattern_run(&h, &stars);
                let mid = slice_of(head.as_str(), from, h.len());
                let m = chars_of(mid.as_str());
                assert(m@ =~= trim_leading_pattern(h@, stars@));
                assert(m@.take(m.len() as int) =~= m@);
                let keep = trailing_pattern_keep(&m, m.len(), &stars);
                let nick = slice_of(mid.as_str(), 0, keep);
                assert(nick@ =~= m@.take(keep as int));
                let n = v.len();
                let text = slice_of(body.as_str(), i + marker.len(), n);
                assert(text@ =~= v@.skip(i + marker.len()));
                (nick, true, text, None, None)
            },
            None => ("Bot".to_string(), false, body, None, None),
        }
    } else {
        (sender_id.to_owned(), false, body, None, None)
    }
}

} // verus!
