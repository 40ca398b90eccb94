//! What the bridge tells its subscribers.

use vstd::prelude::*;
use crate::models::{Comment, CommentView, SiteId};

verus! {

/// A change in the cache that subscribers are told of.
#[derive(Debug)]
pub enum IngestEvent {
    CommentSaved { site_id: SiteId, post_slug: String, comment: Comment },
    CommentDeleted { site_id: SiteId, post_slug: String, comment_id: String },
}

/// A notification as plain values.
pub enum IngestEventView {
    CommentSaved { site_id: Seq<char>, post_slug: Seq<char>, comment: CommentView },
    CommentDeleted { site_id: Seq<char>, post_slug: Seq<char>, comment_id: Seq<char> },
}

impl View for IngestEvent {
    type V = IngestEventView;

    open spec fn view(&self) -> IngestEventView {
        match *self {
            IngestEvent::CommentSaved { site_id, post_slug, comment } => {
                IngestEventView::CommentSaved {
                    site_id: site_id@,
                    post_slug: post_slug@,
                    comment: comment@,
                }
            },
            IngestEvent::CommentDeleted { site_id, post_slug, comment_id } => {
                IngestEventView::CommentDeleted {
                    site_id: site_id@,
                    post_slug: post_slug@,
                    comment_id: comment_id@,
                }
            },
        }
    }
}

impl Clone for IngestEvent {
    fn clone(&self) -> (r: Self)
        ensures
            r@ == self@,
    {
        match self {
            IngestEvent::CommentSaved { site_id, post_slug, comment } => IngestEvent::CommentSaved {
                site_id: site_id.clone(),
                post_slug: post_slug.clone(),
                comment: comment.clone(),
            },
            IngestEvent::CommentDeleted {
                site_id,
                post_slug,
                comment_id,
            } => IngestEvent::CommentDeleted {
                site_id: site_id.clone(),
                post_slug: post_slug.clone(),
                comment_id: comment_id.clone(),
            },
        }
    }
}

} // verus!
