//! What the web side asks of the bridge.

use vstd::prelude::*;
use crate::models::SiteId;
use crate::text::opt_view;

verus! {

/// A command to the bridge. Each is answered once, with success or with the
/// reason of the failure.
#[derive(Debug)]
pub enum AppCommand {
    /// A guest posts a comment.
    SendComment {
        site_id: SiteId,
        post_slug: String,
        content: String,
        nickname: String,
        email: Option<String>,
        guest_token: String,
        reply_to: Option<String>,
        txn_id: Option<String>,
    },
    /// An administrator removes a comment.
    RedactComment { site_id: SiteId, post_slug: String, comment_id: String, reason: Option<String> },
    /// A guest removes a comment of their own.
    UserDeleteComment {
        site_id: SiteId,
        post_slug: String,
        comment_id: String,
        user_fingerprint: String,
    },
    /// A guest changes a comment of their own.
    UserEditComment {
        site_id: SiteId,
        post_slug: String,
        comment_id: String,
        content: String,
        user_fingerprint: String,
    },
}

/// A command as plain values.
pub enum AppCommandView {
    SendComment {
        site_id: Seq<char>,
        post_slug: Seq<char>,
        content: Seq<char>,
        nickname: Seq<char>,
        email: Option<Seq<char>>,
        guest_token: Seq<char>,
        reply_to: Option<Seq<char>>,
        txn_id: Option<Seq<char>>,
    },
    RedactComment {
        site_id: Seq<char>,
        post_slug: Seq<char>,
        comment_id: Seq<char>,
        reason: Option<Seq<char>>,
    },
    UserDeleteComment {
        site_id: Seq<char>,
        post_slug: Seq<char>,
        comment_id: Seq<char>,
        user_fingerprint: Seq<char>,
    },
    UserEditComment {
        site_id: Seq<char>,
        post_slug: Seq<char>,
        comment_id: Seq<char>,
        content: Seq<char>,
        user_fingerprint: Seq<char>,
    },
}

impl View for AppCommand {
    type V = AppCommandView;

    open spec fn view(&self) -> AppCommandView {
        match *self {
            AppCommand::SendComment {
                site_id,
                post_slug,
                content,
                nickname,
                email,
                guest_token,
                reply_to,
                txn_id,
            } => AppCommandView::SendComment {
                site_id: site_id@,
                post_slug: post_slug@,
                content: content@,
                nickname: nickname@,
                email: opt_view(email),
                guest_token: guest_token@,
                reply_to: opt_view(reply_to),
                txn_id: opt_view(txn_id),
            },
            AppCommand::RedactComment {
                site_id,
                post_slug,
                comment_id,
                reason,
            } => AppCommandView::RedactComment {
                site_id: site_id@,
                post_slug: post_slug@,
                comment_id: comment_id@,
                reason: opt_view(reason),
            },
            AppCommand::UserDeleteComment {
                site_id,
                post_slug,
                comment_id,
                user_fingerprint,
            } => AppCommandView::UserDeleteComment {
                site_id: site_id@,
                post_slug: post_slug@,
                comment_id: comment_id@,
                user_fingerprint: user_fingerprint@,
            },
            AppCommand::UserEditComment {
                site_id,
                post_slug,
                comment_id,
                content,
                user_fingerprint,
            } => AppCommandView::UserEditComment {
                site_id: site_id@,
                post_slug: post_slug@,
                comment_id: comment_id@,
                content: content@,
                user_fingerprint: user_fingerprint@,
            },
        }
    }
}

} // verus!
