//! What the bridge asks of the room network, and what it is answered.
//!
//! The bridge decides; the caller performs. Each request names one operation
//! of the room protocol, and each answer is one of a few outcomes, so that
//! any client of the protocol can serve.

use vstd::prelude::*;
use crate::protocol::{OutboundEvent, OutboundEventView};
use crate::text::{opt_view};

verus! {

/// One operation of the room protocol. Where an operation has a `user_id`,
/// it is performed as that identity, and as the service identity where
/// there is none.
#[derive(Debug)]
pub enum RemoteAction {
    /// Look up the room that an address stands for.
    ResolveAlias { alias: String },
    /// Join a room, unless the identity is a member already.
    JoinRoom { room_id: String, user_id: Option<String> },
    /// Take an address away from the room it stands for.
    RetireAlias { alias: String },
    /// Create a public room under an address, as a space or as a plain room,
    /// and invite the owner with elevated rights, where there is one.
    CreateRoom { alias_localpart: String, name: String, space: bool, owner: Option<String> },
    /// Make a room a child of a space.
    LinkChild { space_id: String, room_id: String, via: String },
    /// Give a ghost its display name.
    SetDisplayName { ghost_id: String, display_name: String },
    /// Send a comment.
    SendMessage { room_id: String, user_id: Option<String>, event: OutboundEvent },
    /// Send a message that replaces the content of an earlier one.
    SendEdit {
        room_id: String,
        user_id: Option<String>,
        target: String,
        fallback: String,
        content: String,
    },
    /// Redact an event.
    Redact { room_id: String, event_id: String, reason: Option<String> },
}

pub enum RemoteActionView {
    ResolveAlias { alias: Seq<char> },
    JoinRoom { room_id: Seq<char>, user_id: Option<Seq<char>> },
    RetireAlias { alias: Seq<char> },
    CreateRoom {
        alias_localpart: Seq<char>,
        name: Seq<char>,
        space: bool,
        owner: Option<Seq<char>>,
    },
    LinkChild { space_id: Seq<char>, room_id: Seq<char>, via: Seq<char> },
    SetDisplayName { ghost_id: Seq<char>, display_name: Seq<char> },
    SendMessage { room_id: Seq<char>, user_id: Option<Seq<char>>, event: OutboundEventView },
    SendEdit {
        room_id: Seq<char>,
        user_id: Option<Seq<char>>,
        target: Seq<char>,
        fallback: Seq<char>,
        content: Seq<char>,
    },
    Redact { room_id: Seq<char>, event_id: Seq<char>, reason: Option<Seq<char>> },
}

impl View for RemoteAction {
    type V = RemoteActionView;

    open spec fn view(&self) -> RemoteActionView {
        match *self {
            RemoteAction::ResolveAlias { alias } => RemoteActionView::ResolveAlias {
                alias: alias@,
            },
            RemoteAction::JoinRoom { room_id, user_id } => RemoteActionView::JoinRoom {
                room_id: room_id@,
                user_id: opt_view(user_id),
            },
            RemoteAction::RetireAlias { alias } => RemoteActionView::RetireAlias { alias: alias@ },
            RemoteAction::CreateRoom {
                alias_localpart,
                name,
                space,
                owner,
            } => RemoteActionView::CreateRoom {
                alias_localpart: alias_localpart@,
                name: name@,
                space,
                owner: opt_view(owner),
            },
            RemoteAction::LinkChild { space_id, room_id, via } => RemoteActionView::LinkChild {
                space_id: space_id@,
                room_id: room_id@,
                via: via@,
            },
            RemoteAction::SetDisplayName {
                ghost_id,
                display_name,
            } => RemoteActionView::SetDisplayName {
                ghost_id: ghost_id@,
                display_name: display_name@,
            },
            RemoteAction::SendMessage { room_id, user_id, event } => RemoteActionView::SendMessage {
                room_id: room_id@,
                user_id: opt_view(user_id),
                event: event@,
            },
            RemoteAction::SendEdit {
                room_id,
                user_id,
                target,
                fallback,
                content,
            } => RemoteActionView::SendEdit {
                room_id: room_id@,
                user_id: opt_view(user_id),
                target: target@,
                fallback: fallback@,
                content: content@,
            },
            RemoteAction::Redact { room_id, event_id, reason } => RemoteActionView::Redact {
                room_id: room_id@,
                event_id: event_id@,
                reason: opt_view(reason),
            },
        }
    }
}

/// How an operation has ended.
#[derive(Debug)]
pub enum RemoteResult {
    /// The address stands for this room.
    Resolved { room_id: String },
    /// The address stands for no room.
    NotFound,
    /// The room was created.
    Created { room_id: String },
    /// The address was taken when the room was to be created: another has
    /// won the race.
    Conflict,
    /// The operation was performed.
    Done,
    /// The operation has failed.
    Failed,
}

pub enum RemoteResultView {
    Resolved { room_id: Seq<char> },
    NotFound,
    Created { room_id: Seq<char> },
    Conflict,
    Done,
    Failed,
}

impl View for RemoteResult {
    type V = RemoteResultView;

    open spec fn view(&self) -> RemoteResultView {
        match *self {
            RemoteResult::Resolved { room_id } => RemoteResultView::Resolved { room_id: room_id@ },
            RemoteResult::NotFound => RemoteResultView::NotFound,
            RemoteResult::Created { room_id } => RemoteResultView::Created { room_id: room_id@ },
            RemoteResult::Conflict => RemoteResultView::Conflict,
            RemoteResult::Done => RemoteResultView::Done,
            RemoteResult::Failed => RemoteResultView::Failed,
        }
    }
}

/// Why a command has failed.
#[derive(Debug, PartialEq, Eq, Clone, Copy, Structural)]
pub enum CommandError {
    /// A tenant, a thread or an event identifier is not well formed.
    /// Nothing was asked of the network.
    InvalidInput,
    /// The comment is not the caller's to change.
    PermissionDenied,
    /// The comment or the room is not there.
    NotFound,
    /// The network has failed to do what was asked of it.
    RemoteTransient,
    /// The cache has refused a write.
    Internal,
}

} // verus!
