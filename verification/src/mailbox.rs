//! Routing on the bus: which per-actor inbox a message goes to.
use vstd::prelude::*;

use crate::messages::{BookmarkMessage, Message, ProjectMessage, SystemMessage};

verus! {

/// The per-actor inboxes of the bus.
#[derive(Debug, Clone, Copy, PartialEq, Eq, Structural)]
pub enum Inbox {
    SystemLog,
    SystemProjection,
    ProjectLog,
    ProjectImport,
    BookmarkProjections,
    BookmarkChronicle,
}

/// The inbox a message goes to: log appends to the log of their tier,
/// projection work to the projection actor of their tier, imported events
/// to the project import actor and chronicle work to the bookmark
/// chronicle actor.
pub open spec fn inbox_of(message: Message) -> Inbox {
    match message {
        Message::System(m) => match m {
            SystemMessage::LogAppend => Inbox::SystemLog,
            _ => Inbox::SystemProjection,
        },
        Message::Project(m) => match m {
            ProjectMessage::LogAppend => Inbox::ProjectLog,
            ProjectMessage::ImportEvent => Inbox::ProjectImport,
        },
        Message::Bookmark(m) => match m {
            BookmarkMessage::ProjectionApply | BookmarkMessage::ProjectionReset => Inbox::BookmarkProjections,
            _ => Inbox::BookmarkChronicle,
        },
    }
}

/// The inbox `message` goes to.
pub fn route(message: &Message) -> (r: Inbox)
    ensures
        r == inbox_of(*message),
{
    match message {
        Message::System(message) => match message {
            SystemMessage::LogAppend => Inbox::SystemLog,
            SystemMessage::ProjectionApply | SystemMessage::ProjectionMigrate
            | SystemMessage::ProjectionReset => Inbox::SystemProjection,
        },
        Message::Project(message) => match message {
            ProjectMessage::LogAppend => Inbox::ProjectLog,
            ProjectMessage::ImportEvent => Inbox::ProjectImport,
        },
        Message::Bookmark(message) => match message {
            BookmarkMessage::ProjectionApply | BookmarkMessage::ProjectionReset => {
                Inbox::BookmarkProjections
            },
            BookmarkMessage::ChronicleRecord | BookmarkMessage::ChronicleReset => {
                Inbox::BookmarkChronicle
            },
        },
    }
}

/// Every message stays within its tier: system messages reach system
/// actors, project messages project actors, bookmark messages bookmark
/// actors.
pub proof fn routing_stays_in_tier(message: Message)
    ensures
        message is System ==> (inbox_of(message) == Inbox::SystemLog || inbox_of(message)
            == Inbox::SystemProjection),
        message is Project ==> (inbox_of(message) == Inbox::ProjectLog || inbox_of(message)
            == Inbox::ProjectImport),
        message is Bookmark ==> (inbox_of(message) == Inbox::BookmarkProjections || inbox_of(
            message,
        ) == Inbox::BookmarkChronicle),
{
}

} // verus!
