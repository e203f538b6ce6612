//! Bus messages by tier, and their over-the-wire form.
use vstd::prelude::*;

verus! {

/// A host-tier (system) message.
#[derive(Debug, Clone, Copy, PartialEq, Eq, Structural)]
pub enum SystemMessage {
    LogAppend,
    ProjectionApply,
    ProjectionMigrate,
    ProjectionReset,
}

/// A project-tier message.
#[derive(Debug, Clone, Copy, PartialEq, Eq, Structural)]
pub enum ProjectMessage {
    LogAppend,
    ImportEvent,
}

/// A bookmark-tier message.
#[derive(Debug, Clone, Copy, PartialEq, Eq, Structural)]
pub enum BookmarkMessage {
    ProjectionApply,
    ProjectionReset,
    ChronicleRecord,
    ChronicleReset,
}

/// A message of any tier.
#[derive(Debug, Clone, Copy, PartialEq, Eq, Structural)]
pub enum Message {
    System(SystemMessage),
    Project(ProjectMessage),
    Bookmark(BookmarkMessage),
}

/// The over-the-wire form of a bus message: variants index by tier.
///
/// `Import` is bookmark-tier but goes to the inbound path for foreign
/// events rather than the local one; a bookmark message converts to
/// `Bookmark`, and only the bridge builds `Import` explicitly.
#[derive(Debug, Clone, Copy, PartialEq, Eq, Structural)]
pub enum RoutedMessage {
    Host(SystemMessage),
    Project(ProjectMessage),
    Bookmark(BookmarkMessage),
    Import(BookmarkMessage),
}

impl From<SystemMessage> for RoutedMessage {
    fn from(message: SystemMessage) -> (r: Self) {
        RoutedMessage::Host(message)
    }
}

impl vstd::std_specs::convert::FromSpecImpl<SystemMessage> for RoutedMessage {
    open spec fn obeys_from_spec() -> bool {
        true
    }

    open spec fn from_spec(message: SystemMessage) -> RoutedMessage {
        RoutedMessage::Host(message)
    }
}

impl From<ProjectMessage> for RoutedMessage {
    fn from(message: ProjectMessage) -> (r: Self) {
        RoutedMessage::Project(message)
    }
}

impl vstd::std_specs::convert::FromSpecImpl<ProjectMessage> for RoutedMessage {
    open spec fn obeys_from_spec() -> bool {
        true
    }

    open spec fn from_spec(message: ProjectMessage) -> RoutedMessage {
        RoutedMessage::Project(message)
    }
}

impl From<BookmarkMessage> for RoutedMessage {
    fn from(message: BookmarkMessage) -> (r: Self) {
        RoutedMessage::Bookmark(message)
    }
}

impl vstd::std_specs::convert::FromSpecImpl<BookmarkMessage> for RoutedMessage {
    open spec fn obeys_from_spec() -> bool {
        true
    }

    open spec fn from_spec(message: BookmarkMessage) -> RoutedMessage {
        RoutedMessage::Bookmark(message)
    }
}

} // verus!
