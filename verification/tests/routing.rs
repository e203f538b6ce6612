use oneiros_engine::mailbox::{route, Inbox};
use oneiros_engine::messages::{
    BookmarkMessage, Message, ProjectMessage, RoutedMessage, SystemMessage,
};

#[test]
fn messages_route_to_the_inbox_of_their_tier() {
    let cases = [
        (Message::System(SystemMessage::LogAppend), Inbox::SystemLog),
        (Message::System(SystemMessage::ProjectionApply), Inbox::SystemProjection),
        (Message::System(SystemMessage::ProjectionMigrate), Inbox::SystemProjection),
        (Message::System(SystemMessage::ProjectionReset), Inbox::SystemProjection),
        (Message::Project(ProjectMessage::LogAppend), Inbox::ProjectLog),
        (Message::Project(ProjectMessage::ImportEvent), Inbox::ProjectImport),
        (Message::Bookmark(BookmarkMessage::ProjectionApply), Inbox::BookmarkProjections),
        (Message::Bookmark(BookmarkMessage::ProjectionReset), Inbox::BookmarkProjections),
        (Message::Bookmark(BookmarkMessage::ChronicleRecord), Inbox::BookmarkChronicle),
        (Message::Bookmark(BookmarkMessage::ChronicleReset), Inbox::BookmarkChronicle),
    ];
    for (message, inbox) in cases {
        assert_eq!(route(&message), inbox, "{message:?}");
    }
}

#[test]
fn tier_messages_convert_to_their_wire_variant() {
    assert_eq!(
        RoutedMessage::from(SystemMessage::LogAppend),
        RoutedMessage::Host(SystemMessage::LogAppend)
    );
    assert_eq!(
        RoutedMessage::from(ProjectMessage::ImportEvent),
        RoutedMessage::Project(ProjectMessage::ImportEvent)
    );
    let routed: RoutedMessage = BookmarkMessage::ChronicleRecord.into();
    assert_eq!(routed, RoutedMessage::Bookmark(BookmarkMessage::ChronicleRecord));
    assert_ne!(routed, RoutedMessage::Import(BookmarkMessage::ChronicleRecord));
}
