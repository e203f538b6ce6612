use oneiros_engine::events::{event_type, EventRecord};
use oneiros_engine::invocation::JsonValue;

fn object(fields: Vec<(&str, JsonValue)>) -> Option<JsonValue> {
    Some(JsonValue::Object(
        fields.into_iter().map(|(k, v)| (k.to_string(), v)).collect(),
        String::new(),
    ))
}

#[test]
fn event_type_reads_the_type_field() {
    let json = object(vec![
        ("data", JsonValue::Null),
        ("type", JsonValue::String("level-set".to_string())),
    ]);
    assert_eq!(event_type(&json), "level-set");
}

#[test]
fn event_type_falls_back_to_unknown() {
    assert_eq!(event_type(&None), "unknown");
    assert_eq!(event_type(&object(vec![("data", JsonValue::Null)])), "unknown");
    assert_eq!(event_type(&object(vec![("type", JsonValue::Bool(true))])), "unknown");
    assert_eq!(event_type(&Some(JsonValue::String("type".into()))), "unknown");
}

#[test]
fn record_type_marks_unknown_and_malformed_rows() {
    let known = EventRecord::Known(object(vec![(
        "type",
        JsonValue::String("agent-created".to_string()),
    )]));
    assert_eq!(known.event_type(), "agent-created");
    assert_eq!(EventRecord::Ephemeral("pulse".into()).event_type(), "pulse");
    assert_eq!(EventRecord::Unknown.event_type(), "__@unknown");
    assert_eq!(EventRecord::Malformed.event_type(), "__@malformed");
}
