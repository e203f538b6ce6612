use oneiros_engine::error::UpcastError;

#[test]
fn discontinuity_renders_from_to_and_reason() {
    let error = UpcastError::Discontinuity {
        from: "FooV1",
        to: "FooV2",
        reason: "field `kind` removed without migration path",
    };

    let rendered = error.message();
    assert!(rendered.contains("FooV1"));
    assert!(rendered.contains("FooV2"));
    assert!(rendered.contains("field `kind` removed without migration path"));
}

#[test]
fn discontinuity_message_is_exact() {
    let error = UpcastError::Discontinuity {
        from: "A",
        to: "B",
        reason: "gone",
    };
    assert_eq!(error.message(), "discontinuity A -> B: gone");
}
