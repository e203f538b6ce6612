use oneiros_engine::invocation::{append_field, render_invocation, shell_escape, JsonValue};

fn sample(name: &str, description: &str, verbose: bool, count: u32) -> Option<JsonValue> {
    Some(JsonValue::Object(
        vec![
            ("name".to_string(), JsonValue::String(name.to_string())),
            (
                "description".to_string(),
                JsonValue::String(description.to_string()),
            ),
            ("verbose".to_string(), JsonValue::Bool(verbose)),
            ("count".to_string(), JsonValue::Number(count.to_string())),
        ],
        String::new(),
    ))
}

#[test]
fn renders_string_and_number_fields() {
    let invocation = render_invocation("create", &sample("alpha", "hello world", true, 7));
    assert!(invocation.starts_with("create"));
    assert!(invocation.contains("--name alpha"));
    assert!(invocation.contains("--description 'hello world'"));
    assert!(invocation.contains("--verbose"));
    assert!(invocation.contains("--count 7"));
}

#[test]
fn elides_empty_strings_and_false_bools() {
    let invocation = render_invocation("create", &sample("alpha", "", false, 0));
    assert!(!invocation.contains("--description"));
    assert!(!invocation.contains("--verbose"));
    assert!(invocation.contains("--count 0"));
}

#[test]
fn invocation_is_exact() {
    let invocation = render_invocation("create", &sample("alpha", "hello world", true, 7));
    assert_eq!(
        invocation,
        "create --name alpha --description 'hello world' --verbose --count 7"
    );
}

#[test]
fn value_without_json_form_renders_the_name_alone() {
    assert_eq!(render_invocation("create", &None), "create");
    assert_eq!(
        render_invocation("create", &Some(JsonValue::Number("3".to_string()))),
        "create"
    );
}

#[test]
fn shell_escape_keeps_plain_words() {
    assert_eq!(shell_escape("alpha-1_b.c/d:e"), "alpha-1_b.c/d:e");
    assert_eq!(shell_escape(""), "");
}

#[test]
fn shell_escape_quotes_and_escapes_single_quotes() {
    assert_eq!(shell_escape("it's here"), "'it'\\''s here'");
    assert_eq!(shell_escape("a b"), "'a b'");
    assert_eq!(shell_escape("é"), "'é'");
}

#[test]
fn arrays_repeat_the_flag_and_objects_render_as_json() {
    let mut parts = vec!["tool".to_string()];
    append_field(
        &mut parts,
        "tag",
        &JsonValue::Array(vec![
            JsonValue::String("x".to_string()),
            JsonValue::Null,
            JsonValue::Array(vec![JsonValue::Bool(true)]),
        ]),
    );
    append_field(
        &mut parts,
        "meta",
        &JsonValue::Object(
            vec![("k".to_string(), JsonValue::Number("1".to_string()))],
            "{\"k\":1}".to_string(),
        ),
    );
    append_field(&mut parts, "none", &JsonValue::Null);
    assert_eq!(parts, vec!["tool", "--tag x", "--tag", "--meta {\"k\":1}"]);
}
