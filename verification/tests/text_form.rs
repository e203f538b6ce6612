use oneiros_engine::lens::ast::{Lens, Ref, RefToken};

#[test]
fn rendering_writes_operators_in_parentheses() {
    let lens = Lens::difference(
        Lens::union(Lens::symbol("a"), Lens::symbol("b")),
        Lens::intersection(
            Lens::predicate("agent", vec![Lens::string("x y")]),
            Lens::reference(RefToken(Ref("agent:1".to_string()))),
        ),
    );
    assert_eq!(lens.to_text(), "((a | b) ~ (agent(\"x y\") & @agent:1))");
}

#[test]
fn rendered_text_reads_back() {
    let lenses = vec![
        Lens::symbol("gov.process"),
        Lens::string(""),
        Lens::integer(-42),
        Lens::integer(i64::MIN),
        Lens::integer(i64::MAX),
        Lens::predicate("between", vec![]),
        Lens::predicate(
            "within",
            vec![Lens::symbol("x"), Lens::integer(3), Lens::string("a, b")],
        ),
        Lens::union(
            Lens::predicate("agent", vec![Lens::symbol("a")]),
            Lens::difference(Lens::symbol("b"), Lens::symbol("c")),
        ),
    ];
    for lens in lenses {
        let text = lens.to_text();
        assert_eq!(Lens::parse(&text).unwrap(), lens, "text {text}");
    }
}

#[test]
fn operators_associate_to_the_left() {
    let parsed = Lens::parse("a | b & c").unwrap();
    assert_eq!(parsed.to_text(), "((a | b) & c)");
}

#[test]
fn spaces_are_allowed_between_parts() {
    let parsed = Lens::parse("  agent ( x ,  y )  ").unwrap_err();
    assert_eq!(parsed.position, 8);
    let parsed = Lens::parse("  agent( x ,  y )  ").unwrap();
    assert_eq!(parsed.to_text(), "agent(x, y)");
}

#[test]
fn parse_errors_report_the_position() {
    assert_eq!(Lens::parse("").unwrap_err().position, 0);
    assert_eq!(Lens::parse("a |").unwrap_err().position, 3);
    assert_eq!(Lens::parse("\"open").unwrap_err().position, 5);
    assert_eq!(Lens::parse("@").unwrap_err().position, 1);
    assert_eq!(Lens::parse("a b").unwrap_err().position, 2);
    let err = Lens::parse("9223372036854775808").unwrap_err();
    assert_eq!(err.position, 0);
    assert_eq!(err.message(), "unexpected input at position 0");
}
