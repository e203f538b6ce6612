use oneiros_engine::lens::aliases::{AliasError, AliasResolver};
use oneiros_engine::lens::ast::Lens;

fn aliases(pairs: &[(&str, &str)]) -> Vec<(String, String)> {
    pairs
        .iter()
        .map(|(k, v)| (k.to_string(), v.to_string()))
        .collect()
}

#[test]
fn unknown_symbol_passes_through_unchanged() {
    let resolver = AliasResolver::new(&aliases(&[])).unwrap();
    let parsed = Lens::parse("texture(observation)").unwrap();
    let expanded = resolver.expand(parsed.clone()).unwrap();
    assert_eq!(expanded.to_text(), parsed.to_text());
}

#[test]
fn matching_symbol_expands_to_alias_body() {
    let resolver = AliasResolver::new(&aliases(&[("mine", "agent(gov.process)")])).unwrap();
    let parsed = Lens::parse("mine").unwrap();
    let expanded = resolver.expand(parsed).unwrap();
    assert_eq!(expanded.to_text(), "agent(gov.process)");
}

#[test]
fn alias_expands_inside_predicate_arg() {
    let resolver = AliasResolver::new(&aliases(&[("mine", "agent(gov.process)")])).unwrap();
    let parsed = Lens::parse("from(mine)").unwrap();
    let expanded = resolver.expand(parsed).unwrap();
    assert_eq!(expanded.to_text(), "from(agent(gov.process))");
}

#[test]
fn nested_aliases_expand_transitively() {
    let resolver = AliasResolver::new(&aliases(&[
        ("a", "agent(gov.process)"),
        ("b", "a & texture(observation)"),
    ]))
    .unwrap();
    let parsed = Lens::parse("b").unwrap();
    let expanded = resolver.expand(parsed).unwrap();
    assert_eq!(
        expanded.to_text(),
        "(agent(gov.process) & texture(observation))"
    );
}

#[test]
fn circular_alias_rejects() {
    let resolver = AliasResolver::new(&aliases(&[("a", "b"), ("b", "a")])).unwrap();
    let parsed = Lens::parse("a").unwrap();
    let err = resolver.expand(parsed).expect_err("cycle must reject");
    assert!(matches!(err, AliasError::Cycle { .. }));
}

#[test]
fn cycle_reports_the_chain_of_aliases() {
    let resolver = AliasResolver::new(&aliases(&[("a", "b"), ("b", "a")])).unwrap();
    let err = resolver.expand(Lens::parse("a").unwrap()).unwrap_err();
    match err {
        AliasError::Cycle { chain } => assert_eq!(chain, "a → b → a"),
        other => panic!("expected a cycle, got {other:?}"),
    }
    let self_loop = AliasResolver::new(&aliases(&[("x", "x | y")])).unwrap();
    let err = self_loop.expand(Lens::parse("x").unwrap()).unwrap_err();
    assert_eq!(err.message(), "alias cycle detected: x → x");
}

#[test]
fn unparsable_alias_source_is_rejected_with_its_name() {
    let err = AliasResolver::new(&aliases(&[("ok", "agent(a)"), ("bad", "agent(")]))
        .err()
        .expect("parse error");
    match &err {
        AliasError::Parse { name, source } => {
            assert_eq!(name, "bad");
            assert_eq!(source.position, 6);
        }
        other => panic!("expected a parse error, got {other:?}"),
    }
    assert_eq!(
        err.message(),
        "alias \"bad\" failed to parse: unexpected input at position 6"
    );
}

#[test]
fn later_alias_definition_replaces_earlier() {
    let resolver =
        AliasResolver::new(&aliases(&[("m", "agent(one)"), ("m", "agent(two)")])).unwrap();
    let expanded = resolver.expand(Lens::parse("m").unwrap()).unwrap();
    assert_eq!(expanded.to_text(), "agent(two)");
}

#[test]
fn expansion_leaves_literals_alone() {
    let resolver = AliasResolver::new(&aliases(&[("m", "agent(one)")])).unwrap();
    let parsed = Lens::parse("between(@a:1, @b:2) ~ \"m\"").unwrap();
    let expanded = resolver.expand(parsed.clone()).unwrap();
    assert_eq!(expanded, parsed);
}

#[test]
fn expanding_twice_gives_the_same_lens() {
    let resolver = AliasResolver::new(&aliases(&[
        ("a", "agent(gov.process)"),
        ("b", "a & texture(observation)"),
    ]))
    .unwrap();
    let once = resolver.expand(Lens::parse("b | kind(a)").unwrap()).unwrap();
    let twice = resolver.expand(once.clone()).unwrap();
    assert_eq!(once, twice);
    assert_eq!(
        once.to_text(),
        "((agent(gov.process) & texture(observation)) | kind(agent(gov.process)))"
    );
}

#[test]
fn alias_used_on_sibling_branches_is_no_cycle() {
    let resolver = AliasResolver::new(&aliases(&[("a", "agent(x)"), ("b", "a | a")])).unwrap();
    let expanded = resolver.expand(Lens::symbol("b")).unwrap();
    let body = Lens::parse("agent(x)").unwrap();
    assert_eq!(expanded.to_text(), Lens::union(body.clone(), body).to_text());
}

#[test]
fn cycle_out_of_reach_does_not_reject() {
    let resolver =
        AliasResolver::new(&aliases(&[("a", "b"), ("b", "a"), ("c", "texture(observation)")]))
            .unwrap();
    let expanded = resolver.expand(Lens::parse("c | level(session)").unwrap()).unwrap();
    assert_eq!(expanded.to_text(), "(texture(observation) | level(session))");
    assert!(matches!(
        resolver.expand(Lens::parse("level(session) & b").unwrap()),
        Err(AliasError::Cycle { .. })
    ));
}
