use oneiros_engine::lens::ast::{Identifier, Lens, PredicateName};
use oneiros_engine::lens::registry::{NameKind, Registry, ResultType};
use oneiros_engine::lens::validator::{LensValidationError, NameRegistry};

fn registry() -> Registry {
    Registry::seed_default()
}

#[test]
fn validates_known_predicate_with_correct_arg() {
    let lens = Lens::predicate("agent", vec![Lens::symbol("governor.process")]);
    lens.validate(&registry()).expect("validates");
}

#[test]
fn validates_set_operators_when_both_sides_validate() {
    let lens = Lens::union(
        Lens::predicate("agent", vec![Lens::symbol("a")]),
        Lens::predicate("agent", vec![Lens::symbol("b")]),
    );
    lens.validate(&registry()).expect("validates");
}

#[test]
fn validator_rejects_unknown_predicate() {
    let lens = Lens::predicate("nonexistent", vec![Lens::symbol("x")]);
    let error = lens.validate(&registry()).expect_err("must fail");
    assert!(matches!(
        error,
        LensValidationError::UnknownPredicate { .. }
    ));
}

#[test]
fn rejects_arity_mismatch() {
    let lens = Lens::predicate("agent", vec![Lens::symbol("a"), Lens::symbol("b")]);
    let error = lens.validate(&registry()).expect_err("must fail");
    assert!(matches!(
        error,
        LensValidationError::ArityMismatch {
            expected: 1,
            got: 2,
            ..
        }
    ));
}

#[test]
fn rejects_arg_type_mismatch_symbol_where_string_expected() {
    let lens = Lens::predicate("search", vec![Lens::symbol("bare")]);
    let error = lens.validate(&registry()).expect_err("must fail");
    assert!(matches!(error, LensValidationError::ArgTypeMismatch { .. }));
}

#[test]
fn rejects_arg_type_mismatch_integer_where_symbol_expected() {
    let lens = Lens::predicate("agent", vec![Lens::integer(42)]);
    let error = lens.validate(&registry()).expect_err("must fail");
    assert!(matches!(error, LensValidationError::ArgTypeMismatch { .. }));
}

#[test]
fn rejects_unknown_predicate_nested_in_set_operator() {
    let lens = Lens::union(
        Lens::predicate("agent", vec![Lens::symbol("x")]),
        Lens::predicate("nonexistent", vec![Lens::symbol("y")]),
    );
    let error = lens.validate(&registry()).expect_err("must fail");
    assert!(matches!(
        error,
        LensValidationError::UnknownPredicate { .. }
    ));
}

#[test]
fn leaves_have_no_result_type() {
    assert_eq!(Lens::symbol("x").result_type(&registry()), None);
    assert_eq!(Lens::string("x").result_type(&registry()), None);
    assert_eq!(Lens::integer(1).result_type(&registry()), None);
}

#[test]
fn predicate_result_type_resolves_via_spec() {
    let entities = Lens::predicate("agent", vec![Lens::symbol("x")]);
    assert_eq!(
        entities.result_type(&registry()),
        Some(ResultType::Entities)
    );
}

#[test]
fn set_operator_result_type_when_both_sides_match() {
    let lens = Lens::union(
        Lens::predicate("agent", vec![Lens::symbol("x")]),
        Lens::predicate("texture", vec![Lens::symbol("y")]),
    );
    assert_eq!(lens.result_type(&registry()), Some(ResultType::Entities));
}

#[test]
fn set_operator_inherits_result_type_when_one_side_is_leaf() {
    let lens = Lens::union(
        Lens::predicate("agent", vec![Lens::symbol("x")]),
        Lens::symbol("bare"),
    );
    assert_eq!(lens.result_type(&registry()), Some(ResultType::Entities));
}

#[test]
fn set_operator_with_both_leaves_has_no_result_type() {
    let lens = Lens::union(Lens::symbol("a"), Lens::symbol("b"));
    assert_eq!(lens.result_type(&registry()), None);
}

#[test]
fn lookup_returns_spec_for_known_predicate() {
    assert!(registry().lookup(&PredicateName::new("agent")).is_some());
}

#[test]
fn accepts_set_operator_when_one_side_is_polymorphic_leaf() {
    Lens::union(
        Lens::predicate("agent", vec![Lens::symbol("x")]),
        Lens::symbol("bare"),
    )
    .validate(&registry())
    .expect("validates");
}

#[test]
fn rejects_set_operator_over_events_and_entities() {
    let lens = Lens::union(
        Lens::predicate("agent", vec![Lens::symbol("x")]),
        Lens::predicate("events_for", vec![Lens::predicate("agent", vec![Lens::symbol("y")])]),
    );
    let error = lens.validate(&registry()).expect_err("must fail");
    assert!(matches!(error, LensValidationError::ResultTypeMismatch { .. }));
}

struct TestNames {
    agents: Vec<String>,
    textures: Vec<String>,
    levels: Vec<String>,
}

impl TestNames {
    fn new() -> Self {
        Self {
            agents: vec!["governor.process".into()],
            textures: vec!["observation".into(), "reflection".into()],
            levels: vec!["session".into()],
        }
    }
}

impl NameRegistry for TestNames {
    fn knows(&self, kind: NameKind, name: &Identifier) -> bool {
        match kind {
            NameKind::Agent => self.agents.iter().any(|n| n == name.as_str()),
            NameKind::Texture => self.textures.iter().any(|n| n == name.as_str()),
            NameKind::Level => self.levels.iter().any(|n| n == name.as_str()),
            NameKind::Kind => false,
        }
    }
}

#[test]
fn check_names_accepts_known_agent() {
    let lens = Lens::predicate("agent", vec![Lens::symbol("governor.process")]);
    lens.check_names(&registry(), &TestNames::new())
        .expect("valid");
}

#[test]
fn check_names_rejects_unknown_agent_with_kind_label() {
    let lens = Lens::predicate("agent", vec![Lens::symbol("nonexistent.agent")]);
    let error = lens
        .check_names(&registry(), &TestNames::new())
        .expect_err("must fail");
    let message = error.message();
    assert!(message.contains("unknown agent"));
}

#[test]
fn check_names_rejects_unknown_texture() {
    let lens = Lens::predicate("texture", vec![Lens::symbol("nonexistent")]);
    let error = lens
        .check_names(&registry(), &TestNames::new())
        .expect_err("must fail");
    let message = error.message();
    assert!(message.contains("unknown texture"));
}

#[test]
fn check_names_rejects_unknown_level() {
    let lens = Lens::predicate("level", vec![Lens::symbol("nonexistent")]);
    let error = lens
        .check_names(&registry(), &TestNames::new())
        .expect_err("must fail");
    let message = error.message();
    assert!(message.contains("unknown level"));
}

#[test]
fn check_names_walks_into_set_operators() {
    let lens = Lens::union(
        Lens::predicate("agent", vec![Lens::symbol("governor.process")]),
        Lens::predicate("agent", vec![Lens::symbol("nonexistent.agent")]),
    );
    let error = lens
        .check_names(&registry(), &TestNames::new())
        .expect_err("must fail");
    let message = error.message();
    assert!(message.contains("nonexistent.agent"));
}

#[test]
fn check_names_ignores_untyped_symbol_positions() {
    let lens = Lens::predicate("kind", vec![Lens::symbol("whatever_goes_here")]);
    lens.check_names(&registry(), &TestNames::new())
        .expect("valid — kind takes untyped Symbol, no name check");
}

#[test]
fn check_names_accepts_set_operator_when_both_sides_resolve() {
    let lens = Lens::union(
        Lens::predicate("agent", vec![Lens::symbol("governor.process")]),
        Lens::predicate("texture", vec![Lens::symbol("observation")]),
    );
    lens.check_names(&registry(), &TestNames::new())
        .expect("valid");
}

#[test]
fn check_names_skips_unknown_predicate_silently() {
    let lens = Lens::predicate("nonexistent", vec![Lens::symbol("anything")]);
    lens.check_names(&registry(), &TestNames::new())
        .expect("valid — structural validator catches unknowns");
}
