use oneiros_engine::lens::ast::{Identifier, Lens};
use oneiros_engine::lens::name_resolver::{names_query, NameResolver};
use oneiros_engine::lens::registry::{NameKind, Registry};
use oneiros_engine::lens::validator::NameRegistry;

fn resolver() -> NameResolver {
    NameResolver::from_names(
        vec!["governor.process".into()],
        vec!["observation".into()],
        vec!["session".into(), "core".into()],
    )
}

#[test]
fn resolver_knows_registered_names_by_kind() {
    let r = resolver();
    assert!(r.knows(NameKind::Agent, &Identifier::new("governor.process")));
    assert!(!r.knows(NameKind::Texture, &Identifier::new("governor.process")));
    assert!(r.knows(NameKind::Level, &Identifier::new("core")));
    assert!(!r.knows(NameKind::Level, &Identifier::new("cor")));
}

#[test]
fn resolver_knows_the_entity_kinds() {
    let r = resolver();
    for kind in ["cognition", "memory", "agent", "urge", "persona", "storage"] {
        assert!(r.knows(NameKind::Kind, &Identifier::new(kind)), "{kind}");
    }
    assert!(!r.knows(NameKind::Kind, &Identifier::new("brain")));
}

#[test]
fn resolver_checks_names_in_lenses() {
    let registry = Registry::seed_default();
    let ok = Lens::predicate("level", vec![Lens::symbol("core")]);
    assert!(ok.check_names(&registry, &resolver()).is_ok());
    let bad = Lens::predicate("texture", vec![Lens::symbol("dream")]);
    let error = bad.check_names(&registry, &resolver()).unwrap_err();
    assert_eq!(error.message(), "unknown texture: dream");
    let untyped = Lens::predicate("kind", vec![Lens::symbol("brain")]);
    assert!(untyped.check_names(&registry, &resolver()).is_ok());
}

#[test]
fn names_query_selects_the_name_column() {
    assert_eq!(names_query("agents"), "select name from agents");
}
