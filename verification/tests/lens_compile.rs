use oneiros_engine::lens::ast::Lens;
use oneiros_engine::lens::compile::{CompileError, Compiler};
use oneiros_engine::lens::ir::{LensConstValue, LensOp, LensRead, LensStepKind};
use oneiros_engine::lens::registry::{NameKind, Registry};

fn compiler() -> Compiler {
    Compiler::new(Registry::seed_default())
}

#[test]
fn compiles_facet_predicate_to_step_over_name_literal() {
    let ast = Lens::predicate("texture", vec![Lens::symbol("observation")]);
    let ir = compiler().compile(&ast).unwrap();
    assert_eq!(ir.ops.len(), 2);
    assert!(matches!(
        &ir.ops[0],
        LensOp::Const(LensConstValue::Name {
            kind: NameKind::Texture,
            ..
        })
    ));
    assert!(matches!(
        &ir.ops[1],
        LensOp::Step {
            kind: LensStepKind::SearchByTexture,
            ..
        }
    ));
}

#[test]
fn compiles_search_text_predicate() {
    let ast = Lens::predicate("search", vec![Lens::string("hello world")]);
    let ir = compiler().compile(&ast).unwrap();
    assert_eq!(ir.ops.len(), 1);
    assert!(matches!(&ir.ops[0], LensOp::Read(LensRead::SearchText(_))));
}

#[test]
fn compiles_union_of_names_inside_facet_predicate() {
    let ast = Lens::predicate(
        "agent",
        vec![Lens::union(
            Lens::symbol("governor.process"),
            Lens::symbol("thinker.process"),
        )],
    );
    let ir = compiler().compile(&ast).unwrap();
    assert_eq!(ir.ops.len(), 4);
    assert!(matches!(
        &ir.ops[3],
        LensOp::Step {
            kind: LensStepKind::SearchByAgent,
            ..
        }
    ));
}

#[test]
fn compile_rejects_unknown_predicate() {
    let ast = Lens::predicate("nonexistent", vec![Lens::symbol("x")]);
    let err = compiler().compile(&ast).unwrap_err();
    assert!(matches!(err, CompileError::UnknownPredicate(_)));
}

#[test]
fn rejects_bare_literal_at_top_level() {
    let ast = Lens::symbol("bare");
    let err = compiler().compile(&ast).unwrap_err();
    assert!(matches!(err, CompileError::UncompilablePredicate { .. }));
}
