use oneiros_engine::lens::ast::Lens;
use oneiros_engine::lens::compile::Compiler;
use oneiros_engine::lens::execute::{claimed, unclaimed, ExecuteError, LensExecution, OpOutcome, ReaderError};
use oneiros_engine::lens::ir::{LensIntermediateRepresentation, LensOp, LensSlotId};
use oneiros_engine::lens::registry::{NameKind, Registry};
use oneiros_engine::lens::selection::{Selection, Timestamp};

/// Runs `ir`, answering every read and step with an empty selection.
fn run(ir: &LensIntermediateRepresentation) -> Result<Selection, ExecuteError> {
    let mut run = LensExecution::new();
    while run.defined() < ir.ops.len() {
        let selection = match run.next_op(ir, Timestamp(5))? {
            OpOutcome::Ready(s) => s,
            OpOutcome::NeedsRead(_) | OpOutcome::NeedsStep { .. } => unclaimed(),
        };
        run.record(selection);
    }
    run.finish(ir)
}

#[test]
fn compiled_lens_runs_to_its_result_slot() {
    let compiler = Compiler::new(Registry::seed_default());
    let ir = compiler
        .compile(&Lens::predicate(
            "agent",
            vec![Lens::union(Lens::symbol("a"), Lens::symbol("b"))],
        ))
        .unwrap();
    let result = run(&ir).unwrap();
    assert!(result.is_empty());
}

#[test]
fn constants_and_set_operators_evaluate_without_readers() {
    let compiler = Compiler::new(Registry::seed_default());
    let ir = compiler
        .compile(&Lens::predicate(
            "agent",
            vec![Lens::union(Lens::symbol("a"), Lens::symbol("b"))],
        ))
        .unwrap();
    let mut exec = LensExecution::new();
    for _ in 0..3 {
        match exec.next_op(&ir, Timestamp(9)).unwrap() {
            OpOutcome::Ready(s) => exec.record(s),
            other => panic!("unexpected {other:?}"),
        }
    }
    match exec.next_op(&ir, Timestamp(9)).unwrap() {
        OpOutcome::NeedsStep { input, .. } => {
            assert_eq!(input.len(), 2);
            assert_eq!(input.names_of(NameKind::Agent).len(), 2);
        }
        other => panic!("unexpected {other:?}"),
    }
}

#[test]
fn undefined_slot_is_reported() {
    let ir = LensIntermediateRepresentation::new(vec![LensOp::Union(LensSlotId(0), LensSlotId(3))]);
    match run(&ir) {
        Err(e) => assert_eq!(e.message(), "slot $0 referenced before definition"),
        other => panic!("expected an error, got {other:?}"),
    }
    let empty = LensIntermediateRepresentation::new(vec![]);
    assert!(matches!(run(&empty), Err(ExecuteError::UndefinedSlot(LensSlotId(0)))));
}

#[test]
fn reader_answers_settle_or_pass_on() {
    assert!(claimed(None).is_none());
    assert!(matches!(claimed(Some(Ok(Selection::new()))), Some(Ok(_))));
    match claimed(Some(Err(ReaderError::Internal("boom".into())))) {
        Some(Err(e)) => assert_eq!(e.message(), "reader failed: boom"),
        other => panic!("unexpected {other:?}"),
    }
}
