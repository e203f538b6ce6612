use oneiros_engine::lens::explain::Explanation;
use oneiros_engine::lens::ir::{
    LensConstValue, LensIntermediateRepresentation, LensOp, LensSlotId, LensStepKind,
};
use oneiros_engine::lens::registry::NameKind;

#[test]
fn explains_name_literal_and_step() {
    let ir = LensIntermediateRepresentation::new(vec![
        LensOp::Const(LensConstValue::Name {
            name: "observation".into(),
            kind: NameKind::Texture,
        }),
        LensOp::Step {
            kind: LensStepKind::SearchByTexture,
            input: LensSlotId(0),
        },
    ]);
    let explanation = Explanation::new(ir);
    let output = explanation.render();
    assert!(output.contains("$0: const name(texture: \"observation\")"));
    assert!(output.contains("$1: step SearchByTexture($0)"));
}

#[test]
fn explains_intersection_pipeline() {
    let ir = LensIntermediateRepresentation::new(vec![
        LensOp::Const(LensConstValue::Name {
            name: "observation".into(),
            kind: NameKind::Texture,
        }),
        LensOp::Step {
            kind: LensStepKind::SearchByTexture,
            input: LensSlotId(0),
        },
        LensOp::Const(LensConstValue::Name {
            name: "governor.process".into(),
            kind: NameKind::Agent,
        }),
        LensOp::Step {
            kind: LensStepKind::SearchByAgent,
            input: LensSlotId(2),
        },
        LensOp::Intersect(LensSlotId(1), LensSlotId(3)),
    ]);
    let explanation = Explanation::new(ir);
    let output = explanation.render();
    assert!(output.contains("intersect($1, $3)"));
}
