use oneiros_engine::lens::ir::{LensConstValue, LensIntermediateRepresentation, LensOp, LensSlotId};
use oneiros_engine::lens::registry::NameKind;

#[test]
fn result_slot_points_to_last_op() {
    let ir = LensIntermediateRepresentation::new(vec![
        LensOp::Const(LensConstValue::Name {
            name: "observation".into(),
            kind: NameKind::Texture,
        }),
        LensOp::Const(LensConstValue::Name {
            name: "governor.process".into(),
            kind: NameKind::Agent,
        }),
        LensOp::Intersect(LensSlotId(0), LensSlotId(1)),
    ]);
    assert_eq!(ir.result_slot(), LensSlotId(2));
}

#[test]
fn empty_ir_result_slot_is_zero() {
    let ir = LensIntermediateRepresentation::new(vec![]);
    assert_eq!(ir.result_slot(), LensSlotId(0));
}
