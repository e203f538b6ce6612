//! Compilation of a lens expression into the slot-based intermediate
//! representation.
use vstd::prelude::*;

use crate::lens::ast::{lemma_models_index, lemma_models_len, models, Lens, LensView, Predicate, PredicateName};
use crate::lens::debug::{debug_text, push_debug};
use crate::lens::ir::{
    op_reads_below, op_views, ops_well_formed, ConstView, LensConstValue, LensIntermediateRepresentation,
    LensOp, LensRead, LensSlotId, LensStepKind, OpView, ReadView,
};
use crate::lens::registry::{ArgType, ExecutorHint, NameKind, PredicateSpec, PredicateSpecView, Registry};

verus! {

/// Why a lens could not be compiled.
#[derive(Debug)]
pub enum CompileError {
    UnknownPredicate(PredicateName),
    UncompilablePredicate { name: PredicateName },
}

/// The value of a compile error.
pub enum CompileErrorView {
    UnknownPredicate(Seq<char>),
    Uncompilable(Seq<char>),
}

impl View for CompileError {
    type V = CompileErrorView;

    open spec fn view(&self) -> CompileErrorView {
        match self {
            CompileError::UnknownPredicate(name) => CompileErrorView::UnknownPredicate(name@),
            CompileError::UncompilablePredicate { name } => CompileErrorView::Uncompilable(name@),
        }
    }
}

impl CompileError {
    /// The human-readable description of this error.
    pub fn message(&self) -> (r: String)
        ensures
            r@ == (match self@ {
                CompileErrorView::UnknownPredicate(n) => "unknown predicate: "@ + n,
                CompileErrorView::Uncompilable(n) => "predicate "@ + n
                    + " cannot be compiled to a read operation"@,
            }),
    {
        let mut s = String::new();
        match self {
            CompileError::UnknownPredicate(name) => {
                crate::text::push_str(&mut s, "unknown predicate: ");
                crate::text::push_str(&mut s, name.as_str());
            },
            CompileError::UncompilablePredicate { name } => {
                crate::text::push_str(&mut s, "predicate ");
                crate::text::push_str(&mut s, name.as_str());
                crate::text::push_str(&mut s, " cannot be compiled to a read operation");
            },
        }
        s
    }
}

/// Whether bare symbols stand for names (of a kind) where they appear.
#[derive(Debug, Clone, Copy, PartialEq, Eq, Structural)]
pub enum WalkContext {
    Open,
    Names(NameKind),
}

/// The name given to a bare literal that cannot be compiled.
pub open spec fn literal_label() -> Seq<char> {
    "(literal)"@
}

/// The depth of a `within` step: the integer when it is positive and fits in
/// 32 bits, zero otherwise.
pub open spec fn within_depth(n: i64) -> u32 {
    if n <= 0 || n > u32::MAX {
        0
    } else {
        n as u32
    }
}

/// The search text of a `search` predicate: its first argument's text when
/// it is a string, its debug rendering otherwise, and empty without argument.
pub open spec fn search_text(args: Seq<LensView>) -> Seq<char> {
    if args.len() == 0 {
        Seq::empty()
    } else {
        match args[0] {
            LensView::Str(s) => s,
            other => debug_text(other),
        }
    }
}

/// Compilation of `l`, appending to `ops`: the operations after compilation
/// and the slot holding the value of `l`.
pub open spec fn compile_walk(
    reg: Map<Seq<char>, PredicateSpecView>,
    l: LensView,
    ctx: WalkContext,
    ops: Seq<OpView>,
) -> Result<(Seq<OpView>, nat), CompileErrorView>
    decreases l,
{
    match l {
        LensView::Predicate(name, args) => if !reg.contains_key(name) {
            Err(CompileErrorView::UnknownPredicate(name))
        } else {
            match reg[name].executor {
                ExecutorHint::GraphStep(step) => if args.len() == 0 {
                    Err(CompileErrorView::Uncompilable(name))
                } else {
                    let types = reg[name].arg_types;
                    let sub = if types.len() > 0 && types[0] is LensOfNames {
                        WalkContext::Names(types[0]->LensOfNames_0)
                    } else {
                        WalkContext::Open
                    };
                    match compile_walk(reg, args[0], sub, ops) {
                        Err(e) => Err(e),
                        Ok((o, input)) => {
                            if step is Within {
                                if args.len() > 1 && args[1] is Integer {
                                    let kind = LensStepKind::Within(
                                        within_depth(args[1]->Integer_0),
                                    );
                                    Ok((o.push(OpView::Step(kind, input)), o.len()))
                                } else {
                                    Err(CompileErrorView::Uncompilable(name))
                                }
                            } else {
                                Ok((o.push(OpView::Step(step, input)), o.len()))
                            }
                        },
                    }
                },
                ExecutorHint::SearchIndexText => Ok(
                    (ops.push(OpView::Read(ReadView::SearchText(search_text(args)))), ops.len()),
                ),
                ExecutorHint::ChronicleBetween => if args.len() >= 2 && args[0] is Ref
                    && args[1] is Ref {
                    Ok(
                        (
                            ops.push(
                                OpView::Read(
                                    ReadView::ChronicleBetween(args[0]->Ref_0, args[1]->Ref_0),
                                ),
                            ),
                            ops.len(),
                        ),
                    )
                } else {
                    Err(CompileErrorView::Uncompilable(name))
                },
            }
        },
        LensView::Union(a, b) => match compile_walk(reg, *a, ctx, ops) {
            Err(e) => Err(e),
            Ok((o1, s1)) => match compile_walk(reg, *b, ctx, o1) {
                Err(e) => Err(e),
                Ok((o2, s2)) => Ok((o2.push(OpView::Union(s1, s2)), o2.len())),
            },
        },
        LensView::Intersection(a, b) => match compile_walk(reg, *a, ctx, ops) {
            Err(e) => Err(e),
            Ok((o1, s1)) => match compile_walk(reg, *b, ctx, o1) {
                Err(e) => Err(e),
                Ok((o2, s2)) => Ok((o2.push(OpView::Intersect(s1, s2)), o2.len())),
            },
        },
        LensView::Difference(a, b) => match compile_walk(reg, *a, ctx, ops) {
            Err(e) => Err(e),
            Ok((o1, s1)) => match compile_walk(reg, *b, ctx, o1) {
                Err(e) => Err(e),
                Ok((o2, s2)) => Ok((o2.push(OpView::Difference(s1, s2)), o2.len())),
            },
        },
        LensView::Ref(t) => Ok((ops.push(OpView::Const(ConstView::Ref(t))), ops.len())),
        LensView::Symbol(id) => match ctx {
            WalkContext::Names(kind) => Ok(
                (ops.push(OpView::Const(ConstView::Name(id, kind))), ops.len()),
            ),
            WalkContext::Open => Err(CompileErrorView::Uncompilable(literal_label())),
        },
        _ => Err(CompileErrorView::Uncompilable(literal_label())),
    }
}

/// The operations a lens compiles to, starting from nothing in an open
/// context.
pub open spec fn compilation(reg: Map<Seq<char>, PredicateSpecView>, l: LensView) -> Result<
    Seq<OpView>,
    CompileErrorView,
> {
    match compile_walk(reg, l, WalkContext::Open, Seq::empty()) {
        Ok((o, _)) => Ok(o),
        Err(e) => Err(e),
    }
}

/// Every operation from position `start` on reads only slots written
/// before it.
pub open spec fn reads_earlier_from(ops: Seq<OpView>, start: int) -> bool {
    forall|i: int| start <= i < ops.len() ==> #[trigger] op_reads_below(ops[i], i as nat)
}

/// Compiling a lens onto any list of operations only appends: it keeps the
/// operations it started from, adds at least one, every operation it adds
/// reads only slots written before it, and the value of the lens is in the
/// last slot.
pub proof fn lemma_compile_walk_appends(
    reg: Map<Seq<char>, PredicateSpecView>,
    l: LensView,
    ctx: WalkContext,
    ops: Seq<OpView>,
)
    requires
        compile_walk(reg, l, ctx, ops) is Ok,
    ensures
        ({
            let (o, slot) = compile_walk(reg, l, ctx, ops)->Ok_0;
            &&& o.len() > ops.len()
            &&& o.take(ops.len() as int) == ops
            &&& reads_earlier_from(o, ops.len() as int)
            &&& slot == o.len() - 1
        }),
    decreases l,
{
    match l {
        LensView::Predicate(name, args) => {
            match reg[name].executor {
                ExecutorHint::GraphStep(step) => {
                    let types = reg[name].arg_types;
                    let sub = if types.len() > 0 && types[0] is LensOfNames {
                        WalkContext::Names(types[0]->LensOfNames_0)
                    } else {
                        WalkContext::Open
                    };
                    lemma_compile_walk_appends(reg, args[0], sub, ops);
                    let (o, input) = compile_walk(reg, args[0], sub, ops)->Ok_0;
                    let (r, _) = compile_walk(reg, l, ctx, ops)->Ok_0;
                    lemma_push_reads_earlier(o, r[o.len() as int], ops.len() as int);
                    assert(r.take(ops.len() as int) =~= o.take(ops.len() as int));
                },
                _ => {
                    let (r, _) = compile_walk(reg, l, ctx, ops)->Ok_0;
                    lemma_push_reads_earlier(ops, r[ops.len() as int], ops.len() as int);
                    assert(r.take(ops.len() as int) =~= ops);
                },
            }
        },
        LensView::Union(a, b) => {
            lemma_compile_walk_appends(reg, *a, ctx, ops);
            let (o1, s1) = compile_walk(reg, *a, ctx, ops)->Ok_0;
            lemma_compile_walk_appends(reg, *b, ctx, o1);
            let (o2, s2) = compile_walk(reg, *b, ctx, o1)->Ok_0;
            lemma_join_rounds(ops, o1, o2);
            lemma_push_reads_earlier(o2, OpView::Union(s1, s2), ops.len() as int);
            let r = o2.push(OpView::Union(s1, s2));
            assert(r.take(ops.len() as int) =~= o2.take(ops.len() as int));
        },
        LensView::Intersection(a, b) => {
            lemma_compile_walk_appends(reg, *a, ctx, ops);
            let (o1, s1) = compile_walk(reg, *a, ctx, ops)->Ok_0;
            lemma_compile_walk_appends(reg, *b, ctx, o1);
            let (o2, s2) = compile_walk(reg, *b, ctx, o1)->Ok_0;
            lemma_join_rounds(ops, o1, o2);
            lemma_push_reads_earlier(o2, OpView::Intersect(s1, s2), ops.len() as int);
            let r = o2.push(OpView::Intersect(s1, s2));
            assert(r.take(ops.len() as int) =~= o2.take(ops.len() as int));
        },
        LensView::Difference(a, b) => {
            lemma_compile_walk_appends(reg, *a, ctx, ops);
            let (o1, s1) = compile_walk(reg, *a, ctx, ops)->Ok_0;
            lemma_compile_walk_appends(reg, *b, ctx, o1);
            let (o2, s2) = compile_walk(reg, *b, ctx, o1)->Ok_0;
            lemma_join_rounds(ops, o1, o2);
            lemma_push_reads_earlier(o2, OpView::Difference(s1, s2), ops.len() as int);
            let r = o2.push(OpView::Difference(s1, s2));
            assert(r.take(ops.len() as int) =~= o2.take(ops.len() as int));
        },
        _ => {
            let (r, _) = compile_walk(reg, l, ctx, ops)->Ok_0;
            lemma_push_reads_earlier(ops, r[ops.len() as int], ops.len() as int);
            assert(r.take(ops.len() as int) =~= ops);
        },
    }
}

/// Operations appended in two rounds, each reading only earlier slots,
/// read only earlier slots together.
proof fn lemma_join_rounds(ops: Seq<OpView>, o1: Seq<OpView>, o2: Seq<OpView>)
    requires
        o1.len() > ops.len(),
        o1.take(ops.len() as int) == ops,
        reads_earlier_from(o1, ops.len() as int),
        o2.len() > o1.len(),
        o2.take(o1.len() as int) == o1,
        reads_earlier_from(o2, o1.len() as int),
    ensures
        o2.take(ops.len() as int) == ops,
        reads_earlier_from(o2, ops.len() as int),
{
    assert(o2.take(ops.len() as int) =~= o1.take(ops.len() as int)) by {
        assert forall|i: int| 0 <= i < ops.len() implies o2[i] == o1[i] by {
            assert(o2.take(o1.len() as int)[i] == o2[i]);
        }
    }
    assert forall|i: int| ops.len() <= i < o2.len() implies #[trigger] op_reads_below(
        o2[i],
        i as nat,
    ) by {
        if i < o1.len() {
            assert(o2.take(o1.len() as int)[i] == o2[i]);
        }
    }
}

/// Appending an operation that reads only existing slots keeps every
/// operation from `start` on reading earlier slots.
proof fn lemma_push_reads_earlier(ops: Seq<OpView>, op: OpView, start: int)
    requires
        0 <= start <= ops.len(),
        reads_earlier_from(ops, start),
        op_reads_below(op, ops.len()),
    ensures
        reads_earlier_from(ops.push(op), start),
        ops.push(op).take(ops.len() as int) == ops,
{
    let r = ops.push(op);
    assert forall|i: int| start <= i < r.len() implies #[trigger] op_reads_below(r[i], i as nat) by {
        if i < ops.len() {
            assert(r[i] == ops[i]);
        }
    }
    assert(r.take(ops.len() as int) =~= ops);
}

/// A lens that compiles yields a non-empty, well-formed list of operations:
/// every operation reads only slots written before it, so running it never
/// meets an undefined slot, and its result is in the last slot.
pub proof fn compiled_lenses_are_well_formed(reg: Map<Seq<char>, PredicateSpecView>, l: LensView)
    requires
        compilation(reg, l) is Ok,
    ensures
        compilation(reg, l)->Ok_0.len() > 0,
        ops_well_formed(compilation(reg, l)->Ok_0),
        compile_walk(reg, l, WalkContext::Open, Seq::empty())->Ok_0.1 == compilation(
            reg,
            l,
        )->Ok_0.len() - 1,
{
    lemma_compile_walk_appends(reg, l, WalkContext::Open, Seq::empty());
}

/// Compiles lens expressions against a predicate registry.
pub struct Compiler {
    registry: Registry,
}

proof fn lemma_op_views_push(ops: Seq<LensOp>, op: LensOp)
    ensures
        op_views(ops.push(op)) == op_views(ops).push(op@),
{
    assert(op_views(ops.push(op)) =~= op_views(ops).push(op@));
}

impl Compiler {
    pub closed spec fn registry_view(&self) -> Map<Seq<char>, PredicateSpecView> {
        self.registry@
    }

    pub fn new(registry: Registry) -> (r: Self)
        ensures
            r.registry_view() == registry@,
    {
        Compiler { registry }
    }

    /// Compiles `ast` into its intermediate representation.
    pub fn compile(&self, ast: &Lens) -> (r: Result<LensIntermediateRepresentation, CompileError>)
        ensures
            match compilation(self.registry_view(), ast@) {
                Ok(o) => r is Ok && r->Ok_0.op_list() == o,
                Err(e) => r is Err && r->Err_0@ == e,
            },
    {
        let mut ops: Vec<LensOp> = Vec::new();
        proof {
            assert(op_views(ops@) =~= Seq::<OpView>::empty());
        }
        match self.walk(ast, WalkContext::Open, &mut ops) {
            Ok(_) => Ok(LensIntermediateRepresentation::new(ops)),
            Err(e) => Err(e),
        }
    }

    fn walk(&self, node: &Lens, context: WalkContext, ops: &mut Vec<LensOp>) -> (r: Result<
        LensSlotId,
        CompileError,
    >)
        ensures
            match compile_walk(self.registry@, node@, context, op_views(old(ops)@)) {
                Ok((o, slot)) => r is Ok && r->Ok_0.0 == slot && op_views(final(ops)@) == o,
                Err(e) => r is Err && r->Err_0@ == e,
            },
        decreases node,
    {
        match node {
            Lens::Predicate(predicate) => self.compile_predicate(predicate, ops),
            Lens::Union(left, right) => {
                let left_slot = self.walk(left, context, ops)?;
                let right_slot = self.walk(right, context, ops)?;
                let slot = LensSlotId(ops.len());
                let op = LensOp::Union(left_slot, right_slot);
                proof {
                    lemma_op_views_push(ops@, op);
                }
                ops.push(op);
                Ok(slot)
            },
            Lens::Intersection(left, right) => {
                let left_slot = self.walk(left, context, ops)?;
                let right_slot = self.walk(right, context, ops)?;
                let slot = LensSlotId(ops.len());
                let op = LensOp::Intersect(left_slot, right_slot);
                proof {
                    lemma_op_views_push(ops@, op);
                }
                ops.push(op);
                Ok(slot)
            },
            Lens::Difference(left, right) => {
                let left_slot = self.walk(left, context, ops)?;
                let right_slot = self.walk(right, context, ops)?;
                let slot = LensSlotId(ops.len());
                let op = LensOp::Difference(left_slot, right_slot);
                proof {
                    lemma_op_views_push(ops@, op);
                }
                ops.push(op);
                Ok(slot)
            },
            Lens::Ref(reference) => {
                let slot = LensSlotId(ops.len());
                let op = LensOp::Const(LensConstValue::Ref(reference.duplicate()));
                proof {
                    lemma_op_views_push(ops@, op);
                }
                ops.push(op);
                Ok(slot)
            },
            Lens::Symbol(identifier) => match context {
                WalkContext::Names(kind) => {
                    let slot = LensSlotId(ops.len());
                    let op = LensOp::Const(
                        LensConstValue::Name { name: identifier.0.clone(), kind },
                    );
                    proof {
                        lemma_op_views_push(ops@, op);
                    }
                    ops.push(op);
                    Ok(slot)
                },
                WalkContext::Open => Err(
                    CompileError::UncompilablePredicate { name: PredicateName::new("(literal)") },
                ),
            },
            _ => Err(CompileError::UncompilablePredicate { name: PredicateName::new("(literal)") }),
        }
    }

    fn compile_predicate(&self, predicate: &Predicate, ops: &mut Vec<LensOp>) -> (r: Result<
        LensSlotId,
        CompileError,
    >)
        ensures
            match compile_walk(
                self.registry@,
                LensView::Predicate(predicate.name@, models(predicate.args@)),
                WalkContext::Open,
                op_views(old(ops)@),
            ) {
                Ok((o, slot)) => r is Ok && r->Ok_0.0 == slot && op_views(final(ops)@) == o,
                Err(e) => r is Err && r->Err_0@ == e,
            },
        decreases predicate, 1int,
    {
        let spec = match self.registry.lookup(&predicate.name) {
            Some(spec) => spec,
            None => {
                return Err(CompileError::UnknownPredicate(predicate.name.duplicate()));
            },
        };
        proof {
            lemma_models_len(predicate.args@);
        }
        match spec.executor {
            ExecutorHint::GraphStep(step_kind) => self.compile_graph_step(
                predicate,
                spec,
                step_kind,
                ops,
            ),
            ExecutorHint::SearchIndexText => {
                let mut text = String::new();
                if predicate.args.len() > 0 {
                    proof {
                        lemma_models_index(predicate.args@, 0);
                    }
                    match &predicate.args[0] {
                        Lens::String(s) => {
                            text = s.0.clone();
                        },
                        other => {
                            push_debug(&mut text, other);
                            proof {
                                assert(text@ =~= debug_text(other@));
                            }
                        },
                    }
                }
                let slot = LensSlotId(ops.len());
                let op = LensOp::Read(LensRead::SearchText(text));
                proof {
                    lemma_op_views_push(ops@, op);
                }
                ops.push(op);
                Ok(slot)
            },
            ExecutorHint::ChronicleBetween => {
                if predicate.args.len() < 2 {
                    return Err(
                        CompileError::UncompilablePredicate { name: predicate.name.duplicate() },
                    );
                }
                proof {
                    lemma_models_index(predicate.args@, 0);
                    lemma_models_index(predicate.args@, 1);
                }
                let from = match &predicate.args[0] {
                    Lens::Ref(from) => from,
                    _ => {
                        return Err(
                            CompileError::UncompilablePredicate {
                                name: predicate.name.duplicate(),
                            },
                        );
                    },
                };
                let to = match &predicate.args[1] {
                    Lens::Ref(to) => to,
                    _ => {
                        return Err(
                            CompileError::UncompilablePredicate {
                                name: predicate.name.duplicate(),
                            },
                        );
                    },
                };
                let slot = LensSlotId(ops.len());
                let op = LensOp::Read(
                    LensRead::ChronicleBetween { from: from.duplicate(), to: to.duplicate() },
                );
                proof {
                    lemma_op_views_push(ops@, op);
                }
                ops.push(op);
                Ok(slot)
            },
        }
    }

    fn compile_graph_step(
        &self,
        predicate: &Predicate,
        spec: &PredicateSpec,
        spec_kind: LensStepKind,
        ops: &mut Vec<LensOp>,
    ) -> (r: Result<LensSlotId, CompileError>)
        requires
            self.registry@.contains_key(predicate.name@),
            spec@ == self.registry@[predicate.name@],
            spec.executor == ExecutorHint::GraphStep(spec_kind),
        ensures
            match compile_walk(
                self.registry@,
                LensView::Predicate(predicate.name@, models(predicate.args@)),
                WalkContext::Open,
                op_views(old(ops)@),
            ) {
                Ok((o, slot)) => r is Ok && r->Ok_0.0 == slot && op_views(final(ops)@) == o,
                Err(e) => r is Err && r->Err_0@ == e,
            },
        decreases predicate, 0int,
    {
        proof {
            lemma_models_len(predicate.args@);
        }
        if predicate.args.len() == 0 {
            return Err(CompileError::UncompilablePredicate { name: predicate.name.duplicate() });
        }
        proof {
            lemma_models_index(predicate.args@, 0);
        }
        let sub_lens = &predicate.args[0];
        let sub_context = if spec.arg_types.len() > 0 {
            match spec.arg_types[0] {
                ArgType::LensOfNames(kind) => WalkContext::Names(kind),
                _ => WalkContext::Open,
            }
        } else {
            WalkContext::Open
        };
        let input_slot = self.walk(sub_lens, sub_context, ops)?;
        let kind = match spec_kind {
            LensStepKind::Within(_) => {
                if predicate.args.len() < 2 {
                    return Err(
                        CompileError::UncompilablePredicate { name: predicate.name.duplicate() },
                    );
                }
                proof {
                    lemma_models_index(predicate.args@, 1);
                }
                let n = match &predicate.args[1] {
                    Lens::Integer(n) => n.value(),
                    _ => {
                        return Err(
                            CompileError::UncompilablePredicate {
                                name: predicate.name.duplicate(),
                            },
                        );
                    },
                };
                let depth: u32 = if n <= 0 || n > u32::MAX as i64 {
                    0
                } else {
                    n as u32
                };
                LensStepKind::Within(depth)
            },
            other => other,
        };
        let slot = LensSlotId(ops.len());
        let op = LensOp::Step { kind, input: input_slot };
        proof {
            lemma_op_views_push(ops@, op);
        }
        ops.push(op);
        Ok(slot)
    }
}

} // verus!
