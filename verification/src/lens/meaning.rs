//! What a lens means, and what running its compiled form computes: for any
//! readers, the run leaves in the result slot the selection the lens
//! denotes.
use vstd::prelude::*;

use crate::lens::ast::LensView;
use crate::lens::compile::{
    compilation, compile_walk, lemma_compile_walk_appends, search_text, within_depth, WalkContext,
};
use crate::lens::execute::const_selection;
use crate::lens::ir::{ConstView, LensStepKind, OpView, ReadView};
use crate::lens::registry::{ExecutorHint, PredicateSpecView};
use crate::lens::selection::{difference_of, intersection_of, union_of, HitView, IdentityView};

verus! {

/// A selection, by the identities of its hits.
pub type Hits = Map<IdentityView, HitView>;

/// The selection an operation leaves in its slot, given the selections of
/// the slots before it, the time of the run, and how readers answer reads
/// and steps.
pub open spec fn op_value(
    op: OpView,
    slots: Seq<Hits>,
    now: i64,
    read: spec_fn(ReadView) -> Hits,
    step: spec_fn(LensStepKind, Hits) -> Hits,
) -> Hits {
    match op {
        OpView::Const(c) => const_selection(c, now),
        OpView::Read(r) => read(r),
        OpView::Step(kind, input) => step(kind, slots[input as int]),
        OpView::Union(a, b) => union_of(slots[a as int], slots[b as int]),
        OpView::Intersect(a, b) => intersection_of(slots[a as int], slots[b as int]),
        OpView::Difference(a, b) => difference_of(slots[a as int], slots[b as int]),
    }
}

/// The selections a run leaves in the slots of `ops`, in slot order.
pub open spec fn run_slots(
    ops: Seq<OpView>,
    now: i64,
    read: spec_fn(ReadView) -> Hits,
    step: spec_fn(LensStepKind, Hits) -> Hits,
) -> Seq<Hits>
    decreases ops.len(),
{
    if ops.len() == 0 {
        Seq::empty()
    } else {
        let before = run_slots(ops.drop_last(), now, read, step);
        before.push(op_value(ops.last(), before, now, read, step))
    }
}

/// The selection lens `l` denotes, in a context where bare symbols stand
/// for names or not: a predicate is its reader's answer (a graph step over
/// the meaning of its first argument, a text search, or a chronicle read);
/// union, intersection and difference combine the meanings of their left
/// and right sides in that order; a reference or a name is a single hit.
pub open spec fn lens_meaning(
    reg: Map<Seq<char>, PredicateSpecView>,
    l: LensView,
    ctx: WalkContext,
    now: i64,
    read: spec_fn(ReadView) -> Hits,
    step: spec_fn(LensStepKind, Hits) -> Hits,
) -> Hits
    decreases l,
{
    match l {
        LensView::Predicate(name, args) => match reg[name].executor {
            ExecutorHint::GraphStep(kind) => {
                let types = reg[name].arg_types;
                let sub = if types.len() > 0 && types[0] is LensOfNames {
                    WalkContext::Names(types[0]->LensOfNames_0)
                } else {
                    WalkContext::Open
                };
                let input = if args.len() > 0 {
                    lens_meaning(reg, args[0], sub, now, read, step)
                } else {
                    Map::empty()
                };
                let performed = if kind is Within && args.len() > 1 && args[1] is Integer {
                    LensStepKind::Within(within_depth(args[1]->Integer_0))
                } else {
                    kind
                };
                step(performed, input)
            },
            ExecutorHint::SearchIndexText => read(ReadView::SearchText(search_text(args))),
            ExecutorHint::ChronicleBetween => if args.len() >= 2 && args[0] is Ref
                && args[1] is Ref {
                read(ReadView::ChronicleBetween(args[0]->Ref_0, args[1]->Ref_0))
            } else {
                Map::empty()
            },
        },
        LensView::Union(a, b) => union_of(
            lens_meaning(reg, *a, ctx, now, read, step),
            lens_meaning(reg, *b, ctx, now, read, step),
        ),
        LensView::Intersection(a, b) => intersection_of(
            lens_meaning(reg, *a, ctx, now, read, step),
            lens_meaning(reg, *b, ctx, now, read, step),
        ),
        LensView::Difference(a, b) => difference_of(
            lens_meaning(reg, *a, ctx, now, read, step),
            lens_meaning(reg, *b, ctx, now, read, step),
        ),
        LensView::Ref(t) => const_selection(ConstView::Ref(t), now),
        LensView::Symbol(id) => match ctx {
            WalkContext::Names(kind) => const_selection(ConstView::Name(id, kind), now),
            WalkContext::Open => Map::empty(),
        },
        _ => Map::empty(),
    }
}

proof fn lemma_run_len(
    ops: Seq<OpView>,
    now: i64,
    read: spec_fn(ReadView) -> Hits,
    step: spec_fn(LensStepKind, Hits) -> Hits,
)
    ensures
        run_slots(ops, now, read, step).len() == ops.len(),
    decreases ops.len(),
{
    if ops.len() > 0 {
        lemma_run_len(ops.drop_last(), now, read, step);
    }
}

/// A run of a prefix of the operations is the prefix of the run.
proof fn lemma_run_prefix(
    ops: Seq<OpView>,
    n: int,
    now: i64,
    read: spec_fn(ReadView) -> Hits,
    step: spec_fn(LensStepKind, Hits) -> Hits,
)
    requires
        0 <= n <= ops.len(),
    ensures
        run_slots(ops.take(n), now, read, step) == run_slots(ops, now, read, step).take(n),
    decreases ops.len(),
{
    lemma_run_len(ops, now, read, step);
    if n == ops.len() {
        assert(ops.take(n) =~= ops);
        assert(run_slots(ops, now, read, step).take(n) =~= run_slots(ops, now, read, step));
    } else {
        lemma_run_prefix(ops.drop_last(), n, now, read, step);
        assert(ops.drop_last().take(n) =~= ops.take(n));
        lemma_run_len(ops.drop_last(), now, read, step);
        assert(run_slots(ops.drop_last(), now, read, step).take(n) =~= run_slots(
            ops,
            now,
            read,
            step,
        ).take(n));
    }
}

/// The run of the operations after one more is the run before, with the
/// value of the new operation over the slots before it.
proof fn lemma_run_push(
    ops: Seq<OpView>,
    op: OpView,
    now: i64,
    read: spec_fn(ReadView) -> Hits,
    step: spec_fn(LensStepKind, Hits) -> Hits,
)
    ensures
        run_slots(ops.push(op), now, read, step) == run_slots(ops, now, read, step).push(
            op_value(op, run_slots(ops, now, read, step), now, read, step),
        ),
{
    assert(ops.push(op).drop_last() =~= ops);
}

/// A slot written before `n` keeps its value as the run goes on.
proof fn lemma_run_keeps(
    o: Seq<OpView>,
    n: int,
    s: int,
    now: i64,
    read: spec_fn(ReadView) -> Hits,
    step: spec_fn(LensStepKind, Hits) -> Hits,
)
    requires
        0 <= s < n <= o.len(),
    ensures
        run_slots(o, now, read, step)[s] == run_slots(o.take(n), now, read, step)[s],
{
    lemma_run_prefix(o, n, now, read, step);
    lemma_run_len(o, now, read, step);
}

/// Compiling `l` onto any operations leaves, in the slot it reports, the
/// meaning of `l` once the operations are run.
proof fn lemma_walk_computes_meaning(
    reg: Map<Seq<char>, PredicateSpecView>,
    l: LensView,
    ctx: WalkContext,
    ops: Seq<OpView>,
    now: i64,
    read: spec_fn(ReadView) -> Hits,
    step: spec_fn(LensStepKind, Hits) -> Hits,
)
    requires
        compile_walk(reg, l, ctx, ops) is Ok,
    ensures
        ({
            let (o, slot) = compile_walk(reg, l, ctx, ops)->Ok_0;
            run_slots(o, now, read, step)[slot as int] == lens_meaning(
                reg,
                l,
                ctx,
                now,
                read,
                step,
            )
        }),
    decreases l, 1int,
{
    lemma_compile_walk_appends(reg, l, ctx, ops);
    match l {
        LensView::Predicate(name, args) => {
            match reg[name].executor {
                ExecutorHint::GraphStep(kind) => {
                    let types = reg[name].arg_types;
                    let sub = if types.len() > 0 && types[0] is LensOfNames {
                        WalkContext::Names(types[0]->LensOfNames_0)
                    } else {
                        WalkContext::Open
                    };
                    lemma_walk_computes_meaning(reg, args[0], sub, ops, now, read, step);
                    lemma_compile_walk_appends(reg, args[0], sub, ops);
                    let (o, input) = compile_walk(reg, args[0], sub, ops)->Ok_0;
                    let (r, _) = compile_walk(reg, l, ctx, ops)->Ok_0;
                    lemma_run_push(o, r.last(), now, read, step);
                    assert(r =~= o.push(r.last()));
                    lemma_run_len(o, now, read, step);
                    assert(run_slots(o, now, read, step)[input as int] == lens_meaning(
                        reg,
                        args[0],
                        sub,
                        now,
                        read,
                        step,
                    ));
                },
                _ => {
                    let (r, _) = compile_walk(reg, l, ctx, ops)->Ok_0;
                    lemma_run_push(ops, r.last(), now, read, step);
                    assert(r =~= ops.push(r.last()));
                    lemma_run_len(ops, now, read, step);
                },
            }
        },
        LensView::Union(a, b) => {
            lemma_two_sides(reg, l, *a, *b, ctx, ops, now, read, step);
        },
        LensView::Intersection(a, b) => {
            lemma_two_sides(reg, l, *a, *b, ctx, ops, now, read, step);
        },
        LensView::Difference(a, b) => {
            lemma_two_sides(reg, l, *a, *b, ctx, ops, now, read, step);
        },
        _ => {
            let (r, _) = compile_walk(reg, l, ctx, ops)->Ok_0;
            lemma_run_push(ops, r.last(), now, read, step);
            assert(r =~= ops.push(r.last()));
            lemma_run_len(ops, now, read, step);
        },
    }
}

/// A set operation: the left side compiles first, then the right side, and
/// the new operation reads the two slots they report.
proof fn lemma_two_sides(
    reg: Map<Seq<char>, PredicateSpecView>,
    l: LensView,
    a: LensView,
    b: LensView,
    ctx: WalkContext,
    ops: Seq<OpView>,
    now: i64,
    read: spec_fn(ReadView) -> Hits,
    step: spec_fn(LensStepKind, Hits) -> Hits,
)
    requires
        l == LensView::Union(Box::new(a), Box::new(b)) || l == LensView::Intersection(
            Box::new(a),
            Box::new(b),
        ) || l == LensView::Difference(Box::new(a), Box::new(b)),
        compile_walk(reg, l, ctx, ops) is Ok,
    ensures
        ({
            let (o, slot) = compile_walk(reg, l, ctx, ops)->Ok_0;
            run_slots(o, now, read, step)[slot as int] == lens_meaning(
                reg,
                l,
                ctx,
                now,
                read,
                step,
            )
        }),
    decreases l, 0int,
{
    assert(decreases_to!(l => a));
    assert(decreases_to!(l => b));
    lemma_walk_computes_meaning(reg, a, ctx, ops, now, read, step);
    lemma_compile_walk_appends(reg, a, ctx, ops);
    let (o1, s1) = compile_walk(reg, a, ctx, ops)->Ok_0;
    lemma_walk_computes_meaning(reg, b, ctx, o1, now, read, step);
    lemma_compile_walk_appends(reg, b, ctx, o1);
    let (o2, s2) = compile_walk(reg, b, ctx, o1)->Ok_0;
    lemma_run_keeps(o2, o1.len() as int, s1 as int, now, read, step);
    let (r, _) = compile_walk(reg, l, ctx, ops)->Ok_0;
    lemma_run_push(o2, r.last(), now, read, step);
    assert(r =~= o2.push(r.last()));
    lemma_run_len(o2, now, read, step);
}

/// Compilation keeps a lens's meaning: whatever the readers answer, running
/// the compiled operations leaves in the result slot the selection the lens
/// denotes. In particular a difference keeps the hits of its left side that
/// its right side lacks, never the other way round.
pub proof fn compiled_lenses_compute_their_meaning(
    reg: Map<Seq<char>, PredicateSpecView>,
    l: LensView,
    now: i64,
    read: spec_fn(ReadView) -> Hits,
    step: spec_fn(LensStepKind, Hits) -> Hits,
)
    requires
        compilation(reg, l) is Ok,
    ensures
        compilation(reg, l)->Ok_0.len() > 0,
        run_slots(compilation(reg, l)->Ok_0, now, read, step).last() == lens_meaning(
            reg,
            l,
            WalkContext::Open,
            now,
            read,
            step,
        ),
{
    lemma_walk_computes_meaning(reg, l, WalkContext::Open, Seq::empty(), now, read, step);
    lemma_compile_walk_appends(reg, l, WalkContext::Open, Seq::empty());
    lemma_run_len(compilation(reg, l)->Ok_0, now, read, step);
}

} // verus!
