//! Running a compiled lens: the slot-by-slot decisions of the executor.
//!
//! Operations that need a reader (a substrate query or a step over a prior
//! slot) are handed out as requests; whoever drives the run performs them
//! and records the resulting selection.
use vstd::prelude::*;

use crate::lens::compile::{compilation, compiled_lenses_are_well_formed};
use crate::lens::ir::{
    op_reads_below, op_views, ops_well_formed, ConstView, LensConstValue, LensIntermediateRepresentation,
    LensOp, LensRead, LensSlotId, LensStepKind, OpView,
};
use crate::lens::ast::LensView;
use crate::lens::registry::PredicateSpecView;
use crate::lens::selection::{
    difference_of, intersection_of, union_of, EntityHit, Hit, HitView, IdentityView, NameHit,
    Relevance, Selection, Timestamp,
};

verus! {

/// A reader's failure.
#[derive(Debug)]
pub enum ReaderError {
    Internal(String),
}

/// Why a run failed.
#[derive(Debug)]
pub enum ExecuteError {
    UndefinedSlot(LensSlotId),
    Reader(ReaderError),
}

impl ExecuteError {
    /// The human-readable description of this error.
    pub fn message(&self) -> (r: String)
        ensures
            r@ == (match self {
                ExecuteError::UndefinedSlot(slot) => "slot $"@ + crate::text::decimal(
                    slot.0 as nat,
                ) + " referenced before definition"@,
                ExecuteError::Reader(ReaderError::Internal(m)) => "reader failed: "@ + m@,
            }),
    {
        let mut s = String::new();
        match self {
            ExecuteError::UndefinedSlot(slot) => {
                crate::text::push_str(&mut s, "slot $");
                crate::text::push_decimal(&mut s, slot.0 as u64);
                crate::text::push_str(&mut s, " referenced before definition");
            },
            ExecuteError::Reader(ReaderError::Internal(m)) => {
                crate::text::push_str(&mut s, "reader failed: ");
                crate::text::push_str(&mut s, m.as_str());
            },
        }
        s
    }
}

/// What evaluating the next operation yields.
#[derive(Debug)]
pub enum OpOutcome {
    /// The selection of the slot, computed without a reader.
    Ready(Selection),
    /// The slot is the result of the read at this operation index.
    NeedsRead(usize),
    /// The slot is the result of this step over the given selection.
    NeedsStep { kind: LensStepKind, input: Selection },
}

/// The selection of a compile-time constant at time `now`: a single hit of
/// unknown relevance.
pub open spec fn const_selection(c: ConstView, now: i64) -> Map<IdentityView, HitView> {
    let identity = match c {
        ConstView::Name(name, kind) => IdentityView::Name(name, kind),
        ConstView::Ref(r) => IdentityView::Entity(r),
    };
    Map::empty().insert(
        identity,
        HitView { identity, timestamp: now, relevance: Relevance::Unknown },
    )
}

/// The first slot an operation reads that is not yet defined, when there is
/// one, checking the left input before the right.
pub open spec fn first_undefined(op: OpView, defined: nat) -> Option<nat> {
    match op {
        OpView::Step(_, input) => if input >= defined {
            Some(input)
        } else {
            None
        },
        OpView::Union(a, b) => if a >= defined {
            Some(a)
        } else if b >= defined {
            Some(b)
        } else {
            None
        },
        OpView::Intersect(a, b) => if a >= defined {
            Some(a)
        } else if b >= defined {
            Some(b)
        } else {
            None
        },
        OpView::Difference(a, b) => if a >= defined {
            Some(a)
        } else if b >= defined {
            Some(b)
        } else {
            None
        },
        _ => None,
    }
}

/// An operation reads an undefined slot exactly when it reads one at or
/// beyond the defined count.
pub proof fn undefined_iff_reads_beyond(op: OpView, defined: nat)
    ensures
        (first_undefined(op, defined) is None) == op_reads_below(op, defined),
{
}

/// What a reader's answer to a read or a step means for the run: no
/// answer (`None`) passes the request to the next reader; an answer
/// settles it, a failure becoming the run's failure.
pub fn claimed(answer: Option<Result<Selection, ReaderError>>) -> (r: Option<
    Result<Selection, ExecuteError>,
>)
    ensures
        match answer {
            None => r is None,
            Some(Ok(s)) => r matches Some(Ok(t)) && t@ == s@,
            Some(Err(ReaderError::Internal(m))) => r matches Some(Err(ExecuteError::Reader(ReaderError::Internal(n)))) && n@ == m@,
        },
{
    match answer {
        None => None,
        Some(Ok(selection)) => Some(Ok(selection)),
        Some(Err(error)) => Some(Err(ExecuteError::Reader(error))),
    }
}

/// The selection of a read or a step that no reader answered: empty.
pub fn unclaimed() -> (r: Selection)
    ensures
        r@ == Map::<IdentityView, HitView>::empty(),
{
    Selection::new()
}

/// The state of a run: the selections of the slots computed so far.
pub struct LensExecution {
    slots: Vec<Selection>,
}

impl LensExecution {
    /// The maps of the slots computed so far.
    pub closed spec fn slot_maps(&self) -> Seq<Map<IdentityView, HitView>> {
        self.slots@.map_values(|s: Selection| s@)
    }

    pub fn new() -> (r: Self)
        ensures
            r.slot_maps() == Seq::<Map<IdentityView, HitView>>::empty(),
    {
        let r = LensExecution { slots: Vec::new() };
        proof {
            assert(r.slot_maps() =~= Seq::<Map<IdentityView, HitView>>::empty());
        }
        r
    }

    /// How many slots have been computed.
    pub fn defined(&self) -> (r: usize)
        ensures
            r == self.slot_maps().len(),
    {
        self.slots.len()
    }

    /// Records the selection of the next slot.
    pub fn record(&mut self, selection: Selection)
        ensures
            final(self).slot_maps() == old(self).slot_maps().push(selection@),
    {
        self.slots.push(selection);
        proof {
            assert(self.slot_maps() =~= old(self).slot_maps().push(selection@));
        }
    }

    fn resolve(&self, slot: LensSlotId) -> (r: Result<&Selection, ExecuteError>)
        ensures
            match r {
                Ok(s) => slot.0 < self.slot_maps().len() && s@ == self.slot_maps()[slot.0 as int],
                Err(e) => slot.0 >= self.slot_maps().len() && e == ExecuteError::UndefinedSlot(slot),
            },
    {
        if slot.0 < self.slots.len() {
            Ok(&self.slots[slot.0])
        } else {
            Err(ExecuteError::UndefinedSlot(slot))
        }
    }

    /// Evaluates the operation of the next slot: a constant or a set
    /// operation directly, a read or a step as a request to a reader.
    pub fn next_op(&self, ir: &LensIntermediateRepresentation, now: Timestamp) -> (r: Result<
        OpOutcome,
        ExecuteError,
    >)
        requires
            self.slot_maps().len() < ir.op_list().len(),
        ensures
            ({
                let i = self.slot_maps().len() as int;
                let op = ir.op_list()[i];
                let slots = self.slot_maps();
                match first_undefined(op, i as nat) {
                    Some(slot) => r is Err && r->Err_0 == ExecuteError::UndefinedSlot(
                        LensSlotId(slot as usize),
                    ),
                    None => r is Ok && match op {
                        OpView::Const(c) => r->Ok_0 is Ready && r->Ok_0->Ready_0@
                            == const_selection(c, now.0),
                        OpView::Read(_) => r->Ok_0 == OpOutcome::NeedsRead(i as usize),
                        OpView::Step(kind, input) => r->Ok_0 is NeedsStep && r->Ok_0->kind == kind
                            && r->Ok_0->input@ == slots[input as int],
                        OpView::Union(a, b) => r->Ok_0 is Ready && r->Ok_0->Ready_0@ == union_of(
                            slots[a as int],
                            slots[b as int],
                        ),
                        OpView::Intersect(a, b) => r->Ok_0 is Ready && r->Ok_0->Ready_0@
                            == intersection_of(slots[a as int], slots[b as int]),
                        OpView::Difference(a, b) => r->Ok_0 is Ready && r->Ok_0->Ready_0@
                            == difference_of(slots[a as int], slots[b as int]),
                    },
                }
            }),
    {
        let i = self.slots.len();
        let op = &ir.ops[i];
        proof {
            assert(ir.op_list()[i as int] == op@);
        }
        match op {
            LensOp::Const(value) => Ok(OpOutcome::Ready(Self::eval_const(value, now))),
            LensOp::Read(_) => Ok(OpOutcome::NeedsRead(i)),
            LensOp::Step { kind, input } => {
                let input_selection = self.resolve(*input)?.duplicate();
                Ok(OpOutcome::NeedsStep { kind: *kind, input: input_selection })
            },
            LensOp::Union(left, right) => {
                let left = self.resolve(*left)?;
                let right = self.resolve(*right)?;
                Ok(OpOutcome::Ready(left.union(right)))
            },
            LensOp::Intersect(left, right) => {
                let left = self.resolve(*left)?;
                let right = self.resolve(*right)?;
                Ok(OpOutcome::Ready(left.intersect(right)))
            },
            LensOp::Difference(left, right) => {
                let left = self.resolve(*left)?;
                let right = self.resolve(*right)?;
                Ok(OpOutcome::Ready(left.difference(right)))
            },
        }
    }

    fn eval_const(value: &LensConstValue, now: Timestamp) -> (r: Selection)
        ensures
            r@ == const_selection(value@, now.0),
    {
        let mut selection = Selection::new();
        match value {
            LensConstValue::Name { name, kind } => {
                selection.insert(
                    Hit::Name(
                        NameHit {
                            name: name.clone(),
                            kind: *kind,
                            timestamp: now,
                            relevance: Relevance::Unknown,
                        },
                    ),
                );
            },
            LensConstValue::Ref(reference) => {
                selection.insert(
                    Hit::Entity(
                        EntityHit {
                            entity_ref: reference.inner().duplicate(),
                            timestamp: now,
                            relevance: Relevance::Unknown,
                        },
                    ),
                );
            },
        }
        proof {
            assert(selection@ =~= const_selection(value@, now.0));
        }
        selection
    }

    /// The selection of the result slot of `ir`.
    pub fn finish(&self, ir: &LensIntermediateRepresentation) -> (r: Result<Selection, ExecuteError>)
        ensures
            ({
                let slot = if ir.ops@.len() == 0 {
                    0
                } else {
                    ir.ops@.len() - 1
                };
                if slot < self.slot_maps().len() {
                    r is Ok && r->Ok_0@ == self.slot_maps()[slot as int]
                } else {
                    r is Err && r->Err_0 == ExecuteError::UndefinedSlot(LensSlotId(slot as usize))
                }
            }),
    {
        let result_slot = ir.result_slot();
        let selection = self.resolve(result_slot)?;
        Ok(selection.duplicate())
    }
}

/// A lens that compiles runs without meeting an undefined slot: each
/// operation, evaluated once the slots before it are defined, reads only
/// defined slots, and once every operation is evaluated the result slot is
/// defined.
pub proof fn compiled_lenses_never_read_undefined_slots(
    reg: Map<Seq<char>, PredicateSpecView>,
    l: LensView,
)
    requires
        compilation(reg, l) is Ok,
    ensures
        forall|i: int|
            0 <= i < compilation(reg, l)->Ok_0.len() ==> #[trigger] first_undefined(
                compilation(reg, l)->Ok_0[i],
                i as nat,
            ) is None,
        compilation(reg, l)->Ok_0.len() - 1 < compilation(reg, l)->Ok_0.len(),
        compilation(reg, l)->Ok_0.len() > 0,
{
    compiled_lenses_are_well_formed(reg, l);
    let ops = compilation(reg, l)->Ok_0;
    assert forall|i: int| 0 <= i < ops.len() implies #[trigger] first_undefined(ops[i], i as nat) is None by {
        assert(op_reads_below(ops[i], i as nat));
        undefined_iff_reads_beyond(ops[i], i as nat);
    }
}

} // verus!
