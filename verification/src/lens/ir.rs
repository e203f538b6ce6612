//! The intermediate representation a lens compiles to: a flat list of
//! operations, each writing one slot, where later operations read earlier
//! slots.
use vstd::prelude::*;

use crate::lens::ast::{Lens, LensView, PredicateName, RefToken};
use crate::lens::registry::NameKind;

verus! {

/// The index of a slot in an operation list.
#[derive(Debug, Clone, Copy, PartialEq, Eq, Hash, Structural)]
pub struct LensSlotId(pub usize);

/// A transformation over a prior slot, performed by a reader.
#[derive(Debug, Clone, Copy, PartialEq, Eq, Hash, Structural)]
pub enum LensStepKind {
    ConnectedFrom,
    ConnectedTo,
    Descendants,
    Ancestors,
    Within(u32),
    Component,
    EventsFor,
    RefsFrom,
    SearchByAgent,
    SearchByTexture,
    SearchByLevel,
    SearchByKind,
}

/// A value fixed at compile time.
#[derive(Debug)]
pub enum LensConstValue {
    Name { name: String, kind: NameKind },
    Ref(RefToken),
}

/// A substrate query performed by a reader.
#[derive(Debug)]
pub enum LensRead {
    SearchText(String),
    ChronicleBetween { from: RefToken, to: RefToken },
}

/// One operation of the intermediate representation.
#[derive(Debug)]
pub enum LensOp {
    Const(LensConstValue),
    Read(LensRead),
    Step { kind: LensStepKind, input: LensSlotId },
    Union(LensSlotId, LensSlotId),
    Intersect(LensSlotId, LensSlotId),
    Difference(LensSlotId, LensSlotId),
}

/// The value of a compile-time constant.
pub enum ConstView {
    Name(Seq<char>, NameKind),
    Ref(Seq<char>),
}

/// The value of a substrate query.
pub enum ReadView {
    SearchText(Seq<char>),
    ChronicleBetween(Seq<char>, Seq<char>),
}

/// The value of one operation; slots are plain indices.
pub enum OpView {
    Const(ConstView),
    Read(ReadView),
    Step(LensStepKind, nat),
    Union(nat, nat),
    Intersect(nat, nat),
    Difference(nat, nat),
}

impl View for LensConstValue {
    type V = ConstView;

    open spec fn view(&self) -> ConstView {
        match self {
            LensConstValue::Name { name, kind } => ConstView::Name(name@, *kind),
            LensConstValue::Ref(r) => ConstView::Ref(r@),
        }
    }
}

impl View for LensRead {
    type V = ReadView;

    open spec fn view(&self) -> ReadView {
        match self {
            LensRead::SearchText(t) => ReadView::SearchText(t@),
            LensRead::ChronicleBetween { from, to } => ReadView::ChronicleBetween(from@, to@),
        }
    }
}

impl View for LensOp {
    type V = OpView;

    open spec fn view(&self) -> OpView {
        match self {
            LensOp::Const(c) => OpView::Const(c@),
            LensOp::Read(r) => OpView::Read(r@),
            LensOp::Step { kind, input } => OpView::Step(*kind, input.0 as nat),
            LensOp::Union(a, b) => OpView::Union(a.0 as nat, b.0 as nat),
            LensOp::Intersect(a, b) => OpView::Intersect(a.0 as nat, b.0 as nat),
            LensOp::Difference(a, b) => OpView::Difference(a.0 as nat, b.0 as nat),
        }
    }
}

/// The values of a list of operations.
pub open spec fn op_views(ops: Seq<LensOp>) -> Seq<OpView> {
    ops.map_values(|o: LensOp| o@)
}

/// The slots an operation reads.
pub open spec fn op_reads_below(op: OpView, bound: nat) -> bool {
    match op {
        OpView::Const(_) => true,
        OpView::Read(_) => true,
        OpView::Step(_, input) => input < bound,
        OpView::Union(a, b) => a < bound && b < bound,
        OpView::Intersect(a, b) => a < bound && b < bound,
        OpView::Difference(a, b) => a < bound && b < bound,
    }
}

/// Every operation reads only slots written before it.
pub open spec fn ops_well_formed(ops: Seq<OpView>) -> bool {
    forall|i: int| 0 <= i < ops.len() ==> #[trigger] op_reads_below(ops[i], i as nat)
}

/// A compiled lens: operations in slot order.
#[derive(Debug)]
pub struct LensIntermediateRepresentation {
    pub ops: Vec<LensOp>,
}

impl LensIntermediateRepresentation {
    pub open spec fn op_list(&self) -> Seq<OpView> {
        op_views(self.ops@)
    }

    pub fn new(ops: Vec<LensOp>) -> (r: Self)
        ensures
            r.ops@ == ops@,
    {
        LensIntermediateRepresentation { ops }
    }

    /// The slot holding the result: the last one, or slot zero when there is
    /// no operation.
    pub fn result_slot(&self) -> (r: LensSlotId)
        ensures
            r.0 == (if self.ops@.len() == 0 {
                0
            } else {
                self.ops@.len() - 1
            }),
    {
        LensSlotId(self.ops.len().saturating_sub(1))
    }
}

impl LensStepKind {
    /// The name of this step kind as it appears in explanations.
    pub open spec fn label(self) -> Seq<char> {
        match self {
            LensStepKind::ConnectedFrom => "ConnectedFrom"@,
            LensStepKind::ConnectedTo => "ConnectedTo"@,
            LensStepKind::Descendants => "Descendants"@,
            LensStepKind::Ancestors => "Ancestors"@,
            LensStepKind::Within(_) => "Within"@,
            LensStepKind::Component => "Component"@,
            LensStepKind::EventsFor => "EventsFor"@,
            LensStepKind::RefsFrom => "RefsFrom"@,
            LensStepKind::SearchByAgent => "SearchByAgent"@,
            LensStepKind::SearchByTexture => "SearchByTexture"@,
            LensStepKind::SearchByLevel => "SearchByLevel"@,
            LensStepKind::SearchByKind => "SearchByKind"@,
        }
    }

    pub fn name_str(self) -> (r: &'static str)
        ensures
            r@ == self.label(),
    {
        match self {
            LensStepKind::ConnectedFrom => "ConnectedFrom",
            LensStepKind::ConnectedTo => "ConnectedTo",
            LensStepKind::Descendants => "Descendants",
            LensStepKind::Ancestors => "Ancestors",
            LensStepKind::Within(_) => "Within",
            LensStepKind::Component => "Component",
            LensStepKind::EventsFor => "EventsFor",
            LensStepKind::RefsFrom => "RefsFrom",
            LensStepKind::SearchByAgent => "SearchByAgent",
            LensStepKind::SearchByTexture => "SearchByTexture",
            LensStepKind::SearchByLevel => "SearchByLevel",
            LensStepKind::SearchByKind => "SearchByKind",
        }
    }
}

} // verus!
