//! A human-readable listing of a compiled lens, one line per slot.
use vstd::prelude::*;

use crate::lens::debug::{debug_quote, debug_quoted};
use crate::lens::ir::{
    op_views, ConstView, LensConstValue, LensIntermediateRepresentation, LensOp, LensRead,
    LensStepKind, OpView, ReadView,
};
use crate::text::{decimal, push_decimal, push_str};

verus! {

/// The `$n` rendering of a slot.
pub open spec fn slot_text(n: nat) -> Seq<char> {
    "$"@ + decimal(n)
}

/// The rendering of a step kind: its name, with the depth of a `Within`.
pub open spec fn step_text(kind: LensStepKind) -> Seq<char> {
    match kind {
        LensStepKind::Within(d) => kind.label() + "("@ + decimal(d as nat) + ")"@,
        _ => kind.label(),
    }
}

/// The line explaining operation `op` of slot `i`.
pub open spec fn explain_line(i: nat, op: OpView) -> Seq<char> {
    slot_text(i) + ": "@ + explain_body(op) + "\n"@
}

/// A set operation over two slots.
pub open spec fn pair_text(name: Seq<char>, a: nat, b: nat) -> Seq<char> {
    name + "("@ + slot_text(a) + ", "@ + slot_text(b) + ")"@
}

/// What a line says of an operation.
pub open spec fn explain_body(op: OpView) -> Seq<char> {
    match op {
        OpView::Const(ConstView::Name(name, kind)) => "const name("@ + kind.label() + ": "@
            + debug_quote(name) + ")"@,
        OpView::Const(ConstView::Ref(r)) => "const ref("@ + r + ")"@,
        OpView::Read(ReadView::SearchText(text)) => "read search_text("@ + debug_quote(text)
            + ")"@,
        OpView::Read(ReadView::ChronicleBetween(from, to)) => "read between("@ + from + ", "@ + to
            + ")"@,
        OpView::Step(kind, input) => "step "@ + step_text(kind) + "("@ + slot_text(input) + ")"@,
        OpView::Union(a, b) => pair_text("union"@, a, b),
        OpView::Intersect(a, b) => pair_text("intersect"@, a, b),
        OpView::Difference(a, b) => pair_text("difference"@, a, b),
    }
}

/// The explanation of a list of operations: one line per slot, in order.
pub open spec fn explanation_text(ops: Seq<OpView>) -> Seq<char>
    decreases ops.len(),
{
    if ops.len() == 0 {
        Seq::empty()
    } else {
        explanation_text(ops.drop_last()) + explain_line((ops.len() - 1) as nat, ops.last())
    }
}

fn push_slot(s: &mut String, n: usize)
    ensures
        final(s)@ == old(s)@ + slot_text(n as nat),
{
    push_str(s, "$");
    push_decimal(s, n as u64);
    proof {
        assert(final(s)@ =~= old(s)@ + slot_text(n as nat));
    }
}

fn push_pair(s: &mut String, name: &str, a: usize, b: usize)
    ensures
        final(s)@ == old(s)@ + name@ + "("@ + slot_text(a as nat) + ", "@ + slot_text(b as nat)
            + ")"@,
{
    push_str(s, name);
    push_str(s, "(");
    push_slot(s, a);
    push_str(s, ", ");
    push_slot(s, b);
    push_str(s, ")");
    proof {
        assert(final(s)@ =~= old(s)@ + name@ + "("@ + slot_text(a as nat) + ", "@ + slot_text(
            b as nat,
        ) + ")"@);
    }
}

fn push_line(s: &mut String, i: usize, op: &LensOp)
    ensures
        final(s)@ == old(s)@ + explain_line(i as nat, op@),
{
    let ghost start = old(s)@;
    push_slot(s, i);
    push_str(s, ": ");
    let ghost head = s@;
    match op {
        LensOp::Const(LensConstValue::Name { name, kind }) => {
            push_str(s, "const name(");
            push_str(s, kind.describe());
            push_str(s, ": ");
            let q = debug_quoted(name.as_str());
            push_str(s, q.as_str());
            push_str(s, ")");
            proof {
                assert(s@ =~= head + explain_body(op@));
            }
        },
        LensOp::Const(LensConstValue::Ref(reference)) => {
            push_str(s, "const ref(");
            push_str(s, reference.0.0.as_str());
            push_str(s, ")");
            proof {
                assert(s@ =~= head + explain_body(op@));
            }
        },
        LensOp::Read(LensRead::SearchText(text)) => {
            push_str(s, "read search_text(");
            let q = debug_quoted(text.as_str());
            push_str(s, q.as_str());
            push_str(s, ")");
            proof {
                assert(s@ =~= head + explain_body(op@));
            }
        },
        LensOp::Read(LensRead::ChronicleBetween { from, to }) => {
            push_str(s, "read between(");
            push_str(s, from.0.0.as_str());
            push_str(s, ", ");
            push_str(s, to.0.0.as_str());
            push_str(s, ")");
            proof {
                assert(s@ =~= head + explain_body(op@));
            }
        },
        LensOp::Step { kind, input } => {
            push_str(s, "step ");
            push_str(s, kind.name_str());
            let ghost before_depth = s@;
            match kind {
                LensStepKind::Within(d) => {
                    push_str(s, "(");
                    push_decimal(s, *d as u64);
                    push_str(s, ")");
                    proof {
                        assert(s@ =~= before_depth + "("@ + decimal(*d as nat) + ")"@);
                    }
                },
                _ => {},
            }
            proof {
                assert(s@ =~= head + "step "@ + step_text(*kind));
            }
            push_str(s, "(");
            push_slot(s, input.0);
            push_str(s, ")");
            proof {
                assert(s@ =~= head + explain_body(op@));
            }
        },
        LensOp::Union(a, b) => push_pair(s, "union", a.0, b.0),
        LensOp::Intersect(a, b) => push_pair(s, "intersect", a.0, b.0),
        LensOp::Difference(a, b) => push_pair(s, "difference", a.0, b.0),
    }
    proof {
        assert(s@ =~= head + explain_body(op@));
    }
    push_str(s, "\n");
    proof {
        assert(final(s)@ =~= old(s)@ + explain_line(i as nat, op@));
    }
}

/// The explanation of a compiled lens.
pub struct Explanation {
    ir: LensIntermediateRepresentation,
}

impl Explanation {
    pub closed spec fn op_list(&self) -> Seq<OpView> {
        self.ir.op_list()
    }

    pub fn new(ir: LensIntermediateRepresentation) -> (r: Self)
        ensures
            r.op_list() == ir.op_list(),
    {
        Explanation { ir }
    }

    /// The explanation text: one line per slot, in order.
    pub fn render(&self) -> (r: String)
        ensures
            r@ == explanation_text(self.op_list()),
    {
        let mut s = String::new();
        let ghost ops = self.ir.op_list();
        let mut i: usize = 0;
        while i < self.ir.ops.len()
            invariant
                i <= self.ir.ops@.len(),
                ops == op_views(self.ir.ops@),
                s@ == explanation_text(ops.take(i as int)),
            decreases self.ir.ops@.len() - i,
        {
            proof {
                let t = ops.take(i + 1);
                assert(t.drop_last() =~= ops.take(i as int));
                assert(t.last() == self.ir.ops@[i as int]@);
            }
            push_line(&mut s, i, &self.ir.ops[i]);
            i += 1;
        }
        proof {
            assert(ops.take(ops.len() as int) =~= ops);
        }
        s
    }
}


/// A line names the slots an operation reads in the operation's own order:
/// for a set operation its left input, then its right input; for a step
/// its one input.
pub proof fn explanation_lists_inputs_in_order(i: nat, op: OpView)
    ensures
        match op {
            OpView::Union(a, b) => explain_line(i, op) == slot_text(i) + ": union("@ + slot_text(a)
                + ", "@ + slot_text(b) + ")\n"@,
            OpView::Intersect(a, b) => explain_line(i, op) == slot_text(i) + ": intersect("@
                + slot_text(a) + ", "@ + slot_text(b) + ")\n"@,
            OpView::Difference(a, b) => explain_line(i, op) == slot_text(i) + ": difference("@
                + slot_text(a) + ", "@ + slot_text(b) + ")\n"@,
            OpView::Step(kind, a) => explain_line(i, op) == slot_text(i) + ": step "@ + step_text(
                kind,
            ) + "("@ + slot_text(a) + ")\n"@,
            _ => true,
        },
{
    reveal_strlit(": ");
    reveal_strlit("(");
    reveal_strlit(")");
    reveal_strlit("\n");
    reveal_strlit(")\n");
    match op {
        OpView::Union(a, b) => {
            assert(explain_line(i, op) =~= slot_text(i) + ": union("@ + slot_text(a) + ", "@
                + slot_text(b) + ")\n"@) by {
                reveal_strlit("union");
                reveal_strlit(": union(");
            }
        },
        OpView::Intersect(a, b) => {
            assert(explain_line(i, op) =~= slot_text(i) + ": intersect("@ + slot_text(a) + ", "@
                + slot_text(b) + ")\n"@) by {
                reveal_strlit("intersect");
                reveal_strlit(": intersect(");
            }
        },
        OpView::Difference(a, b) => {
            assert(explain_line(i, op) =~= slot_text(i) + ": difference("@ + slot_text(a) + ", "@
                + slot_text(b) + ")\n"@) by {
                reveal_strlit("difference");
                reveal_strlit(": difference(");
            }
        },
        OpView::Step(kind, a) => {
            assert(explain_line(i, op) =~= slot_text(i) + ": step "@ + step_text(kind) + "("@
                + slot_text(a) + ")\n"@) by {
                reveal_strlit("step ");
                reveal_strlit(": step ");
            }
        },
        _ => {},
    }
}

/// A line of a constant or a read shows its value: a name with its kind,
/// a reference, the search text, or the two ends of a chronicle read from
/// first to last.
pub proof fn explanation_shows_values(i: nat, op: OpView)
    ensures
        match op {
            OpView::Const(ConstView::Name(name, kind)) => explain_line(i, op) == slot_text(i)
                + ": const name("@ + kind.label() + ": "@ + debug_quote(name) + ")\n"@,
            OpView::Const(ConstView::Ref(r)) => explain_line(i, op) == slot_text(i)
                + ": const ref("@ + r + ")\n"@,
            OpView::Read(ReadView::SearchText(text)) => explain_line(i, op) == slot_text(i)
                + ": read search_text("@ + debug_quote(text) + ")\n"@,
            OpView::Read(ReadView::ChronicleBetween(from, to)) => explain_line(i, op) == slot_text(
                i,
            ) + ": read between("@ + from + ", "@ + to + ")\n"@,
            _ => true,
        },
{
    reveal_strlit(": ");
    reveal_strlit(")");
    reveal_strlit("\n");
    reveal_strlit(")\n");
    match op {
        OpView::Const(ConstView::Name(name, kind)) => {
            assert(explain_line(i, op) =~= slot_text(i) + ": const name("@ + kind.label() + ": "@
                + debug_quote(name) + ")\n"@) by {
                reveal_strlit("const name(");
                reveal_strlit(": const name(");
            }
        },
        OpView::Const(ConstView::Ref(r)) => {
            assert(explain_line(i, op) =~= slot_text(i) + ": const ref("@ + r + ")\n"@) by {
                reveal_strlit("const ref(");
                reveal_strlit(": const ref(");
            }
        },
        OpView::Read(ReadView::SearchText(text)) => {
            assert(explain_line(i, op) =~= slot_text(i) + ": read search_text("@ + debug_quote(text)
                + ")\n"@) by {
                reveal_strlit("read search_text(");
                reveal_strlit(": read search_text(");
            }
        },
        OpView::Read(ReadView::ChronicleBetween(from, to)) => {
            assert(explain_line(i, op) =~= slot_text(i) + ": read between("@ + from + ", "@ + to
                + ")\n"@) by {
                reveal_strlit("read between(");
                reveal_strlit(": read between(");
            }
        },
        _ => {},
    }
}

} // verus!
