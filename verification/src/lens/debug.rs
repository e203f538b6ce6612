//! The debug rendering of a lens expression: the same text that the derived
//! `Debug` formatting of the expression tree produces.
use vstd::prelude::*;

use crate::lens::ast::{lemma_models_index, lemma_models_len, lemma_models_take_next, models, Lens, LensView};
use crate::text::{push_signed_decimal, push_str, signed_decimal};

verus! {

/// The `Debug` rendering of a string: quoted, with special characters
/// escaped.
pub uninterp spec fn debug_quote(s: Seq<char>) -> Seq<char>;

/// `<str as Debug>::fmt`, through `format!`: the quoted, escaped form of `s`.
#[verifier::external_body]
pub(crate) fn debug_quoted(s: &str) -> (r: String)
    ensures
        r@ == debug_quote(s@),
{
    format!("{:?}", s)
}

/// The debug rendering of a lens.
pub open spec fn debug_text(l: LensView) -> Seq<char>
    decreases l,
{
    match l {
        LensView::Symbol(s) => "Symbol(Identifier("@ + debug_quote(s) + "))"@,
        LensView::Str(s) => "String(StringLiteral("@ + debug_quote(s) + "))"@,
        LensView::Ref(s) => "Ref(RefToken(Ref("@ + debug_quote(s) + ")))"@,
        LensView::Integer(n) => "Integer(IntegerLiteral("@ + signed_decimal(n as int) + "))"@,
        LensView::Predicate(name, args) => "Predicate(Predicate { name: PredicateName("@
            + debug_quote(name) + "), args: ["@ + debug_list(args) + "] })"@,
        LensView::Union(a, b) => "Union("@ + debug_text(*a) + ", "@ + debug_text(*b) + ")"@,
        LensView::Intersection(a, b) => "Intersection("@ + debug_text(*a) + ", "@ + debug_text(
            *b,
        ) + ")"@,
        LensView::Difference(a, b) => "Difference("@ + debug_text(*a) + ", "@ + debug_text(*b)
            + ")"@,
    }
}

/// The debug renderings of a list of lenses, separated by `, `.
pub open spec fn debug_list(s: Seq<LensView>) -> Seq<char>
    decreases s,
{
    if s.len() == 0 {
        Seq::empty()
    } else if s.len() == 1 {
        debug_text(s[0])
    } else {
        debug_list(s.drop_last()) + ", "@ + debug_text(s.last())
    }
}

proof fn lemma_debug_list_next(v: Seq<LensView>, i: int)
    requires
        0 <= i < v.len(),
    ensures
        debug_list(v.take(i + 1)) == debug_list(v.take(i)) + (if i == 0 {
            Seq::<char>::empty()
        } else {
            ", "@
        }) + debug_text(v[i]),
{
    let t = v.take(i + 1);
    assert(t.drop_last() =~= v.take(i));
    assert(t.last() == v[i]);
    if i == 0 {
        assert(t.len() == 1);
        assert(debug_list(v.take(0)) =~= Seq::<char>::empty());
        assert(debug_list(t) == debug_text(t[0]));
        assert(Seq::<char>::empty() + Seq::<char>::empty() + debug_text(v[0]) =~= debug_text(
            v[0],
        ));
    }
}


/// Appends the debug renderings of `args`, separated by `, `.
fn push_debug_list(s: &mut String, args: &Vec<Lens>)
    ensures
        final(s)@ == old(s)@ + debug_list(models(args@)),
    decreases args,
{
            let ghost start = s@;
    let ghost views = models(args@);
    proof {
        lemma_models_len(args@);
    }
    let mut i: usize = 0;
    while i < args.len()
        invariant
            i <= args@.len(),
            views == models(args@),
            views.len() == args@.len(),
            s@ == start + debug_list(views.take(i as int)),
        decreases args@.len() - i,
    {
        proof {
            lemma_models_index(args@, i as int);
            lemma_debug_list_next(views, i as int);
        }
        if i > 0 {
            push_str(s, ", ");
        }
        push_debug(s, &args[i]);
        proof {
            if i == 0 {
                assert(start + debug_list(views.take(1)) =~= start + debug_list(views.take(0)) + debug_text(views[0]));
            } else {
                assert(start + debug_list(views.take(i + 1)) =~= start + debug_list(views.take(i as int)) + ", "@ + debug_text(views[i as int]));
            }
        }
        i += 1;
    }
    proof {
        assert(views.take(views.len() as int) =~= views);
    }
}

/// Appends the debug rendering of `l`.
pub fn push_debug(s: &mut String, l: &Lens)
    ensures
        final(s)@ == old(s)@ + debug_text(l@),
    decreases l,
{
    match l {
        Lens::Symbol(i) => {
            push_str(s, "Symbol(Identifier(");
            let q = debug_quoted(i.as_str());
            push_str(s, q.as_str());
            push_str(s, "))");
        },
        Lens::String(t) => {
            push_str(s, "String(StringLiteral(");
            let q = debug_quoted(t.as_str());
            push_str(s, q.as_str());
            push_str(s, "))");
        },
        Lens::Ref(r) => {
            push_str(s, "Ref(RefToken(Ref(");
            let q = debug_quoted(r.0.0.as_str());
            push_str(s, q.as_str());
            push_str(s, ")))");
        },
        Lens::Integer(n) => {
            push_str(s, "Integer(IntegerLiteral(");
            push_signed_decimal(s, n.0);
            push_str(s, "))");
        },
        Lens::Predicate(p) => {
            push_str(s, "Predicate(Predicate { name: PredicateName(");
            let q = debug_quoted(p.name.as_str());
            push_str(s, q.as_str());
            push_str(s, "), args: [");
            push_debug_list(s, &p.args);
            push_str(s, "] })");
        },
        Lens::Union(a, b) => {
            push_str(s, "Union(");
            push_debug(s, a);
            push_str(s, ", ");
            push_debug(s, b);
            push_str(s, ")");
        },
        Lens::Intersection(a, b) => {
            push_str(s, "Intersection(");
            push_debug(s, a);
            push_str(s, ", ");
            push_debug(s, b);
            push_str(s, ")");
        },
        Lens::Difference(a, b) => {
            push_str(s, "Difference(");
            push_debug(s, a);
            push_str(s, ", ");
            push_debug(s, b);
            push_str(s, ")");
        },
    }
    proof {
        assert(final(s)@ =~= old(s)@ + debug_text(l@));
    }
}

} // verus!
