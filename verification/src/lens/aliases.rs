//! Aliases: named lens expressions that bare symbols expand to. Each alias
//! source is parsed once; expansion replaces every symbol naming an alias
//! by the alias body, transitively, and rejects cycles.
use vstd::prelude::*;

use crate::lens::ast::{
    duplicate_all, lemma_models_index, lemma_models_len, lemma_models_push, lemma_models_take_next,
    models, Lens, LensView, Predicate, PredicateName,
};
use crate::lens::debug::{debug_quote, debug_quoted};
use crate::lens::text_form::{parse_text, LensParseError};
use crate::text::{name_views, push_str};

verus! {

/// Why aliases could not be set up or expanded.
#[derive(Debug)]
pub enum AliasError {
    /// The source of alias `name` is not a lens expression.
    Parse { name: String, source: LensParseError },
    /// Expansion came back to an alias it was already expanding; `chain`
    /// lists the aliases from the outermost to the repeated one, joined by
    /// ` → `.
    Cycle { chain: String },
}

impl AliasError {
    /// The human-readable description of this error.
    pub fn message(&self) -> (r: String)
        ensures
            r@ == (match self {
                AliasError::Parse { name, source } => "alias "@ + debug_quote(name@) + " failed to parse: "@
                    + "unexpected input at position "@ + crate::text::decimal(
                    source.position as nat,
                ),
                AliasError::Cycle { chain } => "alias cycle detected: "@ + chain@,
            }),
    {
        let mut s = String::new();
        match self {
            AliasError::Parse { name, source } => {
                push_str(&mut s, "alias ");
                let quoted = debug_quoted(name.as_str());
                push_str(&mut s, quoted.as_str());
                push_str(&mut s, " failed to parse: ");
                let m = source.message();
                push_str(&mut s, m.as_str());
            },
            AliasError::Cycle { chain } => {
                push_str(&mut s, "alias cycle detected: ");
                push_str(&mut s, chain.as_str());
            },
        }
        s
    }
}

/// Names joined by ` → `.
pub open spec fn chain_text(names: Seq<Seq<char>>) -> Seq<char>
    decreases names.len(),
{
    if names.len() == 0 {
        Seq::empty()
    } else if names.len() == 1 {
        names[0]
    } else {
        chain_text(names.drop_last()) + " → "@ + names.last()
    }
}

/// Whether expansion is defined: finitely many aliases, and a stack of
/// distinct alias names being expanded.
pub open spec fn expansion_frame(m: Map<Seq<char>, LensView>, stack: Seq<Seq<char>>) -> bool {
    &&& m.dom().finite()
    &&& stack.no_duplicates()
    &&& forall|i: int| 0 <= i < stack.len() ==> m.dom().contains(#[trigger] stack[i])
}

/// Pushing an alias that is not on the stack keeps the frame, and the stack
/// stays shorter than the alias table.
pub proof fn lemma_stack_push(m: Map<Seq<char>, LensView>, stack: Seq<Seq<char>>, x: Seq<char>)
    requires
        expansion_frame(m, stack),
        m.dom().contains(x),
        !stack.contains(x),
    ensures
        expansion_frame(m, stack.push(x)),
        stack.len() < m.dom().len(),
{
    let t = stack.push(x);
    assert(t.no_duplicates()) by {
        assert forall|i: int, j: int| 0 <= i < t.len() && 0 <= j < t.len() && i != j implies t[i]
            != t[j] by {
            if i < stack.len() && j < stack.len() {
            } else if i < stack.len() {
                assert(stack.contains(t[i]));
            } else {
                assert(stack.contains(t[j]));
            }
        }
    }
    assert forall|i: int| 0 <= i < t.len() implies m.dom().contains(#[trigger] t[i]) by {
        if i < stack.len() {
            assert(m.dom().contains(stack[i]));
        }
    }
    t.unique_seq_to_set();
    assert(t.to_set().subset_of(m.dom())) by {
        assert forall|y: Seq<char>| t.to_set().contains(y) implies m.dom().contains(y) by {
            let i = choose|i: int| 0 <= i < t.len() && t[i] == y;
            assert(m.dom().contains(t[i]));
        }
    }
    vstd::set_lib::lemma_len_subset(t.to_set(), m.dom());
}

/// The expansion of `l` while the aliases on `stack` are being expanded:
/// the expanded lens, or the cycle found (the stack followed by the alias
/// met again).
pub open spec fn expansion(m: Map<Seq<char>, LensView>, l: LensView, stack: Seq<Seq<char>>) -> Result<
    LensView,
    Seq<Seq<char>>,
>
    decreases m.dom().len() - stack.len(), l, 0int,
    when expansion_frame(m, stack)
{
    match l {
        LensView::Symbol(x) => if m.dom().contains(x) {
            if stack.contains(x) {
                Err(stack.push(x))
            } else {
                proof {
                    lemma_stack_push(m, stack, x);
                }
                expansion(m, m[x], stack.push(x))
            }
        } else {
            Ok(l)
        },
        LensView::Predicate(name, args) => match args_expansion(m, args, stack) {
            Err(c) => Err(c),
            Ok(expanded) => Ok(LensView::Predicate(name, expanded)),
        },
        LensView::Union(a, b) => match expansion(m, *a, stack) {
            Err(c) => Err(c),
            Ok(x) => match expansion(m, *b, stack) {
                Err(c) => Err(c),
                Ok(y) => Ok(LensView::Union(Box::new(x), Box::new(y))),
            },
        },
        LensView::Intersection(a, b) => match expansion(m, *a, stack) {
            Err(c) => Err(c),
            Ok(x) => match expansion(m, *b, stack) {
                Err(c) => Err(c),
                Ok(y) => Ok(LensView::Intersection(Box::new(x), Box::new(y))),
            },
        },
        LensView::Difference(a, b) => match expansion(m, *a, stack) {
            Err(c) => Err(c),
            Ok(x) => match expansion(m, *b, stack) {
                Err(c) => Err(c),
                Ok(y) => Ok(LensView::Difference(Box::new(x), Box::new(y))),
            },
        },
        _ => Ok(l),
    }
}

/// The expansions of a list of lenses, in order; the first failure wins.
pub open spec fn args_expansion(
    m: Map<Seq<char>, LensView>,
    args: Seq<LensView>,
    stack: Seq<Seq<char>>,
) -> Result<Seq<LensView>, Seq<Seq<char>>>
    decreases m.dom().len() - stack.len(), args, 1int,
    when expansion_frame(m, stack)
{
    if args.len() == 0 {
        Ok(Seq::empty())
    } else {
        match args_expansion(m, args.drop_last(), stack) {
            Err(c) => Err(c),
            Ok(front) => match expansion(m, args.last(), stack) {
                Err(c) => Err(c),
                Ok(x) => Ok(front.push(x)),
            },
        }
    }
}

/// The aliases that a list of (name, source) pairs defines, a later pair
/// replacing an earlier one of the same name; or the first pair whose
/// source does not parse, with the position where it fails.
pub open spec fn parsed_aliases(pairs: Seq<(Seq<char>, Seq<char>)>) -> Result<
    Map<Seq<char>, LensView>,
    (Seq<char>, int),
>
    decreases pairs.len(),
{
    if pairs.len() == 0 {
        Ok(Map::empty())
    } else {
        match parsed_aliases(pairs.drop_last()) {
            Err(e) => Err(e),
            Ok(m) => match parse_text(pairs.last().1) {
                Err(p) => Err((pairs.last().0, p)),
                Ok(l) => Ok(m.insert(pairs.last().0, l)),
            },
        }
    }
}

/// Whether no symbol in `l` names an alias of `m`.
pub open spec fn free_of(l: LensView, m: Map<Seq<char>, LensView>) -> bool
    decreases l, 0int,
{
    match l {
        LensView::Symbol(x) => !m.dom().contains(x),
        LensView::Predicate(_, args) => args_free_of(args, m),
        LensView::Union(a, b) => free_of(*a, m) && free_of(*b, m),
        LensView::Intersection(a, b) => free_of(*a, m) && free_of(*b, m),
        LensView::Difference(a, b) => free_of(*a, m) && free_of(*b, m),
        _ => true,
    }
}

pub open spec fn args_free_of(args: Seq<LensView>, m: Map<Seq<char>, LensView>) -> bool
    decreases args, 1int,
{
    if args.len() == 0 {
        true
    } else {
        args_free_of(args.drop_last(), m) && free_of(args.last(), m)
    }
}

/// Expansion leaves no symbol that names an alias: every alias met is
/// replaced by its body, all the way down.
pub proof fn expansion_removes_every_alias(
    m: Map<Seq<char>, LensView>,
    l: LensView,
    stack: Seq<Seq<char>>,
)
    requires
        expansion_frame(m, stack),
        expansion(m, l, stack) is Ok,
    ensures
        free_of(expansion(m, l, stack)->Ok_0, m),
    decreases m.dom().len() - stack.len(), l, 0int,
{
    match l {
        LensView::Symbol(x) => {
            if m.dom().contains(x) {
                lemma_stack_push(m, stack, x);
                expansion_removes_every_alias(m, m[x], stack.push(x));
            }
        },
        LensView::Predicate(name, args) => {
            args_expansion_removes_every_alias(m, args, stack);
        },
        LensView::Union(a, b) => {
            expansion_removes_every_alias(m, *a, stack);
            expansion_removes_every_alias(m, *b, stack);
        },
        LensView::Intersection(a, b) => {
            expansion_removes_every_alias(m, *a, stack);
            expansion_removes_every_alias(m, *b, stack);
        },
        LensView::Difference(a, b) => {
            expansion_removes_every_alias(m, *a, stack);
            expansion_removes_every_alias(m, *b, stack);
        },
        _ => {},
    }
}

pub proof fn args_expansion_removes_every_alias(
    m: Map<Seq<char>, LensView>,
    args: Seq<LensView>,
    stack: Seq<Seq<char>>,
)
    requires
        expansion_frame(m, stack),
        args_expansion(m, args, stack) is Ok,
    ensures
        args_free_of(args_expansion(m, args, stack)->Ok_0, m),
    decreases m.dom().len() - stack.len(), args, 1int,
{
    if args.len() > 0 {
        args_expansion_removes_every_alias(m, args.drop_last(), stack);
        expansion_removes_every_alias(m, args.last(), stack);
        let front = args_expansion(m, args.drop_last(), stack)->Ok_0;
        let x = expansion(m, args.last(), stack)->Ok_0;
        assert(front.push(x).drop_last() =~= front);
    }
}

/// A lens that names no alias expands to itself.
pub proof fn expansion_keeps_alias_free_lenses(
    m: Map<Seq<char>, LensView>,
    l: LensView,
    stack: Seq<Seq<char>>,
)
    requires
        expansion_frame(m, stack),
        free_of(l, m),
    ensures
        expansion(m, l, stack) == Ok::<LensView, Seq<Seq<char>>>(l),
    decreases l, 0int,
{
    match l {
        LensView::Predicate(name, args) => {
            args_expansion_keeps_alias_free_lenses(m, args, stack);
        },
        LensView::Union(a, b) => {
            expansion_keeps_alias_free_lenses(m, *a, stack);
            expansion_keeps_alias_free_lenses(m, *b, stack);
        },
        LensView::Intersection(a, b) => {
            expansion_keeps_alias_free_lenses(m, *a, stack);
            expansion_keeps_alias_free_lenses(m, *b, stack);
        },
        LensView::Difference(a, b) => {
            expansion_keeps_alias_free_lenses(m, *a, stack);
            expansion_keeps_alias_free_lenses(m, *b, stack);
        },
        _ => {},
    }
}

pub proof fn args_expansion_keeps_alias_free_lenses(
    m: Map<Seq<char>, LensView>,
    args: Seq<LensView>,
    stack: Seq<Seq<char>>,
)
    requires
        expansion_frame(m, stack),
        args_free_of(args, m),
    ensures
        args_expansion(m, args, stack) == Ok::<Seq<LensView>, Seq<Seq<char>>>(args),
    decreases args, 1int,
{
    if args.len() > 0 {
        args_expansion_keeps_alias_free_lenses(m, args.drop_last(), stack);
        expansion_keeps_alias_free_lenses(m, args.last(), stack);
        assert(args.drop_last().push(args.last()) =~= args);
    } else {
        assert(args =~= Seq::<LensView>::empty());
    }
}

/// Aliases are pure sugar: expanding an expanded lens again changes
/// nothing.
pub proof fn expansion_is_idempotent(m: Map<Seq<char>, LensView>, l: LensView)
    requires
        m.dom().finite(),
        expansion(m, l, Seq::empty()) is Ok,
    ensures
        expansion(m, expansion(m, l, Seq::empty())->Ok_0, Seq::empty()) == expansion(
            m,
            l,
            Seq::empty(),
        ),
{
    let e = expansion(m, l, Seq::empty())->Ok_0;
    expansion_removes_every_alias(m, l, Seq::empty());
    expansion_keeps_alias_free_lenses(m, e, Seq::empty());
}

/// Whether the symbol `x` occurs in `l`.
pub open spec fn mentions(l: LensView, x: Seq<char>) -> bool
    decreases l, 0int,
{
    match l {
        LensView::Symbol(y) => y == x,
        LensView::Predicate(_, args) => args_mention(args, x),
        LensView::Union(a, b) => mentions(*a, x) || mentions(*b, x),
        LensView::Intersection(a, b) => mentions(*a, x) || mentions(*b, x),
        LensView::Difference(a, b) => mentions(*a, x) || mentions(*b, x),
        _ => false,
    }
}

pub open spec fn args_mention(args: Seq<LensView>, x: Seq<char>) -> bool
    decreases args, 1int,
{
    if args.len() == 0 {
        false
    } else {
        args_mention(args.drop_last(), x) || mentions(args.last(), x)
    }
}

/// Whether the body of alias `p[i]` mentions the alias `p[i + 1]`.
pub open spec fn refers_at(m: Map<Seq<char>, LensView>, p: Seq<Seq<char>>, i: int) -> bool {
    mentions(m[p[i]], p[i + 1])
}

/// Whether `p` is a chain of aliases, the body of each mentioning the next.
pub open spec fn alias_chain(m: Map<Seq<char>, LensView>, p: Seq<Seq<char>>) -> bool {
    &&& forall|i: int| 0 <= i < p.len() ==> m.dom().contains(#[trigger] p[i])
    &&& forall|i: int| 0 <= i < p.len() - 1 ==> #[trigger] refers_at(m, p, i)
}

/// Whether alias `x` can be reached from `l`: a chain of aliases starts at
/// a symbol of `l` and ends at `x`.
pub open spec fn reachable(m: Map<Seq<char>, LensView>, l: LensView, x: Seq<char>) -> bool {
    exists|p: Seq<Seq<char>>|
        #![trigger alias_chain(m, p)]
        p.len() > 0 && alias_chain(m, p) && mentions(l, p[0]) && p.last() == x
}

/// Whether alias `x` lies on a cycle: a chain of aliases leads from `x`
/// back to `x`.
pub open spec fn on_cycle(m: Map<Seq<char>, LensView>, x: Seq<char>) -> bool {
    exists|p: Seq<Seq<char>>|
        #![trigger alias_chain(m, p)]
        p.len() > 1 && alias_chain(m, p) && p[0] == x && p.last() == x
}

/// What a cycle `c` found below `stack` looks like: the stack, then a chain
/// of aliases, the last of which was met before.
spec fn found_cycle(m: Map<Seq<char>, LensView>, stack: Seq<Seq<char>>, c: Seq<Seq<char>>) -> bool {
    &&& stack.len() < c.len()
    &&& forall|i: int| 0 <= i < stack.len() ==> c[i] == stack[i]
    &&& alias_chain(m, c.subrange(stack.len() as int, c.len() as int))
    &&& exists|j: int| 0 <= j < c.len() - 1 && c[j] == c.last()
}

proof fn lemma_err_chain(m: Map<Seq<char>, LensView>, l: LensView, stack: Seq<Seq<char>>)
    requires
        expansion_frame(m, stack),
        expansion(m, l, stack) is Err,
    ensures
        found_cycle(m, stack, expansion(m, l, stack)->Err_0),
        mentions(l, expansion(m, l, stack)->Err_0[stack.len() as int]),
    decreases m.dom().len() - stack.len(), l, 0int,
{
    let s = stack.len() as int;
    match l {
        LensView::Symbol(x) => {
            let c = expansion(m, l, stack)->Err_0;
            if stack.contains(x) {
                let j = choose|j: int| 0 <= j < stack.len() && stack[j] == x;
                assert(c[j] == c.last());
                let sub = c.subrange(s, c.len() as int);
                assert(sub.len() == 1 && sub[0] == x);
                assert(alias_chain(m, sub));
            } else {
                lemma_stack_push(m, stack, x);
                let t = stack.push(x);
                lemma_err_chain(m, m[x], t);
                assert(c[s] == t[s]);
                let sub = c.subrange(s, c.len() as int);
                let sub1 = c.subrange(s + 1, c.len() as int);
                assert(alias_chain(m, sub1));
                assert forall|i: int| 0 <= i < sub.len() implies m.dom().contains(#[trigger] sub[i]) by {
                    if i > 0 {
                        assert(sub[i] == sub1[i - 1]);
                    }
                }
                assert forall|i: int| 0 <= i < sub.len() - 1 implies #[trigger] refers_at(
                    m,
                    sub,
                    i,
                ) by {
                    if i > 0 {
                        assert(refers_at(m, sub1, i - 1));
                        assert(sub[i] == sub1[i - 1] && sub[i + 1] == sub1[i]);
                    } else {
                        assert(sub[1] == c[s + 1]);
                    }
                }
                assert(alias_chain(m, sub));
            }
        },
        LensView::Predicate(name, args) => {
            lemma_args_err_chain(m, args, stack);
        },
        LensView::Union(a, b) => {
            if expansion(m, *a, stack) is Err {
                lemma_err_chain(m, *a, stack);
            } else {
                lemma_err_chain(m, *b, stack);
            }
        },
        LensView::Intersection(a, b) => {
            if expansion(m, *a, stack) is Err {
                lemma_err_chain(m, *a, stack);
            } else {
                lemma_err_chain(m, *b, stack);
            }
        },
        LensView::Difference(a, b) => {
            if expansion(m, *a, stack) is Err {
                lemma_err_chain(m, *a, stack);
            } else {
                lemma_err_chain(m, *b, stack);
            }
        },
        _ => {},
    }
}

proof fn lemma_args_err_chain(m: Map<Seq<char>, LensView>, args: Seq<LensView>, stack: Seq<Seq<char>>)
    requires
        expansion_frame(m, stack),
        args_expansion(m, args, stack) is Err,
    ensures
        found_cycle(m, stack, args_expansion(m, args, stack)->Err_0),
        args_mention(args, args_expansion(m, args, stack)->Err_0[stack.len() as int]),
    decreases m.dom().len() - stack.len(), args, 1int,
{
    if args_expansion(m, args.drop_last(), stack) is Err {
        lemma_args_err_chain(m, args.drop_last(), stack);
    } else {
        lemma_err_chain(m, args.last(), stack);
    }
}

proof fn lemma_ok_paths(
    m: Map<Seq<char>, LensView>,
    l: LensView,
    stack: Seq<Seq<char>>,
    p: Seq<Seq<char>>,
)
    requires
        expansion_frame(m, stack),
        expansion(m, l, stack) is Ok,
        p.len() > 0,
        alias_chain(m, p),
        mentions(l, p[0]),
    ensures
        (stack + p).no_duplicates(),
    decreases m.dom().len() - stack.len(), l, 0int,
{
    match l {
        LensView::Symbol(y) => {
            assert(m.dom().contains(p[0]));
            lemma_stack_push(m, stack, y);
            let t = stack.push(y);
            if p.len() == 1 {
                assert(stack + p =~= t);
            } else {
                let q = p.drop_first();
                assert forall|i: int| 0 <= i < q.len() implies m.dom().contains(#[trigger] q[i]) by {
                    assert(q[i] == p[i + 1]);
                }
                assert forall|i: int| 0 <= i < q.len() - 1 implies #[trigger] refers_at(m, q, i) by {
                    assert(refers_at(m, p, i + 1));
                    assert(q[i] == p[i + 1] && q[i + 1] == p[i + 2]);
                }
                assert(refers_at(m, p, 0));
                lemma_ok_paths(m, m[y], t, q);
                assert(t + q =~= stack + p);
            }
        },
        LensView::Predicate(name, args) => {
            lemma_args_ok_paths(m, args, stack, p);
        },
        LensView::Union(a, b) => {
            if mentions(*a, p[0]) {
                lemma_ok_paths(m, *a, stack, p);
            } else {
                lemma_ok_paths(m, *b, stack, p);
            }
        },
        LensView::Intersection(a, b) => {
            if mentions(*a, p[0]) {
                lemma_ok_paths(m, *a, stack, p);
            } else {
                lemma_ok_paths(m, *b, stack, p);
            }
        },
        LensView::Difference(a, b) => {
            if mentions(*a, p[0]) {
                lemma_ok_paths(m, *a, stack, p);
            } else {
                lemma_ok_paths(m, *b, stack, p);
            }
        },
        _ => {},
    }
}

proof fn lemma_args_ok_paths(
    m: Map<Seq<char>, LensView>,
    args: Seq<LensView>,
    stack: Seq<Seq<char>>,
    p: Seq<Seq<char>>,
)
    requires
        expansion_frame(m, stack),
        args_expansion(m, args, stack) is Ok,
        p.len() > 0,
        alias_chain(m, p),
        args_mention(args, p[0]),
    ensures
        (stack + p).no_duplicates(),
    decreases m.dom().len() - stack.len(), args, 1int,
{
    if args_mention(args.drop_last(), p[0]) {
        lemma_args_ok_paths(m, args.drop_last(), stack, p);
    } else {
        lemma_ok_paths(m, args.last(), stack, p);
    }
}

/// Expansion reports a cycle exactly when some alias that can be reached
/// from the lens lies on a cycle of aliases.
pub proof fn expansion_fails_exactly_on_reachable_cycles(m: Map<Seq<char>, LensView>, l: LensView)
    requires
        m.dom().finite(),
    ensures
        expansion(m, l, Seq::empty()) is Err <==> exists|x: Seq<char>|
            reachable(m, l, x) && on_cycle(m, x),
{
    let e = Seq::<Seq<char>>::empty();
    assert(expansion_frame(m, e));
    if expansion(m, l, e) is Err {
        lemma_err_chain(m, l, e);
        let c = expansion(m, l, e)->Err_0;
        assert(c.subrange(0, c.len() as int) =~= c);
        let j = choose|j: int| 0 <= j < c.len() - 1 && c[j] == c.last();
        let x = c.last();
        assert(alias_chain(m, c));
        assert(reachable(m, l, x));
        let p2 = c.subrange(j, c.len() as int);
        assert forall|i: int| 0 <= i < p2.len() implies m.dom().contains(#[trigger] p2[i]) by {
            assert(p2[i] == c[j + i]);
        }
        assert forall|i: int| 0 <= i < p2.len() - 1 implies #[trigger] refers_at(m, p2, i) by {
            assert(refers_at(m, c, j + i));
            assert(p2[i] == c[j + i] && p2[i + 1] == c[j + i + 1]);
        }
        assert(alias_chain(m, p2));
        assert(on_cycle(m, x));
    } else if exists|x: Seq<char>| reachable(m, l, x) && on_cycle(m, x) {
        let x = choose|x: Seq<char>| reachable(m, l, x) && on_cycle(m, x);
        let p1 = choose|p: Seq<Seq<char>>|
            #![trigger alias_chain(m, p)]
            p.len() > 0 && alias_chain(m, p) && mentions(l, p[0]) && p.last() == x;
        let p2 = choose|p: Seq<Seq<char>>|
            #![trigger alias_chain(m, p)]
            p.len() > 1 && alias_chain(m, p) && p[0] == x && p.last() == x;
        let p = p1 + p2.drop_first();
        let n = p1.len() as int;
        assert forall|i: int| 0 <= i < p.len() implies m.dom().contains(#[trigger] p[i]) by {
            if i < n {
                assert(p[i] == p1[i]);
            } else {
                assert(p[i] == p2[i - n + 1]);
            }
        }
        assert forall|i: int| 0 <= i < p.len() - 1 implies #[trigger] refers_at(m, p, i) by {
            if i < n - 1 {
                assert(refers_at(m, p1, i));
                assert(p[i] == p1[i] && p[i + 1] == p1[i + 1]);
            } else if i == n - 1 {
                assert(refers_at(m, p2, 0));
                assert(p[i] == p2[0] && p[i + 1] == p2[1]);
            } else {
                assert(refers_at(m, p2, i - n + 1));
                assert(p[i] == p2[i - n + 1] && p[i + 1] == p2[i - n + 2]);
            }
        }
        assert(p[0] == p1[0]);
        lemma_ok_paths(m, l, e, p);
        assert(e + p =~= p);
        assert(p[n - 1] == x);
        assert(p[p.len() - 1] == p2.last());
        assert(false);
    }
}

/// Parses alias sources and expands aliases in lenses.
pub struct AliasResolver {
    names: Vec<String>,
    bodies: Vec<Lens>,
}

/// The map from alias names to bodies.
pub open spec fn alias_map(names: Seq<Seq<char>>, bodies: Seq<LensView>) -> Map<
    Seq<char>,
    LensView,
> {
    Map::new(|k: Seq<char>| names.contains(k), |k: Seq<char>| bodies[names.index_of(k)])
}

impl AliasResolver {
    #[verifier::type_invariant]
    spec fn frame(&self) -> bool {
        &&& name_views(self.names@).no_duplicates()
        &&& self.names@.len() == self.bodies@.len()
    }

    /// The alias names, without repetition.
    spec fn alias_names(&self) -> Seq<Seq<char>> {
        name_views(self.names@)
    }

    /// The alias bodies, in the order of the names.
    spec fn alias_bodies(&self) -> Seq<LensView> {
        models(self.bodies@)
    }
}

impl View for AliasResolver {
    type V = Map<Seq<char>, LensView>;

    closed spec fn view(&self) -> Map<Seq<char>, LensView> {
        alias_map(self.alias_names(), self.alias_bodies())
    }
}

/// The pairs of views of a list of (name, source) pairs.
pub open spec fn pair_views(pairs: Seq<(String, String)>) -> Seq<(Seq<char>, Seq<char>)> {
    pairs.map_values(|p: (String, String)| (p.0@, p.1@))
}

impl AliasResolver {
    /// The frame in which this resolver's aliases expand.
    proof fn lemma_frame(&self)
        requires
            name_views(self.names@).no_duplicates(),
            self.names@.len() == self.bodies@.len(),
        ensures
            expansion_frame(self@, Seq::empty()),
    {
        lemma_models_len(self.bodies@);
        let names = self.alias_names();
        assert(self@.dom() =~= names.to_set());
        vstd::seq_lib::seq_to_set_is_finite(names);
    }

    /// Parses each alias source. A later pair replaces an earlier one of the
    /// same name.
    pub fn new(aliases: &Vec<(String, String)>) -> (r: Result<Self, AliasError>)
        ensures
            match parsed_aliases(pair_views(aliases@)) {
                Ok(m) => r is Ok && r->Ok_0@ == m,
                Err((name, position)) => r is Err && match r->Err_0 {
                    AliasError::Parse { name: n, source } => n@ == name && source.position
                        == position,
                    _ => false,
                },
            },
    {
        let mut names: Vec<String> = Vec::new();
        let mut bodies: Vec<Lens> = Vec::new();
        let ghost pv = pair_views(aliases@);
        let mut i: usize = 0;
        proof {
            assert(name_views(names@) =~= Seq::<Seq<char>>::empty());
            assert(models(bodies@) =~= Seq::<LensView>::empty());
            assert(alias_map(Seq::empty(), Seq::empty()) =~= Map::<Seq<char>, LensView>::empty());
        }
        while i < aliases.len()
            invariant
                i <= aliases@.len(),
                pv == pair_views(aliases@),
                name_views(names@).no_duplicates(),
                names@.len() == bodies@.len(),
                parsed_aliases(pv.take(i as int)) is Ok,
                parsed_aliases(pv.take(i as int))->Ok_0 == alias_map(
                    name_views(names@),
                    models(bodies@),
                ),
            decreases aliases@.len() - i,
        {
            let name = &aliases[i].0;
            let source = &aliases[i].1;
            proof {
                assert(pv.take(i + 1).drop_last() =~= pv.take(i as int));
                assert(pv.take(i + 1).last() == (name@, source@));
            }
            let lens = match Lens::parse(source.as_str()) {
                Ok(lens) => lens,
                Err(source) => {
                    proof {
                        lemma_parsed_aliases_prefix_err(pv, i as int + 1);
                    }
                    return Err(AliasError::Parse { name: name.clone(), source });
                },
            };
            let ghost before_names = name_views(names@);
            let ghost before_bodies = models(bodies@);
            proof {
                lemma_models_len(bodies@);
            }
            let mut j: usize = 0;
            while j < names.len() && names[j] != *name
                invariant
                    j <= names@.len(),
                    forall|k: int| 0 <= k < j ==> #[trigger] names@[k]@ != name@,
                decreases names@.len() - j,
            {
                j += 1;
            }
            if j < names.len() {
                proof {
                    lemma_models_len(bodies@);
                    lemma_set_body(names@, bodies@, j as int, lens);
                }
                bodies.set(j, lens);
            } else {
                proof {
                    lemma_push_alias(names@, bodies@, name, lens);
                }
                names.push(name.clone());
                bodies.push(lens);
            }
            i += 1;
        }
        proof {
            assert(pv.take(pv.len() as int) =~= pv);
        }
        Ok(AliasResolver { names, bodies })
    }

    /// Expands every symbol naming an alias, transitively.
    pub fn expand(&self, lens: Lens) -> (r: Result<Lens, AliasError>)
        ensures
            expansion_frame(self@, Seq::empty()),
            match expansion(self@, lens@, Seq::empty()) {
                Ok(l) => r is Ok && r->Ok_0@ == l,
                Err(chain) => r is Err && match r->Err_0 {
                    AliasError::Cycle { chain: c } => c@ == chain_text(chain),
                    _ => false,
                },
            },
    {
        proof {
            use_type_invariant(self);
            self.lemma_frame();
        }
        let mut visiting: Vec<String> = Vec::new();
        proof {
            assert(name_views(visiting@) =~= Seq::<Seq<char>>::empty());
        }
        self.walk(&lens, &mut visiting)
    }

    fn walk(&self, lens: &Lens, visiting: &mut Vec<String>) -> (r: Result<Lens, AliasError>)
        requires
            expansion_frame(self@, name_views(old(visiting)@)),
        ensures
            match expansion(self@, lens@, name_views(old(visiting)@)) {
                Ok(l) => r is Ok && r->Ok_0@ == l && name_views(final(visiting)@) == name_views(
                    old(visiting)@,
                ),
                Err(chain) => r is Err && match r->Err_0 {
                    AliasError::Cycle { chain: c } => c@ == chain_text(chain),
                    _ => false,
                },
            },
        decreases self@.dom().len() - name_views(old(visiting)@).len(), lens, 0int,
    {
        proof {
            use_type_invariant(self);
        }
        let ghost m = self@;
        let ghost names = self.alias_names();
        let ghost bodies = self.alias_bodies();
        let ghost stack = name_views(visiting@);
        match lens {
            Lens::Symbol(identifier) => {
                let mut i: usize = 0;
                while i < self.names.len() && self.names[i] != identifier.0
                    invariant
                        i <= self.names@.len(),
                        names == name_views(self.names@),
                        forall|k: int| 0 <= k < i ==> #[trigger] self.names@[k]@ != identifier@,
                    decreases self.names@.len() - i,
                {
                    i += 1;
                }
                if i == self.names.len() {
                    proof {
                        assert(!names.contains(identifier@)) by {
                            if names.contains(identifier@) {
                                let k = choose|k: int| 0 <= k < names.len() && names[k] == identifier@;
                                assert(self.names@[k]@ == identifier@);
                            }
                        }
                    }
                    return Ok(Lens::Symbol(identifier.duplicate()));
                }
                proof {
                    assert(names[i as int] == identifier@);
                    assert(names.contains(identifier@));
                    assert(names.index_of(identifier@) == i) by {
                        let k = names.index_of(identifier@);
                        assert(names[k] == identifier@);
                        assert(names.no_duplicates());
                    }
                }
                let mut k: usize = 0;
                while k < visiting.len() && visiting[k] != identifier.0
                    invariant
                        k <= visiting@.len(),
                        stack == name_views(visiting@),
                        forall|m: int| 0 <= m < k ==> #[trigger] visiting@[m]@ != identifier@,
                    decreases visiting@.len() - k,
                {
                    k += 1;
                }
                if k < visiting.len() {
                    let mut chain = String::new();
                    push_chain(&mut chain, visiting);
                    let ghost rest = chain@;
                    push_str(&mut chain, " → ");
                    push_str(&mut chain, identifier.as_str());
                    proof {
                        assert(stack.contains(identifier@)) by {
                            assert(stack[k as int] == identifier@);
                        }
                        lemma_chain_push(stack, identifier@);
                    }
                    return Err(AliasError::Cycle { chain });
                }
                proof {
                    assert(!stack.contains(identifier@)) by {
                        if stack.contains(identifier@) {
                            let m = choose|m: int| 0 <= m < stack.len() && stack[m] == identifier@;
                            assert(visiting@[m]@ == identifier@);
                        }
                    }
                    lemma_stack_push(m, stack, identifier@);
                    lemma_models_index(self.bodies@, i as int);
                    lemma_models_len(self.bodies@);
                    assert(m[identifier@] == self.bodies@[i as int]@);
                }
                visiting.push(identifier.0.clone());
                proof {
                    assert(name_views(visiting@) =~= stack.push(identifier@));
                }
                let expanded = self.walk(&self.bodies[i], visiting);
                match expanded {
                    Err(e) => Err(e),
                    Ok(expanded) => {
                        let ghost before = visiting@;
                        visiting.pop();
                        proof {
                            assert(name_views(before) == stack.push(identifier@));
                            assert(visiting@ =~= before.drop_last());
                            assert(name_views(visiting@).len() == stack.len());
                            assert forall|j: int| 0 <= j < stack.len() implies name_views(
                                visiting@,
                            )[j] == stack[j] by {
                                assert(name_views(before)[j] == stack.push(identifier@)[j]);
                            }
                            assert(name_views(visiting@) =~= stack);
                        }
                        Ok(expanded)
                    },
                }
            },
            Lens::Predicate(predicate) => {
                let args = self.walk_args(&predicate.args, visiting)?;
                Ok(Lens::Predicate(Predicate { name: predicate.name.duplicate(), args }))
            },
            Lens::Union(left, right) => {
                let l = self.walk(left, visiting)?;
                let r = self.walk(right, visiting)?;
                Ok(Lens::union(l, r))
            },
            Lens::Intersection(left, right) => {
                let l = self.walk(left, visiting)?;
                let r = self.walk(right, visiting)?;
                Ok(Lens::intersection(l, r))
            },
            Lens::Difference(left, right) => {
                let l = self.walk(left, visiting)?;
                let r = self.walk(right, visiting)?;
                Ok(Lens::difference(l, r))
            },
            _ => Ok(lens.duplicate()),
        }
    }

    fn walk_args(&self, args: &Vec<Lens>, visiting: &mut Vec<String>) -> (r: Result<
        Vec<Lens>,
        AliasError,
    >)
        requires
            expansion_frame(self@, name_views(old(visiting)@)),
        ensures
            match args_expansion(self@, models(args@), name_views(old(visiting)@)) {
                Ok(l) => r is Ok && models(r->Ok_0@) == l && name_views(final(visiting)@)
                    == name_views(old(visiting)@),
                Err(chain) => r is Err && match r->Err_0 {
                    AliasError::Cycle { chain: c } => c@ == chain_text(chain),
                    _ => false,
                },
            },
        decreases self@.dom().len() - name_views(old(visiting)@).len(), args, 1int,
    {
        let ghost m = self@;
        let ghost stack = name_views(visiting@);
        let ghost views = models(args@);
        proof {
            lemma_models_len(args@);
        }
        let mut out: Vec<Lens> = Vec::new();
        let mut i: usize = 0;
        proof {
            assert(models(out@) =~= Seq::<LensView>::empty());
            assert(views.take(0) =~= Seq::<LensView>::empty());
        }
        while i < args.len()
            invariant
                i <= args@.len(),
                views == models(args@),
                views.len() == args@.len(),
                m == self@,
                stack == name_views(visiting@),
                stack == name_views(old(visiting)@),
                expansion_frame(m, stack),
                args_expansion(m, views.take(i as int), stack) is Ok,
                models(out@) == args_expansion(m, views.take(i as int), stack)->Ok_0,
            decreases args@.len() - i,
        {
            proof {
                lemma_models_index(args@, i as int);
                assert(decreases_to!(args => args@[i as int]));
                assert(views.take(i + 1).drop_last() =~= views.take(i as int));
                assert(views.take(i + 1).last() == views[i as int]);
            }
            let x = match self.walk(&args[i], visiting) {
                Ok(x) => x,
                Err(e) => {
                    proof {
                        lemma_args_expansion_first_failure(m, views, stack, i + 1);
                    }
                    return Err(e);
                },
            };
            proof {
                lemma_models_push(out@, x);
            }
            out.push(x);
            i += 1;
        }
        proof {
            assert(views.take(views.len() as int) =~= views);
        }
        Ok(out)
    }
}

/// Expanding a list fails with the failure of its first element that fails.
proof fn lemma_args_expansion_first_failure(
    m: Map<Seq<char>, LensView>,
    args: Seq<LensView>,
    stack: Seq<Seq<char>>,
    n: int,
)
    requires
        expansion_frame(m, stack),
        0 < n <= args.len(),
        args_expansion(m, args.take(n - 1), stack) is Ok,
        expansion(m, args[n - 1], stack) is Err,
    ensures
        args_expansion(m, args, stack) == Err::<Seq<LensView>, Seq<Seq<char>>>(
            expansion(m, args[n - 1], stack)->Err_0,
        ),
    decreases args.len(),
{
    if n == args.len() {
        assert(args.drop_last() =~= args.take(n - 1));
    } else {
        assert(args.drop_last().take(n - 1) =~= args.take(n - 1));
        assert(args.drop_last()[n - 1] == args[n - 1]);
        lemma_args_expansion_first_failure(m, args.drop_last(), stack, n);
    }
}

proof fn lemma_chain_push(stack: Seq<Seq<char>>, x: Seq<char>)
    requires
        stack.len() > 0,
    ensures
        chain_text(stack.push(x)) == chain_text(stack) + " → "@ + x,
{
    assert(stack.push(x).drop_last() =~= stack);
}

/// Appends the names joined by ` → `.
fn push_chain(s: &mut String, names: &Vec<String>)
    ensures
        final(s)@ == old(s)@ + chain_text(name_views(names@)),
{
    let ghost start = s@;
    let ghost v = name_views(names@);
    let mut i: usize = 0;
    while i < names.len()
        invariant
            i <= names@.len(),
            v == name_views(names@),
            s@ == start + chain_text(v.take(i as int)),
        decreases names@.len() - i,
    {
        proof {
            let t = v.take(i + 1);
            assert(t.drop_last() =~= v.take(i as int));
            assert(t.last() == names@[i as int]@);
        }
        if i > 0 {
            push_str(s, " → ");
        }
        push_str(s, names[i].as_str());
        proof {
            if i == 0 {
                assert(v.take(1).len() == 1);
                assert(chain_text(v.take(0)) =~= Seq::<char>::empty());
                assert(s@ =~= start + chain_text(v.take(1)));
            } else {
                assert(s@ =~= start + chain_text(v.take(i + 1)));
            }
        }
        i += 1;
    }
    proof {
        assert(v.take(v.len() as int) =~= v);
    }
}

proof fn lemma_parsed_aliases_prefix_err(pv: Seq<(Seq<char>, Seq<char>)>, n: int)
    requires
        0 < n <= pv.len(),
        parsed_aliases(pv.take(n - 1)) is Ok,
        parse_text(pv[n - 1].1) is Err,
    ensures
        parsed_aliases(pv) == Err::<Map<Seq<char>, LensView>, (Seq<char>, int)>(
            (pv[n - 1].0, parse_text(pv[n - 1].1)->Err_0),
        ),
    decreases pv.len(),
{
    if n == pv.len() {
        assert(pv.drop_last() =~= pv.take(n - 1));
    } else {
        assert(pv.drop_last().take(n - 1) =~= pv.take(n - 1));
        assert(pv.drop_last()[n - 1] == pv[n - 1]);
        lemma_parsed_aliases_prefix_err(pv.drop_last(), n);
    }
}

proof fn lemma_set_body(names: Seq<String>, bodies: Seq<Lens>, j: int, lens: Lens)
    requires
        name_views(names).no_duplicates(),
        names.len() == bodies.len(),
        0 <= j < names.len(),
    ensures
        alias_map(name_views(names), models(bodies.update(j, lens))) == alias_map(
            name_views(names),
            models(bodies),
        ).insert(names[j]@, lens@),
{
    let nv = name_views(names);
    let b2 = bodies.update(j, lens);
    lemma_models_len(bodies);
    lemma_models_len(b2);
    let m1 = alias_map(nv, models(b2));
    let m2 = alias_map(nv, models(bodies)).insert(names[j]@, lens@);
    assert(nv[j] == names[j]@);
    assert forall|k: Seq<char>| #[trigger] m1.contains_key(k) == m2.contains_key(k) by {
        if k == names[j]@ {
            assert(nv.contains(k));
        }
    }
    assert forall|k: Seq<char>| m1.contains_key(k) implies #[trigger] m1[k] == m2[k] by {
        let idx = nv.index_of(k);
        assert(nv[idx] == k);
        lemma_models_index(b2, idx);
        lemma_models_index(bodies, idx);
        if k == names[j]@ {
            assert(idx == j);
        } else {
            assert(idx != j);
        }
    }
    assert(m1 =~= m2);
}

proof fn lemma_push_alias(names: Seq<String>, bodies: Seq<Lens>, name: &String, lens: Lens)
    requires
        name_views(names).no_duplicates(),
        names.len() == bodies.len(),
        forall|k: int| 0 <= k < names.len() ==> #[trigger] names[k]@ != name@,
    ensures
        name_views(names.push(*name)).no_duplicates(),
        alias_map(name_views(names.push(*name)), models(bodies.push(lens))) == alias_map(
            name_views(names),
            models(bodies),
        ).insert(name@, lens@),
{
    let nv = name_views(names);
    let nv2 = name_views(names.push(*name));
    assert(nv2 =~= nv.push(name@));
    lemma_models_push(bodies, lens);
    lemma_models_len(bodies);
    let b2 = models(bodies.push(lens));
    assert(nv2.no_duplicates()) by {
        assert forall|a: int, b: int| 0 <= a < nv2.len() && 0 <= b < nv2.len() && a != b implies nv2[a]
            != nv2[b] by {
            if a < nv.len() && b < nv.len() {
            } else if a < nv.len() {
                assert(names[a]@ != name@);
            } else {
                assert(names[b]@ != name@);
            }
        }
    }
    let m1 = alias_map(nv2, b2);
    let m2 = alias_map(nv, models(bodies)).insert(name@, lens@);
    assert forall|k: Seq<char>| #[trigger] m1.contains_key(k) == m2.contains_key(k) by {
        if nv.contains(k) {
            let i = choose|i: int| 0 <= i < nv.len() && nv[i] == k;
            assert(nv2[i] == k);
        }
        if nv2.contains(k) && k != name@ {
            let i = choose|i: int| 0 <= i < nv2.len() && nv2[i] == k;
            assert(nv[i] == k);
        }
        if k == name@ {
            assert(nv2[nv.len() as int] == k);
        }
    }
    assert forall|k: Seq<char>| m1.contains_key(k) implies #[trigger] m1[k] == m2[k] by {
        let idx = nv2.index_of(k);
        assert(nv2[idx] == k);
        if k == name@ {
            assert(idx == nv.len());
        } else {
            assert(idx < nv.len());
            let idx1 = nv.index_of(k);
            assert(nv[idx1] == k);
            assert(nv2[idx1] == k);
            assert(idx1 == idx);
            lemma_models_index(bodies, idx);
        }
    }
    assert(m1 =~= m2);
}

} // verus!
