//! The text a lens renders to parses back to the same lens, for every lens
//! whose names, strings and references can be written in the text form.
use vstd::prelude::*;

use crate::lens::ast::LensView;
use crate::lens::text_form::{
    args_text, combine, digit_value, digits_end, digits_value, is_digit, is_name_char,
    is_name_start, is_operator, is_space, is_token_char, lens_text, name_end, parse_arg_list,
    parse_args, parse_expr, parse_primary, parse_tail, parse_text, quote_at_or_after, skip_spaces,
    token_end,
};
use crate::text::{decimal, digit_char, signed_decimal};

verus! {

/// A name as the text form writes it: a letter or underscore, then name
/// characters.
pub open spec fn is_name(s: Seq<char>) -> bool {
    &&& s.len() > 0
    &&& is_name_start(s[0])
    &&& forall|i: int| 0 <= i < s.len() ==> #[trigger] is_name_char(s[i])
}

/// Whether the text form can write `l`: its symbols and predicate names
/// are names, its strings hold no `"`, its references are non-empty runs of
/// token characters.
pub open spec fn renderable(l: LensView) -> bool
    decreases l, 0int,
{
    match l {
        LensView::Symbol(s) => is_name(s),
        LensView::Str(s) => forall|i: int| 0 <= i < s.len() ==> #[trigger] s[i] != '"',
        LensView::Ref(s) => s.len() > 0 && forall|i: int|
            0 <= i < s.len() ==> #[trigger] is_token_char(s[i]),
        LensView::Integer(_) => true,
        LensView::Predicate(name, args) => is_name(name) && args_renderable(args),
        LensView::Union(a, b) => renderable(*a) && renderable(*b),
        LensView::Intersection(a, b) => renderable(*a) && renderable(*b),
        LensView::Difference(a, b) => renderable(*a) && renderable(*b),
    }
}

/// Whether the text form can write every lens of a list.
pub open spec fn args_renderable(args: Seq<LensView>) -> bool
    decreases args, 1int,
{
    if args.len() == 0 {
        true
    } else {
        renderable(args[0]) && args_renderable(args.subrange(1, args.len() as int))
    }
}

/// `s` holds `t` from position `p` on.
spec fn holds_at(s: Seq<char>, p: int, t: Seq<char>) -> bool {
    &&& 0 <= p
    &&& p + t.len() <= s.len()
    &&& s.subrange(p, p + t.len()) == t
}

/// What may follow a rendered lens inside a rendered text: its end, a
/// space, a comma or a closing parenthesis.
spec fn closes_at(s: Seq<char>, i: int) -> bool {
    i == s.len() || (0 <= i < s.len() && (s[i] == ' ' || s[i] == ',' || s[i] == ')'))
}

/// The characters a rendered lens can start with.
spec fn starts_well(c: char) -> bool {
    is_name_start(c) || c == '"' || c == '@' || c == '-' || is_digit(c) || c == '('
}

proof fn lemma_holds_part(s: Seq<char>, p: int, t: Seq<char>, a: int, b: int)
    requires
        holds_at(s, p, t),
        0 <= a <= b <= t.len(),
    ensures
        holds_at(s, p + a, t.subrange(a, b)),
{
    assert(s.subrange(p + a, p + b) =~= t.subrange(a, b)) by {
        assert forall|i: int| 0 <= i < b - a implies s.subrange(p + a, p + b)[i] == t.subrange(
            a,
            b,
        )[i] by {
            assert(s.subrange(p, p + t.len())[a + i] == s[p + a + i]);
        }
    }
}

proof fn lemma_holds_char(s: Seq<char>, p: int, t: Seq<char>, a: int)
    requires
        holds_at(s, p, t),
        0 <= a < t.len(),
    ensures
        s[p + a] == t[a],
{
    assert(s.subrange(p, p + t.len())[a] == s[p + a]);
}

proof fn lemma_name_run(s: Seq<char>, a: int, b: int)
    requires
        0 <= a <= b <= s.len(),
        forall|i: int| a <= i < b ==> #[trigger] is_name_char(s[i]),
        b == s.len() || !is_name_char(s[b]),
    ensures
        name_end(s, a) == b,
    decreases b - a,
{
    if a < b {
        lemma_name_run(s, a + 1, b);
    }
}

proof fn lemma_token_run(s: Seq<char>, a: int, b: int)
    requires
        0 <= a <= b <= s.len(),
        forall|i: int| a <= i < b ==> #[trigger] is_token_char(s[i]),
        b == s.len() || !is_token_char(s[b]),
    ensures
        token_end(s, a) == b,
    decreases b - a,
{
    if a < b {
        lemma_token_run(s, a + 1, b);
    }
}

proof fn lemma_digits_run(s: Seq<char>, a: int, b: int)
    requires
        0 <= a <= b <= s.len(),
        forall|i: int| a <= i < b ==> #[trigger] is_digit(s[i]),
        b == s.len() || !is_digit(s[b]),
    ensures
        digits_end(s, a) == b,
    decreases b - a,
{
    if a < b {
        lemma_digits_run(s, a + 1, b);
    }
}

proof fn lemma_quote_run(s: Seq<char>, a: int, b: int)
    requires
        0 <= a <= b < s.len(),
        forall|i: int| a <= i < b ==> #[trigger] s[i] != '"',
        s[b] == '"',
    ensures
        quote_at_or_after(s, a) == Some(b),
    decreases b - a,
{
    if a < b {
        lemma_quote_run(s, a + 1, b);
    }
}

proof fn lemma_digits_value_frame(s: Seq<char>, a: int, b: int)
    requires
        0 <= a <= b <= s.len(),
    ensures
        digits_value(s, a, b) == digits_value(s.subrange(a, b), 0, b - a),
    decreases b - a,
{
    if a < b {
        lemma_digits_value_frame(s, a, b - 1);
        let t = s.subrange(a, b);
        assert(t.subrange(0, b - 1 - a) =~= s.subrange(a, b - 1));
        lemma_digits_value_frame(t, 0, b - 1 - a);
        assert(t[b - a - 1] == s[b - 1]);
    }
}

proof fn lemma_digit_char(d: nat)
    requires
        d < 10,
    ensures
        is_digit(digit_char(d)),
        digit_value(digit_char(d)) == d,
{
}

/// The decimal rendering of `n` is a non-empty run of digits that spells `n`.
proof fn lemma_decimal(n: nat)
    ensures
        decimal(n).len() > 0,
        forall|i: int| 0 <= i < decimal(n).len() ==> #[trigger] is_digit(decimal(n)[i]),
        digits_value(decimal(n), 0, decimal(n).len() as int) == n,
    decreases n,
{
    if n < 10 {
        lemma_digit_char(n);
        let e = decimal(n);
        assert(e == seq![digit_char(n)]);
        assert(digits_value(e, 0, 0) == 0);
        assert(digits_value(e, 0, 1) == digits_value(e, 0, 0) * 10 + digit_value(e[0]));
    } else {
        lemma_decimal(n / 10);
        lemma_digit_char(n % 10);
        let d = decimal(n / 10);
        let e = decimal(n);
        let l = d.len() as int;
        assert(e == d.push(digit_char(n % 10)));
        lemma_digits_value_frame(e, 0, l);
        assert(e.subrange(0, l) =~= d);
        assert(digits_value(e, 0, l) == n / 10);
        assert(digits_value(e, 0, l + 1) == digits_value(e, 0, l) * 10 + digit_value(e[l]));
        assert(e[l] == digit_char(n % 10));
        assert(n == (n / 10) * 10 + n % 10);
        assert forall|i: int| 0 <= i < e.len() implies #[trigger] is_digit(e[i]) by {
            if i < l {
                assert(e[i] == d[i]);
            }
        }
    }
}

/// Writing out a list of lenses: the first, then `, ` and the rest.
proof fn lemma_args_text_cons(args: Seq<LensView>)
    requires
        args.len() > 0,
    ensures
        args_text(args) == lens_text(args[0]) + (if args.len() == 1 {
            Seq::<char>::empty()
        } else {
            seq![',', ' '] + args_text(args.subrange(1, args.len() as int))
        }),
    decreases args.len(),
{
    let rest = args.subrange(1, args.len() as int);
    if args.len() == 1 {
        assert(lens_text(args[0]) + Seq::<char>::empty() =~= lens_text(args[0]));
    } else if args.len() == 2 {
        assert(args.drop_last().len() == 1);
        assert(args.drop_last()[0] == args[0]);
        assert(args_text(args.drop_last()) == lens_text(args[0]));
        assert(rest.len() == 1);
        assert(rest[0] == args[1]);
        assert(args_text(rest) == lens_text(args[1]));
        assert(args_text(args) == args_text(args.drop_last()) + seq![',', ' '] + lens_text(
            args.last(),
        ));
        assert(lens_text(args[0]) + seq![',', ' '] + lens_text(args[1]) =~= lens_text(args[0]) + (
        seq![',', ' '] + lens_text(args[1])));
    } else {
        let front = args.drop_last();
        lemma_args_text_cons(front);
        assert(rest.drop_last() =~= front.subrange(1, front.len() as int));
        assert(rest.last() == args.last());
        assert(front[0] == args[0]);
        assert(args_text(args) == args_text(front) + seq![',', ' '] + lens_text(args.last()));
        assert(args_text(rest) == args_text(rest.drop_last()) + seq![',', ' '] + lens_text(
            rest.last(),
        ));
        let a = lens_text(args[0]);
        let m = args_text(rest.drop_last());
        let z = lens_text(args.last());
        assert(a + (seq![',', ' '] + m) + seq![',', ' '] + z =~= a + (seq![',', ' '] + (m + seq![
            ',',
            ' ',
        ] + z)));
    }
}

/// A renderable lens renders to a non-empty text with a well-formed start.
proof fn lemma_text_start(l: LensView)
    requires
        renderable(l),
    ensures
        lens_text(l).len() > 0,
        starts_well(lens_text(l)[0]),
{
    match l {
        LensView::Integer(v) => {
            if v < 0 {
                lemma_decimal((-v) as nat);
            } else {
                lemma_decimal(v as nat);
                assert(is_digit(decimal(v as nat)[0]));
            }
        },
        _ => {},
    }
}

/// Reading an expression that is exactly one operand, followed by `,` or
/// `)`.
proof fn lemma_parse_expr_operand(s: Seq<char>, p: int, p0: int, l: LensView, n: int)
    requires
        0 <= p <= p0,
        skip_spaces(s, p) == p0,
        n > 0,
        p0 + n < s.len(),
        s[p0 + n] == ',' || s[p0 + n] == ')',
        parse_primary(s, p0) == Ok::<(LensView, int), int>((l, p0 + n)),
    ensures
        parse_expr(s, p) == Ok::<(LensView, int), int>((l, p0 + n)),
{
    let r = p0 + n;
    assert(skip_spaces(s, r) == r);
    assert(parse_tail(s, l, r) == Ok::<(LensView, int), int>((l, r)));
}

/// Reading a parenthesized binary expression whose two operands read back.
proof fn lemma_parse_binary(s: Seq<char>, p: int, o: char, a: LensView, b: LensView, na: int, nb: int)
    requires
        0 <= p,
        na > 0,
        nb > 0,
        is_operator(o),
        p + na + nb + 5 <= s.len(),
        s[p] == '(',
        s[p + 1 + na] == ' ',
        s[p + 2 + na] == o,
        s[p + 3 + na] == ' ',
        s[p + 4 + na + nb] == ')',
        !is_space(s[p + 1]),
        !is_space(s[p + 4 + na]),
        parse_primary(s, p + 1) == Ok::<(LensView, int), int>((a, p + 1 + na)),
        parse_primary(s, p + 4 + na) == Ok::<(LensView, int), int>((b, p + 4 + na + nb)),
    ensures
        parse_primary(s, p) == Ok::<(LensView, int), int>((combine(o, a, b), p + na + nb + 5)),
{
    let r = p + 1 + na;
    let w = p + 4 + na + nb;
    assert(skip_spaces(s, p + 1) == p + 1);
    assert(skip_spaces(s, r + 1) == r + 1);
    assert(skip_spaces(s, r) == r + 1);
    assert(skip_spaces(s, r + 3) == r + 3);
    assert(skip_spaces(s, r + 2) == r + 3);
    assert(skip_spaces(s, w) == w);
    assert(parse_tail(s, combine(o, a, b), w) == Ok::<(LensView, int), int>((combine(o, a, b), w)));
    assert(parse_tail(s, a, r) == Ok::<(LensView, int), int>((combine(o, a, b), w)));
    assert(parse_expr(s, p + 1) == Ok::<(LensView, int), int>((combine(o, a, b), w)));
}

proof fn lemma_parse_symbol_text(s: Seq<char>, p: int, x: Seq<char>)
    requires
        is_name(x),
        holds_at(s, p, x),
        closes_at(s, p + x.len()),
    ensures
        parse_primary(s, p) == Ok::<(LensView, int), int>((LensView::Symbol(x), p + x.len())),
{
    let n = x.len() as int;
    lemma_holds_char(s, p, x, 0);
    assert forall|i: int| p + 1 <= i < p + n implies #[trigger] is_name_char(s[i]) by {
        lemma_holds_char(s, p, x, i - p);
    }
    lemma_name_run(s, p + 1, p + n);
}

proof fn lemma_parse_str_text(s: Seq<char>, p: int, x: Seq<char>)
    requires
        forall|i: int| 0 <= i < x.len() ==> #[trigger] x[i] != '"',
        holds_at(s, p, lens_text(LensView::Str(x))),
    ensures
        parse_primary(s, p) == Ok::<(LensView, int), int>((LensView::Str(x), p + x.len() + 2)),
{
    let t = lens_text(LensView::Str(x));
    let n = t.len() as int;
    assert(t == seq!['"'] + x + seq!['"']);
    lemma_holds_char(s, p, t, 0);
    assert forall|i: int| p + 1 <= i < p + 1 + x.len() implies #[trigger] s[i] != '"' by {
        lemma_holds_char(s, p, t, i - p);
        assert(t[i - p] == x[i - p - 1]);
    }
    lemma_holds_char(s, p, t, n - 1);
    lemma_quote_run(s, p + 1, p + 1 + x.len());
    lemma_holds_part(s, p, t, 1, 1 + x.len() as int);
    assert(t.subrange(1, 1 + x.len() as int) =~= x);
}

proof fn lemma_parse_ref_text(s: Seq<char>, p: int, x: Seq<char>)
    requires
        x.len() > 0,
        forall|i: int| 0 <= i < x.len() ==> #[trigger] is_token_char(x[i]),
        holds_at(s, p, lens_text(LensView::Ref(x))),
        closes_at(s, p + x.len() + 1),
    ensures
        parse_primary(s, p) == Ok::<(LensView, int), int>((LensView::Ref(x), p + x.len() + 1)),
{
    let t = lens_text(LensView::Ref(x));
    let n = t.len() as int;
    assert(t == seq!['@'] + x);
    lemma_holds_char(s, p, t, 0);
    assert forall|i: int| p + 1 <= i < p + n implies #[trigger] is_token_char(s[i]) by {
        lemma_holds_char(s, p, t, i - p);
        assert(t[i - p] == x[i - p - 1]);
    }
    lemma_token_run(s, p + 1, p + n);
    lemma_holds_part(s, p, t, 1, n);
    assert(t.subrange(1, n) =~= x);
}

proof fn lemma_parse_integer_text(s: Seq<char>, p: int, v: i64)
    requires
        holds_at(s, p, signed_decimal(v as int)),
        closes_at(s, p + signed_decimal(v as int).len()),
    ensures
        parse_primary(s, p) == Ok::<(LensView, int), int>(
            (LensView::Integer(v), p + signed_decimal(v as int).len()),
        ),
{
    let t = signed_decimal(v as int);
    let n = t.len() as int;
    let mag: nat = if v < 0 {
        (-v) as nat
    } else {
        v as nat
    };
    let d = decimal(mag);
    lemma_decimal(mag);
    let ds = if v < 0 {
        p + 1
    } else {
        p
    };
    assert(ds + d.len() == p + n);
    assert(holds_at(s, ds, d)) by {
        if v < 0 {
            lemma_holds_part(s, p, t, 1, n);
            assert(t.subrange(1, n) =~= d);
        } else {
            assert(t =~= d);
        }
    }
    lemma_holds_char(s, p, t, 0);
    if v >= 0 {
        assert(is_digit(d[0]));
    }
    assert forall|i: int| ds <= i < p + n implies #[trigger] is_digit(s[i]) by {
        lemma_holds_char(s, ds, d, i - ds);
    }
    lemma_digits_run(s, ds, p + n);
    lemma_digits_value_frame(s, ds, p + n);
    assert(s.subrange(ds, p + n) == d);
}

/// Where the parts of a rendered predicate stand.
proof fn lemma_predicate_layout(s: Seq<char>, p: int, name: Seq<char>, args: Seq<LensView>)
    requires
        is_name(name),
        args_renderable(args),
        holds_at(s, p, lens_text(LensView::Predicate(name, args))),
    ensures
        ({
            let e = p + name.len();
            let m = args_text(args).len() as int;
            &&& name_end(s, p + 1) == e
            &&& p < s.len()
            &&& s[p] == name[0]
            &&& e + m + 1 < s.len()
            &&& s[e] == '('
            &&& s.subrange(p, e) == name
            &&& s[e + m + 1] == ')'
            &&& holds_at(s, e + 1, args_text(args))
            &&& skip_spaces(s, e + 1) == e + 1
            &&& (args.len() == 0 ==> parse_args(s, e + 1) == Ok::<(Seq<LensView>, int), int>(
                (args, e + 2),
            ))
            &&& (args.len() > 0 ==> parse_args(s, e + 1) == parse_arg_list(s, e + 1))
        }),
{
    let t = lens_text(LensView::Predicate(name, args));
    let k = name.len() as int;
    let at = args_text(args);
    let m = at.len() as int;
    let e = p + k;
    assert(t == name + seq!['('] + at + seq![')']);
    lemma_holds_char(s, p, t, 0);
    assert forall|i: int| p + 1 <= i < p + k implies #[trigger] is_name_char(s[i]) by {
        lemma_holds_char(s, p, t, i - p);
    }
    lemma_holds_char(s, p, t, k);
    lemma_name_run(s, p + 1, p + k);
    lemma_holds_part(s, p, t, 0, k);
    assert(t.subrange(0, k) =~= name);
    lemma_holds_char(s, p, t, k + 1 + m);
    lemma_holds_part(s, p, t, k + 1, k + 1 + m);
    assert(t.subrange(k + 1, k + 1 + m) =~= at);
    if args.len() == 0 {
        assert(args =~= Seq::<LensView>::empty());
        assert(s[e + 1] == ')');
        assert(skip_spaces(s, e + 1) == e + 1);
    } else {
        lemma_args_text_cons(args);
        assert(renderable(args[0]));
        lemma_text_start(args[0]);
        lemma_holds_char(s, e + 1, at, 0);
        assert(skip_spaces(s, e + 1) == e + 1);
    }
}

/// A renderable lens written at `p`, and followed by what may follow it,
/// reads back as itself, ending where its text ends.
proof fn lemma_parse_primary_text(s: Seq<char>, p: int, l: LensView)
    requires
        renderable(l),
        holds_at(s, p, lens_text(l)),
        closes_at(s, p + lens_text(l).len()),
    ensures
        parse_primary(s, p) == Ok::<(LensView, int), int>((l, p + lens_text(l).len())),
    decreases l, 0int,
{
    match l {
        LensView::Symbol(x) => {
            lemma_parse_symbol_text(s, p, x);
        },
        LensView::Str(x) => {
            lemma_parse_str_text(s, p, x);
        },
        LensView::Ref(x) => {
            lemma_parse_ref_text(s, p, x);
        },
        LensView::Integer(v) => {
            lemma_parse_integer_text(s, p, v);
        },
        LensView::Predicate(name, args) => {
            lemma_predicate_layout(s, p, name, args);
            let e = p + name.len();
            if args.len() > 0 {
                lemma_parse_arg_list_text(s, e + 1, e + 1, args);
            }
            lemma_parse_predicate(s, p, name, args);
        },
        LensView::Union(a, b) => {
            lemma_operand_layout(s, p, '|', *a, *b);
            lemma_parse_primary_text(s, p + 1, *a);
            lemma_parse_primary_text(s, p + 4 + lens_text(*a).len(), *b);
            lemma_parse_binary(s, p, '|', *a, *b, lens_text(*a).len() as int, lens_text(*b).len() as int);
        },
        LensView::Intersection(a, b) => {
            lemma_operand_layout(s, p, '&', *a, *b);
            lemma_parse_primary_text(s, p + 1, *a);
            lemma_parse_primary_text(s, p + 4 + lens_text(*a).len(), *b);
            lemma_parse_binary(s, p, '&', *a, *b, lens_text(*a).len() as int, lens_text(*b).len() as int);
        },
        LensView::Difference(a, b) => {
            lemma_operand_layout(s, p, '~', *a, *b);
            lemma_parse_primary_text(s, p + 1, *a);
            lemma_parse_primary_text(s, p + 4 + lens_text(*a).len(), *b);
            lemma_parse_binary(s, p, '~', *a, *b, lens_text(*a).len() as int, lens_text(*b).len() as int);
        },
    }
}

/// Reading a predicate whose name and argument list read back.
proof fn lemma_parse_predicate(s: Seq<char>, p: int, name: Seq<char>, args: Seq<LensView>)
    requires
        is_name(name),
        0 <= p < s.len(),
        s[p] == name[0],
        name_end(s, p + 1) == p + name.len(),
        p + name.len() < s.len(),
        s[p + name.len()] == '(',
        s.subrange(p, p + name.len()) == name,
        parse_args(s, p + name.len() + 1) == Ok::<(Seq<LensView>, int), int>(
            (args, p + name.len() + args_text(args).len() + 2),
        ),
    ensures
        parse_primary(s, p) == Ok::<(LensView, int), int>(
            (LensView::Predicate(name, args), p + name.len() + args_text(args).len() + 2),
        ),
{
}

/// Where the parts of a rendered binary expression stand.
proof fn lemma_operand_layout(s: Seq<char>, p: int, o: char, a: LensView, b: LensView)
    requires
        renderable(a),
        renderable(b),
        holds_at(
            s,
            p,
            seq!['('] + lens_text(a) + seq![' ', o, ' '] + lens_text(b) + seq![')'],
        ),
    ensures
        lens_text(a).len() > 0,
        lens_text(b).len() > 0,
        p + lens_text(a).len() + lens_text(b).len() + 5 <= s.len(),
        holds_at(s, p + 1, lens_text(a)),
        closes_at(s, p + 1 + lens_text(a).len()),
        holds_at(s, p + 4 + lens_text(a).len(), lens_text(b)),
        closes_at(s, p + 4 + lens_text(a).len() + lens_text(b).len()),
        s[p] == '(',
        s[p + 1 + lens_text(a).len()] == ' ',
        s[p + 2 + lens_text(a).len()] == o,
        s[p + 3 + lens_text(a).len()] == ' ',
        s[p + 4 + lens_text(a).len() + lens_text(b).len()] == ')',
        !is_space(s[p + 1]),
        !is_space(s[p + 4 + lens_text(a).len()]),
{
    let ta = lens_text(a);
    let tb = lens_text(b);
    let na = ta.len() as int;
    let nb = tb.len() as int;
    let t = seq!['('] + ta + seq![' ', o, ' '] + tb + seq![')'];
    lemma_text_start(a);
    lemma_text_start(b);
    lemma_holds_char(s, p, t, 0);
    lemma_holds_char(s, p, t, 1);
    lemma_holds_char(s, p, t, 1 + na);
    lemma_holds_char(s, p, t, 2 + na);
    lemma_holds_char(s, p, t, 3 + na);
    lemma_holds_char(s, p, t, 4 + na);
    lemma_holds_char(s, p, t, 4 + na + nb);
    lemma_holds_part(s, p, t, 1, 1 + na);
    assert(t.subrange(1, 1 + na) =~= ta);
    lemma_holds_part(s, p, t, 4 + na, 4 + na + nb);
    assert(t.subrange(4 + na, 4 + na + nb) =~= tb);
}

/// A non-empty list of renderable lenses written at `p0` (after spaces
/// from `p`) and closed by `)` reads back as itself.
proof fn lemma_parse_arg_list_text(s: Seq<char>, p: int, p0: int, args: Seq<LensView>)
    requires
        args.len() > 0,
        args_renderable(args),
        0 <= p <= p0,
        skip_spaces(s, p) == p0,
        holds_at(s, p0, args_text(args)),
        p0 + args_text(args).len() < s.len(),
        s[p0 + args_text(args).len()] == ')',
    ensures
        parse_arg_list(s, p) == Ok::<(Seq<LensView>, int), int>(
            (args, p0 + args_text(args).len() + 1),
        ),
    decreases args, 2int,
{
    let at = args_text(args);
    let m = at.len() as int;
    let a0 = args[0];
    let rest = args.subrange(1, args.len() as int);
    let t0 = lens_text(a0);
    let n0 = t0.len() as int;
    lemma_args_text_cons(args);
    assert(renderable(a0) && args_renderable(rest));
    lemma_text_start(a0);
    lemma_holds_part(s, p0, at, 0, n0);
    assert(at.subrange(0, n0) =~= t0);
    if rest.len() == 0 {
        assert(m == n0);
    } else {
        lemma_holds_char(s, p0, at, n0);
    }
    lemma_parse_primary_text(s, p0, a0);
    lemma_parse_expr_operand(s, p, p0, a0, n0);
    let q = p0 + n0;
    assert(skip_spaces(s, q) == q);
    if rest.len() == 0 {
        assert(seq![a0] =~= args);
    } else {
        let rt = args_text(rest);
        lemma_args_text_cons(rest);
        assert(renderable(rest[0]));
        lemma_text_start(rest[0]);
        lemma_holds_char(s, p0, at, n0 + 1);
        lemma_holds_part(s, p0, at, n0 + 2, m);
        assert(at.subrange(n0 + 2, m) =~= rt);
        lemma_holds_char(s, q + 2, rt, 0);
        assert(skip_spaces(s, q + 2) == q + 2);
        assert(skip_spaces(s, q + 1) == q + 2);
        lemma_parse_arg_list_text(s, q + 1, q + 2, rest);
        assert(seq![a0] + rest =~= args);
    }
}

/// Rendering a lens and parsing the text gives the lens back, for every
/// lens the text form can write.
pub proof fn rendered_text_parses_back(l: LensView)
    requires
        renderable(l),
    ensures
        parse_text(lens_text(l)) == Ok::<LensView, int>(l),
{
    let s = lens_text(l);
    let n = s.len() as int;
    lemma_text_start(l);
    assert(s.subrange(0, n) =~= s);
    lemma_parse_primary_text(s, 0, l);
    assert(skip_spaces(s, 0) == 0);
    assert(skip_spaces(s, n) == n);
    assert(parse_tail(s, l, n) == Ok::<(LensView, int), int>((l, n)));
}

} // verus!
