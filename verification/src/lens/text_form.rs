//! The textual form of lens expressions: rendering and parsing.
//!
//! ```text
//! expr      := primary (op primary)*          left-associative, op in | & ~
//! primary   := '(' expr ')' | string | ref | integer | name [ '(' args ')' ]
//! args      := ε | expr (',' expr)*
//! string    := '"' any character but '"' * '"'
//! ref       := '@' token-character+
//! integer   := '-'? digit+                    within the 64-bit signed range
//! name      := letter-or-underscore name-character*
//! ```
//!
//! Spaces, tabs and line breaks may stand between the parts of an
//! expression. Rendering writes a binary operator as `(left op right)` and
//! a predicate as `name(arg, arg)`.
use vstd::prelude::*;

use crate::lens::ast::{
    lemma_models_index, lemma_models_len, models, Identifier, IntegerLiteral, Lens, LensView,
    Predicate, PredicateName, Ref, RefToken, StringLiteral,
};
use crate::text::{push_signed_decimal, push_str, signed_decimal};

verus! {

pub open spec fn is_space(c: char) -> bool {
    c == ' ' || c == '\t' || c == '\n' || c == '\r'
}

pub open spec fn is_letter(c: char) -> bool {
    ('a' <= c && c <= 'z') || ('A' <= c && c <= 'Z')
}

pub open spec fn is_digit(c: char) -> bool {
    '0' <= c && c <= '9'
}

pub open spec fn is_name_start(c: char) -> bool {
    is_letter(c) || c == '_'
}

pub open spec fn is_name_char(c: char) -> bool {
    is_name_start(c) || is_digit(c) || c == '.' || c == '-'
}

pub open spec fn is_token_char(c: char) -> bool {
    is_name_char(c) || c == ':' || c == '/'
}

pub open spec fn is_operator(c: char) -> bool {
    c == '|' || c == '&' || c == '~'
}

/// The text of a lens.
pub open spec fn lens_text(l: LensView) -> Seq<char>
    decreases l,
{
    match l {
        LensView::Symbol(s) => s,
        LensView::Str(s) => seq!['"'] + s + seq!['"'],
        LensView::Ref(s) => seq!['@'] + s,
        LensView::Integer(n) => signed_decimal(n as int),
        LensView::Predicate(name, args) => name + seq!['('] + args_text(args) + seq![')'],
        LensView::Union(a, b) => seq!['('] + lens_text(*a) + seq![' ', '|', ' '] + lens_text(*b)
            + seq![')'],
        LensView::Intersection(a, b) => seq!['('] + lens_text(*a) + seq![' ', '&', ' ']
            + lens_text(*b) + seq![')'],
        LensView::Difference(a, b) => seq!['('] + lens_text(*a) + seq![' ', '~', ' '] + lens_text(
            *b,
        ) + seq![')'],
    }
}

/// The texts of a list of lenses, separated by `, `.
pub open spec fn args_text(s: Seq<LensView>) -> Seq<char>
    decreases s,
{
    if s.len() == 0 {
        Seq::empty()
    } else if s.len() == 1 {
        lens_text(s[0])
    } else {
        args_text(s.drop_last()) + seq![',', ' '] + lens_text(s.last())
    }
}

/// The first position at or after `p` that is not a space.
pub open spec fn skip_spaces(s: Seq<char>, p: int) -> int
    decreases s.len() - p,
{
    if 0 <= p < s.len() && is_space(s[p]) {
        skip_spaces(s, p + 1)
    } else {
        p
    }
}

/// The end of the run of name characters starting at `p`.
pub open spec fn name_end(s: Seq<char>, p: int) -> int
    decreases s.len() - p,
{
    if 0 <= p < s.len() && is_name_char(s[p]) {
        name_end(s, p + 1)
    } else {
        p
    }
}

/// The end of the run of token characters starting at `p`.
pub open spec fn token_end(s: Seq<char>, p: int) -> int
    decreases s.len() - p,
{
    if 0 <= p < s.len() && is_token_char(s[p]) {
        token_end(s, p + 1)
    } else {
        p
    }
}

/// The end of the run of digits starting at `p`.
pub open spec fn digits_end(s: Seq<char>, p: int) -> int
    decreases s.len() - p,
{
    if 0 <= p < s.len() && is_digit(s[p]) {
        digits_end(s, p + 1)
    } else {
        p
    }
}

/// The position of the first `"` at or after `p`.
pub open spec fn quote_at_or_after(s: Seq<char>, p: int) -> Option<int>
    decreases s.len() - p,
{
    if p < 0 || p >= s.len() {
        None
    } else if s[p] == '"' {
        Some(p)
    } else {
        quote_at_or_after(s, p + 1)
    }
}

/// The value of a digit character.
pub open spec fn digit_value(c: char) -> nat {
    ((c as int) - ('0' as int)) as nat
}

/// The number the digits from `a` up to `b` spell.
pub open spec fn digits_value(s: Seq<char>, a: int, b: int) -> nat
    decreases b - a,
{
    if b <= a {
        0
    } else {
        digits_value(s, a, b - 1) * 10 + digit_value(s[b - 1])
    }
}

pub proof fn lemma_skip_bounds(s: Seq<char>, p: int)
    requires
        0 <= p <= s.len(),
    ensures
        p <= skip_spaces(s, p) <= s.len(),
    decreases s.len() - p,
{
    if 0 <= p < s.len() && is_space(s[p]) {
        lemma_skip_bounds(s, p + 1);
    }
}

pub proof fn lemma_name_end_bounds(s: Seq<char>, p: int)
    requires
        0 <= p <= s.len(),
    ensures
        p <= name_end(s, p) <= s.len(),
    decreases s.len() - p,
{
    if 0 <= p < s.len() && is_name_char(s[p]) {
        lemma_name_end_bounds(s, p + 1);
    }
}

/// A binary operator applied to two lenses.
pub open spec fn combine(op: char, a: LensView, b: LensView) -> LensView {
    if op == '|' {
        LensView::Union(Box::new(a), Box::new(b))
    } else if op == '&' {
        LensView::Intersection(Box::new(a), Box::new(b))
    } else {
        LensView::Difference(Box::new(a), Box::new(b))
    }
}

/// An expression starting at `p` (after optional spaces): the lens and the
/// position after it, or the position where parsing failed.
pub open spec fn parse_expr(s: Seq<char>, p: int) -> Result<(LensView, int), int>
    decreases s.len() - p, 2int,
{
    if p < 0 || p > s.len() {
        Err(p)
    } else {
        let q = skip_spaces(s, p);
        proof {
            lemma_skip_bounds(s, p);
        }
        match parse_primary(s, q) {
            Err(e) => Err(e),
            Ok((l, r)) => if r <= p || r > s.len() {
                Err(r)
            } else {
                parse_tail(s, l, r)
            },
        }
    }
}

/// The operators and operands following an operand `acc` that ends at `q`.
pub open spec fn parse_tail(s: Seq<char>, acc: LensView, q: int) -> Result<(LensView, int), int>
    decreases s.len() - q, 5int,
{
    if q < 0 || q > s.len() {
        Err(q)
    } else {
        let t = skip_spaces(s, q);
        if t < s.len() && is_operator(s[t]) {
            let u = skip_spaces(s, t + 1);
            proof {
                lemma_skip_bounds(s, q);
                lemma_skip_bounds(s, t + 1);
            }
            match parse_primary(s, u) {
                Err(e) => Err(e),
                Ok((r, w)) => if w <= q || w > s.len() {
                    Err(w)
                } else {
                    parse_tail(s, combine(s[t], acc, r), w)
                },
            }
        } else {
            Ok((acc, q))
        }
    }
}

/// A single operand starting exactly at `p`.
pub open spec fn parse_primary(s: Seq<char>, p: int) -> Result<(LensView, int), int>
    decreases s.len() - p, 1int,
{
    if p < 0 || p >= s.len() {
        Err(p)
    } else {
        let c = s[p];
        if c == '(' {
            match parse_expr(s, p + 1) {
                Err(e) => Err(e),
                Ok((e, q)) => {
                    let t = skip_spaces(s, q);
                    if t < s.len() && s[t] == ')' {
                        Ok((e, t + 1))
                    } else {
                        Err(t)
                    }
                },
            }
        } else if c == '"' {
            match quote_at_or_after(s, p + 1) {
                None => Err(s.len() as int),
                Some(j) => Ok((LensView::Str(s.subrange(p + 1, j)), j + 1)),
            }
        } else if c == '@' {
            let e = token_end(s, p + 1);
            if e == p + 1 {
                Err(p + 1)
            } else {
                Ok((LensView::Ref(s.subrange(p + 1, e)), e))
            }
        } else if c == '-' || is_digit(c) {
            let negative = c == '-';
            let ds = if negative {
                p + 1
            } else {
                p
            };
            let de = digits_end(s, ds);
            if de == ds {
                Err(ds)
            } else {
                let magnitude = digits_value(s, ds, de);
                let value: int = if negative {
                    -magnitude
                } else {
                    magnitude as int
                };
                if i64::MIN <= value <= i64::MAX {
                    Ok((LensView::Integer(value as i64), de))
                } else {
                    Err(p)
                }
            }
        } else if is_name_start(c) {
            let e = name_end(s, p + 1);
            let name = s.subrange(p, e);
            proof {
                lemma_name_end_bounds(s, p + 1);
            }
            if e < s.len() && s[e] == '(' {
                match parse_args(s, e + 1) {
                    Err(err) => Err(err),
                    Ok((args, q)) => Ok((LensView::Predicate(name, args), q)),
                }
            } else {
                Ok((LensView::Symbol(name), e))
            }
        } else {
            Err(p)
        }
    }
}

/// A parenthesized argument list whose `(` was just read.
pub open spec fn parse_args(s: Seq<char>, p: int) -> Result<(Seq<LensView>, int), int>
    decreases s.len() - p, 4int,
{
    if p < 0 || p > s.len() {
        Err(p)
    } else {
        let t = skip_spaces(s, p);
        proof {
            lemma_skip_bounds(s, p);
        }
        if t < s.len() && s[t] == ')' {
            Ok((Seq::empty(), t + 1))
        } else {
            parse_arg_list(s, t)
        }
    }
}

/// One or more arguments separated by `,` and closed by `)`.
pub open spec fn parse_arg_list(s: Seq<char>, p: int) -> Result<(Seq<LensView>, int), int>
    decreases s.len() - p, 3int,
{
    if p < 0 || p > s.len() {
        Err(p)
    } else {
        match parse_expr(s, p) {
            Err(e) => Err(e),
            Ok((e, q)) => if q <= p || q > s.len() {
                Err(q)
            } else {
                let t = skip_spaces(s, q);
                proof {
                    lemma_skip_bounds(s, q);
                }
                if t < s.len() && s[t] == ',' {
                    match parse_arg_list(s, t + 1) {
                        Err(err) => Err(err),
                        Ok((rest, r)) => Ok((seq![e] + rest, r)),
                    }
                } else if t < s.len() && s[t] == ')' {
                    Ok((seq![e], t + 1))
                } else {
                    Err(t)
                }
            },
        }
    }
}

/// The lens a whole text spells, or the position where it stops making
/// sense.
pub open spec fn parse_text(s: Seq<char>) -> Result<LensView, int> {
    match parse_expr(s, 0) {
        Err(e) => Err(e),
        Ok((l, q)) => {
            let t = skip_spaces(s, q);
            if t == s.len() {
                Ok(l)
            } else {
                Err(t)
            }
        },
    }
}

/// Why a text is not a lens expression: the character position where it
/// stops making sense.
#[derive(Debug)]
pub struct LensParseError {
    pub position: usize,
}

impl LensParseError {
    /// The human-readable description of this error.
    pub fn message(&self) -> (r: String)
        ensures
            r@ == "unexpected input at position "@ + crate::text::decimal(self.position as nat),
    {
        let mut s = String::new();
        push_str(&mut s, "unexpected input at position ");
        crate::text::push_decimal(&mut s, self.position as u64);
        s
    }
}

fn char_is_space(c: char) -> (r: bool)
    ensures
        r == is_space(c),
{
    c == ' ' || c == '\t' || c == '\n' || c == '\r'
}

fn char_is_digit(c: char) -> (r: bool)
    ensures
        r == is_digit(c),
{
    '0' <= c && c <= '9'
}

fn char_is_name_start(c: char) -> (r: bool)
    ensures
        r == is_name_start(c),
{
    ('a' <= c && c <= 'z') || ('A' <= c && c <= 'Z') || c == '_'
}

fn char_is_name_char(c: char) -> (r: bool)
    ensures
        r == is_name_char(c),
{
    char_is_name_start(c) || char_is_digit(c) || c == '.' || c == '-'
}

fn char_is_token_char(c: char) -> (r: bool)
    ensures
        r == is_token_char(c),
{
    char_is_name_char(c) || c == ':' || c == '/'
}

fn skip(s: &Vec<char>, p: usize) -> (r: usize)
    requires
        p <= s@.len(),
    ensures
        r == skip_spaces(s@, p as int),
        p <= r <= s@.len(),
    decreases s@.len() - p,
{
    if p < s.len() && char_is_space(s[p]) {
        skip(s, p + 1)
    } else {
        p
    }
}

fn scan_name(s: &Vec<char>, p: usize) -> (r: usize)
    requires
        p <= s@.len(),
    ensures
        r == name_end(s@, p as int),
        p <= r <= s@.len(),
    decreases s@.len() - p,
{
    if p < s.len() && char_is_name_char(s[p]) {
        scan_name(s, p + 1)
    } else {
        p
    }
}

fn scan_token(s: &Vec<char>, p: usize) -> (r: usize)
    requires
        p <= s@.len(),
    ensures
        r == token_end(s@, p as int),
        p <= r <= s@.len(),
    decreases s@.len() - p,
{
    if p < s.len() && char_is_token_char(s[p]) {
        scan_token(s, p + 1)
    } else {
        p
    }
}

fn scan_digits(s: &Vec<char>, p: usize) -> (r: usize)
    requires
        p <= s@.len(),
    ensures
        r == digits_end(s@, p as int),
        p <= r <= s@.len(),
    decreases s@.len() - p,
{
    if p < s.len() && char_is_digit(s[p]) {
        scan_digits(s, p + 1)
    } else {
        p
    }
}

fn find_quote(s: &Vec<char>, p: usize) -> (r: Option<usize>)
    requires
        p <= s@.len(),
    ensures
        match quote_at_or_after(s@, p as int) {
            Some(j) => r == Some(j as usize) && p <= j < s@.len(),
            None => r is None,
        },
    decreases s@.len() - p,
{
    if p >= s.len() {
        None
    } else if s[p] == '"' {
        Some(p)
    } else {
        find_quote(s, p + 1)
    }
}

fn chars_between(s: &Vec<char>, a: usize, b: usize) -> (r: String)
    requires
        a <= b <= s@.len(),
    ensures
        r@ == s@.subrange(a as int, b as int),
{
    let mut out = String::new();
    let mut i = a;
    while i < b
        invariant
            a <= i <= b <= s@.len(),
            out@ == s@.subrange(a as int, i as int),
        decreases b - i,
    {
        out.push(s[i]);
        proof {
            assert(s@.subrange(a as int, i + 1) =~= s@.subrange(a as int, i as int).push(s@[i as int]));
        }
        i += 1;
    }
    out
}

proof fn lemma_digits_value_grows(s: Seq<char>, a: int, b: int)
    requires
        a <= b,
    ensures
        digits_value(s, a, b + 1) >= digits_value(s, a, b),
{
}

/// The magnitude bound of a 64-bit signed integer.
spec fn magnitude_limit() -> nat {
    0x8000_0000_0000_0000
}

/// The value of the digits from `a` up to `b`, if it is at most `2^63`.
fn digits_magnitude(s: &Vec<char>, a: usize, b: usize) -> (r: Option<u64>)
    requires
        a <= b <= s@.len(),
        forall|i: int| a <= i < b ==> is_digit(#[trigger] s@[i]),
    ensures
        match r {
            Some(v) => v == digits_value(s@, a as int, b as int) && v <= magnitude_limit(),
            None => digits_value(s@, a as int, b as int) > magnitude_limit(),
        },
{
    let mut acc: u64 = 0;
    let mut over = false;
    let mut i = a;
    while i < b
        invariant
            a <= i <= b <= s@.len(),
            forall|j: int| a <= j < b ==> is_digit(#[trigger] s@[j]),
            !over ==> acc == digits_value(s@, a as int, i as int) && acc <= magnitude_limit(),
            over ==> digits_value(s@, a as int, i as int) > magnitude_limit(),
        decreases b - i,
    {
        let c = s[i];
        assert(is_digit(c));
        let d: u64 = (c as u32 - '0' as u32) as u64;
        proof {
            assert(d == digit_value(c));
            lemma_digits_value_grows(s@, a as int, i as int);
        }
        if !over {
            let next: u128 = (acc as u128) * 10 + (d as u128);
            if next <= 0x8000_0000_0000_0000u128 {
                acc = next as u64;
            } else {
                over = true;
            }
        }
        i += 1;
    }
    if over {
        None
    } else {
        Some(acc)
    }
}

fn parse_expr_at(s: &Vec<char>, p: usize) -> (r: Result<(Lens, usize), usize>)
    requires
        p <= s@.len(),
    ensures
        match parse_expr(s@, p as int) {
            Ok((l, q)) => r is Ok && r->Ok_0.0@ == l && r->Ok_0.1 == q,
            Err(e) => r is Err && r->Err_0 == e,
        },
        r is Ok ==> r->Ok_0.1 <= s@.len(),
    decreases s@.len() - p, 2int,
{
    let q = skip(s, p);
    match parse_primary_at(s, q) {
        Err(e) => Err(e),
        Ok((l, r)) => {
            if r <= p || r > s.len() {
                Err(r)
            } else {
                parse_tail_at(s, l, r)
            }
        },
    }
}

fn parse_tail_at(s: &Vec<char>, acc: Lens, q: usize) -> (r: Result<(Lens, usize), usize>)
    requires
        q <= s@.len(),
    ensures
        match parse_tail(s@, acc@, q as int) {
            Ok((l, w)) => r is Ok && r->Ok_0.0@ == l && r->Ok_0.1 == w,
            Err(e) => r is Err && r->Err_0 == e,
        },
        r is Ok ==> r->Ok_0.1 <= s@.len(),
    decreases s@.len() - q, 5int,
{
    let t = skip(s, q);
    if t < s.len() && (s[t] == '|' || s[t] == '&' || s[t] == '~') {
        let u = skip(s, t + 1);
        match parse_primary_at(s, u) {
            Err(e) => Err(e),
            Ok((right, w)) => {
                if w <= q || w > s.len() {
                    Err(w)
                } else {
                    let op = s[t];
                    let combined = if op == '|' {
                        Lens::union(acc, right)
                    } else if op == '&' {
                        Lens::intersection(acc, right)
                    } else {
                        Lens::difference(acc, right)
                    };
                    parse_tail_at(s, combined, w)
                }
            },
        }
    } else {
        Ok((acc, q))
    }
}

fn parse_primary_at(s: &Vec<char>, p: usize) -> (r: Result<(Lens, usize), usize>)
    requires
        p <= s@.len(),
    ensures
        match parse_primary(s@, p as int) {
            Ok((l, q)) => r is Ok && r->Ok_0.0@ == l && r->Ok_0.1 == q,
            Err(e) => r is Err && r->Err_0 == e,
        },
        r is Ok ==> r->Ok_0.1 <= s@.len(),
    decreases s@.len() - p, 1int,
{
    if p >= s.len() {
        return Err(p);
    }
    let c = s[p];
    if c == '(' {
        match parse_expr_at(s, p + 1) {
            Err(e) => Err(e),
            Ok((e, q)) => {
                let t = skip(s, q);
                if t < s.len() && s[t] == ')' {
                    Ok((e, t + 1))
                } else {
                    Err(t)
                }
            },
        }
    } else if c == '"' {
        match find_quote(s, p + 1) {
            None => Err(s.len()),
            Some(j) => Ok((Lens::String(StringLiteral(chars_between(s, p + 1, j))), j + 1)),
        }
    } else if c == '@' {
        let e = scan_token(s, p + 1);
        if e == p + 1 {
            Err(p + 1)
        } else {
            Ok((Lens::Ref(RefToken(Ref(chars_between(s, p + 1, e)))), e))
        }
    } else if c == '-' || char_is_digit(c) {
        let negative = c == '-';
        let ds = if negative {
            p + 1
        } else {
            p
        };
        let de = scan_digits(s, ds);
        if de == ds {
            return Err(ds);
        }
        proof {
            lemma_digits_run(s@, ds as int);
        }
        match digits_magnitude(s, ds, de) {
            None => Err(p),
            Some(magnitude) => {
                if negative {
                    let value: i128 = -(magnitude as i128);
                    Ok((Lens::Integer(IntegerLiteral(value as i64)), de))
                } else if magnitude <= i64::MAX as u64 {
                    Ok((Lens::Integer(IntegerLiteral(magnitude as i64)), de))
                } else {
                    Err(p)
                }
            },
        }
    } else if char_is_name_start(c) {
        let e = scan_name(s, p + 1);
        let name = chars_between(s, p, e);
        if e < s.len() && s[e] == '(' {
            match parse_args_at(s, e + 1) {
                Err(err) => Err(err),
                Ok((args, q)) => Ok((Lens::Predicate(Predicate { name: PredicateName(name), args }), q)),
            }
        } else {
            Ok((Lens::Symbol(Identifier(name)), e))
        }
    } else {
        Err(p)
    }
}

proof fn lemma_digits_run(s: Seq<char>, p: int)
    requires
        0 <= p <= s.len(),
    ensures
        p <= digits_end(s, p) <= s.len(),
        forall|i: int| p <= i < digits_end(s, p) ==> is_digit(#[trigger] s[i]),
    decreases s.len() - p,
{
    if p < s.len() && is_digit(s[p]) {
        lemma_digits_run(s, p + 1);
    }
}

fn parse_args_at(s: &Vec<char>, p: usize) -> (r: Result<(Vec<Lens>, usize), usize>)
    requires
        p <= s@.len(),
    ensures
        match parse_args(s@, p as int) {
            Ok((args, q)) => r is Ok && models(r->Ok_0.0@) == args && r->Ok_0.1 == q,
            Err(e) => r is Err && r->Err_0 == e,
        },
        r is Ok ==> r->Ok_0.1 <= s@.len(),
    decreases s@.len() - p, 4int,
{
    let t = skip(s, p);
    if t < s.len() && s[t] == ')' {
        let empty: Vec<Lens> = Vec::new();
        proof {
            assert(models(empty@) =~= Seq::<LensView>::empty());
        }
        Ok((empty, t + 1))
    } else {
        parse_arg_list_at(s, t)
    }
}

fn parse_arg_list_at(s: &Vec<char>, p: usize) -> (r: Result<(Vec<Lens>, usize), usize>)
    requires
        p <= s@.len(),
    ensures
        match parse_arg_list(s@, p as int) {
            Ok((args, q)) => r is Ok && models(r->Ok_0.0@) == args && r->Ok_0.1 == q,
            Err(e) => r is Err && r->Err_0 == e,
        },
        r is Ok ==> r->Ok_0.1 <= s@.len(),
    decreases s@.len() - p, 3int,
{
    match parse_expr_at(s, p) {
        Err(e) => Err(e),
        Ok((e, q)) => {
            if q <= p || q > s.len() {
                return Err(q);
            }
            let t = skip(s, q);
            if t < s.len() && s[t] == ',' {
                match parse_arg_list_at(s, t + 1) {
                    Err(err) => Err(err),
                    Ok((rest, r)) => {
                        let mut args = rest;
                        let ghost before = args@;
                        let ghost first = e@;
                        args.insert(0, e);
                        proof {
                            lemma_models_prepend(args@);
                            assert(args@.drop_first() =~= before);
                            assert(args@[0]@ == first);
                        }
                        Ok((args, r))
                    },
                }
            } else if t < s.len() && s[t] == ')' {
                let mut args: Vec<Lens> = Vec::new();
                args.push(e);
                proof {
                    assert(args@.drop_last() =~= Seq::<Lens>::empty());
                    assert(models(Seq::<Lens>::empty()) =~= Seq::<LensView>::empty());
                    assert(models(args@) == models(args@.drop_last()).push(args@.last()@));
                    assert(models(args@) =~= seq![args@[0]@]);
                }
                Ok((args, t + 1))
            } else {
                Err(t)
            }
        },
    }
}

/// The values of a list are its first value followed by the values of the
/// rest.
proof fn lemma_models_prepend(s: Seq<Lens>)
    requires
        s.len() > 0,
    ensures
        models(s) == seq![s[0]@] + models(s.drop_first()),
{
    lemma_models_len(s);
    lemma_models_len(s.drop_first());
    assert forall|i: int| 0 <= i < s.len() implies #[trigger] models(s)[i] == (seq![s[0]@] + models(
        s.drop_first(),
    ))[i] by {
        lemma_models_index(s, i);
        if i > 0 {
            lemma_models_index(s.drop_first(), i - 1);
        }
    }
    assert(models(s) =~= seq![s[0]@] + models(s.drop_first()));
}

impl Lens {
    /// Parses the textual form of a lens.
    pub fn parse(source: &str) -> (r: Result<Lens, LensParseError>)
        ensures
            match parse_text(source@) {
                Ok(l) => r is Ok && r->Ok_0@ == l,
                Err(e) => r is Err && r->Err_0.position == e,
            },
    {
        let s = crate::text::chars_of(source);
        match parse_expr_at(&s, 0) {
            Err(e) => Err(LensParseError { position: e }),
            Ok((l, q)) => {
                let t = skip(&s, q);
                if t == s.len() {
                    Ok(l)
                } else {
                    Err(LensParseError { position: t })
                }
            },
        }
    }

    /// The textual form of this lens.
    pub fn to_text(&self) -> (r: String)
        ensures
            r@ == lens_text(self@),
    {
        let mut s = String::new();
        push_text(&mut s, self);
        s
    }
}

proof fn lemma_args_text_next(v: Seq<LensView>, i: int)
    requires
        0 <= i < v.len(),
    ensures
        args_text(v.take(i + 1)) == args_text(v.take(i)) + (if i == 0 {
            Seq::<char>::empty()
        } else {
            seq![',', ' ']
        }) + lens_text(v[i]),
{
    let t = v.take(i + 1);
    assert(t.drop_last() =~= v.take(i));
    assert(t.last() == v[i]);
    if i == 0 {
        assert(t.len() == 1);
        assert(args_text(v.take(0)) =~= Seq::<char>::empty());
        assert(args_text(t) == lens_text(t[0]));
        assert(Seq::<char>::empty() + Seq::<char>::empty() + lens_text(v[0]) =~= lens_text(v[0]));
    }
}

fn push_args_text(s: &mut String, args: &Vec<Lens>)
    ensures
        final(s)@ == old(s)@ + args_text(models(args@)),
    decreases args,
{
    let ghost start = s@;
    let ghost views = models(args@);
    proof {
        lemma_models_len(args@);
    }
    let mut i: usize = 0;
    while i < args.len()
        invariant
            i <= args@.len(),
            views == models(args@),
            views.len() == args@.len(),
            s@ == start + args_text(views.take(i as int)),
        decreases args@.len() - i,
    {
        proof {
            lemma_models_index(args@, i as int);
            lemma_args_text_next(views, i as int);
        }
        if i > 0 {
            s.push(',');
            s.push(' ');
        }
        push_text(s, &args[i]);
        proof {
            if i == 0 {
                assert(start + args_text(views.take(1)) =~= start + args_text(views.take(0))
                    + lens_text(views[0]));
            } else {
                assert(start + args_text(views.take(i + 1)) =~= start + args_text(
                    views.take(i as int),
                ) + seq![',', ' '] + lens_text(views[i as int]));
            }
        }
        i += 1;
    }
    proof {
        assert(views.take(views.len() as int) =~= views);
    }
}

/// Appends the text of `l`.
pub fn push_text(s: &mut String, l: &Lens)
    ensures
        final(s)@ == old(s)@ + lens_text(l@),
    decreases l,
{
    match l {
        Lens::Symbol(i) => push_str(s, i.as_str()),
        Lens::String(t) => {
            s.push('"');
            push_str(s, t.as_str());
            s.push('"');
        },
        Lens::Ref(r) => {
            s.push('@');
            push_str(s, r.0.0.as_str());
        },
        Lens::Integer(n) => push_signed_decimal(s, n.0),
        Lens::Predicate(p) => {
            push_str(s, p.name.as_str());
            s.push('(');
            push_args_text(s, &p.args);
            s.push(')');
        },
        Lens::Union(a, b) => {
            s.push('(');
            push_text(s, a);
            s.push(' ');
            s.push('|');
            s.push(' ');
            push_text(s, b);
            s.push(')');
        },
        Lens::Intersection(a, b) => {
            s.push('(');
            push_text(s, a);
            s.push(' ');
            s.push('&');
            s.push(' ');
            push_text(s, b);
            s.push(')');
        },
        Lens::Difference(a, b) => {
            s.push('(');
            push_text(s, a);
            s.push(' ');
            s.push('~');
            s.push(' ');
            push_text(s, b);
            s.push(')');
        },
    }
    proof {
        assert(final(s)@ =~= old(s)@ + lens_text(l@));
    }
}

} // verus!
