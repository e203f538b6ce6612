//! The lens expression tree: literals, predicates and set operators.
use vstd::prelude::*;

verus! {

/// A bare symbol, such as an agent name or a texture name.
#[derive(Debug, PartialEq, Eq, Hash)]
pub struct Identifier(pub String);

/// The name of a predicate, such as `agent` or `within`.
#[derive(Debug, PartialEq, Eq, Hash)]
pub struct PredicateName(pub String);

/// A quoted string literal.
#[derive(Debug, PartialEq, Eq, Hash)]
pub struct StringLiteral(pub String);

/// A reference to an entity, by its textual token.
#[derive(Debug, PartialEq, Eq, Hash)]
pub struct Ref(pub String);

/// A reference literal appearing in a lens expression.
#[derive(Debug, PartialEq, Eq, Hash)]
pub struct RefToken(pub Ref);

/// A 64-bit integer literal appearing in a lens expression.
#[derive(Debug, Clone, Copy, PartialEq, Eq, Hash)]
pub struct IntegerLiteral(pub i64);

impl View for Identifier {
    type V = Seq<char>;

    open spec fn view(&self) -> Seq<char> {
        self.0@
    }
}

impl View for PredicateName {
    type V = Seq<char>;

    open spec fn view(&self) -> Seq<char> {
        self.0@
    }
}

impl View for StringLiteral {
    type V = Seq<char>;

    open spec fn view(&self) -> Seq<char> {
        self.0@
    }
}

impl View for Ref {
    type V = Seq<char>;

    open spec fn view(&self) -> Seq<char> {
        self.0@
    }
}

impl View for RefToken {
    type V = Seq<char>;

    open spec fn view(&self) -> Seq<char> {
        self.0.0@
    }
}

impl Identifier {
    pub fn new(value: &str) -> (r: Self)
        ensures
            r@ == value@,
    {
        Identifier(value.to_owned())
    }

    pub fn as_str(&self) -> (r: &str)
        ensures
            r@ == self@,
    {
        self.0.as_str()
    }

    pub fn duplicate(&self) -> (r: Self)
        ensures
            r@ == self@,
    {
        Identifier(self.0.clone())
    }
}

impl PredicateName {
    pub fn new(value: &str) -> (r: Self)
        ensures
            r@ == value@,
    {
        PredicateName(value.to_owned())
    }

    pub fn as_str(&self) -> (r: &str)
        ensures
            r@ == self@,
    {
        self.0.as_str()
    }

    pub fn duplicate(&self) -> (r: Self)
        ensures
            r@ == self@,
    {
        PredicateName(self.0.clone())
    }
}

impl StringLiteral {
    pub fn new(value: &str) -> (r: Self)
        ensures
            r@ == value@,
    {
        StringLiteral(value.to_owned())
    }

    pub fn as_str(&self) -> (r: &str)
        ensures
            r@ == self@,
    {
        self.0.as_str()
    }

    pub fn duplicate(&self) -> (r: Self)
        ensures
            r@ == self@,
    {
        StringLiteral(self.0.clone())
    }
}

impl Ref {
    pub fn new(value: &str) -> (r: Self)
        ensures
            r@ == value@,
    {
        Ref(value.to_owned())
    }

    pub fn duplicate(&self) -> (r: Self)
        ensures
            r@ == self@,
    {
        Ref(self.0.clone())
    }
}

impl RefToken {
    pub fn new(value: &str) -> (r: Self)
        ensures
            r@ == value@,
    {
        RefToken(Ref::new(value))
    }

    /// The entity reference this token stands for.
    pub fn inner(&self) -> (r: &Ref)
        ensures
            r@ == self@,
    {
        &self.0
    }

    pub fn duplicate(&self) -> (r: Self)
        ensures
            r@ == self@,
    {
        RefToken(self.0.duplicate())
    }
}

impl IntegerLiteral {
    pub fn new(value: i64) -> (r: Self)
        ensures
            r.0 == value,
    {
        IntegerLiteral(value)
    }

    pub fn value(self) -> (r: i64)
        ensures
            r == self.0,
    {
        self.0
    }
}

/// A lens expression.
#[derive(Debug, PartialEq, Eq)]
pub enum Lens {
    Symbol(Identifier),
    String(StringLiteral),
    Ref(RefToken),
    Integer(IntegerLiteral),
    Predicate(Predicate),
    Union(Box<Lens>, Box<Lens>),
    Intersection(Box<Lens>, Box<Lens>),
    Difference(Box<Lens>, Box<Lens>),
}

/// A predicate application: a name and its argument lenses.
#[derive(Debug, PartialEq, Eq)]
pub struct Predicate {
    pub name: PredicateName,
    pub args: Vec<Lens>,
}

/// The mathematical value of a lens expression.
pub enum LensView {
    Symbol(Seq<char>),
    Str(Seq<char>),
    Ref(Seq<char>),
    Integer(i64),
    Predicate(Seq<char>, Seq<LensView>),
    Union(Box<LensView>, Box<LensView>),
    Intersection(Box<LensView>, Box<LensView>),
    Difference(Box<LensView>, Box<LensView>),
}

impl Lens {
    pub open spec fn model(self) -> LensView
        decreases self,
    {
        match self {
            Lens::Symbol(i) => LensView::Symbol(i.0@),
            Lens::String(s) => LensView::Str(s.0@),
            Lens::Ref(r) => LensView::Ref(r.0.0@),
            Lens::Integer(n) => LensView::Integer(n.0),
            Lens::Predicate(p) => LensView::Predicate(p.name.0@, models(p.args@)),
            Lens::Union(l, r) => LensView::Union(Box::new(l.model()), Box::new(r.model())),
            Lens::Intersection(l, r) => LensView::Intersection(
                Box::new(l.model()),
                Box::new(r.model()),
            ),
            Lens::Difference(l, r) => LensView::Difference(
                Box::new(l.model()),
                Box::new(r.model()),
            ),
        }
    }
}

/// The values of a sequence of lens expressions, in order.
pub open spec fn models(s: Seq<Lens>) -> Seq<LensView>
    decreases s,
{
    if s.len() == 0 {
        Seq::empty()
    } else {
        models(s.drop_last()).push(s.last().model())
    }
}

impl View for Lens {
    type V = LensView;

    open spec fn view(&self) -> LensView {
        self.model()
    }
}

impl View for Predicate {
    type V = (Seq<char>, Seq<LensView>);

    open spec fn view(&self) -> (Seq<char>, Seq<LensView>) {
        (self.name@, models(self.args@))
    }
}

pub proof fn lemma_models_len(s: Seq<Lens>)
    ensures
        models(s).len() == s.len(),
    decreases s.len(),
{
    if s.len() > 0 {
        lemma_models_len(s.drop_last());
    }
}

pub proof fn lemma_models_index(s: Seq<Lens>, i: int)
    requires
        0 <= i < s.len(),
    ensures
        models(s).len() == s.len(),
        models(s)[i] == s[i].model(),
    decreases s.len(),
{
    lemma_models_len(s);
    if i < s.len() - 1 {
        lemma_models_index(s.drop_last(), i);
    }
}

/// Appending one lens appends its value.
pub proof fn lemma_models_push(s: Seq<Lens>, x: Lens)
    ensures
        models(s.push(x)) == models(s).push(x.model()),
{
    assert(s.push(x).drop_last() =~= s);
}

/// The values of a prefix extended by the next element.
pub proof fn lemma_models_take_next(s: Seq<Lens>, i: int)
    requires
        0 <= i < s.len(),
    ensures
        models(s.take(i + 1)) == models(s.take(i)).push(s[i].model()),
{
    assert(s.take(i + 1).drop_last() =~= s.take(i));
}

/// Two sequences of lenses with equal values elementwise have equal values.
pub proof fn lemma_models_ext(a: Seq<Lens>, b: Seq<Lens>)
    requires
        a.len() == b.len(),
        forall|i: int| 0 <= i < a.len() ==> #[trigger] a[i].model() == b[i].model(),
    ensures
        models(a) == models(b),
    decreases a.len(),
{
    if a.len() > 0 {
        let n = a.len() - 1;
        assert(a[n].model() == b[n].model());
        assert forall|i: int| 0 <= i < a.drop_last().len() implies #[trigger] a.drop_last()[i].model()
            == b.drop_last()[i].model() by {
            assert(a[i].model() == b[i].model());
        }
        lemma_models_ext(a.drop_last(), b.drop_last());
    }
}

impl Lens {
    /// A structurally equal copy of this lens.
    pub fn duplicate(&self) -> (r: Lens)
        ensures
            r@ == self@,
        decreases self,
    {
        match self {
            Lens::Symbol(i) => Lens::Symbol(i.duplicate()),
            Lens::String(s) => Lens::String(s.duplicate()),
            Lens::Ref(r) => Lens::Ref(r.duplicate()),
            Lens::Integer(n) => Lens::Integer(IntegerLiteral(n.0)),
            Lens::Predicate(p) => {
                let args = duplicate_all(&p.args);
                Lens::Predicate(Predicate { name: p.name.duplicate(), args })
            },
            Lens::Union(l, r) => Lens::Union(Box::new(l.duplicate()), Box::new(r.duplicate())),
            Lens::Intersection(l, r) => Lens::Intersection(
                Box::new(l.duplicate()),
                Box::new(r.duplicate()),
            ),
            Lens::Difference(l, r) => Lens::Difference(
                Box::new(l.duplicate()),
                Box::new(r.duplicate()),
            ),
        }
    }

    pub fn symbol(value: &str) -> (r: Lens)
        ensures
            r@ == LensView::Symbol(value@),
    {
        Lens::Symbol(Identifier::new(value))
    }

    pub fn string(value: &str) -> (r: Lens)
        ensures
            r@ == LensView::Str(value@),
    {
        Lens::String(StringLiteral::new(value))
    }

    pub fn reference(value: RefToken) -> (r: Lens)
        ensures
            r@ == LensView::Ref(value@),
    {
        Lens::Ref(value)
    }

    pub fn integer(value: i64) -> (r: Lens)
        ensures
            r@ == LensView::Integer(value),
    {
        Lens::Integer(IntegerLiteral::new(value))
    }

    pub fn predicate(name: &str, args: Vec<Lens>) -> (r: Lens)
        ensures
            r@ == LensView::Predicate(name@, models(args@)),
    {
        Lens::Predicate(Predicate { name: PredicateName::new(name), args })
    }

    pub fn union(left: Lens, right: Lens) -> (r: Lens)
        ensures
            r@ == LensView::Union(Box::new(left@), Box::new(right@)),
    {
        Lens::Union(Box::new(left), Box::new(right))
    }

    pub fn intersection(left: Lens, right: Lens) -> (r: Lens)
        ensures
            r@ == LensView::Intersection(Box::new(left@), Box::new(right@)),
    {
        Lens::Intersection(Box::new(left), Box::new(right))
    }

    pub fn difference(left: Lens, right: Lens) -> (r: Lens)
        ensures
            r@ == LensView::Difference(Box::new(left@), Box::new(right@)),
    {
        Lens::Difference(Box::new(left), Box::new(right))
    }
}

/// Structurally equal copies of a sequence of lenses.
pub fn duplicate_all(args: &Vec<Lens>) -> (r: Vec<Lens>)
    ensures
        models(r@) == models(args@),
        r@.len() == args@.len(),
    decreases args,
{
    let mut out: Vec<Lens> = Vec::new();
    let mut i: usize = 0;
    while i < args.len()
        invariant
            i <= args.len(),
            out@.len() == i,
            models(out@) == models(args@.take(i as int)),
        decreases args.len() - i,
    {
        let copy = args[i].duplicate();
        proof {
            lemma_models_push(out@, copy);
            lemma_models_take_next(args@, i as int);
        }
        out.push(copy);
        i += 1;
    }
    proof {
        assert(args@.take(args@.len() as int) =~= args@);
    }
    out
}

impl Clone for Lens {
    fn clone(&self) -> (r: Self)
        ensures
            r@ == self@,
    {
        self.duplicate()
    }
}

} // verus!
