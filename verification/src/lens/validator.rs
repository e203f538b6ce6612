//! Structural validation of lens expressions against a registry, result-type
//! inference, and name checking against a name registry.
use vstd::prelude::*;

use crate::lens::ast::{
    lemma_models_index, lemma_models_len, models, Identifier, Lens, LensView, Predicate,
    PredicateName,
};
use crate::lens::registry::{arg_matches, ArgType, NameKind, PredicateSpecView, Registry, ResultType, SpecResultType};
use crate::text::{push_decimal, push_str};

verus! {

/// Why a lens expression was rejected.
#[derive(Debug)]
pub enum LensValidationError {
    UnknownPredicate { name: PredicateName },
    ArityMismatch { name: PredicateName, expected: usize, got: usize },
    ArgTypeMismatch {
        predicate: PredicateName,
        position: usize,
        expected: &'static str,
        got: &'static str,
    },
    ResultTypeMismatch { operator: &'static str, left: &'static str, right: &'static str },
    UnknownSymbol { kind: &'static str, name: Identifier },
}

/// The value of a validation error.
pub enum ValidationErrorView {
    UnknownPredicate(Seq<char>),
    ArityMismatch(Seq<char>, nat, nat),
    ArgTypeMismatch(Seq<char>, nat, Seq<char>, Seq<char>),
    ResultTypeMismatch(Seq<char>, Seq<char>, Seq<char>),
    UnknownSymbol(Seq<char>, Seq<char>),
}

impl View for LensValidationError {
    type V = ValidationErrorView;

    open spec fn view(&self) -> ValidationErrorView {
        match self {
            LensValidationError::UnknownPredicate { name } => ValidationErrorView::UnknownPredicate(
                name@,
            ),
            LensValidationError::ArityMismatch { name, expected, got } =>
                ValidationErrorView::ArityMismatch(name@, *expected as nat, *got as nat),
            LensValidationError::ArgTypeMismatch { predicate, position, expected, got } =>
                ValidationErrorView::ArgTypeMismatch(
                predicate@,
                *position as nat,
                expected@,
                got@,
            ),
            LensValidationError::ResultTypeMismatch { operator, left, right } =>
                ValidationErrorView::ResultTypeMismatch(operator@, left@, right@),
            LensValidationError::UnknownSymbol { kind, name } => ValidationErrorView::UnknownSymbol(
                kind@,
                name@,
            ),
        }
    }
}

/// The value of a validation outcome.
pub open spec fn outcome_view(r: Result<(), LensValidationError>) -> Result<(), ValidationErrorView> {
    match r {
        Ok(()) => Ok(()),
        Err(e) => Err(e@),
    }
}

/// The word naming the shape of a lens.
pub open spec fn shape_label(l: LensView) -> Seq<char> {
    match l {
        LensView::Symbol(_) => "symbol"@,
        LensView::Str(_) => "string"@,
        LensView::Ref(_) => "ref"@,
        LensView::Integer(_) => "integer"@,
        LensView::Predicate(_, _) => "predicate"@,
        LensView::Union(_, _) => "union"@,
        LensView::Intersection(_, _) => "intersection"@,
        LensView::Difference(_, _) => "difference"@,
    }
}

/// What a lens evaluates to: a predicate's declared result, a set operator's
/// left side if known else its right side, and nothing for a leaf.
pub open spec fn result_type_of(l: LensView, reg: Map<Seq<char>, PredicateSpecView>) -> Option<
    ResultType,
>
    decreases l,
{
    match l {
        LensView::Predicate(name, _) => if reg.contains_key(name) {
            match reg[name].result_type {
                SpecResultType::Of(t) => Some(t),
            }
        } else {
            None
        },
        LensView::Union(a, b) => match result_type_of(*a, reg) {
            Some(t) => Some(t),
            None => result_type_of(*b, reg),
        },
        LensView::Intersection(a, b) => match result_type_of(*a, reg) {
            Some(t) => Some(t),
            None => result_type_of(*b, reg),
        },
        LensView::Difference(a, b) => match result_type_of(*a, reg) {
            Some(t) => Some(t),
            None => result_type_of(*b, reg),
        },
        _ => None,
    }
}

/// The first argument, from position `i` on, that does not have its declared
/// shape.
pub open spec fn check_arg_shapes(
    name: Seq<char>,
    types: Seq<ArgType>,
    args: Seq<LensView>,
    i: int,
) -> Result<(), ValidationErrorView>
    decreases args.len() - i,
{
    if i < 0 || i >= args.len() || i >= types.len() {
        Ok(())
    } else if !arg_matches(types[i], args[i]) {
        Err(
            ValidationErrorView::ArgTypeMismatch(
                name,
                i as nat,
                types[i].label(),
                shape_label(args[i]),
            ),
        )
    } else {
        check_arg_shapes(name, types, args, i + 1)
    }
}

/// A predicate application is valid when the predicate is declared, takes
/// as many arguments as given, and each argument has its declared shape.
pub open spec fn predicate_validity(
    name: Seq<char>,
    args: Seq<LensView>,
    reg: Map<Seq<char>, PredicateSpecView>,
) -> Result<(), ValidationErrorView> {
    if !reg.contains_key(name) {
        Err(ValidationErrorView::UnknownPredicate(name))
    } else if reg[name].arg_types.len() != args.len() {
        Err(ValidationErrorView::ArityMismatch(name, reg[name].arg_types.len(), args.len()))
    } else {
        check_arg_shapes(name, reg[name].arg_types, args, 0)
    }
}

/// A set operator is valid when both sides are, and their result types,
/// where both are known, agree.
pub open spec fn set_operator_validity(
    operator: Seq<char>,
    left: LensView,
    right: LensView,
    left_valid: Result<(), ValidationErrorView>,
    right_valid: Result<(), ValidationErrorView>,
    reg: Map<Seq<char>, PredicateSpecView>,
) -> Result<(), ValidationErrorView> {
    match left_valid {
        Err(e) => Err(e),
        Ok(()) => match right_valid {
            Err(e) => Err(e),
            Ok(()) => match (result_type_of(left, reg), result_type_of(right, reg)) {
                (Some(a), Some(b)) => if a != b {
                    Err(ValidationErrorView::ResultTypeMismatch(operator, a.label(), b.label()))
                } else {
                    Ok(())
                },
                _ => Ok(()),
            },
        },
    }
}

/// Structural validity of a lens.
pub open spec fn validity(l: LensView, reg: Map<Seq<char>, PredicateSpecView>) -> Result<
    (),
    ValidationErrorView,
>
    decreases l,
{
    match l {
        LensView::Predicate(name, args) => predicate_validity(name, args, reg),
        LensView::Union(a, b) => set_operator_validity(
            "|"@,
            *a,
            *b,
            validity(*a, reg),
            validity(*b, reg),
            reg,
        ),
        LensView::Intersection(a, b) => set_operator_validity(
            "&"@,
            *a,
            *b,
            validity(*a, reg),
            validity(*b, reg),
            reg,
        ),
        LensView::Difference(a, b) => set_operator_validity(
            "~"@,
            *a,
            *b,
            validity(*a, reg),
            validity(*b, reg),
            reg,
        ),
        _ => Ok(()),
    }
}

/// Name checking: every bare symbol standing directly in a name-typed
/// argument position must be known; other arguments are checked in turn.
pub open spec fn names_validity(
    l: LensView,
    reg: Map<Seq<char>, PredicateSpecView>,
    known: spec_fn(NameKind, Seq<char>) -> bool,
) -> Result<(), ValidationErrorView>
    decreases l, 0int,
{
    match l {
        LensView::Predicate(name, args) => if !reg.contains_key(name) {
            Ok(())
        } else {
            arg_names_validity(reg, known, reg[name].arg_types, args, 0)
        },
        LensView::Union(a, b) => match names_validity(*a, reg, known) {
            Err(e) => Err(e),
            Ok(()) => names_validity(*b, reg, known),
        },
        LensView::Intersection(a, b) => match names_validity(*a, reg, known) {
            Err(e) => Err(e),
            Ok(()) => names_validity(*b, reg, known),
        },
        LensView::Difference(a, b) => match names_validity(*a, reg, known) {
            Err(e) => Err(e),
            Ok(()) => names_validity(*b, reg, known),
        },
        _ => Ok(()),
    }
}

proof fn lemma_shapes_ok(name: Seq<char>, types: Seq<ArgType>, args: Seq<LensView>, k: int)
    requires
        0 <= k,
        types.len() == args.len(),
    ensures
        (check_arg_shapes(name, types, args, k) is Ok) == (forall|j: int|
            k <= j < args.len() ==> #[trigger] arg_matches(types[j], args[j])),
    decreases args.len() - k,
{
    if k < args.len() {
        lemma_shapes_ok(name, types, args, k + 1);
        if check_arg_shapes(name, types, args, k) is Ok {
            assert forall|j: int| k <= j < args.len() implies #[trigger] arg_matches(
                types[j],
                args[j],
            ) by {
                if j > k {
                    assert(k + 1 <= j);
                }
            }
        }
    }
}

proof fn lemma_shapes_first(
    name: Seq<char>,
    types: Seq<ArgType>,
    args: Seq<LensView>,
    k: int,
    i: int,
)
    requires
        0 <= k <= i < args.len(),
        types.len() == args.len(),
        forall|j: int| k <= j < i ==> #[trigger] arg_matches(types[j], args[j]),
        !arg_matches(types[i], args[i]),
    ensures
        check_arg_shapes(name, types, args, k) == Err::<(), ValidationErrorView>(
            ValidationErrorView::ArgTypeMismatch(
                name,
                i as nat,
                types[i].label(),
                shape_label(args[i]),
            ),
        ),
    decreases i - k,
{
    if k < i {
        assert(arg_matches(types[k], args[k]));
        lemma_shapes_first(name, types, args, k + 1, i);
    }
}

/// How a predicate application validates: it is valid exactly when the
/// predicate is declared, takes as many arguments as given, and every
/// argument has its declared shape; otherwise the error is, in this order,
/// the unknown predicate, the arity mismatch, or the first argument of the
/// wrong shape.
pub proof fn predicate_validation_rule(
    name: Seq<char>,
    args: Seq<LensView>,
    reg: Map<Seq<char>, PredicateSpecView>,
    i: int,
)
    ensures
        (validity(LensView::Predicate(name, args), reg) is Ok) == (reg.contains_key(name)
            && reg[name].arg_types.len() == args.len() && forall|j: int|
            0 <= j < args.len() ==> #[trigger] arg_matches(reg[name].arg_types[j], args[j])),
        !reg.contains_key(name) ==> validity(LensView::Predicate(name, args), reg) == Err::<
            (),
            ValidationErrorView,
        >(ValidationErrorView::UnknownPredicate(name)),
        reg.contains_key(name) && reg[name].arg_types.len() != args.len() ==> validity(
            LensView::Predicate(name, args),
            reg,
        ) == Err::<(), ValidationErrorView>(
            ValidationErrorView::ArityMismatch(name, reg[name].arg_types.len(), args.len()),
        ),
        reg.contains_key(name) && reg[name].arg_types.len() == args.len() && 0 <= i < args.len()
            && (forall|j: int| 0 <= j < i ==> #[trigger] arg_matches(reg[name].arg_types[j], args[j]))
            && !arg_matches(reg[name].arg_types[i], args[i]) ==> validity(
            LensView::Predicate(name, args),
            reg,
        ) == Err::<(), ValidationErrorView>(
            ValidationErrorView::ArgTypeMismatch(
                name,
                i as nat,
                reg[name].arg_types[i].label(),
                shape_label(args[i]),
            ),
        ),
{
    if reg.contains_key(name) && reg[name].arg_types.len() == args.len() {
        let types = reg[name].arg_types;
        lemma_shapes_ok(name, types, args, 0);
        if 0 <= i < args.len() && (forall|j: int| 0 <= j < i ==> #[trigger] arg_matches(types[j], args[j]))
            && !arg_matches(types[i], args[i]) {
            lemma_shapes_first(name, types, args, 0, i);
        }
    }
}

/// How a set operator validates: its left side's error if any, else its
/// right side's, else a result-type mismatch when both sides have known
/// result types that differ, else it is valid. The operator is written
/// `|`, `&` or `~`.
pub proof fn set_operator_validation_rule(
    left: LensView,
    right: LensView,
    reg: Map<Seq<char>, PredicateSpecView>,
)
    ensures
        validity(LensView::Union(Box::new(left), Box::new(right)), reg) == combined_validity(
            "|"@,
            left,
            right,
            reg,
        ),
        validity(LensView::Intersection(Box::new(left), Box::new(right)), reg)
            == combined_validity("&"@, left, right, reg),
        validity(LensView::Difference(Box::new(left), Box::new(right)), reg)
            == combined_validity("~"@, left, right, reg),
{
}

/// The validity of two sides joined by `operator`.
pub open spec fn combined_validity(
    operator: Seq<char>,
    left: LensView,
    right: LensView,
    reg: Map<Seq<char>, PredicateSpecView>,
) -> Result<(), ValidationErrorView> {
    if validity(left, reg) is Err {
        validity(left, reg)
    } else if validity(right, reg) is Err {
        validity(right, reg)
    } else if result_type_of(left, reg) is Some && result_type_of(right, reg) is Some
        && result_type_of(left, reg) != result_type_of(right, reg) {
        Err(
            ValidationErrorView::ResultTypeMismatch(
                operator,
                result_type_of(left, reg)->Some_0.label(),
                result_type_of(right, reg)->Some_0.label(),
            ),
        )
    } else {
        Ok(())
    }
}

/// Whether a symbol standing for a name of `kind` is looked up in the name
/// registry: agent, texture and level names are; a resource kind is an
/// untyped symbol and is not.
pub open spec fn looked_up(kind: NameKind) -> bool {
    kind != NameKind::Kind
}

/// Name checking of the arguments from position `i` on, pairing each with
/// its declared type (arguments beyond the declared types are not checked).
/// A bare symbol where names of a looked-up kind are expected must be known
/// to the registry; other arguments are checked within.
pub open spec fn arg_names_validity(
    reg: Map<Seq<char>, PredicateSpecView>,
    known: spec_fn(NameKind, Seq<char>) -> bool,
    types: Seq<ArgType>,
    args: Seq<LensView>,
    i: int,
) -> Result<(), ValidationErrorView>
    decreases args, args.len() - i,
{
    if i < 0 || i >= args.len() || i >= types.len() {
        Ok(())
    } else {
        let here = match (types[i], args[i]) {
            (ArgType::LensOfNames(kind), LensView::Symbol(id)) => if !looked_up(kind) || known(
                kind,
                id,
            ) {
                Ok(())
            } else {
                Err(ValidationErrorView::UnknownSymbol(kind.label(), id))
            },
            _ => names_validity(args[i], reg, known),
        };
        match here {
            Err(e) => Err(e),
            Ok(()) => arg_names_validity(reg, known, types, args, i + 1),
        }
    }
}

/// The names a name registry knows, as a predicate.
pub open spec fn known_by<N: NameRegistry>(names: &N) -> spec_fn(NameKind, Seq<char>) -> bool {
    |k: NameKind, n: Seq<char>| names.knows_name(k, n)
}

/// A source of known names, by vocabulary.
pub trait NameRegistry {
    /// Whether this registry knows `name` as a name of `kind`. An
    /// implementation states which names it knows; one that does not
    /// knows none.
    open spec fn knows_name(&self, kind: NameKind, name: Seq<char>) -> bool {
        false
    }

    fn knows(&self, kind: NameKind, name: &Identifier) -> (r: bool)
        ensures
            r == self.knows_name(kind, name@),
    ;
}

impl Lens {
    /// The word naming the shape of this lens.
    pub fn describe(&self) -> (r: &'static str)
        ensures
            r@ == shape_label(self@),
    {
        match self {
            Lens::Symbol(_) => "symbol",
            Lens::String(_) => "string",
            Lens::Ref(_) => "ref",
            Lens::Integer(_) => "integer",
            Lens::Predicate(_) => "predicate",
            Lens::Union(_, _) => "union",
            Lens::Intersection(_, _) => "intersection",
            Lens::Difference(_, _) => "difference",
        }
    }

    /// What this lens evaluates to, when the registry determines it.
    pub fn result_type(&self, registry: &Registry) -> (r: Option<ResultType>)
        ensures
            r == result_type_of(self@, registry@),
        decreases self,
    {
        match self {
            Lens::Predicate(predicate) => predicate.resolve_type(registry),
            Lens::Union(left, right) | Lens::Intersection(left, right) | Lens::Difference(
                left,
                right,
            ) => match left.result_type(registry) {
                Some(t) => Some(t),
                None => right.result_type(registry),
            },
            _ => None,
        }
    }

    /// Checks that every predicate is declared with matching arity and
    /// argument shapes, and that set operators combine agreeing result types.
    pub fn validate(&self, registry: &Registry) -> (r: Result<(), LensValidationError>)
        ensures
            outcome_view(r) == validity(self@, registry@),
        decreases self,
    {
        match self {
            Lens::Predicate(predicate) => predicate.validate(registry),
            Lens::Union(left, right) => self.validate_set_operator("|", left, right, registry),
            Lens::Intersection(left, right) => self.validate_set_operator(
                "&",
                left,
                right,
                registry,
            ),
            Lens::Difference(left, right) => self.validate_set_operator(
                "~",
                left,
                right,
                registry,
            ),
            _ => Ok(()),
        }
    }

    fn validate_set_operator(
        &self,
        operator: &'static str,
        left: &Lens,
        right: &Lens,
        registry: &Registry,
    ) -> (r: Result<(), LensValidationError>)
        requires
            decreases_to!(self => left),
            decreases_to!(self => right),
        ensures
            outcome_view(r) == set_operator_validity(
                operator@,
                left@,
                right@,
                validity(left@, registry@),
                validity(right@, registry@),
                registry@,
            ),
        decreases self, 0int,
    {
        match left.validate(registry) {
            Err(e) => return Err(e),
            Ok(()) => {},
        }
        match right.validate(registry) {
            Err(e) => return Err(e),
            Ok(()) => {},
        }
        match (left.result_type(registry), right.result_type(registry)) {
            (Some(left_type), Some(right_type)) => {
                if left_type != right_type {
                    Err(
                        LensValidationError::ResultTypeMismatch {
                            operator,
                            left: left_type.describe(),
                            right: right_type.describe(),
                        },
                    )
                } else {
                    Ok(())
                }
            },
            _ => Ok(()),
        }
    }

    /// Checks every bare symbol in a name-typed argument position against
    /// `names`.
    pub fn check_names<N: NameRegistry>(&self, registry: &Registry, names: &N) -> (r: Result<
        (),
        LensValidationError,
    >)
        ensures
            outcome_view(r) == names_validity(
                self@,
                registry@,
                known_by(names),
            ),
        decreases self,
    {
        match self {
            Lens::Predicate(predicate) => predicate.check_names(registry, names),
            Lens::Union(left, right) | Lens::Intersection(left, right) | Lens::Difference(
                left,
                right,
            ) => {
                match left.check_names(registry, names) {
                    Err(e) => return Err(e),
                    Ok(()) => {},
                }
                right.check_names(registry, names)
            },
            _ => Ok(()),
        }
    }
}

impl Predicate {
    fn validate(&self, registry: &Registry) -> (r: Result<(), LensValidationError>)
        ensures
            outcome_view(r) == predicate_validity(self.name@, models(self.args@), registry@),
    {
        let spec = match registry.lookup(&self.name) {
            Some(spec) => spec,
            None => {
                return Err(LensValidationError::UnknownPredicate { name: self.name.duplicate() });
            },
        };
        proof {
            lemma_models_len(self.args@);
        }
        if spec.arg_types.len() != self.args.len() {
            return Err(
                LensValidationError::ArityMismatch {
                    name: self.name.duplicate(),
                    expected: spec.arg_types.len(),
                    got: self.args.len(),
                },
            );
        }
        let ghost types = spec.arg_types@;
        let ghost views = models(self.args@);
        let mut i: usize = 0;
        while i < self.args.len()
            invariant
                i <= self.args@.len(),
                types.len() == self.args@.len(),
                views == models(self.args@),
                views.len() == self.args@.len(),
                types == spec.arg_types@,
                registry@.contains_key(self.name@),
                spec@ == registry@[self.name@],
                check_arg_shapes(self.name@, types, views, 0) == check_arg_shapes(
                    self.name@,
                    types,
                    views,
                    i as int,
                ),
            decreases self.args@.len() - i,
        {
            let arg_type = &spec.arg_types[i];
            let arg_lens = &self.args[i];
            proof {
                lemma_models_index(self.args@, i as int);
            }
            if !arg_type.matches(arg_lens) {
                let e = LensValidationError::ArgTypeMismatch {
                    predicate: self.name.duplicate(),
                    position: i,
                    expected: arg_type.describe(),
                    got: arg_lens.describe(),
                };
                proof {
                    assert(views[i as int] == arg_lens@);
                    assert(check_arg_shapes(self.name@, types, views, i as int) == Err::<(), ValidationErrorView>(e@));
                }
                return Err(e);
            }
            i += 1;
        }
        Ok(())
    }

    fn check_names<N: NameRegistry>(&self, registry: &Registry, names: &N) -> (r: Result<
        (),
        LensValidationError,
    >)
        ensures
            outcome_view(r) == (if !registry@.contains_key(self.name@) {
                Ok(())
            } else {
                arg_names_validity(
                    registry@,
                    known_by(names),
                    registry@[self.name@].arg_types,
                    models(self.args@),
                    0,
                )
            }),
        decreases self,
    {
        let spec = match registry.lookup(&self.name) {
            Some(spec) => spec,
            None => {
                return Ok(());
            },
        };
        let ghost known = known_by(names);
        let ghost types = spec.arg_types@;
        let ghost views = models(self.args@);
        proof {
            lemma_models_len(self.args@);
        }
        let mut i: usize = 0;
        while i < self.args.len() && i < spec.arg_types.len()
            invariant
                i <= self.args@.len(),
                types == spec.arg_types@,
                registry@.contains_key(self.name@),
                spec@ == registry@[self.name@],
                known == known_by(names),
                views == models(self.args@),
                views.len() == self.args@.len(),
                arg_names_validity(registry@, known, types, views, 0) == arg_names_validity(
                    registry@,
                    known,
                    types,
                    views,
                    i as int,
                ),
            decreases self.args@.len() - i,
        {
            proof {
                lemma_models_index(self.args@, i as int);
            }
            let arg_lens = &self.args[i];
            match (&spec.arg_types[i], arg_lens) {
                (ArgType::LensOfNames(kind), Lens::Symbol(identifier)) => {
                    if *kind != NameKind::Kind && !names.knows(*kind, identifier) {
                        return Err(
                            LensValidationError::UnknownSymbol {
                                kind: kind.describe(),
                                name: identifier.duplicate(),
                            },
                        );
                    }
                },
                _ => {
                    match arg_lens.check_names(registry, names) {
                        Err(e) => return Err(e),
                        Ok(()) => {},
                    }
                },
            }
            i += 1;
        }
        Ok(())
    }

    fn resolve_type(&self, registry: &Registry) -> (r: Option<ResultType>)
        ensures
            r == (if registry@.contains_key(self.name@) {
                match registry@[self.name@].result_type {
                    SpecResultType::Of(t) => Some(t),
                }
            } else {
                None
            }),
    {
        let spec = registry.lookup(&self.name)?;
        let SpecResultType::Of(result_type) = spec.result_type;
        Some(result_type)
    }
}

impl LensValidationError {
    /// The human-readable description of this error.
    pub fn message(&self) -> (r: String)
        ensures
            r@ == error_message(self@),
    {
        let mut s = String::new();
        match self {
            LensValidationError::UnknownPredicate { name } => {
                push_str(&mut s, "unknown predicate: ");
                push_str(&mut s, name.as_str());
            },
            LensValidationError::ArityMismatch { name, expected, got } => {
                push_str(&mut s, "predicate ");
                push_str(&mut s, name.as_str());
                push_str(&mut s, " expects ");
                push_decimal(&mut s, *expected as u64);
                push_str(&mut s, " argument(s), got ");
                push_decimal(&mut s, *got as u64);
            },
            LensValidationError::ArgTypeMismatch { predicate, position, expected, got } => {
                push_str(&mut s, "predicate ");
                push_str(&mut s, predicate.as_str());
                push_str(&mut s, " argument ");
                push_decimal(&mut s, *position as u64);
                push_str(&mut s, ": expected ");
                push_str(&mut s, expected);
                push_str(&mut s, ", got ");
                push_str(&mut s, got);
            },
            LensValidationError::ResultTypeMismatch { operator, left, right } => {
                push_str(&mut s, "operator ");
                push_str(&mut s, operator);
                push_str(&mut s, " combines ");
                push_str(&mut s, left);
                push_str(&mut s, " with ");
                push_str(&mut s, right);
            },
            LensValidationError::UnknownSymbol { kind, name } => {
                push_str(&mut s, "unknown ");
                push_str(&mut s, kind);
                push_str(&mut s, ": ");
                push_str(&mut s, name.as_str());
            },
        }
        s
    }
}

/// The human-readable description of a validation error.
pub open spec fn error_message(e: ValidationErrorView) -> Seq<char> {
    match e {
        ValidationErrorView::UnknownPredicate(name) => "unknown predicate: "@ + name,
        ValidationErrorView::ArityMismatch(name, expected, got) => "predicate "@ + name
            + " expects "@ + crate::text::decimal(expected) + " argument(s), got "@
            + crate::text::decimal(got),
        ValidationErrorView::ArgTypeMismatch(name, position, expected, got) => "predicate "@
            + name + " argument "@ + crate::text::decimal(position) + ": expected "@ + expected
            + ", got "@ + got,
        ValidationErrorView::ResultTypeMismatch(operator, left, right) => "operator "@ + operator
            + " combines "@ + left + " with "@ + right,
        ValidationErrorView::UnknownSymbol(kind, name) => "unknown "@ + kind + ": "@ + name,
    }
}


/// The operands of the set operators at the top of `l`, left to right;
/// `l` alone when it is no set operation.
pub open spec fn set_operands(l: LensView) -> Seq<LensView>
    decreases l,
{
    match l {
        LensView::Union(a, b) => set_operands(*a) + set_operands(*b),
        LensView::Intersection(a, b) => set_operands(*a) + set_operands(*b),
        LensView::Difference(a, b) => set_operands(*a) + set_operands(*b),
        _ => seq![l],
    }
}

/// The result type a registry declares for a lens that is a predicate it
/// knows.
pub open spec fn declared_result(l: LensView, reg: Map<Seq<char>, PredicateSpecView>) -> Option<
    ResultType,
> {
    match l {
        LensView::Predicate(name, _) => if reg.contains_key(name) {
            match reg[name].result_type {
                SpecResultType::Of(t) => Some(t),
            }
        } else {
            None
        },
        _ => None,
    }
}

/// The declared result type of the first lens of `s` that has one.
pub open spec fn first_declared(s: Seq<LensView>, reg: Map<Seq<char>, PredicateSpecView>) -> Option<
    ResultType,
>
    decreases s.len(),
{
    if s.len() == 0 {
        None
    } else {
        match declared_result(s[0], reg) {
            Some(t) => Some(t),
            None => first_declared(s.drop_first(), reg),
        }
    }
}

proof fn lemma_first_declared_append(
    s: Seq<LensView>,
    t: Seq<LensView>,
    reg: Map<Seq<char>, PredicateSpecView>,
)
    ensures
        first_declared(s + t, reg) == (match first_declared(s, reg) {
            Some(x) => Some(x),
            None => first_declared(t, reg),
        }),
    decreases s.len(),
{
    if s.len() == 0 {
        assert(s + t =~= t);
    } else {
        assert((s + t)[0] == s[0]);
        assert((s + t).drop_first() =~= s.drop_first() + t);
        lemma_first_declared_append(s.drop_first(), t, reg);
    }
}

/// A lens has the result type of the first of its set operands, left to
/// right, that is a declared predicate, and none when no operand is one:
/// union, intersection and difference alike keep the type of the
/// selections they combine.
pub proof fn result_type_is_first_declared_operand(
    l: LensView,
    reg: Map<Seq<char>, PredicateSpecView>,
)
    ensures
        result_type_of(l, reg) == first_declared(set_operands(l), reg),
    decreases l,
{
    match l {
        LensView::Union(a, b) => {
            result_type_is_first_declared_operand(*a, reg);
            result_type_is_first_declared_operand(*b, reg);
            lemma_first_declared_append(set_operands(*a), set_operands(*b), reg);
        },
        LensView::Intersection(a, b) => {
            result_type_is_first_declared_operand(*a, reg);
            result_type_is_first_declared_operand(*b, reg);
            lemma_first_declared_append(set_operands(*a), set_operands(*b), reg);
        },
        LensView::Difference(a, b) => {
            result_type_is_first_declared_operand(*a, reg);
            result_type_is_first_declared_operand(*b, reg);
            lemma_first_declared_append(set_operands(*a), set_operands(*b), reg);
        },
        _ => {
            let s = seq![l];
            assert(s.drop_first() =~= Seq::<LensView>::empty());
            assert(first_declared(Seq::<LensView>::empty(), reg) is None);
            assert(s[0] == l);
            assert(first_declared(s, reg) == declared_result(l, reg));
        },
    }
}

} // verus!
