//! The predicate registry: which predicates exist, what arguments they take,
//! what they produce and how they execute.
use vstd::prelude::*;

use crate::lens::ast::{Lens, LensView, PredicateName, RefToken};
use crate::lens::ir::LensStepKind;

verus! {

/// The vocabulary a name belongs to.
#[derive(Debug, Clone, Copy, PartialEq, Eq, Hash, Structural)]
pub enum NameKind {
    Agent,
    Texture,
    Level,
    Kind,
}

impl NameKind {
    pub open spec fn label(self) -> Seq<char> {
        match self {
            NameKind::Agent => "agent"@,
            NameKind::Texture => "texture"@,
            NameKind::Level => "level"@,
            NameKind::Kind => "kind"@,
        }
    }

    pub fn describe(self) -> (r: &'static str)
        ensures
            r@ == self.label(),
    {
        match self {
            NameKind::Agent => "agent",
            NameKind::Texture => "texture",
            NameKind::Level => "level",
            NameKind::Kind => "kind",
        }
    }
}

/// The expected shape of a predicate argument.
#[derive(Debug, Clone, Copy, PartialEq, Eq, Hash, Structural)]
pub enum ArgType {
    String,
    Ref,
    Integer,
    Lens,
    /// A lens producing a set of names of the given kind. Bare symbols in
    /// this position compile to singleton name lenses of this kind.
    LensOfNames(NameKind),
}

/// What a lens evaluates to.
#[derive(Debug, Clone, Copy, PartialEq, Eq, Hash, Structural)]
pub enum ResultType {
    Entities,
    Events,
}

impl ResultType {
    pub open spec fn label(self) -> Seq<char> {
        match self {
            ResultType::Entities => "entities"@,
            ResultType::Events => "events"@,
        }
    }

    pub fn describe(self) -> (r: &'static str)
        ensures
            r@ == self.label(),
    {
        match self {
            ResultType::Entities => "entities",
            ResultType::Events => "events",
        }
    }
}

/// The result type a predicate declares.
#[derive(Debug, Clone, Copy, PartialEq, Eq, Hash, Structural)]
pub enum SpecResultType {
    Of(ResultType),
}

/// How a predicate executes.
#[derive(Debug, Clone, Copy, PartialEq, Eq, Hash, Structural)]
pub enum ExecutorHint {
    SearchIndexText,
    GraphStep(LensStepKind),
    ChronicleBetween,
}

/// The declaration of one predicate.
#[derive(Debug)]
pub struct PredicateSpec {
    pub name: PredicateName,
    pub arg_types: Vec<ArgType>,
    pub result_type: SpecResultType,
    pub executor: ExecutorHint,
}

/// The value of a predicate declaration.
pub struct PredicateSpecView {
    pub name: Seq<char>,
    pub arg_types: Seq<ArgType>,
    pub result_type: SpecResultType,
    pub executor: ExecutorHint,
}

impl View for PredicateSpec {
    type V = PredicateSpecView;

    open spec fn view(&self) -> PredicateSpecView {
        PredicateSpecView {
            name: self.name@,
            arg_types: self.arg_types@,
            result_type: self.result_type,
            executor: self.executor,
        }
    }
}

impl PredicateSpec {
    pub fn new(
        name: &str,
        arg_types: Vec<ArgType>,
        result_type: SpecResultType,
        executor: ExecutorHint,
    ) -> (r: Self)
        ensures
            r@ == (PredicateSpecView {
                name: name@,
                arg_types: arg_types@,
                result_type,
                executor,
            }),
    {
        PredicateSpec { name: PredicateName::new(name), arg_types, result_type, executor }
    }
}

/// The map from predicate names to declarations that a list of declarations
/// builds, later declarations replacing earlier ones of the same name.
pub open spec fn declarations_map(s: Seq<PredicateSpec>) -> Map<Seq<char>, PredicateSpecView>
    decreases s.len(),
{
    if s.len() == 0 {
        Map::empty()
    } else {
        declarations_map(s.drop_last()).insert(s.last().name@, s.last()@)
    }
}

/// When no declaration at or after position `i` has the name `k`, the map
/// agrees on `k` with the map of the first `i` declarations.
proof fn lemma_declarations_suffix(s: Seq<PredicateSpec>, i: int, k: Seq<char>)
    requires
        0 <= i <= s.len(),
        forall|j: int| i <= j < s.len() ==> #[trigger] s[j].name@ != k,
    ensures
        declarations_map(s).contains_key(k) == declarations_map(s.take(i)).contains_key(k),
        declarations_map(s).contains_key(k) ==> declarations_map(s)[k] == declarations_map(
            s.take(i),
        )[k],
    decreases s.len(),
{
    if i == s.len() {
        assert(s.take(i) =~= s);
    } else {
        let d = s.drop_last();
        assert(s[s.len() - 1].name@ != k);
        assert forall|j: int| i <= j < d.len() implies #[trigger] d[j].name@ != k by {
            assert(s[j].name@ != k);
        }
        lemma_declarations_suffix(d, i, k);
        assert(d.take(i) =~= s.take(i));
    }
}

/// A set of predicate declarations, looked up by name.
#[derive(Debug)]
pub struct Registry {
    predicates: Vec<PredicateSpec>,
}

impl View for Registry {
    type V = Map<Seq<char>, PredicateSpecView>;

    closed spec fn view(&self) -> Map<Seq<char>, PredicateSpecView> {
        declarations_map(self.predicates@)
    }
}

impl Registry {
    pub fn new() -> (r: Self)
        ensures
            r@ == Map::<Seq<char>, PredicateSpecView>::empty(),
    {
        Registry { predicates: Vec::new() }
    }

    /// This registry with `spec` declared, replacing any declaration of the
    /// same name.
    pub fn with(self, spec: PredicateSpec) -> (r: Self)
        ensures
            r@ == self@.insert(spec.name@, spec@),
    {
        let mut predicates = self.predicates;
        let ghost before = predicates@;
        predicates.push(spec);
        proof {
            assert(predicates@.drop_last() =~= before);
        }
        Registry { predicates }
    }

    /// The declaration of the predicate `name`, if any.
    pub fn lookup(&self, name: &PredicateName) -> (r: Option<&PredicateSpec>)
        ensures
            match r {
                Some(spec) => self@.contains_key(name@) && spec@ == self@[name@],
                None => !self@.contains_key(name@),
            },
    {
        let mut i = self.predicates.len();
        while i > 0
            invariant
                i <= self.predicates@.len(),
                forall|j: int|
                    i <= j < self.predicates@.len() ==> #[trigger] self.predicates@[j].name@
                        != name@,
            decreases i,
        {
            if self.predicates[i - 1].name.0 == name.0 {
                proof {
                    let s = self.predicates@;
                    lemma_declarations_suffix(s, i as int, name@);
                    let t = s.take(i as int);
                    assert(t.drop_last() =~= s.take(i - 1));
                    assert(t.last() == s[i - 1]);
                }
                return Some(&self.predicates[i - 1]);
            }
            i -= 1;
        }
        proof {
            lemma_declarations_suffix(self.predicates@, 0, name@);
            assert(self.predicates@.take(0).len() == 0);
        }
        None
    }

    /// The registry of every predicate the lens language knows.
    pub fn seed_default() -> (r: Self)
        ensures
            r@ == default_predicates(),
    {
        let entities = SpecResultType::Of(ResultType::Entities);
        let events = SpecResultType::Of(ResultType::Events);

        let mut r = Self::new();
        let a = vec![ArgType::LensOfNames(NameKind::Agent)];
        proof { assert(a@ =~= seq![ArgType::LensOfNames(NameKind::Agent)]); }
        r = r.with(PredicateSpec::new("agent", a, entities, ExecutorHint::GraphStep(LensStepKind::SearchByAgent)));
        let a = vec![ArgType::LensOfNames(NameKind::Texture)];
        proof { assert(a@ =~= seq![ArgType::LensOfNames(NameKind::Texture)]); }
        r = r.with(PredicateSpec::new("texture", a, entities, ExecutorHint::GraphStep(LensStepKind::SearchByTexture)));
        let a = vec![ArgType::LensOfNames(NameKind::Level)];
        proof { assert(a@ =~= seq![ArgType::LensOfNames(NameKind::Level)]); }
        r = r.with(PredicateSpec::new("level", a, entities, ExecutorHint::GraphStep(LensStepKind::SearchByLevel)));
        let a = vec![ArgType::LensOfNames(NameKind::Kind)];
        proof { assert(a@ =~= seq![ArgType::LensOfNames(NameKind::Kind)]); }
        r = r.with(PredicateSpec::new("kind", a, entities, ExecutorHint::GraphStep(LensStepKind::SearchByKind)));
        let a = vec![ArgType::String];
        proof { assert(a@ =~= seq![ArgType::String]); }
        r = r.with(PredicateSpec::new("search", a, entities, ExecutorHint::SearchIndexText));
        let a = vec![ArgType::Lens];
        proof { assert(a@ =~= seq![ArgType::Lens]); }
        r = r.with(PredicateSpec::new("events_for", a, events, ExecutorHint::GraphStep(LensStepKind::EventsFor)));
        let a = vec![ArgType::Lens];
        proof { assert(a@ =~= seq![ArgType::Lens]); }
        r = r.with(PredicateSpec::new("refs_from", a, entities, ExecutorHint::GraphStep(LensStepKind::RefsFrom)));
        let a = vec![ArgType::Lens];
        proof { assert(a@ =~= seq![ArgType::Lens]); }
        r = r.with(PredicateSpec::new("from", a, entities, ExecutorHint::GraphStep(LensStepKind::ConnectedFrom)));
        let a = vec![ArgType::Lens];
        proof { assert(a@ =~= seq![ArgType::Lens]); }
        r = r.with(PredicateSpec::new("to", a, entities, ExecutorHint::GraphStep(LensStepKind::ConnectedTo)));
        let a = vec![ArgType::Lens];
        proof { assert(a@ =~= seq![ArgType::Lens]); }
        r = r.with(PredicateSpec::new("descendants", a, entities, ExecutorHint::GraphStep(LensStepKind::Descendants)));
        let a = vec![ArgType::Lens];
        proof { assert(a@ =~= seq![ArgType::Lens]); }
        r = r.with(PredicateSpec::new("ancestors", a, entities, ExecutorHint::GraphStep(LensStepKind::Ancestors)));
        let a = vec![ArgType::Lens, ArgType::Integer];
        proof { assert(a@ =~= seq![ArgType::Lens, ArgType::Integer]); }
        r = r.with(PredicateSpec::new("within", a, entities, ExecutorHint::GraphStep(LensStepKind::Within(0))));
        let a = vec![ArgType::Lens];
        proof { assert(a@ =~= seq![ArgType::Lens]); }
        r = r.with(PredicateSpec::new("component", a, entities, ExecutorHint::GraphStep(LensStepKind::Component)));
        let a = vec![ArgType::Ref, ArgType::Ref];
        proof { assert(a@ =~= seq![ArgType::Ref, ArgType::Ref]); }
        r = r.with(PredicateSpec::new("between", a, events, ExecutorHint::ChronicleBetween));
        proof {
            assert(r@ =~= default_predicates());
        }
        r
    }
}

/// A declaration with the given parts.
pub open spec fn declaration(
    name: Seq<char>,
    arg_types: Seq<ArgType>,
    result: ResultType,
    executor: ExecutorHint,
) -> PredicateSpecView {
    PredicateSpecView { name, arg_types, result_type: SpecResultType::Of(result), executor }
}

/// Every predicate of the lens language, by name.
pub open spec fn default_predicates() -> Map<Seq<char>, PredicateSpecView> {
    let entities = ResultType::Entities;
    let events = ResultType::Events;
    Map::empty().insert(
        "agent"@,
        declaration(
            "agent"@,
            seq![ArgType::LensOfNames(NameKind::Agent)],
            entities,
            ExecutorHint::GraphStep(LensStepKind::SearchByAgent),
        ),
    ).insert(
        "texture"@,
        declaration(
            "texture"@,
            seq![ArgType::LensOfNames(NameKind::Texture)],
            entities,
            ExecutorHint::GraphStep(LensStepKind::SearchByTexture),
        ),
    ).insert(
        "level"@,
        declaration(
            "level"@,
            seq![ArgType::LensOfNames(NameKind::Level)],
            entities,
            ExecutorHint::GraphStep(LensStepKind::SearchByLevel),
        ),
    ).insert(
        "kind"@,
        declaration(
            "kind"@,
            seq![ArgType::LensOfNames(NameKind::Kind)],
            entities,
            ExecutorHint::GraphStep(LensStepKind::SearchByKind),
        ),
    ).insert(
        "search"@,
        declaration("search"@, seq![ArgType::String], entities, ExecutorHint::SearchIndexText),
    ).insert(
        "events_for"@,
        declaration(
            "events_for"@,
            seq![ArgType::Lens],
            events,
            ExecutorHint::GraphStep(LensStepKind::EventsFor),
        ),
    ).insert(
        "refs_from"@,
        declaration(
            "refs_from"@,
            seq![ArgType::Lens],
            entities,
            ExecutorHint::GraphStep(LensStepKind::RefsFrom),
        ),
    ).insert(
        "from"@,
        declaration(
            "from"@,
            seq![ArgType::Lens],
            entities,
            ExecutorHint::GraphStep(LensStepKind::ConnectedFrom),
        ),
    ).insert(
        "to"@,
        declaration(
            "to"@,
            seq![ArgType::Lens],
            entities,
            ExecutorHint::GraphStep(LensStepKind::ConnectedTo),
        ),
    ).insert(
        "descendants"@,
        declaration(
            "descendants"@,
            seq![ArgType::Lens],
            entities,
            ExecutorHint::GraphStep(LensStepKind::Descendants),
        ),
    ).insert(
        "ancestors"@,
        declaration(
            "ancestors"@,
            seq![ArgType::Lens],
            entities,
            ExecutorHint::GraphStep(LensStepKind::Ancestors),
        ),
    ).insert(
        "within"@,
        declaration(
            "within"@,
            seq![ArgType::Lens, ArgType::Integer],
            entities,
            ExecutorHint::GraphStep(LensStepKind::Within(0)),
        ),
    ).insert(
        "component"@,
        declaration(
            "component"@,
            seq![ArgType::Lens],
            entities,
            ExecutorHint::GraphStep(LensStepKind::Component),
        ),
    ).insert(
        "between"@,
        declaration(
            "between"@,
            seq![ArgType::Ref, ArgType::Ref],
            events,
            ExecutorHint::ChronicleBetween,
        ),
    )
}

/// Whether `lens` is built only from symbols and set operators.
pub open spec fn is_lens_of_names(lens: LensView) -> bool
    decreases lens,
{
    match lens {
        LensView::Symbol(_) => true,
        LensView::Union(l, r) => is_lens_of_names(*l) && is_lens_of_names(*r),
        LensView::Intersection(l, r) => is_lens_of_names(*l) && is_lens_of_names(*r),
        LensView::Difference(l, r) => is_lens_of_names(*l) && is_lens_of_names(*r),
        _ => false,
    }
}

/// Whether an argument of shape `t` may be `lens`.
pub open spec fn arg_matches(t: ArgType, lens: LensView) -> bool {
    match t {
        ArgType::String => lens is Str,
        ArgType::Ref => lens is Ref,
        ArgType::Integer => lens is Integer,
        ArgType::Lens => (lens is Predicate || lens is Union || lens is Intersection
            || lens is Difference || lens is Ref),
        ArgType::LensOfNames(_) => is_lens_of_names(lens),
    }
}

impl ArgType {
    pub open spec fn label(self) -> Seq<char> {
        match self {
            ArgType::String => "string"@,
            ArgType::Ref => "ref"@,
            ArgType::Integer => "integer"@,
            ArgType::Lens => "lens expression"@,
            ArgType::LensOfNames(NameKind::Agent) => "lens of agent names"@,
            ArgType::LensOfNames(NameKind::Texture) => "lens of texture names"@,
            ArgType::LensOfNames(NameKind::Level) => "lens of level names"@,
            ArgType::LensOfNames(NameKind::Kind) => "lens of resource kinds"@,
        }
    }

    pub fn matches(&self, lens: &Lens) -> (r: bool)
        ensures
            r == arg_matches(*self, lens@),
    {
        match (self, lens) {
            (ArgType::String, Lens::String(_)) => true,
            (ArgType::Ref, Lens::Ref(_)) => true,
            (ArgType::Integer, Lens::Integer(_)) => true,
            (ArgType::Lens, lens) => match lens {
                Lens::Predicate(_) | Lens::Union(_, _) | Lens::Intersection(_, _) | Lens::Difference(
                    _,
                    _,
                )
                | Lens::Ref(_) => true,
                _ => false,
            },
            (ArgType::LensOfNames(_), lens) => Self::lens_of_names_matches(lens),
            _ => false,
        }
    }

    fn lens_of_names_matches(lens: &Lens) -> (r: bool)
        ensures
            r == is_lens_of_names(lens@),
        decreases lens,
    {
        match lens {
            Lens::Symbol(_) => true,
            Lens::Union(left, right) | Lens::Intersection(left, right) | Lens::Difference(
                left,
                right,
            ) => Self::lens_of_names_matches(left) && Self::lens_of_names_matches(right),
            _ => false,
        }
    }

    pub fn describe(&self) -> (r: &'static str)
        ensures
            r@ == self.label(),
    {
        match self {
            ArgType::String => "string",
            ArgType::Ref => "ref",
            ArgType::Integer => "integer",
            ArgType::Lens => "lens expression",
            ArgType::LensOfNames(NameKind::Agent) => "lens of agent names",
            ArgType::LensOfNames(NameKind::Texture) => "lens of texture names",
            ArgType::LensOfNames(NameKind::Level) => "lens of level names",
            ArgType::LensOfNames(NameKind::Kind) => "lens of resource kinds",
        }
    }
}


/// What each predicate of the lens language does: `agent`, `texture`,
/// `level` and `kind` search by their names; `from` follows connections
/// out of its input and `to` connections into it; `descendants`,
/// `ancestors`, `within` and `component` walk the graph; `events_for` and
/// `refs_from` step to events and references; `search` reads the text
/// index and `between` the chronicle. No other predicate is declared.
pub proof fn default_predicates_do_what_they_are_named_for()
    ensures
        default_predicates().contains_key("agent"@),
        default_predicates()["agent"@].executor == ExecutorHint::GraphStep(LensStepKind::SearchByAgent),
        default_predicates()["agent"@].result_type == SpecResultType::Of(ResultType::Entities),
        default_predicates().contains_key("texture"@),
        default_predicates()["texture"@].executor == ExecutorHint::GraphStep(LensStepKind::SearchByTexture),
        default_predicates()["texture"@].result_type == SpecResultType::Of(ResultType::Entities),
        default_predicates().contains_key("level"@),
        default_predicates()["level"@].executor == ExecutorHint::GraphStep(LensStepKind::SearchByLevel),
        default_predicates()["level"@].result_type == SpecResultType::Of(ResultType::Entities),
        default_predicates().contains_key("kind"@),
        default_predicates()["kind"@].executor == ExecutorHint::GraphStep(LensStepKind::SearchByKind),
        default_predicates()["kind"@].result_type == SpecResultType::Of(ResultType::Entities),
        default_predicates().contains_key("search"@),
        default_predicates()["search"@].executor == ExecutorHint::SearchIndexText,
        default_predicates()["search"@].result_type == SpecResultType::Of(ResultType::Entities),
        default_predicates().contains_key("events_for"@),
        default_predicates()["events_for"@].executor == ExecutorHint::GraphStep(LensStepKind::EventsFor),
        default_predicates()["events_for"@].result_type == SpecResultType::Of(ResultType::Events),
        default_predicates().contains_key("refs_from"@),
        default_predicates()["refs_from"@].executor == ExecutorHint::GraphStep(LensStepKind::RefsFrom),
        default_predicates()["refs_from"@].result_type == SpecResultType::Of(ResultType::Entities),
        default_predicates().contains_key("from"@),
        default_predicates()["from"@].executor == ExecutorHint::GraphStep(LensStepKind::ConnectedFrom),
        default_predicates()["from"@].result_type == SpecResultType::Of(ResultType::Entities),
        default_predicates().contains_key("to"@),
        default_predicates()["to"@].executor == ExecutorHint::GraphStep(LensStepKind::ConnectedTo),
        default_predicates()["to"@].result_type == SpecResultType::Of(ResultType::Entities),
        default_predicates().contains_key("descendants"@),
        default_predicates()["descendants"@].executor == ExecutorHint::GraphStep(LensStepKind::Descendants),
        default_predicates()["descendants"@].result_type == SpecResultType::Of(ResultType::Entities),
        default_predicates().contains_key("ancestors"@),
        default_predicates()["ancestors"@].executor == ExecutorHint::GraphStep(LensStepKind::Ancestors),
        default_predicates()["ancestors"@].result_type == SpecResultType::Of(ResultType::Entities),
        default_predicates().contains_key("within"@),
        default_predicates()["within"@].executor == ExecutorHint::GraphStep(LensStepKind::Within(0)),
        default_predicates()["within"@].result_type == SpecResultType::Of(ResultType::Entities),
        default_predicates().contains_key("component"@),
        default_predicates()["component"@].executor == ExecutorHint::GraphStep(LensStepKind::Component),
        default_predicates()["component"@].result_type == SpecResultType::Of(ResultType::Entities),
        default_predicates().contains_key("between"@),
        default_predicates()["between"@].executor == ExecutorHint::ChronicleBetween,
        default_predicates()["between"@].result_type == SpecResultType::Of(ResultType::Events),
        forall|name: Seq<char>|
            #[trigger] default_predicates().contains_key(name) ==> (name == "agent"@ || name == "texture"@ || name == "level"@ || name == "kind"@ || name == "search"@ || name == "events_for"@ || name == "refs_from"@ || name == "from"@ || name == "to"@ || name == "descendants"@ || name == "ancestors"@ || name == "within"@ || name == "component"@ || name == "between"@),
{
    reveal_strlit("agent");
    reveal_strlit("texture");
    reveal_strlit("level");
    reveal_strlit("kind");
    reveal_strlit("search");
    reveal_strlit("events_for");
    reveal_strlit("refs_from");
    reveal_strlit("from");
    reveal_strlit("to");
    reveal_strlit("descendants");
    reveal_strlit("ancestors");
    reveal_strlit("within");
    reveal_strlit("component");
    reveal_strlit("between");
    assert("agent"@.len() != "texture"@.len());
    assert("agent"@[0] != "level"@[0]);
    assert("agent"@.len() != "kind"@.len());
    assert("agent"@.len() != "search"@.len());
    assert("agent"@.len() != "events_for"@.len());
    assert("agent"@.len() != "refs_from"@.len());
    assert("agent"@.len() != "from"@.len());
    assert("agent"@.len() != "to"@.len());
    assert("agent"@.len() != "descendants"@.len());
    assert("agent"@.len() != "ancestors"@.len());
    assert("agent"@.len() != "within"@.len());
    assert("agent"@.len() != "component"@.len());
    assert("agent"@.len() != "between"@.len());
    assert("texture"@.len() != "level"@.len());
    assert("texture"@.len() != "kind"@.len());
    assert("texture"@.len() != "search"@.len());
    assert("texture"@.len() != "events_for"@.len());
    assert("texture"@.len() != "refs_from"@.len());
    assert("texture"@.len() != "from"@.len());
    assert("texture"@.len() != "to"@.len());
    assert("texture"@.len() != "descendants"@.len());
    assert("texture"@.len() != "ancestors"@.len());
    assert("texture"@.len() != "within"@.len());
    assert("texture"@.len() != "component"@.len());
    assert("texture"@[0] != "between"@[0]);
    assert("level"@.len() != "kind"@.len());
    assert("level"@.len() != "search"@.len());
    assert("level"@.len() != "events_for"@.len());
    assert("level"@.len() != "refs_from"@.len());
    assert("level"@.len() != "from"@.len());
    assert("level"@.len() != "to"@.len());
    assert("level"@.len() != "descendants"@.len());
    assert("level"@.len() != "ancestors"@.len());
    assert("level"@.len() != "within"@.len());
    assert("level"@.len() != "component"@.len());
    assert("level"@.len() != "between"@.len());
    assert("kind"@.len() != "search"@.len());
    assert("kind"@.len() != "events_for"@.len());
    assert("kind"@.len() != "refs_from"@.len());
    assert("kind"@[0] != "from"@[0]);
    assert("kind"@.len() != "to"@.len());
    assert("kind"@.len() != "descendants"@.len());
    assert("kind"@.len() != "ancestors"@.len());
    assert("kind"@.len() != "within"@.len());
    assert("kind"@.len() != "component"@.len());
    assert("kind"@.len() != "between"@.len());
    assert("search"@.len() != "events_for"@.len());
    assert("search"@.len() != "refs_from"@.len());
    assert("search"@.len() != "from"@.len());
    assert("search"@.len() != "to"@.len());
    assert("search"@.len() != "descendants"@.len());
    assert("search"@.len() != "ancestors"@.len());
    assert("search"@[0] != "within"@[0]);
    assert("search"@.len() != "component"@.len());
    assert("search"@.len() != "between"@.len());
    assert("events_for"@.len() != "refs_from"@.len());
    assert("events_for"@.len() != "from"@.len());
    assert("events_for"@.len() != "to"@.len());
    assert("events_for"@.len() != "descendants"@.len());
    assert("events_for"@.len() != "ancestors"@.len());
    assert("events_for"@.len() != "within"@.len());
    assert("events_for"@.len() != "component"@.len());
    assert("events_for"@.len() != "between"@.len());
    assert("refs_from"@.len() != "from"@.len());
    assert("refs_from"@.len() != "to"@.len());
    assert("refs_from"@.len() != "descendants"@.len());
    assert("refs_from"@[0] != "ancestors"@[0]);
    assert("refs_from"@.len() != "within"@.len());
    assert("refs_from"@[0] != "component"@[0]);
    assert("refs_from"@.len() != "between"@.len());
    assert("from"@.len() != "to"@.len());
    assert("from"@.len() != "descendants"@.len());
    assert("from"@.len() != "ancestors"@.len());
    assert("from"@.len() != "within"@.len());
    assert("from"@.len() != "component"@.len());
    assert("from"@.len() != "between"@.len());
    assert("to"@.len() != "descendants"@.len());
    assert("to"@.len() != "ancestors"@.len());
    assert("to"@.len() != "within"@.len());
    assert("to"@.len() != "component"@.len());
    assert("to"@.len() != "between"@.len());
    assert("descendants"@.len() != "ancestors"@.len());
    assert("descendants"@.len() != "within"@.len());
    assert("descendants"@.len() != "component"@.len());
    assert("descendants"@.len() != "between"@.len());
    assert("ancestors"@.len() != "within"@.len());
    assert("ancestors"@[0] != "component"@[0]);
    assert("ancestors"@.len() != "between"@.len());
    assert("within"@.len() != "component"@.len());
    assert("within"@.len() != "between"@.len());
    assert("component"@.len() != "between"@.len());
}

} // verus!
