//! Selections: sets of hits keyed by identity, with set algebra that merges
//! the hits two selections share.
use vstd::prelude::*;
use vstd::multiset::Multiset;

use crate::lens::ast::Ref;
use crate::lens::registry::NameKind;

verus! {

/// A point in time, as an ordered count.
#[derive(Debug, Clone, Copy, PartialEq, Eq, Hash, Structural)]
pub struct Timestamp(pub i64);

/// The identity of a stored event.
#[derive(Debug, Clone, Copy, PartialEq, Eq, Hash, Structural)]
pub struct EventId(pub u128);

/// How relevant a hit is. A known score is held as an order-preserving key:
/// a larger key is a more relevant hit.
#[derive(Debug, Clone, Copy, PartialEq, Eq, Structural)]
pub enum Relevance {
    Known { score: u64 },
    Unknown,
}

#[derive(Debug)]
pub struct EventHit {
    pub event_id: EventId,
    pub timestamp: Timestamp,
    pub relevance: Relevance,
}

#[derive(Debug)]
pub struct EntityHit {
    pub entity_ref: Ref,
    pub timestamp: Timestamp,
    pub relevance: Relevance,
}

#[derive(Debug)]
pub struct NameHit {
    pub name: String,
    pub kind: NameKind,
    pub timestamp: Timestamp,
    pub relevance: Relevance,
}

/// One member of a selection.
#[derive(Debug)]
pub enum Hit {
    Event(EventHit),
    Entity(EntityHit),
    Name(NameHit),
}

/// What makes two hits the same member.
#[derive(Debug)]
pub enum HitIdentity {
    Event(EventId),
    Entity(Ref),
    Name { name: String, kind: NameKind },
}

/// The value of a hit identity.
pub enum IdentityView {
    Event(u128),
    Entity(Seq<char>),
    Name(Seq<char>, NameKind),
}

/// The value of a hit: its identity, its time and its relevance.
pub struct HitView {
    pub identity: IdentityView,
    pub timestamp: i64,
    pub relevance: Relevance,
}

impl View for HitIdentity {
    type V = IdentityView;

    open spec fn view(&self) -> IdentityView {
        match self {
            HitIdentity::Event(id) => IdentityView::Event(id.0),
            HitIdentity::Entity(r) => IdentityView::Entity(r@),
            HitIdentity::Name { name, kind } => IdentityView::Name(name@, *kind),
        }
    }
}

impl View for Hit {
    type V = HitView;

    open spec fn view(&self) -> HitView {
        match self {
            Hit::Event(e) => HitView {
                identity: IdentityView::Event(e.event_id.0),
                timestamp: e.timestamp.0,
                relevance: e.relevance,
            },
            Hit::Entity(e) => HitView {
                identity: IdentityView::Entity(e.entity_ref@),
                timestamp: e.timestamp.0,
                relevance: e.relevance,
            },
            Hit::Name(n) => HitView {
                identity: IdentityView::Name(n.name@, n.kind),
                timestamp: n.timestamp.0,
                relevance: n.relevance,
            },
        }
    }
}

/// The more relevant of two relevances; a known score wins over an unknown
/// one.
pub open spec fn merge_relevance(a: Relevance, b: Relevance) -> Relevance {
    match (a, b) {
        (Relevance::Known { score: x }, Relevance::Known { score: y }) => Relevance::Known {
            score: if x >= y {
                x
            } else {
                y
            },
        },
        (Relevance::Known { .. }, Relevance::Unknown) => a,
        (Relevance::Unknown, Relevance::Known { .. }) => b,
        (Relevance::Unknown, Relevance::Unknown) => Relevance::Unknown,
    }
}

/// Two hits of the same identity merged: the earlier time and the greater
/// relevance.
pub open spec fn merge_hits(a: HitView, b: HitView) -> HitView {
    HitView {
        identity: a.identity,
        timestamp: if a.timestamp <= b.timestamp {
            a.timestamp
        } else {
            b.timestamp
        },
        relevance: merge_relevance(a.relevance, b.relevance),
    }
}

/// A map of hits in which every hit is filed under its own identity.
pub open spec fn hits_keyed(m: Map<IdentityView, HitView>) -> bool {
    forall|k: IdentityView| #[trigger] m.contains_key(k) ==> m[k].identity == k
}

/// The hits in either selection, shared ones merged.
pub open spec fn union_of(a: Map<IdentityView, HitView>, b: Map<IdentityView, HitView>) -> Map<
    IdentityView,
    HitView,
> {
    Map::new(
        |k: IdentityView| a.contains_key(k) || b.contains_key(k),
        |k: IdentityView|
            if a.contains_key(k) && b.contains_key(k) {
                merge_hits(a[k], b[k])
            } else if a.contains_key(k) {
                a[k]
            } else {
                b[k]
            },
    )
}

/// The hits in both selections, merged.
pub open spec fn intersection_of(
    a: Map<IdentityView, HitView>,
    b: Map<IdentityView, HitView>,
) -> Map<IdentityView, HitView> {
    Map::new(
        |k: IdentityView| a.contains_key(k) && b.contains_key(k),
        |k: IdentityView| merge_hits(a[k], b[k]),
    )
}

/// The hits of the first selection whose identity the second lacks.
pub open spec fn difference_of(a: Map<IdentityView, HitView>, b: Map<IdentityView, HitView>) -> Map<
    IdentityView,
    HitView,
> {
    Map::new(|k: IdentityView| a.contains_key(k) && !b.contains_key(k), |k: IdentityView| a[k])
}

/// The views of a list of hits.
pub open spec fn hit_views(s: Seq<Hit>) -> Seq<HitView> {
    s.map_values(|h: Hit| h@)
}

/// The map from identities to hits that a list of hits builds.
pub open spec fn keyed(s: Seq<HitView>) -> Map<IdentityView, HitView>
    decreases s.len(),
{
    if s.len() == 0 {
        Map::empty()
    } else {
        keyed(s.drop_last()).insert(s.last().identity, s.last())
    }
}

/// No two hits of the list share an identity.
pub open spec fn distinct_identities(s: Seq<HitView>) -> bool {
    forall|i: int, j: int|
        0 <= i < s.len() && 0 <= j < s.len() && i != j ==> #[trigger] s[i].identity
            != #[trigger] s[j].identity
}

proof fn lemma_keyed_contains(s: Seq<HitView>, k: IdentityView)
    ensures
        keyed(s).contains_key(k) <==> exists|i: int| 0 <= i < s.len() && #[trigger] s[i].identity == k,
    decreases s.len(),
{
    if s.len() > 0 {
        lemma_keyed_contains(s.drop_last(), k);
        if keyed(s).contains_key(k) && s.last().identity != k {
            let i = choose|i: int| 0 <= i < s.drop_last().len() && #[trigger] s.drop_last()[i].identity == k;
            assert(s[i].identity == k);
        }
        if exists|i: int| 0 <= i < s.len() && #[trigger] s[i].identity == k {
            let i = choose|i: int| 0 <= i < s.len() && #[trigger] s[i].identity == k;
            if i < s.len() - 1 {
                assert(s.drop_last()[i].identity == k);
            }
        }
    }
}

proof fn lemma_keyed_value(s: Seq<HitView>, i: int)
    requires
        distinct_identities(s),
        0 <= i < s.len(),
    ensures
        keyed(s).contains_key(s[i].identity),
        keyed(s)[s[i].identity] == s[i],
    decreases s.len(),
{
    lemma_keyed_contains(s, s[i].identity);
    if i < s.len() - 1 {
        let d = s.drop_last();
        assert(distinct_identities(d)) by {
            assert forall|a: int, b: int|
                0 <= a < d.len() && 0 <= b < d.len() && a != b implies #[trigger] d[a].identity
                != #[trigger] d[b].identity by {
                assert(s[a].identity != s[b].identity);
            }
        }
        assert(d[i] == s[i]);
        lemma_keyed_value(d, i);
        assert(s.last().identity != s[i].identity) by {
            assert(s[s.len() - 1].identity != s[i].identity);
        }
    }
}

proof fn lemma_keyed_is_keyed(s: Seq<HitView>)
    ensures
        hits_keyed(keyed(s)),
    decreases s.len(),
{
    if s.len() > 0 {
        lemma_keyed_is_keyed(s.drop_last());
    }
}

/// Pushing a hit of a new identity adds it to the map.
proof fn lemma_keyed_push(s: Seq<HitView>, h: HitView)
    ensures
        keyed(s.push(h)) == keyed(s).insert(h.identity, h),
{
    assert(s.push(h).drop_last() =~= s);
}

/// Replacing the hit at `i` by one of the same identity replaces its value.
proof fn lemma_keyed_update(s: Seq<HitView>, i: int, h: HitView)
    requires
        distinct_identities(s),
        0 <= i < s.len(),
        h.identity == s[i].identity,
    ensures
        keyed(s.update(i, h)) == keyed(s).insert(h.identity, h),
        distinct_identities(s.update(i, h)),
{
    let t = s.update(i, h);
    assert(distinct_identities(t)) by {
        assert forall|a: int, b: int|
            0 <= a < t.len() && 0 <= b < t.len() && a != b implies #[trigger] t[a].identity
            != #[trigger] t[b].identity by {
            assert(s[a].identity != s[b].identity);
        }
    }
    assert forall|k: IdentityView| #[trigger] keyed(t).contains_key(k) == keyed(s).insert(
        h.identity,
        h,
    ).contains_key(k) by {
        lemma_keyed_contains(t, k);
        lemma_keyed_contains(s, k);
        if keyed(s).contains_key(k) {
            let j = choose|j: int| 0 <= j < s.len() && #[trigger] s[j].identity == k;
            assert(t[j].identity == k);
        }
        if keyed(t).contains_key(k) {
            let j = choose|j: int| 0 <= j < t.len() && #[trigger] t[j].identity == k;
            assert(s[j].identity == k);
        }
    }
    assert forall|k: IdentityView| #[trigger] keyed(t).contains_key(k) implies keyed(t)[k]
        == keyed(s).insert(h.identity, h)[k] by {
        lemma_keyed_contains(t, k);
        let j = choose|j: int| 0 <= j < t.len() && #[trigger] t[j].identity == k;
        lemma_keyed_value(t, j);
        if j != i {
            lemma_keyed_value(s, j);
        }
    }
    assert(keyed(t) =~= keyed(s).insert(h.identity, h));
}

/// A set of hits, at most one per identity.
#[derive(Debug)]
pub struct Selection {
    entries: Vec<Hit>,
}

impl Selection {
    #[verifier::type_invariant]
    spec fn entries_distinct(&self) -> bool {
        distinct_identities(hit_views(self.entries@))
    }

    /// The hits, in the order they were first inserted.
    pub closed spec fn members(&self) -> Seq<HitView> {
        hit_views(self.entries@)
    }
}

impl View for Selection {
    type V = Map<IdentityView, HitView>;

    closed spec fn view(&self) -> Map<IdentityView, HitView> {
        keyed(hit_views(self.entries@))
    }
}

/// A selection's members build its map, and are distinct.
pub proof fn lemma_members(s: &Selection)
    requires
        distinct_identities(s.members()),
    ensures
        s@ == keyed(s.members()),
        distinct_identities(s.members()),
        hits_keyed(s@),
        forall|k: IdentityView|
            s@.contains_key(k) <==> exists|i: int|
                0 <= i < s.members().len() && #[trigger] s.members()[i].identity == k,
        forall|i: int|
            0 <= i < s.members().len() ==> #[trigger] s@.contains_key(s.members()[i].identity)
                && s@[s.members()[i].identity] == s.members()[i],
{
    lemma_keyed_is_keyed(s.members());
    assert forall|k: IdentityView|
        s@.contains_key(k) <==> exists|i: int|
            0 <= i < s.members().len() && #[trigger] s.members()[i].identity == k by {
        lemma_keyed_contains(s.members(), k);
    }
    assert forall|i: int| 0 <= i < s.members().len() implies #[trigger] s@.contains_key(
        s.members()[i].identity,
    ) && s@[s.members()[i].identity] == s.members()[i] by {
        lemma_keyed_value(s.members(), i);
    }
}

impl Relevance {
    pub fn score(&self) -> (r: Option<u64>)
        ensures
            r == (match *self {
                Relevance::Known { score } => Some(score),
                Relevance::Unknown => None,
            }),
    {
        match self {
            Relevance::Known { score } => Some(*score),
            Relevance::Unknown => None,
        }
    }

    fn merge(&self, other: &Self) -> (r: Relevance)
        ensures
            r == merge_relevance(*self, *other),
    {
        match (self.score(), other.score()) {
            (Some(a), Some(b)) => Relevance::Known {
                score: if a >= b {
                    a
                } else {
                    b
                },
            },
            (Some(_), None) => *self,
            (None, Some(_)) => *other,
            (None, None) => Relevance::Unknown,
        }
    }
}

impl Hit {
    pub fn identity(&self) -> (r: HitIdentity)
        ensures
            r@ == self@.identity,
    {
        match self {
            Hit::Event(e) => HitIdentity::Event(e.event_id),
            Hit::Entity(e) => HitIdentity::Entity(e.entity_ref.duplicate()),
            Hit::Name(n) => HitIdentity::Name { name: n.name.clone(), kind: n.kind },
        }
    }

    pub fn timestamp(&self) -> (r: Timestamp)
        ensures
            r.0 == self@.timestamp,
    {
        match self {
            Hit::Event(e) => e.timestamp,
            Hit::Entity(e) => e.timestamp,
            Hit::Name(n) => n.timestamp,
        }
    }

    pub fn relevance(&self) -> (r: &Relevance)
        ensures
            *r == self@.relevance,
    {
        match self {
            Hit::Event(e) => &e.relevance,
            Hit::Entity(e) => &e.relevance,
            Hit::Name(n) => &n.relevance,
        }
    }

    /// Whether two hits have the same identity.
    pub fn same_identity(&self, other: &Hit) -> (r: bool)
        ensures
            r == (self@.identity == other@.identity),
    {
        match (self, other) {
            (Hit::Event(a), Hit::Event(b)) => a.event_id.0 == b.event_id.0,
            (Hit::Entity(a), Hit::Entity(b)) => a.entity_ref.0 == b.entity_ref.0,
            (Hit::Name(a), Hit::Name(b)) => a.name == b.name && a.kind == b.kind,
            _ => false,
        }
    }

    /// A copy of this hit.
    pub fn duplicate(&self) -> (r: Hit)
        ensures
            r@ == self@,
    {
        match self {
            Hit::Event(e) => Hit::Event(
                EventHit { event_id: e.event_id, timestamp: e.timestamp, relevance: e.relevance },
            ),
            Hit::Entity(e) => Hit::Entity(
                EntityHit {
                    entity_ref: e.entity_ref.duplicate(),
                    timestamp: e.timestamp,
                    relevance: e.relevance,
                },
            ),
            Hit::Name(n) => Hit::Name(
                NameHit {
                    name: n.name.clone(),
                    kind: n.kind,
                    timestamp: n.timestamp,
                    relevance: n.relevance,
                },
            ),
        }
    }

    fn merge(&self, other: &Self) -> (r: Hit)
        ensures
            r@ == merge_hits(self@, other@),
    {
        let merged_relevance = self.relevance().merge(other.relevance());
        let a = self.timestamp();
        let b = other.timestamp();
        let earlier_timestamp = if a.0 <= b.0 {
            a
        } else {
            b
        };
        match self {
            Hit::Event(e) => Hit::Event(
                EventHit {
                    event_id: e.event_id,
                    timestamp: earlier_timestamp,
                    relevance: merged_relevance,
                },
            ),
            Hit::Entity(e) => Hit::Entity(
                EntityHit {
                    entity_ref: e.entity_ref.duplicate(),
                    timestamp: earlier_timestamp,
                    relevance: merged_relevance,
                },
            ),
            Hit::Name(n) => Hit::Name(
                NameHit {
                    name: n.name.clone(),
                    kind: n.kind,
                    timestamp: earlier_timestamp,
                    relevance: merged_relevance,
                },
            ),
        }
    }
}

proof fn lemma_hit_views_push(s: Seq<Hit>, h: Hit)
    ensures
        hit_views(s.push(h)) == hit_views(s).push(h@),
{
    assert(hit_views(s.push(h)) =~= hit_views(s).push(h@));
}

proof fn lemma_hit_views_update(s: Seq<Hit>, i: int, h: Hit)
    requires
        0 <= i < s.len(),
    ensures
        hit_views(s.update(i, h)) == hit_views(s).update(i, h@),
{
    assert(hit_views(s.update(i, h)) =~= hit_views(s).update(i, h@));
}

impl Selection {
    pub fn new() -> (r: Self)
        ensures
            r@ == Map::<IdentityView, HitView>::empty(),
    {
        let r = Selection { entries: Vec::new() };
        proof {
            assert(hit_views(r.entries@) =~= Seq::<HitView>::empty());
        }
        r
    }

    /// The position of the member with the identity of `hit`, if any.
    fn position_of(&self, hit: &Hit) -> (r: Option<usize>)
        ensures
            match r {
                Some(i) => i < self.members().len() && self.members()[i as int].identity
                    == hit@.identity,
                None => !self@.contains_key(hit@.identity),
            },
    {
        proof {
            use_type_invariant(self);
            lemma_members(self);
        }
        let mut i: usize = 0;
        while i < self.entries.len()
            invariant
                i <= self.entries@.len(),
                self.members() == hit_views(self.entries@),
                forall|j: int| 0 <= j < i ==> #[trigger] self.members()[j].identity != hit@.identity,
            decreases self.entries@.len() - i,
        {
            if self.entries[i].same_identity(hit) {
                return Some(i);
            }
            i += 1;
        }
        None
    }

    /// Adds `hit`, merging it into the member of the same identity if there
    /// is one.
    pub fn insert(&mut self, hit: Hit)
        ensures
            final(self)@ == old(self)@.insert(
                hit@.identity,
                if old(self)@.contains_key(hit@.identity) {
                    merge_hits(old(self)@[hit@.identity], hit@)
                } else {
                    hit@
                },
            ),
    {
        proof {
            use_type_invariant(&*self);
            lemma_members(&*self);
        }
        let pos = self.position_of(&hit);
        let mut entries: Vec<Hit> = Vec::new();
        std::mem::swap(&mut entries, &mut self.entries);
        let ghost s = hit_views(entries@);
        match pos {
            Some(i) => {
                let merged = entries[i].merge(&hit);
                proof {
                    lemma_hit_views_update(entries@, i as int, merged);
                    lemma_keyed_update(s, i as int, merged@);
                    lemma_keyed_value(s, i as int);
                }
                entries.set(i, merged);
            },
            None => {
                proof {
                    lemma_hit_views_push(entries@, hit);
                    lemma_keyed_push(s, hit@);
                    let t = s.push(hit@);
                    assert(distinct_identities(t)) by {
                        assert forall|a: int, b: int|
                            0 <= a < t.len() && 0 <= b < t.len() && a != b implies #[trigger] t[a].identity
                            != #[trigger] t[b].identity by {
                            if a < s.len() && b < s.len() {
                                assert(s[a].identity != s[b].identity);
                            } else if a < s.len() {
                                assert(s[a].identity != hit@.identity);
                            } else {
                                assert(s[b].identity != hit@.identity);
                            }
                        }
                    }
                }
                entries.push(hit);
            },
        }
        self.entries = entries;
    }

    pub fn len(&self) -> (r: usize)
        ensures
            r == self@.len(),
    {
        proof {
            use_type_invariant(self);
            lemma_keyed_len(hit_views(self.entries@));
        }
        self.entries.len()
    }

    pub fn is_empty(&self) -> (r: bool)
        ensures
            r == (self@.len() == 0),
    {
        self.len() == 0
    }

    /// A copy of this selection.
    pub fn duplicate(&self) -> (r: Selection)
        ensures
            r@ == self@,
            r.members() == self.members(),
    {
        proof {
            use_type_invariant(self);
        }
        let mut entries: Vec<Hit> = Vec::new();
        let mut i: usize = 0;
        while i < self.entries.len()
            invariant
                i <= self.entries@.len(),
                hit_views(entries@) == hit_views(self.entries@).take(i as int),
            decreases self.entries@.len() - i,
        {
            let h = self.entries[i].duplicate();
            proof {
                lemma_hit_views_push(entries@, h);
                assert(hit_views(self.entries@).take(i + 1) =~= hit_views(self.entries@).take(
                    i as int,
                ).push(h@));
            }
            entries.push(h);
            i += 1;
        }
        proof {
            assert(hit_views(self.entries@).take(self.entries@.len() as int) =~= hit_views(
                self.entries@,
            ));
        }
        Selection { entries }
    }

    /// The hits of this selection and of `other`; a hit in both is merged.
    pub fn union(&self, other: &Self) -> (r: Self)
        ensures
            r@ == union_of(self@, other@),
    {
        proof {
            use_type_invariant(self);
            lemma_members(self);
            use_type_invariant(other);
            lemma_members(other);
        }
        let mut result = self.duplicate();
        let ghost ov = other.members();
        let mut i: usize = 0;
        while i < other.entries.len()
            invariant
                i <= other.entries@.len(),
                ov == other.members(),
                ov == hit_views(other.entries@),
                distinct_identities(ov),
                other@ == keyed(ov),
                result@ == union_of(self@, keyed(ov.take(i as int))),
            decreases other.entries@.len() - i,
        {
            let h = other.entries[i].duplicate();
            proof {
                assert(ov.take(i + 1).drop_last() =~= ov.take(i as int));
                assert(!keyed(ov.take(i as int)).contains_key(ov[i as int].identity)) by {
                    lemma_keyed_contains(ov.take(i as int), ov[i as int].identity);
                    if keyed(ov.take(i as int)).contains_key(ov[i as int].identity) {
                        let j = choose|j: int|
                            0 <= j < i && #[trigger] ov.take(i as int)[j].identity
                                == ov[i as int].identity;
                        assert(ov[j].identity == ov[i as int].identity);
                    }
                }
            }
            result.insert(h);
            proof {
                assert(result@ =~= union_of(self@, keyed(ov.take(i + 1))));
            }
            i += 1;
        }
        proof {
            assert(ov.take(ov.len() as int) =~= ov);
        }
        result
    }

    /// The hits present in both this selection and `other`, merged.
    pub fn intersect(&self, other: &Self) -> (r: Self)
        ensures
            r@ == intersection_of(self@, other@),
    {
        proof {
            use_type_invariant(self);
            lemma_members(self);
            use_type_invariant(other);
            lemma_members(other);
        }
        let mut result = Selection::new();
        let ghost sv = self.members();
        let mut i: usize = 0;
        while i < self.entries.len()
            invariant
                i <= self.entries@.len(),
                sv == self.members(),
                sv == hit_views(self.entries@),
                distinct_identities(sv),
                self@ == keyed(sv),
                hits_keyed(other@),
                result@ == intersection_of(keyed(sv.take(i as int)), other@),
            decreases self.entries@.len() - i,
        {
            let hit = &self.entries[i];
            proof {
                assert(sv.take(i + 1).drop_last() =~= sv.take(i as int));
                assert(!keyed(sv.take(i as int)).contains_key(sv[i as int].identity)) by {
                    lemma_keyed_contains(sv.take(i as int), sv[i as int].identity);
                    if keyed(sv.take(i as int)).contains_key(sv[i as int].identity) {
                        let j = choose|j: int|
                            0 <= j < i && #[trigger] sv.take(i as int)[j].identity
                                == sv[i as int].identity;
                        assert(sv[j].identity == sv[i as int].identity);
                    }
                }
                assert(!result@.contains_key(sv[i as int].identity));
            }
            match other.position_of(hit) {
                Some(j) => {
                    proof {
                        use_type_invariant(other);
            lemma_members(other);
                    }
                    let merged = hit.merge(&other.entries[j]);
                    result.insert(merged);
                    proof {
                        assert(other@.contains_key(hit@.identity));
                        assert(result@ =~= intersection_of(keyed(sv.take(i + 1)), other@));
                    }
                },
                None => {
                    proof {
                        assert(result@ =~= intersection_of(keyed(sv.take(i + 1)), other@));
                    }
                },
            }
            i += 1;
        }
        proof {
            assert(sv.take(sv.len() as int) =~= sv);
        }
        result
    }

    /// The hits of this selection whose identity `other` lacks.
    pub fn difference(&self, other: &Self) -> (r: Self)
        ensures
            r@ == difference_of(self@, other@),
    {
        proof {
            use_type_invariant(self);
            lemma_members(self);
            use_type_invariant(other);
            lemma_members(other);
        }
        let mut result = Selection::new();
        let ghost sv = self.members();
        let mut i: usize = 0;
        while i < self.entries.len()
            invariant
                i <= self.entries@.len(),
                sv == self.members(),
                sv == hit_views(self.entries@),
                distinct_identities(sv),
                self@ == keyed(sv),
                result@ == difference_of(keyed(sv.take(i as int)), other@),
            decreases self.entries@.len() - i,
        {
            let hit = &self.entries[i];
            proof {
                assert(sv.take(i + 1).drop_last() =~= sv.take(i as int));
                assert(!keyed(sv.take(i as int)).contains_key(sv[i as int].identity)) by {
                    lemma_keyed_contains(sv.take(i as int), sv[i as int].identity);
                    if keyed(sv.take(i as int)).contains_key(sv[i as int].identity) {
                        let j = choose|j: int|
                            0 <= j < i && #[trigger] sv.take(i as int)[j].identity
                                == sv[i as int].identity;
                        assert(sv[j].identity == sv[i as int].identity);
                    }
                }
            }
            match other.position_of(hit) {
                Some(_) => {
                    proof {
                        use_type_invariant(other);
            lemma_members(other);
                        assert(result@ =~= difference_of(keyed(sv.take(i + 1)), other@));
                    }
                },
                None => {
                    let copy = hit.duplicate();
                    result.insert(copy);
                    proof {
                        assert(result@ =~= difference_of(keyed(sv.take(i + 1)), other@));
                    }
                },
            }
            i += 1;
        }
        proof {
            assert(sv.take(sv.len() as int) =~= sv);
        }
        result
    }
}

/// A list of distinct identities builds a map with one key per element.
proof fn lemma_keyed_len(s: Seq<HitView>)
    requires
        distinct_identities(s),
    ensures
        keyed(s).len() == s.len(),
        keyed(s).dom().finite(),
    decreases s.len(),
{
    if s.len() > 0 {
        let d = s.drop_last();
        assert(distinct_identities(d)) by {
            assert forall|a: int, b: int|
                0 <= a < d.len() && 0 <= b < d.len() && a != b implies #[trigger] d[a].identity
                != #[trigger] d[b].identity by {
                assert(s[a].identity != s[b].identity);
            }
        }
        lemma_keyed_len(d);
        lemma_keyed_contains(d, s.last().identity);
        if keyed(d).contains_key(s.last().identity) {
            let j = choose|j: int| 0 <= j < d.len() && #[trigger] d[j].identity == s.last().identity;
            assert(s[j].identity != s[s.len() - 1].identity);
        }
    } else {
        assert(keyed(s).dom() =~= Set::<IdentityView>::empty());
    }
}


/// Hits of one identity merge the same way in either order.
proof fn lemma_merge_commutes(a: HitView, b: HitView)
    requires
        a.identity == b.identity,
    ensures
        merge_hits(a, b) == merge_hits(b, a),
{
}

/// Union is commutative: either order gives the same hits, shared ones
/// merged alike.
pub proof fn union_commutes(a: Map<IdentityView, HitView>, b: Map<IdentityView, HitView>)
    requires
        hits_keyed(a),
        hits_keyed(b),
    ensures
        union_of(a, b) == union_of(b, a),
{
    assert forall|k: IdentityView| a.contains_key(k) && b.contains_key(k) implies merge_hits(
        a[k],
        b[k],
    ) == merge_hits(b[k], a[k]) by {
        lemma_merge_commutes(a[k], b[k]);
    }
    assert(union_of(a, b) =~= union_of(b, a));
}

/// Union is associative.
pub proof fn union_associates(
    a: Map<IdentityView, HitView>,
    b: Map<IdentityView, HitView>,
    c: Map<IdentityView, HitView>,
)
    requires
        hits_keyed(a),
        hits_keyed(b),
        hits_keyed(c),
    ensures
        union_of(union_of(a, b), c) == union_of(a, union_of(b, c)),
{
    assert(union_of(union_of(a, b), c) =~= union_of(a, union_of(b, c)));
}

/// The union of a selection with itself is that selection.
pub proof fn union_is_idempotent(a: Map<IdentityView, HitView>)
    requires
        hits_keyed(a),
    ensures
        union_of(a, a) == a,
{
    assert(union_of(a, a) =~= a);
}

/// The empty selection is the identity of union.
pub proof fn union_with_empty_is_identity(a: Map<IdentityView, HitView>)
    ensures
        union_of(a, Map::empty()) == a,
        union_of(Map::empty(), a) == a,
{
    assert(union_of(a, Map::empty()) =~= a);
    assert(union_of(Map::empty(), a) =~= a);
}

/// Intersection is commutative.
pub proof fn intersect_commutes(a: Map<IdentityView, HitView>, b: Map<IdentityView, HitView>)
    requires
        hits_keyed(a),
        hits_keyed(b),
    ensures
        intersection_of(a, b) == intersection_of(b, a),
{
    assert forall|k: IdentityView| a.contains_key(k) && b.contains_key(k) implies merge_hits(
        a[k],
        b[k],
    ) == merge_hits(b[k], a[k]) by {
        lemma_merge_commutes(a[k], b[k]);
    }
    assert(intersection_of(a, b) =~= intersection_of(b, a));
}

/// The intersection of a selection with itself is that selection.
pub proof fn intersect_is_idempotent(a: Map<IdentityView, HitView>)
    requires
        hits_keyed(a),
    ensures
        intersection_of(a, a) == a,
{
    assert(intersection_of(a, a) =~= a);
}

/// Intersecting with the empty selection gives the empty selection.
pub proof fn intersect_with_empty_is_empty(a: Map<IdentityView, HitView>)
    ensures
        intersection_of(a, Map::empty()) == Map::<IdentityView, HitView>::empty(),
        intersection_of(Map::empty(), a) == Map::<IdentityView, HitView>::empty(),
{
    assert(intersection_of(a, Map::empty()) =~= Map::<IdentityView, HitView>::empty());
    assert(intersection_of(Map::empty(), a) =~= Map::<IdentityView, HitView>::empty());
}

/// Removing nothing keeps a selection.
pub proof fn difference_with_empty_is_identity(a: Map<IdentityView, HitView>)
    ensures
        difference_of(a, Map::empty()) == a,
{
    assert(difference_of(a, Map::empty()) =~= a);
}

/// Removing a selection from itself leaves nothing.
pub proof fn difference_with_self_is_empty(a: Map<IdentityView, HitView>)
    ensures
        difference_of(a, a) == Map::<IdentityView, HitView>::empty(),
{
    assert(difference_of(a, a) =~= Map::<IdentityView, HitView>::empty());
}

/// A difference shares no identity with what was removed, and together with
/// the intersection covers the first selection.
pub proof fn difference_and_intersection_partition(
    a: Map<IdentityView, HitView>,
    b: Map<IdentityView, HitView>,
)
    ensures
        difference_of(a, b).dom().disjoint(b.dom()),
        difference_of(a, b).dom() + intersection_of(a, b).dom() == a.dom(),
{
    assert(difference_of(a, b).dom() + intersection_of(a, b).dom() =~= a.dom());
}

/// A hit merged with another keeps the greater relevance and the earlier
/// time.
pub proof fn merged_relevance_is_the_maximum(a: HitView, b: HitView, x: u64, y: u64)
    requires
        a.relevance == (Relevance::Known { score: x }),
        b.relevance == (Relevance::Known { score: y }),
    ensures
        merge_hits(a, b).relevance == (Relevance::Known { score: if x >= y { x } else { y } }),
        merge_hits(a, b).timestamp <= a.timestamp,
        merge_hits(a, b).timestamp <= b.timestamp,
{
}

/// `h` placed before the first hit that is older than it.
pub open spec fn insert_by_time(s: Seq<HitView>, h: HitView) -> Seq<HitView>
    decreases s.len(),
{
    if s.len() == 0 {
        seq![h]
    } else if s[0].timestamp < h.timestamp {
        seq![h] + s
    } else {
        seq![s[0]] + insert_by_time(s.drop_first(), h)
    }
}

/// The hits ordered newest first; hits of equal time keep their order.
pub open spec fn newest_first(s: Seq<HitView>) -> Seq<HitView>
    decreases s.len(),
{
    if s.len() == 0 {
        Seq::empty()
    } else {
        insert_by_time(newest_first(s.drop_last()), s.last())
    }
}

/// Every hit is at least as recent as every hit after it.
pub open spec fn is_newest_first(s: Seq<HitView>) -> bool {
    forall|i: int, j: int| 0 <= i < j < s.len() ==> s[i].timestamp >= s[j].timestamp
}

proof fn lemma_insert_by_time_position(s: Seq<HitView>, h: HitView, p: int)
    requires
        0 <= p <= s.len(),
        forall|j: int| 0 <= j < p ==> #[trigger] s[j].timestamp >= h.timestamp,
        p == s.len() || s[p].timestamp < h.timestamp,
    ensures
        insert_by_time(s, h) == s.insert(p, h),
    decreases s.len(),
{
    if s.len() == 0 {
        assert(s.insert(p, h) =~= seq![h]);
    } else if p == 0 {
        assert(s.insert(0, h) =~= seq![h] + s);
    } else {
        assert(s[0].timestamp >= h.timestamp);
        let t = s.drop_first();
        assert forall|j: int| 0 <= j < p - 1 implies #[trigger] t[j].timestamp >= h.timestamp by {
            assert(s[j + 1].timestamp >= h.timestamp);
        }
        if p < s.len() {
            assert(t[p - 1] == s[p]);
        }
        lemma_insert_by_time_position(t, h, p - 1);
        assert(seq![s[0]] + t.insert(p - 1, h) =~= s.insert(p, h));
    }
}

proof fn lemma_insert_by_time_sorted(s: Seq<HitView>, h: HitView)
    requires
        is_newest_first(s),
    ensures
        is_newest_first(insert_by_time(s, h)),
        insert_by_time(s, h).to_multiset() == s.to_multiset().insert(h),
        insert_by_time(s, h).len() == s.len() + 1,
    decreases s.len(),
{
    broadcast use vstd::seq_lib::group_to_multiset_ensures;

    if s.len() == 0 {
        assert(seq![h] =~= Seq::<HitView>::empty().push(h));
    } else if s[0].timestamp < h.timestamp {
        let r = seq![h] + s;
        assert(r =~= s.insert(0, h));
        s.to_multiset_ensures();
        vstd::seq_lib::lemma_seq_union_to_multiset_commutative(seq![h], s);
        assert(seq![h].to_multiset() =~= Multiset::<HitView>::empty().insert(h)) by {
            assert(seq![h] =~= Seq::<HitView>::empty().push(h));
        }
        vstd::seq_lib::lemma_multiset_commutative(seq![h], s);
        assert(r.to_multiset() =~= s.to_multiset().insert(h));
    } else {
        let t = s.drop_first();
        assert(is_newest_first(t));
        lemma_insert_by_time_sorted(t, h);
        let u = insert_by_time(t, h);
        let r = seq![s[0]] + u;
        assert forall|i: int, j: int| 0 <= i < j < r.len() implies r[i].timestamp
            >= r[j].timestamp by {
            if i == 0 {
                let x = r[j];
                assert(u.to_multiset().count(x) > 0) by {
                    assert(u[j - 1] == x);
                }
                assert(t.to_multiset().insert(h).count(x) > 0);
                if x != h {
                    assert(t.to_multiset().count(x) > 0);
                    assert(t.contains(x));
                    let k = choose|k: int| 0 <= k < t.len() && t[k] == x;
                    assert(s[k + 1] == x);
                }
            }
        }
        vstd::seq_lib::lemma_multiset_commutative(seq![s[0]], u);
        vstd::seq_lib::lemma_multiset_commutative(seq![s[0]], t);
        assert(seq![s[0]] + t =~= s);
    }
}

/// Ordering newest first keeps every hit and orders them by time.
pub proof fn newest_first_orders_and_keeps(s: Seq<HitView>)
    ensures
        is_newest_first(newest_first(s)),
        newest_first(s).to_multiset() == s.to_multiset(),
        newest_first(s).len() == s.len(),
    decreases s.len(),
{
    broadcast use vstd::seq_lib::group_to_multiset_ensures;

    if s.len() == 0 {
    } else {
        newest_first_orders_and_keeps(s.drop_last());
        lemma_insert_by_time_sorted(newest_first(s.drop_last()), s.last());
        assert(s.drop_last().push(s.last()) =~= s);
    }
}

/// The views of a list of entity references.
pub open spec fn ref_views(s: Seq<Ref>) -> Seq<Seq<char>> {
    s.map_values(|r: Ref| r@)
}

/// The views of a list of strings.
pub open spec fn string_views(s: Seq<String>) -> Seq<Seq<char>> {
    s.map_values(|t: String| t@)
}

/// The entity references of a list of hits, in order.
pub open spec fn entity_refs_of(s: Seq<HitView>) -> Seq<Seq<char>>
    decreases s.len(),
{
    if s.len() == 0 {
        Seq::empty()
    } else {
        let rest = entity_refs_of(s.drop_last());
        match s.last().identity {
            IdentityView::Entity(r) => rest.push(r),
            _ => rest,
        }
    }
}

/// The event ids of a list of hits, in order.
pub open spec fn event_ids_of(s: Seq<HitView>) -> Seq<u128>
    decreases s.len(),
{
    if s.len() == 0 {
        Seq::empty()
    } else {
        let rest = event_ids_of(s.drop_last());
        match s.last().identity {
            IdentityView::Event(id) => rest.push(id),
            _ => rest,
        }
    }
}

/// The names of a given kind among a list of hits, in order.
pub open spec fn names_of_kind(s: Seq<HitView>, kind: NameKind) -> Seq<Seq<char>>
    decreases s.len(),
{
    if s.len() == 0 {
        Seq::empty()
    } else {
        let rest = names_of_kind(s.drop_last(), kind);
        match s.last().identity {
            IdentityView::Name(n, k) => if k == kind {
                rest.push(n)
            } else {
                rest
            },
            _ => rest,
        }
    }
}

impl Selection {
    /// The members, as hits.
    pub closed spec fn hits(&self) -> Seq<Hit> {
        self.entries@
    }

    /// The members as a list, in the order they were first inserted.
    pub fn into_hits(self) -> (r: Vec<Hit>)
        ensures
            hit_views(r@) == self.members(),
            r@ == self.hits(),
    {
        self.entries
    }

    /// The members, newest first.
    pub fn sorted_by_timestamp_desc(self) -> (r: Vec<Hit>)
        ensures
            hit_views(r@) == newest_first(self.members()),
    {
        let ghost sv = self.members();
        let mut out: Vec<Hit> = Vec::new();
        let mut i: usize = 0;
        proof {
            assert(hit_views(out@) =~= newest_first(sv.take(0)));
        }
        while i < self.entries.len()
            invariant
                i <= self.entries@.len(),
                sv == hit_views(self.entries@),
                hit_views(out@) == newest_first(sv.take(i as int)),
                out@.len() == i,
            decreases self.entries@.len() - i,
        {
            let h = self.entries[i].duplicate();
            let t = h.timestamp();
            let ghost before = hit_views(out@);
            let mut p: usize = 0;
            while p < out.len() && out[p].timestamp().0 >= t.0
                invariant
                    p <= out@.len(),
                    before == hit_views(out@),
                    t.0 == h@.timestamp,
                    forall|j: int| 0 <= j < p ==> #[trigger] before[j].timestamp >= h@.timestamp,
                decreases out@.len() - p,
            {
                proof {
                    assert(before[p as int] == out@[p as int]@);
                }
                p += 1;
            }
            proof {
                lemma_insert_by_time_position(before, h@, p as int);
                assert(sv.take(i + 1).drop_last() =~= sv.take(i as int));
                assert(sv.take(i + 1).last() == sv[i as int]);
                assert(hit_views(out@.insert(p as int, h)) =~= before.insert(p as int, h@));
            }
            out.insert(p, h);
            i += 1;
        }
        proof {
            assert(sv.take(sv.len() as int) =~= sv);
        }
        out
    }

    /// The members newest first, skipping `offset` and keeping at most
    /// `limit`.
    pub fn paginate(self, offset: usize, limit: usize) -> (r: Vec<Hit>)
        ensures
            ({
                let sorted = newest_first(self.members());
                let start = if offset <= sorted.len() {
                    offset as int
                } else {
                    sorted.len() as int
                };
                let end = if start + limit <= sorted.len() {
                    start + limit
                } else {
                    sorted.len() as int
                };
                hit_views(r@) == sorted.subrange(start, end)
            }),
    {
        let ghost members = self.members();
        let sorted = self.sorted_by_timestamp_desc();
        let ghost sv = hit_views(sorted@);
        let start = if offset <= sorted.len() {
            offset
        } else {
            sorted.len()
        };
        let end = if limit <= sorted.len() - start {
            start + limit
        } else {
            sorted.len()
        };
        let mut out: Vec<Hit> = Vec::new();
        let mut i = start;
        while i < end
            invariant
                start <= i <= end <= sorted@.len(),
                sv == hit_views(sorted@),
                hit_views(out@) == sv.subrange(start as int, i as int),
            decreases end - i,
        {
            let h = sorted[i].duplicate();
            proof {
                lemma_hit_views_push(out@, h);
                assert(sv.subrange(start as int, i + 1) =~= sv.subrange(start as int, i as int).push(h@));
            }
            out.push(h);
            i += 1;
        }
        out
    }

    /// The members for which `predicate` holds.
    pub fn filter<F: Fn(&Hit) -> bool>(self, predicate: F) -> (r: Self)
        requires
            forall|h: &Hit| #[trigger] predicate.requires((h,)),
        ensures
            forall|k: IdentityView| #[trigger] r@.contains_key(k) ==> self@.contains_key(k)
                && r@[k] == self@[k],
            forall|i: int|
                0 <= i < self.hits().len() ==> (#[trigger] r@.contains_key(self.hits()[i]@.identity)
                    ==> predicate.ensures((&self.hits()[i],), true)) && (!r@.contains_key(
                    self.hits()[i]@.identity,
                ) ==> predicate.ensures((&self.hits()[i],), false)),
    {
        proof {
            use_type_invariant(&self);
            lemma_members(&self);
        }
        let mut result = Selection::new();
        let ghost sv = self.members();
        let mut i: usize = 0;
        while i < self.entries.len()
            invariant
                i <= self.entries@.len(),
                sv == hit_views(self.entries@),
                distinct_identities(sv),
                self@ == keyed(sv),
                forall|h: &Hit| #[trigger] predicate.requires((h,)),
                forall|k: IdentityView| #[trigger] result@.contains_key(k) ==> keyed(
                    sv.take(i as int),
                ).contains_key(k) && result@[k] == self@[k],
                forall|j: int|
                    0 <= j < i ==> (#[trigger] result@.contains_key(sv[j].identity)
                        ==> predicate.ensures((&self.entries@[j],), true)) && (!result@.contains_key(
                        sv[j].identity,
                    ) ==> predicate.ensures((&self.entries@[j],), false)),
            decreases self.entries@.len() - i,
        {
            let hit = &self.entries[i];
            let keep = predicate(hit);
            proof {
                lemma_keyed_value(sv, i as int);
                assert(sv.take(i + 1).drop_last() =~= sv.take(i as int));
                lemma_keyed_contains(sv.take(i as int), sv[i as int].identity);
                if keyed(sv.take(i as int)).contains_key(sv[i as int].identity) {
                    let j = choose|j: int|
                        0 <= j < i && #[trigger] sv.take(i as int)[j].identity == sv[i as int].identity;
                    assert(sv[j].identity == sv[i as int].identity);
                }
            }
            if keep {
                let copy = hit.duplicate();
                result.insert(copy);
            }
            proof {
                assert forall|j: int| 0 <= j < i implies sv[j].identity != sv[i as int].identity by {
                }
            }
            i += 1;
        }
        proof {
            assert(sv.take(sv.len() as int) =~= sv);
            assert forall|j: int| 0 <= j < self.hits().len() implies (#[trigger] result@.contains_key(
                self.hits()[j]@.identity,
            ) ==> predicate.ensures((&self.hits()[j],), true)) && (!result@.contains_key(
                self.hits()[j]@.identity,
            ) ==> predicate.ensures((&self.hits()[j],), false)) by {
                assert(sv[j] == self.entries@[j]@);
                assert(result@.contains_key(sv[j].identity) ==> predicate.ensures((&self.entries@[j],), true));
            }
        }
        result
    }

    /// The references of the entity members, in insertion order.
    pub fn entity_refs(&self) -> (r: Vec<Ref>)
        ensures
            ref_views(r@) == entity_refs_of(self.members()),
    {
        let ghost sv = self.members();
        let mut refs: Vec<Ref> = Vec::new();
        let mut i: usize = 0;
        while i < self.entries.len()
            invariant
                i <= self.entries@.len(),
                sv == hit_views(self.entries@),
                ref_views(refs@) == entity_refs_of(sv.take(i as int)),
            decreases self.entries@.len() - i,
        {
            proof {
                assert(sv.take(i + 1).drop_last() =~= sv.take(i as int));
                assert(sv.take(i + 1).last() == sv[i as int]);
            }
            match &self.entries[i] {
                Hit::Entity(e) => {
                    let r = e.entity_ref.duplicate();
                    proof {
                        assert(ref_views(refs@.push(r)) =~= ref_views(refs@).push(r@));
                    }
                    refs.push(r);
                },
                _ => {},
            }
            i += 1;
        }
        proof {
            assert(sv.take(sv.len() as int) =~= sv);
        }
        refs
    }

    /// The ids of the event members, in insertion order.
    pub fn event_ids(&self) -> (r: Vec<EventId>)
        ensures
            r@.map_values(|e: EventId| e.0) == event_ids_of(self.members()),
    {
        let ghost sv = self.members();
        let mut ids: Vec<EventId> = Vec::new();
        let mut i: usize = 0;
        while i < self.entries.len()
            invariant
                i <= self.entries@.len(),
                sv == hit_views(self.entries@),
                ids@.map_values(|e: EventId| e.0) == event_ids_of(sv.take(i as int)),
            decreases self.entries@.len() - i,
        {
            proof {
                assert(sv.take(i + 1).drop_last() =~= sv.take(i as int));
                assert(sv.take(i + 1).last() == sv[i as int]);
            }
            match &self.entries[i] {
                Hit::Event(e) => {
                    proof {
                        assert(ids@.push(e.event_id).map_values(|e: EventId| e.0) =~= ids@.map_values(
                            |e: EventId| e.0,
                        ).push(e.event_id.0));
                    }
                    ids.push(e.event_id);
                },
                _ => {},
            }
            i += 1;
        }
        proof {
            assert(sv.take(sv.len() as int) =~= sv);
        }
        ids
    }

    /// The names of the name members of `kind`, in insertion order.
    pub fn names_of(&self, kind: NameKind) -> (r: Vec<String>)
        ensures
            string_views(r@) == names_of_kind(self.members(), kind),
    {
        let ghost sv = self.members();
        let mut names: Vec<String> = Vec::new();
        let mut i: usize = 0;
        while i < self.entries.len()
            invariant
                i <= self.entries@.len(),
                sv == hit_views(self.entries@),
                string_views(names@) == names_of_kind(sv.take(i as int), kind),
            decreases self.entries@.len() - i,
        {
            proof {
                assert(sv.take(i + 1).drop_last() =~= sv.take(i as int));
                assert(sv.take(i + 1).last() == sv[i as int]);
            }
            match &self.entries[i] {
                Hit::Name(n) => {
                    if n.kind == kind {
                        let name = n.name.clone();
                        proof {
                            assert(string_views(names@.push(name)) =~= string_views(names@).push(
                                name@,
                            ));
                        }
                        names.push(name);
                    }
                },
                _ => {},
            }
            i += 1;
        }
        proof {
            assert(sv.take(sv.len() as int) =~= sv);
        }
        names
    }
}

impl Clone for Selection {
    fn clone(&self) -> (r: Self)
        ensures
            r@ == self@,
    {
        self.duplicate()
    }
}

} // verus!
