use oneiros_engine::lens::ast::Ref;
use oneiros_engine::lens::registry::NameKind;
use oneiros_engine::lens::selection::{
    EntityHit, EventHit, EventId, Hit, NameHit, Relevance, Selection, Timestamp,
};

/// The order-preserving key of a score: larger scores give larger keys.
fn key(score: f64) -> u64 {
    let bits = score.to_bits();
    if bits >> 63 == 0 {
        bits | (1u64 << 63)
    } else {
        !bits
    }
}

fn relevance(score: Option<f64>) -> Relevance {
    match score {
        Some(s) => Relevance::Known { score: key(s) },
        None => Relevance::Unknown,
    }
}

fn entity_hit(name: &str, score: Option<f64>) -> Hit {
    Hit::Entity(EntityHit {
        entity_ref: Ref(format!("agent:{name}")),
        timestamp: Timestamp(1_700_000_000),
        relevance: relevance(score),
    })
}

fn selection_of(hits: Vec<Hit>) -> Selection {
    let mut sel = Selection::new();
    for hit in hits {
        sel.insert(hit);
    }
    sel
}

fn shared_entity_hit(ref_: &Ref, score: Option<f64>) -> Hit {
    Hit::Entity(EntityHit {
        entity_ref: Ref(ref_.0.clone()),
        timestamp: Timestamp(1_700_000_000),
        relevance: relevance(score),
    })
}

#[test]
fn union_is_commutative() {
    let a = entity_hit("a", Some(1.0));
    let b = entity_hit("b", Some(2.0));
    let set_a = selection_of(vec![a.duplicate()]);
    let set_b = selection_of(vec![b.duplicate()]);

    let ab = set_a.union(&set_b);
    let ba = set_b.union(&set_a);
    assert_eq!(ab.len(), ba.len());
    assert_eq!(ab.len(), 2);
}

#[test]
fn intersect_is_commutative() {
    let shared_ref = Ref("agent:shared".to_string());
    let a = shared_entity_hit(&shared_ref, Some(1.0));
    let b = shared_entity_hit(&shared_ref, Some(2.0));
    let extra = entity_hit("extra", None);

    let set_a = selection_of(vec![a.duplicate(), extra.duplicate()]);
    let set_b = selection_of(vec![b.duplicate()]);

    let ab = set_a.intersect(&set_b);
    let ba = set_b.intersect(&set_a);
    assert_eq!(ab.len(), ba.len());
    assert_eq!(ab.len(), 1);
}

#[test]
fn union_identity_with_empty() {
    let a = entity_hit("a", Some(1.0));
    let set_a = selection_of(vec![a]);
    let empty = Selection::new();

    let result = set_a.union(&empty);
    assert_eq!(result.len(), set_a.len());
}

#[test]
fn union_is_idempotent() {
    let a = entity_hit("a", Some(1.0));
    let set_a = selection_of(vec![a]);

    let result = set_a.union(&set_a);
    assert_eq!(result.len(), set_a.len());
}

#[test]
fn intersect_with_empty_is_empty() {
    let a = entity_hit("a", Some(1.0));
    let set_a = selection_of(vec![a]);
    let empty = Selection::new();

    let result = set_a.intersect(&empty);
    assert_eq!(result.len(), 0);
}

#[test]
fn difference_with_empty_is_identity() {
    let a = entity_hit("a", Some(1.0));
    let set_a = selection_of(vec![a]);
    let empty = Selection::new();

    let result = set_a.difference(&empty);
    assert_eq!(result.len(), set_a.len());
}

#[test]
fn difference_with_self_is_empty() {
    let a = entity_hit("a", Some(1.0));
    let set_a = selection_of(vec![a]);

    let result = set_a.difference(&set_a);
    assert_eq!(result.len(), 0);
}

#[test]
fn union_merges_relevance_by_max() {
    let shared_ref = Ref("agent:shared".to_string());
    let low = shared_entity_hit(&shared_ref, Some(1.0));
    let high = shared_entity_hit(&shared_ref, Some(5.0));

    let set_a = selection_of(vec![low]);
    let set_b = selection_of(vec![high]);

    let result = set_a.union(&set_b);
    assert_eq!(result.len(), 1);
    let hit = result.into_hits().into_iter().next().unwrap();
    assert_eq!(hit.relevance().score(), Some(key(5.0)));
}

#[test]
fn intersect_merges_relevance_by_max() {
    let shared_ref = Ref("agent:shared".to_string());
    let low = shared_entity_hit(&shared_ref, Some(1.0));
    let high = shared_entity_hit(&shared_ref, Some(5.0));

    let set_a = selection_of(vec![low]);
    let set_b = selection_of(vec![high]);

    let result = set_a.intersect(&set_b);
    assert_eq!(result.len(), 1);
    let hit = result.into_hits().into_iter().next().unwrap();
    assert_eq!(hit.relevance().score(), Some(key(5.0)));
}

#[test]
fn filter_retains_only_matching_hits() {
    let a = entity_hit("a", Some(1.0));
    let b = entity_hit("b", Some(2.0));
    let sel = selection_of(vec![a.duplicate(), b.duplicate()]);
    let filtered = sel.filter(|h: &Hit| h.relevance().score() == Some(key(2.0)));
    assert_eq!(filtered.len(), 1);
}

#[test]
fn filter_can_produce_empty_selection() {
    let a = entity_hit("a", None);
    let sel = selection_of(vec![a]);
    let filtered = sel.filter(|_: &Hit| false);
    assert_eq!(filtered.len(), 0);
}

#[test]
fn paginate_respects_offset_and_limit() {
    let a = entity_hit("a", Some(1.0));
    let b = entity_hit("b", Some(2.0));
    let c = entity_hit("c", Some(3.0));
    let sel = selection_of(vec![a, b, c]);
    let page = sel.paginate(1, 1);
    assert_eq!(page.len(), 1);
}

#[test]
fn paginate_empty_selection_returns_empty() {
    let sel = Selection::new();
    let page = sel.paginate(0, 10);
    assert!(page.is_empty());
}

#[test]
fn paginate_offset_past_end_returns_empty() {
    let a = entity_hit("a", None);
    let sel = selection_of(vec![a]);
    let page = sel.paginate(10, 10);
    assert!(page.is_empty());
}

fn event_hit(id: u128, at: i64, score: Option<f64>) -> Hit {
    Hit::Event(EventHit {
        event_id: EventId(id),
        timestamp: Timestamp(at),
        relevance: relevance(score),
    })
}

#[test]
fn merging_keeps_the_earlier_timestamp_and_known_relevance() {
    let older = event_hit(7, 10, Some(3.0));
    let newer = event_hit(7, 20, None);
    let sel = selection_of(vec![older, newer]);
    assert_eq!(sel.len(), 1);
    let hit = sel.into_hits().into_iter().next().unwrap();
    assert_eq!(hit.timestamp(), Timestamp(10));
    assert_eq!(hit.relevance().score(), Some(key(3.0)));
}

#[test]
fn newest_first_orders_by_timestamp() {
    let sel = selection_of(vec![
        event_hit(1, 10, None),
        event_hit(2, 30, None),
        event_hit(3, 20, None),
    ]);
    let sorted = sel.sorted_by_timestamp_desc();
    let times: Vec<i64> = sorted.iter().map(|h| h.timestamp().0).collect();
    assert_eq!(times, vec![30, 20, 10]);
}

#[test]
fn pages_come_newest_first() {
    let sel = selection_of(vec![
        event_hit(1, 10, None),
        event_hit(2, 30, None),
        event_hit(3, 20, None),
    ]);
    let page = sel.paginate(1, 5);
    let times: Vec<i64> = page.iter().map(|h| h.timestamp().0).collect();
    assert_eq!(times, vec![20, 10]);
}

#[test]
fn difference_removes_shared_members_only() {
    let left = selection_of(vec![event_hit(1, 1, None), event_hit(2, 2, None)]);
    let right = selection_of(vec![event_hit(2, 5, None), event_hit(3, 3, None)]);
    let diff = left.difference(&right);
    assert_eq!(diff.event_ids(), vec![EventId(1)]);
}

#[test]
fn projections_pick_members_by_kind() {
    let sel = selection_of(vec![
        entity_hit("a", None),
        event_hit(4, 1, None),
        Hit::Name(NameHit {
            name: "observation".to_string(),
            kind: NameKind::Texture,
            timestamp: Timestamp(1),
            relevance: Relevance::Unknown,
        }),
        Hit::Name(NameHit {
            name: "gov".to_string(),
            kind: NameKind::Agent,
            timestamp: Timestamp(1),
            relevance: Relevance::Unknown,
        }),
    ]);
    assert_eq!(sel.entity_refs().len(), 1);
    assert_eq!(sel.event_ids(), vec![EventId(4)]);
    assert_eq!(sel.names_of(NameKind::Texture), vec!["observation".to_string()]);
    assert_eq!(sel.names_of(NameKind::Level), Vec::<String>::new());
}
