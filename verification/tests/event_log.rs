use oneiros_engine::event_log::EventStatements;

#[test]
fn statements_address_the_events_table() {
    let s = EventStatements::standalone();
    assert_eq!(
        s.append(),
        "insert into events (id, event_type, data, source, created_at) values (?1, ?2, ?3, ?4, ?5)"
    );
    assert_eq!(
        s.load_all(),
        "SELECT id, rowid, data, source, created_at FROM events ORDER BY rowid"
    );
    assert_eq!(s.delete(), "DELETE FROM events WHERE id = ?1");
    let a = EventStatements::attached();
    assert_eq!(
        a.import(),
        "insert or ignore into events.events (id, event_type, data, source, created_at) values (?1, ?2, ?3, ?4, ?5)"
    );
    assert!(a.create_table().starts_with("create table if not exists events.events ("));
    assert!(a.create_table().contains("source     text not null default '',"));
}

#[test]
fn batch_query_numbers_one_placeholder_per_id() {
    let s = EventStatements::standalone();
    assert_eq!(s.get_batch(0), None);
    assert_eq!(
        s.get_batch(1).unwrap(),
        "select id, rowid, data, source, created_at from events where id in (?1) order by rowid"
    );
    assert_eq!(
        s.get_batch(12).unwrap(),
        "select id, rowid, data, source, created_at from events where id in (?1,?2,?3,?4,?5,?6,?7,?8,?9,?10,?11,?12) order by rowid"
    );
}

use oneiros_engine::event_log::{batch_events, known_events, RowData, StoredRow};

fn row(id: &str, sequence: i64, data: RowData<&'static str>) -> StoredRow<&'static str, ()> {
    StoredRow {
        id: id.to_string(),
        sequence,
        data,
        rest: (),
    }
}

fn rows() -> Vec<StoredRow<&'static str, ()>> {
    vec![
        row("a", 1, RowData::Known("level-set")),
        row("b", 2, RowData::Unknown),
        row("c", 3, RowData::Known("agent-created")),
        row("d", 4, RowData::Malformed),
        row("e", 5, RowData::Ephemeral),
        row("f", 6, RowData::Known("memory-added")),
    ]
}

#[test]
fn full_read_keeps_known_events_in_row_order() {
    let kept: Vec<i64> = known_events(rows()).iter().map(|r| r.sequence).collect();
    assert_eq!(kept, vec![1, 3, 6]);
}

#[test]
fn batch_read_keeps_known_events_asked_for() {
    let ids = vec!["f".to_string(), "b".to_string(), "a".to_string(), "zz".to_string()];
    let kept: Vec<String> = batch_events(&ids, rows()).into_iter().map(|r| r.id).collect();
    assert_eq!(kept, vec!["a".to_string(), "f".to_string()]);
    assert!(batch_events(&Vec::new(), rows()).is_empty());
}
