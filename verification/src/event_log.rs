//! The statements of the append-only event store.
//!
//! The store keeps one table of events. Standalone, the events database is
//! the base connection and the table is `events`; attached, the bookmark
//! database is the base and the events database is attached as `events`,
//! so the table is `events.events`.
//!
//! Reading gives back only the rows whose data is a known event, in row
//! order; rows of event types this version does not know, and rows whose
//! data does not parse, are left out.
use vstd::prelude::*;

use crate::text::{decimal, name_views, push_decimal, push_str};

verus! {

/// The placeholders `?1,?2,…,?n`.
pub open spec fn placeholders(n: nat) -> Seq<char>
    decreases n,
{
    if n == 0 {
        Seq::empty()
    } else if n == 1 {
        "?1"@
    } else {
        placeholders((n - 1) as nat) + ",?"@ + decimal(n)
    }
}

/// The statements of an event table.
#[derive(Debug, Clone, Copy)]
pub struct EventStatements {
    table: &'static str,
}

impl EventStatements {
    /// The table the statements address.
    pub closed spec fn table(&self) -> Seq<char> {
        self.table@
    }

    /// Statements for a standalone events database.
    pub fn standalone() -> (r: Self)
        ensures
            r.table() == "events"@,
    {
        EventStatements { table: "events" }
    }

    /// Statements for an events database attached as `events`.
    pub fn attached() -> (r: Self)
        ensures
            r.table() == "events.events"@,
    {
        EventStatements { table: "events.events" }
    }

    /// Creates the events table when it does not exist.
    pub fn create_table(&self) -> (r: String)
        ensures
            r@ == "create table if not exists "@ + self.table()
                + " (\n                id         text primary key,\n                event_type text not null,\n                data       text not null,\n                source     text not null default '',\n                created_at text not null\n            )"@,
    {
        let mut s = String::new();
        push_str(&mut s, "create table if not exists ");
        push_str(&mut s, self.table);
        push_str(
            &mut s,
            " (\n                id         text primary key,\n                event_type text not null,\n                data       text not null,\n                source     text not null default '',\n                created_at text not null\n            )",
        );
        s
    }

    /// Appends an event: id, type, data, source and creation time.
    pub fn append(&self) -> (r: String)
        ensures
            r@ == "insert into "@ + self.table()
                + " (id, event_type, data, source, created_at) values (?1, ?2, ?3, ?4, ?5)"@,
    {
        let mut s = String::new();
        push_str(&mut s, "insert into ");
        push_str(&mut s, self.table);
        push_str(&mut s, " (id, event_type, data, source, created_at) values (?1, ?2, ?3, ?4, ?5)");
        s
    }

    /// Loads every event in sequence order.
    pub fn load_all(&self) -> (r: String)
        ensures
            r@ == "SELECT id, rowid, data, source, created_at FROM "@ + self.table()
                + " ORDER BY rowid"@,
    {
        let mut s = String::new();
        push_str(&mut s, "SELECT id, rowid, data, source, created_at FROM ");
        push_str(&mut s, self.table);
        push_str(&mut s, " ORDER BY rowid");
        s
    }

    /// Fetches `count` events by id, in sequence order; none when there is
    /// nothing to fetch.
    pub fn get_batch(&self, count: usize) -> (r: Option<String>)
        ensures
            count == 0 ==> r is None,
            count > 0 ==> (r matches Some(q) && q@ == "select id, rowid, data, source, created_at from "@
                + self.table() + " where id in ("@ + placeholders(count as nat) + ") order by rowid"@),
    {
        if count == 0 {
            return None;
        }
        let mut s = String::new();
        push_str(&mut s, "select id, rowid, data, source, created_at from ");
        push_str(&mut s, self.table);
        push_str(&mut s, " where id in (");
        let ghost start = s@;
        let mut i: usize = 0;
        while i < count
            invariant
                i <= count,
                s@ == start + placeholders(i as nat),
            decreases count - i,
        {
            if i > 0 {
                push_str(&mut s, ",");
            }
            push_str(&mut s, "?");
            push_decimal(&mut s, (i + 1) as u64);
            proof {
                if i == 0 {
                    reveal_strlit("?1");
                    reveal_strlit("?");
                    assert(decimal(1) =~= seq!['1']);
                    assert(s@ =~= start + placeholders(1));
                } else {
                    reveal_strlit(",?");
                    reveal_strlit(",");
                    reveal_strlit("?");
                    assert(s@ =~= start + placeholders((i + 1) as nat));
                }
            }
            i += 1;
        }
        push_str(&mut s, ") order by rowid");
        Some(s)
    }

    /// Imports an event, ignoring one whose id is already stored.
    pub fn import(&self) -> (r: String)
        ensures
            r@ == "insert or ignore into "@ + self.table()
                + " (id, event_type, data, source, created_at) values (?1, ?2, ?3, ?4, ?5)"@,
    {
        let mut s = String::new();
        push_str(&mut s, "insert or ignore into ");
        push_str(&mut s, self.table);
        push_str(&mut s, " (id, event_type, data, source, created_at) values (?1, ?2, ?3, ?4, ?5)");
        s
    }

    /// Deletes the event with a given id.
    pub fn delete(&self) -> (r: String)
        ensures
            r@ == "DELETE FROM "@ + self.table() + " WHERE id = ?1"@,
    {
        let mut s = String::new();
        push_str(&mut s, "DELETE FROM ");
        push_str(&mut s, self.table);
        push_str(&mut s, " WHERE id = ?1");
        s
    }
}

/// What the data of a stored row was read as: a known event, an
/// ephemeral event, an event of a type this version does not know, or data
/// that does not parse.
#[derive(Debug)]
pub enum RowData<E> {
    Known(E),
    Ephemeral,
    Unknown,
    Malformed,
}

/// A row of the event table: its id, its row number (`rowid`), what its
/// data was read as, and the rest of the row (source, creation time),
/// carried along unchanged.
#[derive(Debug)]
pub struct StoredRow<E, R> {
    pub id: String,
    pub sequence: i64,
    pub data: RowData<E>,
    pub rest: R,
}

/// Whether a read keeps a row: its data is a known event and, for a batch
/// read (`Some(ids)`), its id is one of the ids asked for.
pub open spec fn row_kept<E, R>(row: StoredRow<E, R>, ids: Option<Seq<Seq<char>>>) -> bool {
    &&& row.data is Known
    &&& match ids {
        None => true,
        Some(ids) => ids.contains(row.id@),
    }
}

/// The rows a read keeps, in the order read.
pub open spec fn kept_rows<E, R>(rows: Seq<StoredRow<E, R>>, ids: Option<Seq<Seq<char>>>) -> Seq<
    StoredRow<E, R>,
>
    decreases rows.len(),
{
    if rows.len() == 0 {
        Seq::empty()
    } else {
        let front = kept_rows(rows.drop_last(), ids);
        if row_kept(rows.last(), ids) {
            front.push(rows.last())
        } else {
            front
        }
    }
}

/// Rows in strictly increasing row order: each row once, in row order.
pub open spec fn in_row_order<E, R>(rows: Seq<StoredRow<E, R>>) -> bool {
    forall|i: int, j: int| 0 <= i < j < rows.len() ==> rows[i].sequence < rows[j].sequence
}

proof fn lemma_kept_below<E, R>(rows: Seq<StoredRow<E, R>>, ids: Option<Seq<Seq<char>>>, bound: int)
    requires
        forall|i: int| 0 <= i < rows.len() ==> rows[i].sequence < bound,
    ensures
        forall|j: int|
            0 <= j < kept_rows(rows, ids).len() ==> kept_rows(rows, ids)[j].sequence < bound,
    decreases rows.len(),
{
    if rows.len() > 0 {
        lemma_kept_below(rows.drop_last(), ids, bound);
    }
}

/// Keeping rows keeps row order: read in row order, the kept rows come
/// each once, in row order.
pub proof fn kept_rows_stay_in_row_order<E, R>(
    rows: Seq<StoredRow<E, R>>,
    ids: Option<Seq<Seq<char>>>,
)
    requires
        in_row_order(rows),
    ensures
        in_row_order(kept_rows(rows, ids)),
    decreases rows.len(),
{
    if rows.len() > 0 {
        let front = rows.drop_last();
        kept_rows_stay_in_row_order(front, ids);
        lemma_kept_below(front, ids, rows.last().sequence as int);
    }
}

/// Whether `id` is one of `ids`.
fn contains_id(ids: &Vec<String>, id: &String) -> (r: bool)
    ensures
        r == name_views(ids@).contains(id@),
{
    let ghost v = name_views(ids@);
    let mut i: usize = 0;
    while i < ids.len()
        invariant
            i <= ids@.len(),
            v == name_views(ids@),
            forall|k: int| 0 <= k < i ==> #[trigger] v[k] != id@,
        decreases ids@.len() - i,
    {
        if ids[i] == *id {
            proof {
                assert(v[i as int] == id@);
            }
            return true;
        }
        i += 1;
    }
    false
}

/// The rows of a read that are kept, in the order read.
fn keep_rows<E, R>(rows: Vec<StoredRow<E, R>>, ids: Option<&Vec<String>>) -> (r: Vec<
    StoredRow<E, R>,
>)
    ensures
        r@ == kept_rows(
            rows@,
            match ids {
                None => None,
                Some(v) => Some(name_views(v@)),
            },
        ),
{
    let ghost pick = match ids {
        None => None,
        Some(v) => Some(name_views(v@)),
    };
    let ghost all = rows@;
    proof {
        assert(all.take(all.len() as int) =~= all);
    }
    let mut out: Vec<StoredRow<E, R>> = Vec::new();
    for row in it: rows
        invariant
            pick == match ids {
                None => None,
                Some(v) => Some(name_views(v@)),
            },
            it.seq() == all,
            all.take(all.len() as int) == all,
            out@ == kept_rows(all.take(it.index() as int), pick),
    {
        proof {
            let t = all.take(it.index() + 1);
            assert(t.drop_last() =~= all.take(it.index() as int));
            assert(t.last() == row);
        }
        let keep = match &row.data {
            RowData::Known(_) => match ids {
                None => true,
                Some(v) => contains_id(v, &row.id),
            },
            _ => false,
        };
        if keep {
            out.push(row);
        }
    }
    out
}

/// The rows of a full read that are kept: those holding known events, in
/// the order read.
pub fn known_events<E, R>(rows: Vec<StoredRow<E, R>>) -> (r: Vec<StoredRow<E, R>>)
    ensures
        r@ == kept_rows(rows@, None),
        in_row_order(rows@) ==> in_row_order(r@),
{
    proof {
        if in_row_order(rows@) {
            kept_rows_stay_in_row_order(rows@, None);
        }
    }
    keep_rows(rows, None)
}

/// The rows of a batch read by `ids` that are kept: those whose id was
/// asked for and that hold known events, in the order read; none when no
/// id was asked for.
pub fn batch_events<E, R>(ids: &Vec<String>, rows: Vec<StoredRow<E, R>>) -> (r: Vec<
    StoredRow<E, R>,
>)
    ensures
        r@ == kept_rows(rows@, Some(name_views(ids@))),
        ids@.len() == 0 ==> r@.len() == 0,
        in_row_order(rows@) ==> in_row_order(r@),
{
    proof {
        if in_row_order(rows@) {
            kept_rows_stay_in_row_order(rows@, Some(name_views(ids@)));
        }
        if ids@.len() == 0 {
            assert(name_views(ids@) =~= Seq::<Seq<char>>::empty());
            lemma_nothing_asked(rows@);
        }
    }
    keep_rows(rows, Some(ids))
}

proof fn lemma_nothing_asked<E, R>(rows: Seq<StoredRow<E, R>>)
    ensures
        kept_rows(rows, Some(Seq::<Seq<char>>::empty())).len() == 0,
    decreases rows.len(),
{
    if rows.len() > 0 {
        lemma_nothing_asked(rows.drop_last());
    }
}

} // verus!
