//! The host-database renames from the legacy `brain*` vocabulary onto the
//! current `project*` names.
//!
//! Each rename is guarded by an existence check: it is due when its source
//! exists and its target does not. The guards read the schema as it stands
//! after the renames before them.
use vstd::prelude::*;

use crate::text::{name_views, push_str};

verus! {

/// The tables of a database and the columns of each, as `(table, column)`
/// pairs.
pub struct Schema {
    pub tables: Vec<String>,
    pub columns: Vec<(String, String)>,
}

/// The view of a schema: its table names and its `(table, column)` pairs.
pub struct SchemaView {
    pub tables: Set<Seq<char>>,
    pub columns: Set<(Seq<char>, Seq<char>)>,
}

/// The views of a list of `(table, column)` pairs.
pub open spec fn pair_views(s: Seq<(String, String)>) -> Seq<(Seq<char>, Seq<char>)> {
    s.map_values(|p: (String, String)| (p.0@, p.1@))
}

impl View for Schema {
    type V = SchemaView;

    open spec fn view(&self) -> SchemaView {
        SchemaView {
            tables: name_views(self.tables@).to_set(),
            columns: pair_views(self.columns@).to_set(),
        }
    }
}

/// Whether the schema has table `t`.
pub open spec fn has_table(s: SchemaView, t: Seq<char>) -> bool {
    s.tables.contains(t)
}

/// Whether the schema has table `t` and it has column `c`.
pub open spec fn has_column(s: SchemaView, t: Seq<char>, c: Seq<char>) -> bool {
    s.tables.contains(t) && s.columns.contains((t, c))
}

/// A rename of a table, or of a column of a table.
#[derive(Debug)]
pub enum Rename {
    Table { from: String, to: String },
    Column { table: String, from: String, to: String },
}

/// The view of a rename.
pub enum RenameView {
    Table(Seq<char>, Seq<char>),
    Column(Seq<char>, Seq<char>, Seq<char>),
}

impl View for Rename {
    type V = RenameView;

    open spec fn view(&self) -> RenameView {
        match self {
            Rename::Table { from, to } => RenameView::Table(from@, to@),
            Rename::Column { table, from, to } => RenameView::Column(table@, from@, to@),
        }
    }
}

/// Whether a rename is due: its source exists and its target does not.
pub open spec fn rename_due(s: SchemaView, r: RenameView) -> bool {
    match r {
        RenameView::Table(from, to) => has_table(s, from) && !has_table(s, to),
        RenameView::Column(t, from, to) => has_column(s, t, from) && !has_column(s, t, to),
    }
}

/// The schema after a rename.
pub open spec fn renamed(s: SchemaView, r: RenameView) -> SchemaView {
    match r {
        RenameView::Table(from, to) => SchemaView {
            tables: s.tables.remove(from).insert(to),
            columns: Set::new(
                |p: (Seq<char>, Seq<char>)|
                    (p.0 == to && s.columns.contains((from, p.1))) || (p.0 != from
                        && s.columns.contains(p)),
            ),
        },
        RenameView::Column(t, from, to) => SchemaView {
            tables: s.tables,
            columns: s.columns.remove((t, from)).insert((t, to)),
        },
    }
}

/// The schema after the first `k` renames of `plan`, each made only when
/// it is due at its turn.
pub open spec fn run_plan(s: SchemaView, plan: Seq<RenameView>, k: nat) -> SchemaView
    decreases k,
{
    if k == 0 {
        s
    } else {
        let before = run_plan(s, plan, (k - 1) as nat);
        if rename_due(before, plan[k - 1]) {
            renamed(before, plan[k - 1])
        } else {
            before
        }
    }
}

/// The renames, in the order they are made.
pub open spec fn legacy_renames() -> Seq<RenameView> {
    seq![
        RenameView::Table("brains"@, "projects"@),
        RenameView::Column("bookmarks"@, "brain"@, "project"@),
        RenameView::Column("follows"@, "brain"@, "project"@),
        RenameView::Column("tickets"@, "brain_name"@, "project_name"@),
        RenameView::Column("tickets"@, "brain_id"@, "project_id"@),
    ]
}

/// Whether the renames have work to do: some legacy name is still there.
pub open spec fn renames_needed(s: SchemaView) -> bool {
    has_table(s, "brains"@) || has_column(s, "bookmarks"@, "brain"@) || has_column(
        s,
        "follows"@,
        "brain"@,
    ) || has_column(s, "tickets"@, "brain_name"@) || has_column(s, "tickets"@, "brain_id"@)
}

/// The schema after the whole migration.
pub open spec fn migrated(s: SchemaView) -> SchemaView {
    run_plan(s, legacy_renames(), 5)
}

impl Schema {
    /// Whether the schema has table `name`.
    pub fn table_exists(&self, name: &String) -> (r: bool)
        ensures
            r == has_table(self@, name@),
    {
        let ghost nv = name_views(self.tables@);
        let mut i: usize = 0;
        while i < self.tables.len()
            invariant
                i <= self.tables@.len(),
                nv == name_views(self.tables@),
                forall|k: int| 0 <= k < i ==> #[trigger] nv[k] != name@,
            decreases self.tables@.len() - i,
        {
            if self.tables[i] == *name {
                proof {
                    assert(nv[i as int] == name@);
                    assert(nv.to_set().contains(name@));
                }
                return true;
            }
            i += 1;
        }
        proof {
            assert(!nv.contains(name@));
        }
        false
    }

    /// Whether the schema has table `table` and it has column `column`.
    pub fn column_exists(&self, table: &String, column: &String) -> (r: bool)
        ensures
            r == has_column(self@, table@, column@),
    {
        if !self.table_exists(table) {
            return false;
        }
        let ghost pv = pair_views(self.columns@);
        let mut i: usize = 0;
        while i < self.columns.len()
            invariant
                i <= self.columns@.len(),
                pv == pair_views(self.columns@),
                has_table(self@, table@),
                forall|k: int| 0 <= k < i ==> #[trigger] pv[k] != (table@, column@),
            decreases self.columns@.len() - i,
        {
            if self.columns[i].0 == *table && self.columns[i].1 == *column {
                proof {
                    assert(pv[i as int] == (table@, column@));
                    assert(pv.to_set().contains((table@, column@)));
                }
                return true;
            }
            i += 1;
        }
        proof {
            assert(!pv.contains((table@, column@)));
        }
        false
    }
}

/// Whether the renames have work to do in the host database: never when
/// there is no host database (`None`), else when a legacy name is still
/// there.
pub fn renames_required(schema: Option<&Schema>) -> (r: bool)
    ensures
        r == match schema {
            None => false,
            Some(s) => renames_needed(s@),
        },
{
    match schema {
        None => false,
        Some(s) => {
            let brains = "brains".to_owned();
            let bookmarks = "bookmarks".to_owned();
            let follows = "follows".to_owned();
            let tickets = "tickets".to_owned();
            let brain = "brain".to_owned();
            let brain_name = "brain_name".to_owned();
            let brain_id = "brain_id".to_owned();
            s.table_exists(&brains) || s.column_exists(&bookmarks, &brain) || s.column_exists(
                &follows,
                &brain,
            ) || s.column_exists(&tickets, &brain_name) || s.column_exists(&tickets, &brain_id)
        },
    }
}

/// The renames, in the order they are made.
pub fn legacy_rename_plan() -> (r: Vec<Rename>)
    ensures
        r@.map_values(|x: Rename| x@) == legacy_renames(),
{
    let mut plan: Vec<Rename> = Vec::new();
    plan.push(Rename::Table { from: "brains".to_owned(), to: "projects".to_owned() });
    plan.push(
        Rename::Column {
            table: "bookmarks".to_owned(),
            from: "brain".to_owned(),
            to: "project".to_owned(),
        },
    );
    plan.push(
        Rename::Column {
            table: "follows".to_owned(),
            from: "brain".to_owned(),
            to: "project".to_owned(),
        },
    );
    plan.push(
        Rename::Column {
            table: "tickets".to_owned(),
            from: "brain_name".to_owned(),
            to: "project_name".to_owned(),
        },
    );
    plan.push(
        Rename::Column {
            table: "tickets".to_owned(),
            from: "brain_id".to_owned(),
            to: "project_id".to_owned(),
        },
    );
    proof {
        assert(plan@.map_values(|x: Rename| x@) =~= legacy_renames());
    }
    plan
}

/// The statement that makes a rename.
pub open spec fn rename_sql(r: RenameView) -> Seq<char> {
    match r {
        RenameView::Table(from, to) => "ALTER TABLE "@ + from + " RENAME TO "@ + to,
        RenameView::Column(t, from, to) => "ALTER TABLE "@ + t + " RENAME COLUMN "@ + from
            + " TO "@ + to,
    }
}

impl Rename {
    /// Whether this rename is due in `schema`.
    pub fn is_due(&self, schema: &Schema) -> (r: bool)
        ensures
            r == rename_due(schema@, self@),
    {
        match self {
            Rename::Table { from, to } => schema.table_exists(from) && !schema.table_exists(to),
            Rename::Column { table, from, to } => schema.column_exists(table, from)
                && !schema.column_exists(table, to),
        }
    }

    /// The statement that makes this rename.
    pub fn sql(&self) -> (r: String)
        ensures
            r@ == rename_sql(self@),
    {
        let mut s = String::new();
        match self {
            Rename::Table { from, to } => {
                push_str(&mut s, "ALTER TABLE ");
                push_str(&mut s, from.as_str());
                push_str(&mut s, " RENAME TO ");
                push_str(&mut s, to.as_str());
            },
            Rename::Column { table, from, to } => {
                push_str(&mut s, "ALTER TABLE ");
                push_str(&mut s, table.as_str());
                push_str(&mut s, " RENAME COLUMN ");
                push_str(&mut s, from.as_str());
                push_str(&mut s, " TO ");
                push_str(&mut s, to.as_str());
            },
        }
        s
    }
}

/// A rename that is made is no longer due: each rename is idempotent.
pub proof fn made_rename_is_not_due(s: SchemaView, r: RenameView)
    requires
        rename_due(s, r),
    ensures
        !rename_due(renamed(s, r), r),
{
    match r {
        RenameView::Table(from, to) => {
            assert(from != to);
        },
        RenameView::Column(t, from, to) => {
            assert(from != to);
        },
    }
}

/// One turn of a plan: the rename is made when it is due.
pub open spec fn plan_step(s: SchemaView, r: RenameView) -> SchemaView {
    if rename_due(s, r) {
        renamed(s, r)
    } else {
        s
    }
}

proof fn lemma_legacy_names_differ()
    ensures
        "bookmarks"@ != "follows"@,
        "bookmarks"@ != "tickets"@,
        "follows"@ != "tickets"@,
        "brain_id"@ != "brain_name"@,
        "project_id"@ != "project_name"@,
        "project_name"@ != "brain_id"@,
        "brain_name"@ != "project_id"@,
        "bookmarks"@ != "brains"@,
        "bookmarks"@ != "projects"@,
        "follows"@ != "brains"@,
        "follows"@ != "projects"@,
        "tickets"@ != "brains"@,
        "tickets"@ != "projects"@,
        "brains"@ != "projects"@,
        "brain"@ != "project"@,
{
    reveal_strlit("brains");
    reveal_strlit("projects");
    reveal_strlit("brain");
    reveal_strlit("project");
    reveal_strlit("bookmarks");
    reveal_strlit("follows");
    reveal_strlit("tickets");
    reveal_strlit("brain_id");
    reveal_strlit("brain_name");
    reveal_strlit("project_id");
    reveal_strlit("project_name");
    assert("follows"@[0] != "tickets"@[0]);
    assert("brain_id"@.len() != "brain_name"@.len());
    assert("project_id"@.len() != "project_name"@.len());
    assert("project_name"@.len() != "brain_id"@.len());
    assert("brain_name"@[0] != "project_id"@[0]);
    assert("bookmarks"@.len() != "brains"@.len());
    assert("bookmarks"@.len() != "projects"@.len());
    assert("follows"@.len() != "brains"@.len());
    assert("follows"@.len() != "projects"@.len());
    assert("tickets"@.len() != "brains"@.len());
    assert("tickets"@.len() != "projects"@.len());
    assert("brains"@.len() != "projects"@.len());
    assert("brain"@.len() != "project"@.len());
}

/// A later rename of the plan does not make an earlier one due again.
proof fn lemma_later_step_keeps_not_due(x: SchemaView, j: int, k: int)
    requires
        0 <= k < j < 5,
        !rename_due(x, legacy_renames()[k]),
    ensures
        !rename_due(plan_step(x, legacy_renames()[j]), legacy_renames()[k]),
{
    lemma_legacy_names_differ();
    let p = legacy_renames();
    let y = plan_step(x, p[j]);
    if rename_due(x, p[j]) {
        if k == 0 {
            assert(y.tables == x.tables);
        } else if k == 1 {
            assert(y.columns.contains(("bookmarks"@, "brain"@)) == x.columns.contains(
                ("bookmarks"@, "brain"@),
            ));
            assert(y.columns.contains(("bookmarks"@, "project"@)) == x.columns.contains(
                ("bookmarks"@, "project"@),
            ));
        } else if k == 2 {
            assert(y.columns.contains(("follows"@, "brain"@)) == x.columns.contains(
                ("follows"@, "brain"@),
            ));
            assert(y.columns.contains(("follows"@, "project"@)) == x.columns.contains(
                ("follows"@, "project"@),
            ));
        } else {
            assert(j == 4);
            let bn = ("tickets"@, "brain_name"@);
            let pn = ("tickets"@, "project_name"@);
            let c = x.columns.remove(("tickets"@, "brain_id"@));
            assert(c.contains(bn) == x.columns.contains(bn));
            assert(c.contains(pn) == x.columns.contains(pn));
            assert(c.insert(("tickets"@, "project_id"@)).contains(bn) == c.contains(bn));
            assert(c.insert(("tickets"@, "project_id"@)).contains(pn) == c.contains(pn));
        }
    }
}

/// After the first `j` turns of the plan, none of the renames made so far
/// is due.
proof fn lemma_prefix_not_due(s: SchemaView, j: nat, k: int)
    requires
        j <= 5,
        0 <= k < j,
    ensures
        !rename_due(run_plan(s, legacy_renames(), j), legacy_renames()[k]),
    decreases j,
{
    let p = legacy_renames();
    let before = run_plan(s, p, (j - 1) as nat);
    assert(run_plan(s, p, j) == plan_step(before, p[j - 1]));
    if k == j - 1 {
        if rename_due(before, p[k]) {
            made_rename_is_not_due(before, p[k]);
        }
    } else {
        lemma_prefix_not_due(s, (j - 1) as nat, k);
        lemma_later_step_keeps_not_due(before, j - 1, k);
    }
}

proof fn lemma_plan_on_settled(m: SchemaView, j: nat)
    requires
        j <= 5,
        forall|k: int| 0 <= k < 5 ==> !rename_due(m, #[trigger] legacy_renames()[k]),
    ensures
        run_plan(m, legacy_renames(), j) == m,
    decreases j,
{
    if j > 0 {
        lemma_plan_on_settled(m, (j - 1) as nat);
        assert(!rename_due(m, legacy_renames()[j - 1]));
    }
}

/// Running the renames again on a migrated schema changes nothing: every
/// rename is guarded, so a re-run is a no-op.
pub proof fn rerunning_the_renames_changes_nothing(s: SchemaView)
    ensures
        migrated(migrated(s)) == migrated(s),
{
    let m = migrated(s);
    assert forall|k: int| 0 <= k < 5 implies !rename_due(m, #[trigger] legacy_renames()[k]) by {
        lemma_prefix_not_due(s, 5, k);
    }
    lemma_plan_on_settled(m, 5);
}

/// Whether the source of a rename is in the schema.
pub open spec fn source_present(s: SchemaView, r: RenameView) -> bool {
    match r {
        RenameView::Table(from, _) => has_table(s, from),
        RenameView::Column(t, from, _) => has_column(s, t, from),
    }
}

/// Whether the target of a rename is in the schema.
pub open spec fn target_present(s: SchemaView, r: RenameView) -> bool {
    match r {
        RenameView::Table(_, to) => has_table(s, to),
        RenameView::Column(t, _, to) => has_column(s, t, to),
    }
}

/// A turn of the plan leaves the source and the target of every other
/// rename of the plan as they were.
proof fn lemma_other_step_keeps_names(x: SchemaView, j: int, k: int)
    requires
        0 <= j < 5,
        0 <= k < 5,
        j != k,
    ensures
        source_present(plan_step(x, legacy_renames()[j]), legacy_renames()[k]) == source_present(
            x,
            legacy_renames()[k],
        ),
        target_present(plan_step(x, legacy_renames()[j]), legacy_renames()[k]) == target_present(
            x,
            legacy_renames()[k],
        ),
{
    lemma_legacy_names_differ();
    let p = legacy_renames();
    let y = plan_step(x, p[j]);
    if rename_due(x, p[j]) {
        if j == 0 {
            if k == 1 {
                assert(y.columns.contains(("bookmarks"@, "brain"@)) == x.columns.contains(
                    ("bookmarks"@, "brain"@),
                ));
                assert(y.columns.contains(("bookmarks"@, "project"@)) == x.columns.contains(
                    ("bookmarks"@, "project"@),
                ));
            } else if k == 2 {
                assert(y.columns.contains(("follows"@, "brain"@)) == x.columns.contains(
                    ("follows"@, "brain"@),
                ));
                assert(y.columns.contains(("follows"@, "project"@)) == x.columns.contains(
                    ("follows"@, "project"@),
                ));
            } else if k == 3 {
                assert(y.columns.contains(("tickets"@, "brain_name"@)) == x.columns.contains(
                    ("tickets"@, "brain_name"@),
                ));
                assert(y.columns.contains(("tickets"@, "project_name"@)) == x.columns.contains(
                    ("tickets"@, "project_name"@),
                ));
            } else {
                assert(y.columns.contains(("tickets"@, "brain_id"@)) == x.columns.contains(
                    ("tickets"@, "brain_id"@),
                ));
                assert(y.columns.contains(("tickets"@, "project_id"@)) == x.columns.contains(
                    ("tickets"@, "project_id"@),
                ));
            }
        } else {
            assert(y.tables == x.tables);
        }
    }
}

/// Before its turn, a rename sees its source and target as they were at
/// the start.
proof fn lemma_names_before_turn(s: SchemaView, j: nat, k: int)
    requires
        0 <= j <= k < 5,
    ensures
        source_present(run_plan(s, legacy_renames(), j), legacy_renames()[k]) == source_present(
            s,
            legacy_renames()[k],
        ),
        target_present(run_plan(s, legacy_renames(), j), legacy_renames()[k]) == target_present(
            s,
            legacy_renames()[k],
        ),
    decreases j,
{
    if j > 0 {
        lemma_names_before_turn(s, (j - 1) as nat, k);
        lemma_other_step_keeps_names(
            run_plan(s, legacy_renames(), (j - 1) as nat),
            j - 1,
            k,
        );
    }
}

/// After its turn, a rename whose source and target did not both exist at
/// the start has left no source behind.
proof fn lemma_source_gone_after_turn(s: SchemaView, j: nat, k: int)
    requires
        0 <= k < j <= 5,
        !(source_present(s, legacy_renames()[k]) && target_present(s, legacy_renames()[k])),
    ensures
        !source_present(run_plan(s, legacy_renames(), j), legacy_renames()[k]),
    decreases j,
{
    let p = legacy_renames();
    let before = run_plan(s, p, (j - 1) as nat);
    assert(run_plan(s, p, j) == plan_step(before, p[j - 1]));
    if j - 1 == k {
        lemma_names_before_turn(s, k as nat, k);
        lemma_legacy_names_differ();
        if rename_due(before, p[k]) {
            match p[k] {
                RenameView::Table(from, to) => {
                    assert(from != to);
                },
                RenameView::Column(t, from, to) => {
                    assert(from != to);
                },
            }
        }
    } else {
        lemma_source_gone_after_turn(s, (j - 1) as nat, k);
        lemma_other_step_keeps_names(before, j - 1, k);
    }
}

/// After the renames have run, the migration has no work left, unless a
/// legacy name and its current name both existed before: a successful
/// run is not required again.
pub proof fn migrated_schema_needs_no_renames(s: SchemaView)
    requires
        forall|k: int|
            0 <= k < 5 ==> !(source_present(s, #[trigger] legacy_renames()[k]) && target_present(
                s,
                legacy_renames()[k],
            )),
    ensures
        !renames_needed(migrated(s)),
{
    let p = legacy_renames();
    assert forall|k: int| 0 <= k < 5 implies !source_present(migrated(s), #[trigger] p[k]) by {
        lemma_source_gone_after_turn(s, 5, k);
    }
    assert(!source_present(migrated(s), p[0]));
    assert(!source_present(migrated(s), p[1]));
    assert(!source_present(migrated(s), p[2]));
    assert(!source_present(migrated(s), p[3]));
    assert(!source_present(migrated(s), p[4]));
}

} // verus!
