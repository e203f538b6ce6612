use oneiros_engine::migrations::backup::{backup_failure, backup_file_name};
use oneiros_engine::migrations::error::MigrationError;
use oneiros_engine::migrations::renames::{legacy_rename_plan, renames_required, Rename, Schema};
use oneiros_engine::migrations::sweep::{
    MigrationOutcome, MigrationSweep, SweepAction, SweepEvent,
};

fn names(list: &[&str]) -> Vec<String> {
    list.iter().map(|s| s.to_string()).collect()
}

/// Runs a sweep where `required[i]` says whether migration `i` has work,
/// and records what the sweep asked for.
fn run_sweep(list: &[&str], required: &[bool]) -> (Vec<String>, SweepAction) {
    let mut trace = Vec::new();
    let (mut sweep, mut action) = MigrationSweep::start(names(list));
    loop {
        let event = match &action {
            SweepAction::Check(i) => {
                trace.push(format!("check {i}"));
                SweepEvent::Required(required[*i])
            }
            SweepAction::Backup => {
                trace.push("backup".to_string());
                SweepEvent::BackedUp("/data.backup-1".to_string())
            }
            SweepAction::Apply(i) => {
                trace.push(format!("apply {i}"));
                SweepEvent::Applied
            }
            SweepAction::Finish(_) | SweepAction::Fail(_) => return (trace, action),
        };
        assert!(sweep.expects(&event));
        action = sweep.advance(event);
    }
}

#[test]
fn pristine_layout_is_already_current_without_backup() {
    let (trace, action) = run_sweep(&["one", "two"], &[false, false]);
    assert_eq!(trace, vec!["check 0", "check 1"]);
    assert!(matches!(action, SweepAction::Finish(MigrationOutcome::AlreadyCurrent)));
}

#[test]
fn empty_inventory_finishes_at_once() {
    let (trace, action) = run_sweep(&[], &[]);
    assert!(trace.is_empty());
    assert!(matches!(action, SweepAction::Finish(MigrationOutcome::AlreadyCurrent)));
}

#[test]
fn backup_is_taken_once_before_the_first_apply() {
    let (trace, action) = run_sweep(&["one", "two", "three"], &[false, true, true]);
    assert_eq!(
        trace,
        vec!["check 0", "check 1", "backup", "apply 1", "check 2", "apply 2"]
    );
    match action {
        SweepAction::Finish(MigrationOutcome::Migrated {
            applied,
            backup_path,
        }) => {
            assert_eq!(applied, vec!["two".to_string(), "three".to_string()]);
            assert_eq!(backup_path, "/data.backup-1");
        }
        other => panic!("expected a migration, got {other:?}"),
    }
}

#[test]
fn failed_apply_names_the_migration() {
    let (mut sweep, action) = MigrationSweep::start(names(&["rename tables"]));
    assert!(matches!(action, SweepAction::Check(0)));
    assert!(matches!(sweep.advance(SweepEvent::Required(true)), SweepAction::Backup));
    assert!(!sweep.expects(&SweepEvent::Applied));
    let action = sweep.advance(SweepEvent::BackedUp("/b".to_string()));
    assert!(matches!(action, SweepAction::Apply(0)));
    match sweep.advance(SweepEvent::ApplyFailed("disk full".to_string())) {
        SweepAction::Fail(error) => {
            assert_eq!(error.message(), "Migration 'rename tables' failed: disk full")
        }
        other => panic!("expected a failure, got {other:?}"),
    }
}

#[test]
fn failed_check_stops_the_sweep_with_its_error() {
    let (mut sweep, _) = MigrationSweep::start(names(&["one"]));
    match sweep.advance(SweepEvent::CheckFailed(MigrationError::Database(
        "locked".to_string(),
    ))) {
        SweepAction::Fail(error) => assert_eq!(error.message(), "Database error: locked"),
        other => panic!("expected a failure, got {other:?}"),
    }
    assert!(!sweep.expects(&SweepEvent::Required(true)));
}

#[test]
fn migration_error_messages() {
    assert_eq!(MigrationError::Io("x".into()).message(), "IO error: x");
    assert_eq!(MigrationError::Platform("x".into()).message(), "Platform error: x");
    assert_eq!(MigrationError::Serde("x".into()).message(), "Serde error: x");
    assert_eq!(
        MigrationError::Backup { reason: "r".into() }.message(),
        "Backup failed: r"
    );
}

fn schema(tables: &[(&str, &[&str])]) -> Schema {
    let mut s = Schema {
        tables: Vec::new(),
        columns: Vec::new(),
    };
    for (table, columns) in tables {
        s.tables.push(table.to_string());
        for column in columns.iter() {
            s.columns.push((table.to_string(), column.to_string()));
        }
    }
    s
}

fn apply(schema: &mut Schema, rename: &Rename) {
    match rename {
        Rename::Table { from, to } => {
            for t in schema.tables.iter_mut() {
                if t == from {
                    *t = to.clone();
                }
            }
            for (t, _) in schema.columns.iter_mut() {
                if t == from {
                    *t = to.clone();
                }
            }
        }
        Rename::Column { table, from, to } => {
            for (t, c) in schema.columns.iter_mut() {
                if t == table && c == from {
                    *c = to.clone();
                }
            }
        }
    }
}

#[test]
fn legacy_schema_needs_renames_and_current_one_does_not() {
    let legacy = schema(&[
        ("brains", &["id", "name"]),
        ("bookmarks", &["brain", "name"]),
        ("tickets", &["brain_name", "brain_id"]),
    ]);
    assert!(renames_required(Some(&legacy)));
    let current = schema(&[
        ("projects", &["id"]),
        ("bookmarks", &["project"]),
        ("follows", &["project"]),
    ]);
    assert!(!renames_required(Some(&current)));
    assert!(!renames_required(None));
}

#[test]
fn renames_make_the_schema_current_and_rerun_as_no_op() {
    let mut s = schema(&[
        ("brains", &["id"]),
        ("bookmarks", &["brain"]),
        ("follows", &["brain"]),
        ("tickets", &["brain_name", "brain_id"]),
    ]);
    let mut statements = Vec::new();
    for rename in legacy_rename_plan() {
        if rename.is_due(&s) {
            statements.push(rename.sql());
            apply(&mut s, &rename);
        }
    }
    assert_eq!(
        statements,
        vec![
            "ALTER TABLE brains RENAME TO projects",
            "ALTER TABLE bookmarks RENAME COLUMN brain TO project",
            "ALTER TABLE follows RENAME COLUMN brain TO project",
            "ALTER TABLE tickets RENAME COLUMN brain_name TO project_name",
            "ALTER TABLE tickets RENAME COLUMN brain_id TO project_id",
        ]
    );
    assert!(!renames_required(Some(&s)));
    assert!(legacy_rename_plan().iter().all(|r| !r.is_due(&s)));
}

#[test]
fn rename_is_not_due_when_its_target_exists() {
    let s = schema(&[("brains", &[]), ("projects", &[])]);
    let plan = legacy_rename_plan();
    assert!(!plan[0].is_due(&s));
    assert!(renames_required(Some(&s)));
    assert!(s.table_exists(&"brains".to_string()));
    assert!(!s.column_exists(&"bookmarks".to_string(), &"brain".to_string()));
}

#[test]
fn backup_directory_is_named_after_the_data_directory() {
    assert_eq!(
        backup_file_name(Some("data"), "20240101T000000Z"),
        "data.backup-20240101T000000Z"
    );
    assert_eq!(backup_file_name(None, "S"), "data-dir.backup-S");
}

#[test]
fn backup_failure_describes_the_copy() {
    let error = backup_failure("/srv/data", "/srv/data.backup-S", "denied");
    assert_eq!(
        error.message(),
        "Backup failed: copy \"/srv/data\" -> \"/srv/data.backup-S\": denied"
    );
}
