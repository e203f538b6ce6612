//! Why a migration sweep stops.
use vstd::prelude::*;

use crate::text::push_str;

verus! {

/// Why a migration sweep stopped.
#[derive(Debug)]
pub enum MigrationError {
    /// A file-system operation failed; the text describes it.
    Io(String),
    /// A platform operation failed; the text describes it.
    Platform(String),
    /// A database operation failed; the text describes it.
    Database(String),
    /// Reading or writing JSON failed; the text describes it.
    Serde(String),
    /// The snapshot of the data directory could not be taken.
    Backup { reason: String },
    /// The named migration failed while being applied.
    Step { name: String, reason: String },
}

/// The view of a migration error: its variant and its texts.
pub enum MigrationErrorView {
    Io(Seq<char>),
    Platform(Seq<char>),
    Database(Seq<char>),
    Serde(Seq<char>),
    Backup(Seq<char>),
    Step(Seq<char>, Seq<char>),
}

impl View for MigrationError {
    type V = MigrationErrorView;

    open spec fn view(&self) -> MigrationErrorView {
        match self {
            MigrationError::Io(t) => MigrationErrorView::Io(t@),
            MigrationError::Platform(t) => MigrationErrorView::Platform(t@),
            MigrationError::Database(t) => MigrationErrorView::Database(t@),
            MigrationError::Serde(t) => MigrationErrorView::Serde(t@),
            MigrationError::Backup { reason } => MigrationErrorView::Backup(reason@),
            MigrationError::Step { name, reason } => MigrationErrorView::Step(name@, reason@),
        }
    }
}

/// The human-readable description of a migration error.
pub open spec fn migration_error_text(e: MigrationErrorView) -> Seq<char> {
    match e {
        MigrationErrorView::Io(t) => "IO error: "@ + t,
        MigrationErrorView::Platform(t) => "Platform error: "@ + t,
        MigrationErrorView::Database(t) => "Database error: "@ + t,
        MigrationErrorView::Serde(t) => "Serde error: "@ + t,
        MigrationErrorView::Backup(reason) => "Backup failed: "@ + reason,
        MigrationErrorView::Step(name, reason) => "Migration '"@ + name + "' failed: "@ + reason,
    }
}

impl MigrationError {
    /// The human-readable description of this error.
    pub fn message(&self) -> (r: String)
        ensures
            r@ == migration_error_text(self@),
    {
        let mut s = String::new();
        match self {
            MigrationError::Io(t) => {
                push_str(&mut s, "IO error: ");
                push_str(&mut s, t.as_str());
            },
            MigrationError::Platform(t) => {
                push_str(&mut s, "Platform error: ");
                push_str(&mut s, t.as_str());
            },
            MigrationError::Database(t) => {
                push_str(&mut s, "Database error: ");
                push_str(&mut s, t.as_str());
            },
            MigrationError::Serde(t) => {
                push_str(&mut s, "Serde error: ");
                push_str(&mut s, t.as_str());
            },
            MigrationError::Backup { reason } => {
                push_str(&mut s, "Backup failed: ");
                push_str(&mut s, reason.as_str());
            },
            MigrationError::Step { name, reason } => {
                push_str(&mut s, "Migration '");
                push_str(&mut s, name.as_str());
                push_str(&mut s, "' failed: ");
                push_str(&mut s, reason.as_str());
            },
        }
        s
    }
}

} // verus!
