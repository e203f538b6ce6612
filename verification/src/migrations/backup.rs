//! The snapshot taken before a migration mutates the data directory: a
//! sibling directory named after it, stamped with the time.
use vstd::prelude::*;

use crate::lens::debug::{debug_quote, debug_quoted};
use crate::migrations::error::MigrationError;
use crate::text::push_str;

verus! {

/// The name of the snapshot directory: the data directory's own name (or
/// `data-dir` when it has none), `.backup-` and the time stamp.
pub open spec fn backup_name(file_name: Option<Seq<char>>, stamp: Seq<char>) -> Seq<char> {
    match file_name {
        Some(name) => name + ".backup-"@ + stamp,
        None => "data-dir"@ + ".backup-"@ + stamp,
    }
}

/// The name of the snapshot directory for a data directory whose own name
/// is `file_name`, taken at `stamp`.
pub fn backup_file_name(file_name: Option<&str>, stamp: &str) -> (r: String)
    ensures
        r@ == backup_name(
            match file_name {
                Some(n) => Some(n@),
                None => None,
            },
            stamp@,
        ),
{
    let mut s = String::new();
    match file_name {
        Some(name) => push_str(&mut s, name),
        None => push_str(&mut s, "data-dir"),
    }
    push_str(&mut s, ".backup-");
    push_str(&mut s, stamp);
    s
}

/// The error for a snapshot whose copy from `source` to `target` failed
/// with `error`.
pub fn backup_failure(source: &str, target: &str, error: &str) -> (r: MigrationError)
    ensures
        r matches MigrationError::Backup { reason } && reason@ == "copy "@ + debug_quote(source@)
            + " -> "@ + debug_quote(target@) + ": "@ + error@,
{
    let mut reason = String::new();
    push_str(&mut reason, "copy ");
    let quoted_source = debug_quoted(source);
    push_str(&mut reason, quoted_source.as_str());
    push_str(&mut reason, " -> ");
    let quoted_target = debug_quoted(target);
    push_str(&mut reason, quoted_target.as_str());
    push_str(&mut reason, ": ");
    push_str(&mut reason, error);
    MigrationError::Backup { reason }
}

} // verus!
