//! Layout migrations: keeping the on-disk state in step with what the
//! engine expects.
pub mod error;
pub mod sweep;
pub mod renames;
pub mod backup;
