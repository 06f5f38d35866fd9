//! Change-driven test selection and cache invalidation for a source tree
//! under version control.
//!
//! Given the list of files a developer has modified, the library derives the
//! stale compiled-cache artifacts to delete and the backup-guarded test files
//! to run, and sequences a type-check / invalidate / test / re-invalidate
//! protocol through an explicit state machine.  All path rewriting, status
//! parsing and sequencing decisions are verified; spawning processes, scanning
//! directories and deleting files are left to an unverified driver that feeds
//! their outcomes back in as plain values.

pub mod locate;
pub mod orchestrate;
pub mod status;
pub mod text;
