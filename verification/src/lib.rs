//! The indexing engine of a folder and file catalog.
//!
//! A run enumerates the paths under a root, leaves out what the exclusion
//! filter rejects, and writes the rest into a catalog of folders and files,
//! in which every file row refers to the row of its parent folder. The
//! library decides and computes; enumerating the file system and keeping the
//! catalog on disk is left to its host, which hands the library plain values.
//!
//! - [`options`]: the configuration of a run.
//! - [`enumerate`]: entries, and the choice of the enumeration strategy.
//! - [`filter`]: the exclusion filter and its counters.
//! - [`pattern`]: the compiled exclusion pattern.
//! - [`catalog`]: the catalog store and its mathematical model.
//! - [`scan`]: what a run does to a catalog, and the laws that hold of it.
//! - [`controller`]: the state machine of a run.
//! - [`cancel`]: the cancellation token.
//! - [`identity`]: the name of the catalog file of a root.
//! - [`sidecar`]: the command line of the indexer as a separate process.
//! - [`text`]: helpers on strings.

pub mod cancel;
pub mod catalog;
pub mod controller;
pub mod enumerate;
pub mod filter;
pub mod identity;
pub mod options;
pub mod pattern;
pub mod scan;
pub mod sidecar;
pub mod text;

pub use enumerate::{get_drive_letter, is_ntfs, iter_mft};
pub use filter::should_exclude;
pub use options::IndexOptions;
