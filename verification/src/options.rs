//! The configuration of one indexing run.

use vstd::prelude::*;

verus! {

/// What to index under a root, and what to leave out.
///
/// The exclusion toggles are off when absent.
#[derive(Debug, Clone)]
pub struct IndexOptions {
    /// The root to index.
    pub path: String,
    pub index_directories: bool,
    pub index_files: bool,
    /// File-type suffixes to keep, if the selection is restricted.
    pub file_types: Option<Vec<String>>,
    /// A regular expression; paths it matches are left out.
    pub excluded_regex: Option<String>,
    /// Path prefixes to leave out.
    pub excluded_paths: Option<Vec<String>>,
    /// Path suffixes to leave out.
    pub excluded_files: Option<Vec<String>>,
    /// Leave out hidden files and directories.
    pub exclude_hidden: Option<bool>,
    /// Leave out protected system files.
    pub exclude_system: Option<bool>,
    /// Leave out temporary files and directories.
    pub exclude_temporary: Option<bool>,
    /// Leave out empty files and directories.
    pub exclude_empty: Option<bool>,
    /// Leave out what the current user cannot access.
    pub exclude_admin: Option<bool>,
}

/// Whether an optional toggle is switched on.
pub open spec fn toggled(toggle: Option<bool>) -> bool {
    toggle == Some(true)
}

/// Whether an optional toggle is switched on.
pub fn is_toggled(toggle: &Option<bool>) -> (on: bool)
    ensures
        on == toggled(*toggle),
{
    match toggle {
        Some(value) => *value,
        None => false,
    }
}

} // verus!
