//! Path enumeration: the entries a scan consumes, the choice between walking
//! the directory tree and reading the NTFS master file table, and the
//! volume-level facts that choice rests on.

use crate::filter::{any_suffix, listed_suffix};
use crate::options::IndexOptions;
use crate::text::{ascii_lower, lower_char, lowered, texts, to_chars};
use vstd::prelude::*;

verus! {

/// How the paths under a root are enumerated.
#[derive(Debug, Clone, Copy, PartialEq, Eq, Structural)]
pub enum Strategy {
    /// Recursive descent over the directory tree; valid everywhere.
    GenericWalk,
    /// One pass over the master file table of an NTFS volume; valid only for
    /// the root of the volume.
    NtfsMftScan,
}

/// One enumerated path.
#[derive(Debug, Clone)]
pub struct ScanEntry {
    /// The absolute path.
    pub path: String,
    /// Whether the path is a directory.
    pub is_dir: bool,
    /// The final component of the path, where it has one.
    pub name: Option<String>,
    /// The path without its final component, where it has one.
    pub parent: Option<String>,
}

/// One record of the master file table, as far as a scan reads it.
#[derive(Debug, Clone)]
pub struct MftRecord {
    /// The full path, where the chain of parent references could be resolved.
    pub path: Option<String>,
    /// Whether the record describes a directory.
    pub is_dir: bool,
}

/// `Path::file_name` on the path text: the final component, if there is one.
/// Which part of the text that is depends on the platform's path syntax.
#[verifier::external_body]
fn path_file_name(path: &str) -> (name: Option<String>) {
    std::path::Path::new(path).file_name().and_then(|n| n.to_str()).map(String::from)
}

/// `Path::parent` on the path text: the path without its final component, if
/// there is one. Which part of the text that is depends on the platform's
/// path syntax.
#[verifier::external_body]
fn path_parent(path: &str) -> (parent: Option<String>) {
    std::path::Path::new(path).parent().and_then(|p| p.to_str()).map(String::from)
}

impl ScanEntry {
    /// The entry for `path`, with its final component and its parent as the
    /// platform's path syntax gives them.
    pub fn new(path: String, is_dir: bool) -> (entry: ScanEntry)
        ensures
            entry.path == path,
            entry.is_dir == is_dir,
    {
        let name = path_file_name(path.as_str());
        let parent = path_parent(path.as_str());
        ScanEntry { path, is_dir, name, parent }
    }
}

/// Whether the enumerator yields an entry under the options: directories
/// always, files unless the options restrict the file types and the path
/// ends with none of them.
pub open spec fn type_allowed(entry: ScanEntry, options: IndexOptions) -> bool {
    entry.is_dir || options.file_types is None || listed_suffix(options.file_types, entry.path@)
}

/// Whether the enumerator yields `entry` under `options`.
pub fn admits(entry: &ScanEntry, options: &IndexOptions) -> (yielded: bool)
    ensures
        yielded == type_allowed(*entry, *options),
{
    if entry.is_dir || options.file_types.is_none() {
        return true;
    }
    let path = to_chars(entry.path.as_str());
    any_suffix(&options.file_types, &path)
}

/// The entry that a record of the master file table yields: none where the
/// path of the record could not be resolved.
pub fn record_entry(record: &MftRecord) -> (entry: Option<ScanEntry>)
    ensures
        entry is Some == record.path is Some,
        entry matches Some(e) ==> Some(e.path) == record.path && e.is_dir == record.is_dir,
{
    match &record.path {
        Some(path) => Some(ScanEntry::new(path.clone(), record.is_dir)),
        None => None,
    }
}

/// The drive letter a path string starts with: its first character.
///
/// The path must be non-empty and must not start with the `:` that ends the
/// drive designator.
pub fn get_drive_letter(path_string: String) -> (letter: char)
    requires
        path_string@.len() > 0,
        path_string@[0] != ':',
    ensures
        letter == path_string@[0],
{
    path_string.as_str().get_char(0)
}

/// The drive letter of a path string, where it starts with one.
pub fn drive_letter(path: &str) -> (letter: Option<char>)
    ensures
        letter == if path@.len() > 0 && path@[0] != ':' {
            Some(path@[0])
        } else {
            None
        },
{
    if path.unicode_len() == 0 {
        return None;
    }
    let first = path.get_char(0);
    if first == ':' {
        None
    } else {
        Some(first)
    }
}

/// Whether a character is an ASCII letter.
pub open spec fn is_ascii_letter(c: char) -> bool {
    ('a' <= c && c <= 'z') || ('A' <= c && c <= 'Z')
}

/// Whether a character separates path components.
pub open spec fn is_separator(c: char) -> bool {
    c == '\\' || c == '/'
}

/// A volume root is a drive letter, a colon and one separator, nothing else.
pub open spec fn volume_root(path: Seq<char>) -> bool {
    &&& path.len() == 3
    &&& is_ascii_letter(path[0])
    &&& path[1] == ':'
    &&& is_separator(path[2])
}

/// Whether `path` is a volume root.
pub fn is_volume_root(path: &str) -> (root: bool)
    ensures
        root == volume_root(path@),
{
    let chars = to_chars(path);
    if chars.len() != 3 {
        return false;
    }
    let letter = chars[0];
    let is_letter = (letter >= 'a' && letter <= 'z') || (letter >= 'A' && letter <= 'Z');
    is_letter && chars[1] == ':' && (chars[2] == '\\' || chars[2] == '/')
}

/// Whether a reported file-system name is NTFS: the four letters in any case,
/// with nothing but NUL padding before and after them.
pub open spec fn names_ntfs(name: Seq<char>) -> bool {
    exists|start: int| #[trigger] ntfs_at(name, start)
}

/// Whether the letters NTFS stand at `start`, with only NUL characters around
/// them.
pub open spec fn ntfs_at(name: Seq<char>, start: int) -> bool {
    &&& 0 <= start
    &&& start + 4 <= name.len()
    &&& forall|i: int| 0 <= i < start ==> name[i] == '\0'
    &&& lowered(name.subrange(start, start + 4)) == seq!['n', 't', 'f', 's']
    &&& forall|i: int| start + 4 <= i < name.len() ==> name[i] == '\0'
}

/// Whether the file system named `fs_name` is NTFS.
///
/// The name is what the volume reports, possibly padded with NUL characters;
/// letter case is ignored.
pub fn is_ntfs(fs_name: &str) -> (ntfs: bool)
    ensures
        ntfs == names_ntfs(fs_name@),
{
    let chars = to_chars(fs_name);
    let mut end: usize = chars.len();
    while end > 0 && chars[end - 1] == '\0'
        invariant
            end <= chars.len(),
            forall|i: int| end <= i < chars.len() ==> chars@[i] == '\0',
        decreases end,
    {
        end -= 1;
    }
    let mut start: usize = 0;
    while start < end && chars[start] == '\0'
        invariant
            start <= end <= chars.len(),
            forall|i: int| 0 <= i < start ==> chars@[i] == '\0',
        decreases end - start,
    {
        start += 1;
    }
    proof {
        // Wherever the word stands, it stands between `start` and `end`.
        assert forall|s: int| ntfs_at(chars@, s) implies s == start && s + 4 == end by {
            let word = chars@.subrange(s, s + 4);
            assert(lowered(word)[0] == 'n');
            assert(word[0] == chars@[s]);
            assert(lowered(word)[3] == 's');
            assert(word[3] == chars@[s + 3]);
        }
    }
    if end - start != 4 {
        return false;
    }
    let found = lower_char(chars[start]) == 'n' && lower_char(chars[start + 1]) == 't'
        && lower_char(chars[start + 2]) == 'f' && lower_char(chars[start + 3]) == 's';
    proof {
        let word = chars@.subrange(start as int, start + 4);
        if found {
            assert(lowered(word) =~= seq!['n', 't', 'f', 's']);
            assert(ntfs_at(chars@, start as int));
        } else {
            assert(lowered(word)[0] == ascii_lower(chars@[start as int]));
            assert(lowered(word)[1] == ascii_lower(chars@[start + 1]));
            assert(lowered(word)[2] == ascii_lower(chars@[start + 2]));
            assert(lowered(word)[3] == ascii_lower(chars@[start + 3]));
        }
    }
    found
}

/// The strategy for a target: the master file table is read exactly when the
/// file system is NTFS and the target is the root of its volume.
pub open spec fn strategy_for(ntfs: bool, target: Seq<char>) -> Strategy {
    if ntfs && volume_root(target) {
        Strategy::NtfsMftScan
    } else {
        Strategy::GenericWalk
    }
}

/// Chooses the enumeration strategy for `target`, given whether its volume
/// is NTFS.
pub fn select_strategy(ntfs: bool, target: &str) -> (strategy: Strategy)
    ensures
        strategy == strategy_for(ntfs, target@),
{
    if ntfs && is_volume_root(target) {
        Strategy::NtfsMftScan
    } else {
        Strategy::GenericWalk
    }
}

/// The resolved paths of the records of one kind (directories if `dirs`,
/// files if not), in record order.
pub open spec fn resolved_paths(records: Seq<MftRecord>, dirs: bool) -> Seq<Seq<char>>
    decreases records.len(),
{
    if records.len() == 0 {
        Seq::empty()
    } else {
        let last = records.last();
        let before = resolved_paths(records.drop_last(), dirs);
        match last.path {
            Some(path) => if last.is_dir == dirs {
                before.push(path@)
            } else {
                before
            },
            None => before,
        }
    }
}

/// Sorts the records of a master file table into directory paths and file
/// paths, each in record order. Records whose path could not be resolved are
/// skipped.
pub fn iter_mft(records: &Vec<MftRecord>) -> (found: Result<(Vec<String>, Vec<String>), String>)
    ensures
        found matches Ok(lists) && texts(lists.0@) == resolved_paths(records@, true)
            && texts(lists.1@) == resolved_paths(records@, false),
{
    let mut found_dirs: Vec<String> = Vec::new();
    let mut found_files: Vec<String> = Vec::new();
    let mut i: usize = 0;
    while i < records.len()
        invariant
            i <= records.len(),
            texts(found_dirs@) == resolved_paths(records@.take(i as int), true),
            texts(found_files@) == resolved_paths(records@.take(i as int), false),
        decreases records.len() - i,
    {
        proof {
            assert(records@.take(i + 1).drop_last() =~= records@.take(i as int));
            assert(records@.take(i + 1).last() == records@[i as int]);
        }
        let ghost dirs_before = found_dirs@;
        let ghost files_before = found_files@;
        let record = &records[i];
        match &record.path {
            Some(path) => {
                if record.is_dir {
                    found_dirs.push(path.clone());
                    assert(texts(found_dirs@) =~= texts(
                        dirs_before,
                    ).push(path@));
                } else {
                    found_files.push(path.clone());
                    assert(texts(found_files@) =~= texts(
                        files_before,
                    ).push(path@));
                }
            },
            None => {},
        }
        i += 1;
    }
    assert(records@.take(records.len() as int) =~= records@);
    Ok((found_dirs, found_files))
}

} // verus!
