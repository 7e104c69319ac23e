//! The exclusion filter: a fixed sequence of checks that decides whether an
//! enumerated path is left out of the catalog, and a tally of the reasons.

use crate::enumerate::ScanEntry;
use crate::options::{is_toggled, toggled, IndexOptions};
use crate::pattern::{regex_matches, ExclusionPattern, PatternError};
use crate::text::{
    chars_end_with, chars_equal, chars_start_with, lower_chars, lowered, same_text, to_chars,
};
use vstd::prelude::*;

verus! {

/// The attribute bit of a hidden file or directory.
pub const FILE_ATTRIBUTE_HIDDEN: u32 = 0x2;

/// The attribute bit of a file or directory that the operating system uses.
pub const FILE_ATTRIBUTE_SYSTEM: u32 = 0x4;

/// The attribute bit of a file used for temporary storage.
pub const FILE_ATTRIBUTE_TEMPORARY: u32 = 0x100;

/// What kind of object a path names.
#[derive(Debug, Clone, Copy, PartialEq, Eq, Structural)]
pub enum PathKind {
    Directory,
    File,
    Other,
}

/// What the host reports about one path. The filter reads these facts and
/// never touches the file system itself.
#[derive(Debug, Clone, Copy)]
pub struct PathFacts {
    /// What the path names.
    pub kind: PathKind,
    /// Whether the current user can list the directory or open the file.
    pub accessible: bool,
    /// The native attribute bits, on hosts that have them.
    pub attributes: Option<u32>,
    /// The number of children of a directory that could be listed.
    pub children: Option<u64>,
    /// The length of a file in bytes.
    pub len: u64,
}

/// Why a path was left out. The variants are in the order of the checks.
#[derive(Debug, Clone, Copy, PartialEq, Eq, Structural)]
pub enum ExclusionReason {
    /// The current user cannot access the path.
    Privileged,
    /// The path starts with an excluded prefix.
    ExcludedPath,
    /// The path ends with an excluded suffix.
    ExcludedFile,
    /// The path matches the exclusion pattern.
    Pattern,
    /// The path is hidden.
    Hidden,
    /// The path is a protected system path.
    System,
    /// The directory has no children, or the file no content.
    Empty,
    /// The path is temporary.
    Temporary,
}

/// How many paths each reason has excluded in one run.
#[derive(Debug, Clone, Copy, PartialEq, Eq)]
pub struct ExclusionCounters {
    pub privileged: u64,
    pub excluded_paths: u64,
    pub excluded_files: u64,
    pub excluded_regex: u64,
    pub hidden: u64,
    pub system: u64,
    pub empty: u64,
    pub temporary: u64,
}

impl ExclusionCounters {
    /// The count of one reason.
    pub open spec fn count(self, reason: ExclusionReason) -> u64 {
        match reason {
            ExclusionReason::Privileged => self.privileged,
            ExclusionReason::ExcludedPath => self.excluded_paths,
            ExclusionReason::ExcludedFile => self.excluded_files,
            ExclusionReason::Pattern => self.excluded_regex,
            ExclusionReason::Hidden => self.hidden,
            ExclusionReason::System => self.system,
            ExclusionReason::Empty => self.empty,
            ExclusionReason::Temporary => self.temporary,
        }
    }

    /// The sum of all counts.
    pub open spec fn total(self) -> int {
        self.privileged + self.excluded_paths + self.excluded_files + self.excluded_regex
            + self.hidden + self.system + self.empty + self.temporary
    }

    /// The counters with the count of `reason` raised by one.
    pub open spec fn bumped(self, reason: ExclusionReason) -> ExclusionCounters {
        match reason {
            ExclusionReason::Privileged => ExclusionCounters {
                privileged: (self.privileged + 1) as u64,
                ..self
            },
            ExclusionReason::ExcludedPath => ExclusionCounters {
                excluded_paths: (self.excluded_paths + 1) as u64,
                ..self
            },
            ExclusionReason::ExcludedFile => ExclusionCounters {
                excluded_files: (self.excluded_files + 1) as u64,
                ..self
            },
            ExclusionReason::Pattern => ExclusionCounters {
                excluded_regex: (self.excluded_regex + 1) as u64,
                ..self
            },
            ExclusionReason::Hidden => ExclusionCounters {
                hidden: (self.hidden + 1) as u64,
                ..self
            },
            ExclusionReason::System => ExclusionCounters {
                system: (self.system + 1) as u64,
                ..self
            },
            ExclusionReason::Empty => ExclusionCounters {
                empty: (self.empty + 1) as u64,
                ..self
            },
            ExclusionReason::Temporary => ExclusionCounters {
                temporary: (self.temporary + 1) as u64,
                ..self
            },
        }
    }

    /// The counters after a decision: bumped at the reason if there is one,
    /// unchanged if not.
    pub open spec fn after(self, decision: Option<ExclusionReason>) -> ExclusionCounters {
        match decision {
            Some(reason) => self.bumped(reason),
            None => self,
        }
    }

    /// Counters that have counted nothing.
    pub open spec fn new_spec() -> ExclusionCounters {
        ExclusionCounters {
            privileged: 0,
            excluded_paths: 0,
            excluded_files: 0,
            excluded_regex: 0,
            hidden: 0,
            system: 0,
            empty: 0,
            temporary: 0,
        }
    }

    /// Counters that have counted nothing.
    #[verifier::when_used_as_spec(new_spec)]
    pub fn new() -> (counters: ExclusionCounters)
        ensures
            counters == ExclusionCounters::new_spec(),
            counters.total() == 0,
    {
        ExclusionCounters {
            privileged: 0,
            excluded_paths: 0,
            excluded_files: 0,
            excluded_regex: 0,
            hidden: 0,
            system: 0,
            empty: 0,
            temporary: 0,
        }
    }

    /// The count of one reason.
    pub fn get(&self, reason: ExclusionReason) -> (n: u64)
        ensures
            n == self.count(reason),
    {
        match reason {
            ExclusionReason::Privileged => self.privileged,
            ExclusionReason::ExcludedPath => self.excluded_paths,
            ExclusionReason::ExcludedFile => self.excluded_files,
            ExclusionReason::Pattern => self.excluded_regex,
            ExclusionReason::Hidden => self.hidden,
            ExclusionReason::System => self.system,
            ExclusionReason::Empty => self.empty,
            ExclusionReason::Temporary => self.temporary,
        }
    }

    /// Counts one more path excluded for `reason`.
    pub fn record(&mut self, reason: ExclusionReason)
        requires
            old(self).total() < u64::MAX,
        ensures
            *final(self) == old(self).bumped(reason),
            final(self).total() == old(self).total() + 1,
            final(self).count(reason) == old(self).count(reason) + 1,
    {
        match reason {
            ExclusionReason::Privileged => {
                self.privileged = self.privileged + 1;
            },
            ExclusionReason::ExcludedPath => {
                self.excluded_paths = self.excluded_paths + 1;
            },
            ExclusionReason::ExcludedFile => {
                self.excluded_files = self.excluded_files + 1;
            },
            ExclusionReason::Pattern => {
                self.excluded_regex = self.excluded_regex + 1;
            },
            ExclusionReason::Hidden => {
                self.hidden = self.hidden + 1;
            },
            ExclusionReason::System => {
                self.system = self.system + 1;
            },
            ExclusionReason::Empty => {
                self.empty = self.empty + 1;
            },
            ExclusionReason::Temporary => {
                self.temporary = self.temporary + 1;
            },
        }
    }
}

impl ExclusionReason {
    /// The name under which the reason is reported.
    pub fn key(&self) -> (name: &'static str)
        ensures
            name@ == match *self {
                ExclusionReason::Privileged => "exclude_admin"@,
                ExclusionReason::ExcludedPath => "excluded_paths"@,
                ExclusionReason::ExcludedFile => "excluded_files"@,
                ExclusionReason::Pattern => "excluded_regex"@,
                ExclusionReason::Hidden => "exclude_hidden"@,
                ExclusionReason::System => "exclude_system"@,
                ExclusionReason::Empty => "exclude_empty"@,
                ExclusionReason::Temporary => "exclude_temporary"@,
            },
    {
        match self {
            ExclusionReason::Privileged => "exclude_admin",
            ExclusionReason::ExcludedPath => "excluded_paths",
            ExclusionReason::ExcludedFile => "excluded_files",
            ExclusionReason::Pattern => "excluded_regex",
            ExclusionReason::Hidden => "exclude_hidden",
            ExclusionReason::System => "exclude_system",
            ExclusionReason::Empty => "exclude_empty",
            ExclusionReason::Temporary => "exclude_temporary",
        }
    }
}

/// Whether the `i`-th string of the list is a prefix of `path`.
pub open spec fn prefix_at(items: Seq<String>, i: int, path: Seq<char>) -> bool {
    0 <= i < items.len() && items[i]@.is_prefix_of(path)
}

/// Whether the `i`-th string of the list is a suffix of `path`.
pub open spec fn suffix_at(items: Seq<String>, i: int, path: Seq<char>) -> bool {
    0 <= i < items.len() && items[i]@.is_suffix_of(path)
}

/// Whether some string of the list is a prefix of `path`.
pub open spec fn listed_prefix(list: Option<Vec<String>>, path: Seq<char>) -> bool {
    match list {
        Some(items) => exists|i: int| #[trigger] prefix_at(items@, i, path),
        None => false,
    }
}

/// Whether some string of the list is a suffix of `path`.
pub open spec fn listed_suffix(list: Option<Vec<String>>, path: Seq<char>) -> bool {
    match list {
        Some(items) => exists|i: int| #[trigger] suffix_at(items@, i, path),
        None => false,
    }
}

/// A list with a prefix of `path` at `i` has a prefix of `path`.
proof fn lemma_listed_prefix(items: Vec<String>, i: int, path: Seq<char>)
    requires
        prefix_at(items@, i, path),
    ensures
        listed_prefix(Some(items), path),
{
    let list = Some(items);
    assert(prefix_at(list->0@, i, path));
}

/// A list with a suffix of `path` at `i` has a suffix of `path`.
proof fn lemma_listed_suffix(items: Vec<String>, i: int, path: Seq<char>)
    requires
        suffix_at(items@, i, path),
    ensures
        listed_suffix(Some(items), path),
{
    let list = Some(items);
    assert(suffix_at(list->0@, i, path));
}

/// Whether the facts carry the attribute bit `bit`.
pub open spec fn has_attribute(facts: PathFacts, bit: u32) -> bool {
    facts.attributes matches Some(bits) && bits & bit != 0
}

/// Hidden: the native attribute bit where the host has attribute bits, a
/// name that starts with a dot where it has none.
pub open spec fn is_hidden(entry: ScanEntry, facts: PathFacts) -> bool {
    match facts.attributes {
        Some(bits) => bits & FILE_ATTRIBUTE_HIDDEN != 0,
        None => entry.name matches Some(name) && name@.len() > 0 && name@[0] == '.',
    }
}

/// Empty: a directory that was listed and has no children, or a file of
/// length zero.
pub open spec fn is_empty(facts: PathFacts) -> bool {
    match facts.kind {
        PathKind::Directory => facts.children == Some(0u64),
        PathKind::File => facts.len == 0,
        PathKind::Other => false,
    }
}

/// Whether a name marks temporary content: `temp`, `tmp`, or anything that
/// ends in `.tmp`, whatever the case of its ASCII letters.
pub open spec fn temporary_name(name: Seq<char>) -> bool {
    let folded = lowered(name);
    folded == seq!['t', 'e', 'm', 'p'] || folded == seq!['t', 'm', 'p'] || seq![
        '.',
        't',
        'm',
        'p',
    ].is_suffix_of(folded)
}

/// Temporary: the native attribute bit, or a name that marks temporary
/// content.
pub open spec fn is_temporary(entry: ScanEntry, facts: PathFacts) -> bool {
    has_attribute(facts, FILE_ATTRIBUTE_TEMPORARY) || (entry.name matches Some(name)
        && temporary_name(name@))
}

/// The decision of the filter, given whether the exclusion pattern matched:
/// the reason of the first check that applies, in the fixed order of the
/// checks, or `None` if the path stays.
pub open spec fn exclusion_with(
    entry: ScanEntry,
    facts: PathFacts,
    options: IndexOptions,
    pattern_hit: bool,
) -> Option<ExclusionReason> {
    if toggled(options.exclude_admin) && !facts.accessible {
        Some(ExclusionReason::Privileged)
    } else if listed_prefix(options.excluded_paths, entry.path@) {
        Some(ExclusionReason::ExcludedPath)
    } else if listed_suffix(options.excluded_files, entry.path@) {
        Some(ExclusionReason::ExcludedFile)
    } else if pattern_hit {
        Some(ExclusionReason::Pattern)
    } else if toggled(options.exclude_hidden) && is_hidden(entry, facts) {
        Some(ExclusionReason::Hidden)
    } else if toggled(options.exclude_system) && has_attribute(facts, FILE_ATTRIBUTE_SYSTEM) {
        Some(ExclusionReason::System)
    } else if toggled(options.exclude_empty) && is_empty(facts) {
        Some(ExclusionReason::Empty)
    } else if toggled(options.exclude_temporary) && is_temporary(entry, facts) {
        Some(ExclusionReason::Temporary)
    } else {
        None
    }
}

/// Whether the exclusion pattern of the options matches `path`; without a
/// pattern nothing matches.
pub open spec fn pattern_excludes(options: IndexOptions, path: Seq<char>) -> bool {
    options.excluded_regex matches Some(pattern) && regex_matches(pattern@, path)
}

/// The decision of the filter for one path under the given options.
pub open spec fn exclusion_of(entry: ScanEntry, facts: PathFacts, options: IndexOptions) -> Option<
    ExclusionReason,
> {
    exclusion_with(entry, facts, options, pattern_excludes(options, entry.path@))
}

/// Which facts of a path the filter reads under given options. A host need
/// not find out the others.
#[derive(Debug, Clone, Copy, PartialEq, Eq, Structural)]
pub struct FactsWanted {
    /// Whether the current user can access the path.
    pub access: bool,
    /// The native attribute bits.
    pub attributes: bool,
    /// The kind of the path, the number of its children and its length.
    pub content: bool,
}

/// The facts that the filter reads under the options: accessibility for the
/// accessibility check, attribute bits for the hidden, system and temporary
/// checks, content for the empty check.
pub open spec fn wanted(options: IndexOptions) -> FactsWanted {
    FactsWanted {
        access: toggled(options.exclude_admin),
        attributes: toggled(options.exclude_hidden) || toggled(options.exclude_system) || toggled(
            options.exclude_temporary,
        ),
        content: toggled(options.exclude_empty),
    }
}

/// Whether two reports of a path agree in the facts that are wanted.
pub open spec fn agree(a: PathFacts, b: PathFacts, facts: FactsWanted) -> bool {
    &&& facts.access ==> a.accessible == b.accessible
    &&& facts.attributes ==> a.attributes == b.attributes
    &&& facts.content ==> a.kind == b.kind && a.children == b.children && a.len == b.len
}

/// The filter reads no fact that is not wanted: reports that agree in the
/// wanted facts get the same decision.
pub proof fn lemma_unwanted_facts_do_not_count(
    entry: ScanEntry,
    a: PathFacts,
    b: PathFacts,
    options: IndexOptions,
)
    requires
        agree(a, b, wanted(options)),
    ensures
        exclusion_of(entry, a, options) == exclusion_of(entry, b, options),
{
}

/// The facts that the filter reads under the options.
pub fn facts_wanted(options: &IndexOptions) -> (facts: FactsWanted)
    ensures
        facts == wanted(*options),
{
    FactsWanted {
        access: is_toggled(&options.exclude_admin),
        attributes: is_toggled(&options.exclude_hidden) || is_toggled(&options.exclude_system)
            || is_toggled(&options.exclude_temporary),
        content: is_toggled(&options.exclude_empty),
    }
}

/// Whether some string of the list is a prefix of the path.
fn any_prefix(list: &Option<Vec<String>>, path: &Vec<char>) -> (found: bool)
    ensures
        found == listed_prefix(*list, path@),
{
    match list {
        Some(items) => {
            let mut i: usize = 0;
            while i < items.len()
                invariant
                    i <= items.len(),
                    *list == Some(*items),
                    forall|j: int| 0 <= j < i ==> !#[trigger] prefix_at(items@, j, path@),
                decreases items.len() - i,
            {
                let item = to_chars(items[i].as_str());
                if chars_start_with(path, &item) {
                    proof {
                        lemma_listed_prefix(*items, i as int, path@);
                    }
                    return true;
                }
                i += 1;
            }
            false
        },
        None => false,
    }
}

/// Whether some string of the list is a suffix of the path.
pub(crate) fn any_suffix(list: &Option<Vec<String>>, path: &Vec<char>) -> (found: bool)
    ensures
        found == listed_suffix(*list, path@),
{
    match list {
        Some(items) => {
            let mut i: usize = 0;
            while i < items.len()
                invariant
                    i <= items.len(),
                    *list == Some(*items),
                    forall|j: int| 0 <= j < i ==> !#[trigger] suffix_at(items@, j, path@),
                decreases items.len() - i,
            {
                let item = to_chars(items[i].as_str());
                if chars_end_with(path, &item) {
                    proof {
                        lemma_listed_suffix(*items, i as int, path@);
                    }
                    return true;
                }
                i += 1;
            }
            false
        },
        None => false,
    }
}

/// Whether the facts carry the attribute bit `bit`.
fn attribute_set(facts: &PathFacts, bit: u32) -> (set: bool)
    ensures
        set == has_attribute(*facts, bit),
{
    match facts.attributes {
        Some(bits) => bits & bit != 0,
        None => false,
    }
}

/// Whether a name marks temporary content.
pub fn is_temporary_name(name: &str) -> (temporary: bool)
    ensures
        temporary == temporary_name(name@),
{
    let folded = lower_chars(&to_chars(name));
    let temp: Vec<char> = vec!['t', 'e', 'm', 'p'];
    let tmp: Vec<char> = vec!['t', 'm', 'p'];
    let dot_tmp: Vec<char> = vec!['.', 't', 'm', 'p'];
    assert(temp@ =~= seq!['t', 'e', 'm', 'p']);
    assert(tmp@ =~= seq!['t', 'm', 'p']);
    assert(dot_tmp@ =~= seq!['.', 't', 'm', 'p']);
    chars_equal(&folded, &temp) || chars_equal(&folded, &tmp) || chars_end_with(&folded, &dot_tmp)
}

/// Whether the entry counts as hidden.
fn hidden(entry: &ScanEntry, facts: &PathFacts) -> (h: bool)
    ensures
        h == is_hidden(*entry, *facts),
{
    match facts.attributes {
        Some(bits) => bits & FILE_ATTRIBUTE_HIDDEN != 0,
        None => match &entry.name {
            Some(name) => {
                let chars = to_chars(name.as_str());
                chars.len() > 0 && chars[0] == '.'
            },
            None => false,
        },
    }
}

/// Whether the entry counts as empty.
fn empty(facts: &PathFacts) -> (e: bool)
    ensures
        e == is_empty(*facts),
{
    match facts.kind {
        PathKind::Directory => match facts.children {
            Some(n) => n == 0,
            None => false,
        },
        PathKind::File => facts.len == 0,
        PathKind::Other => false,
    }
}

/// Whether the entry counts as temporary.
fn temporary(entry: &ScanEntry, facts: &PathFacts) -> (t: bool)
    ensures
        t == is_temporary(*entry, *facts),
{
    if attribute_set(facts, FILE_ATTRIBUTE_TEMPORARY) {
        return true;
    }
    match &entry.name {
        Some(name) => is_temporary_name(name.as_str()),
        None => false,
    }
}

/// The checks that come before the pattern: accessibility, excluded prefixes
/// and excluded suffixes.
fn early_reason(entry: &ScanEntry, facts: &PathFacts, options: &IndexOptions) -> (r: Option<
    ExclusionReason,
>)
    ensures
        r is Some ==> forall|hit: bool| exclusion_with(*entry, *facts, *options, hit) == r,
        r is None ==> exclusion_with(*entry, *facts, *options, true) == Some(
            ExclusionReason::Pattern,
        ),
{
    if is_toggled(&options.exclude_admin) && !facts.accessible {
        return Some(ExclusionReason::Privileged);
    }
    let path = to_chars(entry.path.as_str());
    if any_prefix(&options.excluded_paths, &path) {
        return Some(ExclusionReason::ExcludedPath);
    }
    if any_suffix(&options.excluded_files, &path) {
        return Some(ExclusionReason::ExcludedFile);
    }
    None
}

/// The checks that come after the pattern: hidden, system, empty, temporary.
fn late_reason(entry: &ScanEntry, facts: &PathFacts, options: &IndexOptions) -> (r: Option<
    ExclusionReason,
>)
    ensures
        exclusion_with(*entry, *facts, *options, true) == Some(ExclusionReason::Pattern)
            ==> exclusion_with(*entry, *facts, *options, false) == r,
{
    if is_toggled(&options.exclude_hidden) && hidden(entry, facts) {
        Some(ExclusionReason::Hidden)
    } else if is_toggled(&options.exclude_system) && attribute_set(facts, FILE_ATTRIBUTE_SYSTEM) {
        Some(ExclusionReason::System)
    } else if is_toggled(&options.exclude_empty) && empty(facts) {
        Some(ExclusionReason::Empty)
    } else if is_toggled(&options.exclude_temporary) && temporary(entry, facts) {
        Some(ExclusionReason::Temporary)
    } else {
        None
    }
}

/// Decides one path, given whether the exclusion pattern matched it.
pub fn classify(
    entry: &ScanEntry,
    facts: &PathFacts,
    options: &IndexOptions,
    pattern_hit: bool,
) -> (r: Option<ExclusionReason>)
    ensures
        r == exclusion_with(*entry, *facts, *options, pattern_hit),
{
    match early_reason(entry, facts, options) {
        Some(reason) => Some(reason),
        None => if pattern_hit {
            Some(ExclusionReason::Pattern)
        } else {
            late_reason(entry, facts, options)
        },
    }
}

/// The exclusion filter of one run: the options together with their
/// exclusion pattern, compiled once.
pub struct ExclusionFilter {
    options: IndexOptions,
    pattern: Option<ExclusionPattern>,
}

impl ExclusionFilter {
    #[verifier::type_invariant]
    spec fn pattern_is_of_options(self) -> bool {
        match self.options.excluded_regex {
            Some(source) => self.pattern matches Some(p) && p@ == source@,
            None => self.pattern is None,
        }
    }

    /// The options the filter was made for.
    pub closed spec fn options(&self) -> IndexOptions {
        self.options
    }

    /// Whether a compiled pattern is the one that the options ask for: none
    /// where they carry no pattern text, else a pattern of that text.
    pub open spec fn fits(options: IndexOptions, compiled: Option<ExclusionPattern>) -> bool {
        match options.excluded_regex {
            Some(source) => compiled matches Some(pattern) && pattern@ == source@,
            None => compiled is None,
        }
    }

    /// The filter for `options` with their pattern already compiled. There
    /// is a filter exactly when the compiled pattern fits the options.
    pub fn with_compiled(options: IndexOptions, compiled: Option<ExclusionPattern>) -> (made:
        Option<ExclusionFilter>)
        ensures
            made is Some == ExclusionFilter::fits(options, compiled),
            made matches Some(filter) ==> filter.options() == options,
    {
        let fits = match &options.excluded_regex {
            Some(source) => match &compiled {
                Some(pattern) => same_text(pattern.source(), source.as_str()),
                None => false,
            },
            None => compiled.is_none(),
        };
        if fits {
            Some(ExclusionFilter { options, pattern: compiled })
        } else {
            None
        }
    }

    /// The filter for `options`, whose exclusion pattern is compiled here,
    /// once. Options without a pattern always have a filter; with one, the
    /// compiler decides, and an error names the pattern text.
    pub fn new(options: IndexOptions) -> (r: Result<ExclusionFilter, PatternError>)
        ensures
            options.excluded_regex is None ==> r is Ok,
            r matches Ok(filter) ==> filter.options() == options,
            r matches Err(e) ==> options.excluded_regex matches Some(source) && e.pattern@
                == source@,
    {
        let compiled = match &options.excluded_regex {
            Some(source) => match ExclusionPattern::compile(source.as_str()) {
                Ok(pattern) => Some(pattern),
                Err(e) => {
                    return Err(e);
                },
            },
            None => None,
        };
        Ok(ExclusionFilter { options, pattern: compiled })
    }

    /// The options the filter was made for.
    pub fn get_options(&self) -> (options: &IndexOptions)
        ensures
            *options == self.options(),
    {
        &self.options
    }

    /// Decides one path: the reason of the first check that applies, or
    /// `None` if the path stays. The pattern is only consulted when the
    /// checks before it let the path through.
    pub fn decide(&self, entry: &ScanEntry, facts: &PathFacts) -> (r: Option<ExclusionReason>)
        ensures
            r == exclusion_of(*entry, *facts, self.options()),
    {
        proof {
            use_type_invariant(self);
        }
        match early_reason(entry, facts, &self.options) {
            Some(reason) => Some(reason),
            None => {
                let hit = match &self.pattern {
                    Some(pattern) => pattern.is_match(entry.path.as_str()),
                    None => false,
                };
                classify(entry, facts, &self.options, hit)
            },
        }
    }
}

/// Decides whether a path is left out of the catalog, and counts the reason
/// if it is.
///
/// The checks run in a fixed order and stop at the first that applies:
/// accessibility, excluded prefixes, excluded suffixes, the exclusion
/// pattern, hidden, system, empty, temporary. Exactly one counter is raised
/// on exclusion, none otherwise.
pub fn should_exclude(
    entry: &ScanEntry,
    facts: &PathFacts,
    filter: &ExclusionFilter,
    exclude_counts: &mut ExclusionCounters,
) -> (excluded: bool)
    requires
        old(exclude_counts).total() < u64::MAX,
    ensures
        excluded == exclusion_of(*entry, *facts, filter.options()) is Some,
        *final(exclude_counts) == old(exclude_counts).after(
            exclusion_of(*entry, *facts, filter.options()),
        ),
        final(exclude_counts).total() == old(exclude_counts).total() + if excluded {
            1int
        } else {
            0int
        },
{
    match filter.decide(entry, facts) {
        Some(reason) => {
            exclude_counts.record(reason);
            true
        },
        None => false,
    }
}

} // verus!
