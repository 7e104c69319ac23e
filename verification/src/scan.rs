//! What one indexing run does to a catalog, as a mathematical function of
//! the enumerated entries, and the laws that hold of it.
//!
//! A run takes the entries in the order the enumerator yields them. Each
//! entry is excluded by the filter, written to the catalog, or skipped
//! because the options do not ask for it. The controller in `controller`
//! computes exactly this function, one entry at a time.

use crate::catalog::{lemma_with_file, lemma_with_folder, CatalogModel};
use crate::enumerate::ScanEntry;
use crate::filter::{exclusion_of, is_hidden, ExclusionCounters, ExclusionReason, PathFacts};
use crate::options::{toggled, IndexOptions};
use vstd::prelude::*;

verus! {

/// One element of an enumeration: a path and what the host reports of it.
#[derive(Debug, Clone)]
pub struct Observation {
    pub entry: ScanEntry,
    pub facts: PathFacts,
}

/// What a run does with one entry.
pub enum Disposition {
    /// The filter leaves the entry out, for the given reason.
    Excluded(ExclusionReason),
    /// The entry is written as a folder.
    Folder,
    /// The entry is written as a file under its parent folder.
    File,
    /// The entry is neither excluded nor written: a file when the options
    /// do not ask for files, or a file without a parent path.
    Skipped,
}

/// What a run does with an entry under the given options. An entry that
/// the filter lets through is written as a folder if it is a directory,
/// since folders are what files hang on; as a file if the options ask for
/// files and the entry names its parent; and is skipped otherwise.
pub open spec fn disposition(seen: Observation, options: IndexOptions) -> Disposition {
    match exclusion_of(seen.entry, seen.facts, options) {
        Some(reason) => Disposition::Excluded(reason),
        None => if seen.entry.is_dir {
            Disposition::Folder
        } else if options.index_files && seen.entry.parent is Some {
            Disposition::File
        } else {
            Disposition::Skipped
        },
    }
}

/// The counts of one run.
pub struct Tally {
    /// Entries taken from the enumerator.
    pub entries: int,
    /// Folder rows created, as entries of their own or as parents of files.
    pub folders_created: int,
    /// File rows created.
    pub files_created: int,
    /// Entries whose row existed before they were written.
    pub already_existed: int,
    /// Folder rows created as parents of files, not as entries of their own.
    pub parents_created: int,
    /// Entries that the filter left out.
    pub excluded: int,
    /// Entries neither excluded nor written.
    pub skipped: int,
}

impl Tally {
    /// The tally of a run that has seen nothing.
    pub open spec fn zero() -> Tally {
        Tally {
            entries: 0,
            folders_created: 0,
            files_created: 0,
            already_existed: 0,
            parents_created: 0,
            excluded: 0,
            skipped: 0,
        }
    }

    /// The number of entries that were written to the catalog, whether
    /// their row was created or existed already.
    pub open spec fn persisted(self) -> int {
        self.folders_created - self.parents_created + self.files_created + self.already_existed
    }

    /// The number of rows created.
    pub open spec fn created(self) -> int {
        self.folders_created + self.files_created
    }

    /// Every count is a count, and every entry is accounted for once: it
    /// was excluded, skipped or persisted.
    pub open spec fn balanced(self) -> bool {
        &&& 0 <= self.parents_created <= self.folders_created
        &&& 0 <= self.files_created
        &&& 0 <= self.already_existed
        &&& 0 <= self.excluded
        &&& 0 <= self.skipped
        &&& self.parents_created <= self.files_created + self.already_existed
        &&& self.entries == self.excluded + self.skipped + self.persisted()
    }
}

/// A run in progress: the catalog and the counts so far.
pub struct RunModel {
    pub catalog: CatalogModel,
    pub tally: Tally,
}

/// The run that begins on `catalog`.
pub open spec fn begin(catalog: CatalogModel) -> RunModel {
    RunModel { catalog, tally: Tally::zero() }
}

/// 1 if the condition holds, else 0.
pub open spec fn one_if(condition: bool) -> int {
    if condition {
        1
    } else {
        0
    }
}

/// The run after one more entry.
pub open spec fn step(run: RunModel, seen: Observation, options: IndexOptions) -> RunModel {
    let tally = Tally { entries: run.tally.entries + 1, ..run.tally };
    let path = seen.entry.path@;
    match disposition(seen, options) {
        Disposition::Excluded(_) => RunModel {
            tally: Tally { excluded: tally.excluded + 1, ..tally },
            ..run
        },
        Disposition::Skipped => RunModel {
            tally: Tally { skipped: tally.skipped + 1, ..tally },
            ..run
        },
        Disposition::Folder => {
            let created = !run.catalog.folders.contains_key(path);
            RunModel {
                catalog: run.catalog.with_folder(path),
                tally: Tally {
                    folders_created: tally.folders_created + one_if(created),
                    already_existed: tally.already_existed + one_if(!created),
                    ..tally
                },
            }
        },
        Disposition::File => {
            let parent = seen.entry.parent->0@;
            let parent_created = !run.catalog.folders.contains_key(parent);
            let created = !run.catalog.files.contains_key(path);
            RunModel {
                catalog: run.catalog.with_file(path, parent),
                tally: Tally {
                    folders_created: tally.folders_created + one_if(parent_created),
                    parents_created: tally.parents_created + one_if(parent_created),
                    files_created: tally.files_created + one_if(created),
                    already_existed: tally.already_existed + one_if(!created),
                    ..tally
                },
            }
        },
    }
}

/// The run after the given entries, taken in order.
pub open spec fn run_all(run: RunModel, seen: Seq<Observation>, options: IndexOptions) -> RunModel
    decreases seen.len(),
{
    if seen.len() == 0 {
        run
    } else {
        step(run_all(run, seen.drop_last(), options), seen.last(), options)
    }
}

/// The exclusion counters after the given entries, taken in order: each
/// excluded entry raises the counter of its reason by one.
pub open spec fn counted(
    counters: ExclusionCounters,
    seen: Seq<Observation>,
    options: IndexOptions,
) -> ExclusionCounters
    decreases seen.len(),
{
    if seen.len() == 0 {
        counters
    } else {
        counted(counters, seen.drop_last(), options).after(
            exclusion_of(seen.last().entry, seen.last().facts, options),
        )
    }
}

/// The number of entries that a run would write to the catalog.
pub open spec fn persisted_among(seen: Seq<Observation>, options: IndexOptions) -> int
    decreases seen.len(),
{
    if seen.len() == 0 {
        0
    } else {
        persisted_among(seen.drop_last(), options) + one_if(
            disposition(seen.last(), options) is Folder || disposition(seen.last(), options)
                is File,
        )
    }
}

/// Whether a run writes every entry that the filter lets through: the
/// options ask for files, and every file has a parent path.
pub open spec fn nothing_skipped(seen: Seq<Observation>, options: IndexOptions) -> bool {
    forall|i: int| 0 <= i < seen.len() ==> !(#[trigger] disposition(seen[i], options) is Skipped)
}

/// Whether the catalog holds every row that a run over the entries would
/// write: the path of every folder entry, and the path and the parent of
/// every file entry.
pub open spec fn holds_all(
    catalog: CatalogModel,
    seen: Seq<Observation>,
    options: IndexOptions,
) -> bool {
    forall|i: int| 0 <= i < seen.len() ==> #[trigger] holds(catalog, seen[i], options)
}

/// Whether the catalog holds the rows that a run would write for one entry.
pub open spec fn holds(catalog: CatalogModel, seen: Observation, options: IndexOptions) -> bool {
    match disposition(seen, options) {
        Disposition::Folder => catalog.folders.contains_key(seen.entry.path@),
        Disposition::File => catalog.files.contains_key(seen.entry.path@)
            && catalog.folders.contains_key(seen.entry.parent->0@),
        _ => true,
    }
}

/// One entry keeps the catalog well formed and loses no row; afterwards the
/// catalog holds the rows of the entry, and the counts are balanced.
pub proof fn lemma_step(run: RunModel, seen: Observation, options: IndexOptions)
    requires
        run.catalog.wf(),
    ensures
        step(run, seen, options).catalog.wf(),
        run.catalog.within(step(run, seen, options).catalog),
        holds(step(run, seen, options).catalog, seen, options),
        run.tally.balanced() ==> step(run, seen, options).tally.balanced(),
        step(run, seen, options).tally.entries == run.tally.entries + 1,
{
    let path = seen.entry.path@;
    match disposition(seen, options) {
        Disposition::Folder => {
            lemma_with_folder(run.catalog, path);
        },
        Disposition::File => {
            lemma_with_file(run.catalog, path, seen.entry.parent->0@);
        },
        _ => {},
    }
}

/// Rows are never lost: what one catalog holds, a later one holds too.
pub proof fn lemma_within_transitive(a: CatalogModel, b: CatalogModel, c: CatalogModel)
    requires
        a.within(b),
        b.within(c),
    ensures
        a.within(c),
{
    assert forall|p: Seq<char>| #[trigger] a.folders.contains_key(p) implies c.folders.contains_key(
        p,
    ) && c.folders[p] == a.folders[p] by {
        assert(b.folders.contains_key(p));
    }
    assert forall|p: Seq<char>| #[trigger] a.files.contains_key(p) implies c.files.contains_key(p)
        && c.files[p] == a.files[p] by {
        assert(b.files.contains_key(p));
    }
}

/// Referential integrity under any enumeration order: whatever the entries
/// and whatever their order, a run that begins on a well-formed catalog ends
/// on a well-formed catalog, in which every file row refers to an existing
/// folder row. No row of the catalog is lost or changed on the way, and the
/// rows of every entry that was written are in the catalog at the end.
pub proof fn lemma_run_keeps_integrity(
    run: RunModel,
    seen: Seq<Observation>,
    options: IndexOptions,
)
    requires
        run.catalog.wf(),
    ensures
        run_all(run, seen, options).catalog.wf(),
        run_all(run, seen, options).catalog.referentially_intact(),
        run.catalog.within(run_all(run, seen, options).catalog),
        holds_all(run_all(run, seen, options).catalog, seen, options),
    decreases seen.len(),
{
    if seen.len() > 0 {
        let before = run_all(run, seen.drop_last(), options);
        let after = run_all(run, seen, options);
        lemma_run_keeps_integrity(run, seen.drop_last(), options);
        lemma_step(before, seen.last(), options);
        lemma_within_transitive(run.catalog, before.catalog, after.catalog);
        assert forall|i: int| 0 <= i < seen.len() implies #[trigger] holds(
            after.catalog,
            seen[i],
            options,
        ) by {
            if i < seen.len() - 1 {
                assert(seen[i] == seen.drop_last()[i]);
                assert(holds(before.catalog, seen.drop_last()[i], options));
            }
        }
    }
}

/// A run over a prefix of the entries is a stage of the run over all of
/// them: stopping early leaves a catalog that the full run only adds to.
pub proof fn lemma_run_prefix(
    run: RunModel,
    seen: Seq<Observation>,
    options: IndexOptions,
    processed: int,
)
    requires
        run.catalog.wf(),
        0 <= processed <= seen.len(),
    ensures
        run_all(run, seen.take(processed), options).catalog.wf(),
        run_all(run, seen.take(processed), options).catalog.within(
            run_all(run, seen, options).catalog,
        ),
    decreases seen.len() - processed,
{
    lemma_run_keeps_integrity(run, seen.take(processed), options);
    if processed == seen.len() {
        assert(seen.take(processed) =~= seen);
    } else {
        let shorter = seen.drop_last();
        if processed == seen.len() - 1 {
            assert(seen.take(processed) =~= shorter);
            lemma_step(run_all(run, shorter, options), seen.last(), options);
        } else {
            assert(seen.take(processed) =~= shorter.take(processed));
            lemma_run_prefix(run, shorter, options, processed);
            lemma_run_keeps_integrity(run, shorter, options);
            lemma_step(run_all(run, shorter, options), seen.last(), options);
            lemma_within_transitive(
                run_all(run, seen.take(processed), options).catalog,
                run_all(run, shorter, options).catalog,
                run_all(run, seen, options).catalog,
            );
        }
    }
}

/// Every entry is accounted for exactly once: it was excluded, skipped or
/// persisted. The persisted entries are those of `persisted_among`.
pub proof fn lemma_accounting(run: RunModel, seen: Seq<Observation>, options: IndexOptions)
    requires
        run.tally.balanced(),
    ensures
        run_all(run, seen, options).tally.balanced(),
        run_all(run, seen, options).tally.entries == run.tally.entries + seen.len(),
        run_all(run, seen, options).tally.persisted() == run.tally.persisted() + persisted_among(
            seen,
            options,
        ),
        run_all(run, seen, options).tally.excluded >= run.tally.excluded,
        run_all(run, seen, options).tally.skipped >= run.tally.skipped,
        nothing_skipped(seen, options) ==> run_all(run, seen, options).tally.skipped
            == run.tally.skipped,
    decreases seen.len(),
{
    if seen.len() > 0 {
        lemma_accounting(run, seen.drop_last(), options);
        if nothing_skipped(seen, options) {
            assert forall|i: int| 0 <= i < seen.drop_last().len() implies !(#[trigger] disposition(
                seen.drop_last()[i],
                options,
            ) is Skipped) by {
                assert(seen.drop_last()[i] == seen[i]);
            }
            assert(!(disposition(seen[seen.len() - 1], options) is Skipped));
        }
    }
}

/// Exclusion accounting: in a run that skips nothing, the number of
/// excluded entries is the number of entries that the enumerator yielded
/// minus the number that were persisted.
pub proof fn lemma_exclusion_accounting(
    catalog: CatalogModel,
    seen: Seq<Observation>,
    options: IndexOptions,
)
    requires
        nothing_skipped(seen, options),
    ensures
        run_all(begin(catalog), seen, options).tally.excluded == seen.len() - run_all(
            begin(catalog),
            seen,
            options,
        ).tally.persisted(),
{
    lemma_accounting(begin(catalog), seen, options);
}

/// Exclusion accounting by reason: in a run that skips nothing, the sum of
/// the exclusion counters is the number of entries that the enumerator
/// yielded minus the number that were persisted.
pub proof fn lemma_exclusion_counters(
    catalog: CatalogModel,
    seen: Seq<Observation>,
    options: IndexOptions,
)
    requires
        nothing_skipped(seen, options),
        seen.len() <= u64::MAX,
    ensures
        counted(ExclusionCounters::new_spec(), seen, options).total() == seen.len() - run_all(
            begin(catalog),
            seen,
            options,
        ).tally.persisted(),
{
    lemma_exclusion_accounting(catalog, seen, options);
    lemma_counters_sum(ExclusionCounters::new_spec(), begin(catalog), seen, options);
}

/// The exclusion counters count the excluded entries: their sum grows by
/// the number of entries that a run excludes.
pub proof fn lemma_counters_sum(
    counters: ExclusionCounters,
    run: RunModel,
    seen: Seq<Observation>,
    options: IndexOptions,
)
    requires
        counters.total() + seen.len() <= u64::MAX,
    ensures
        counted(counters, seen, options).total() - counters.total() == run_all(
            run,
            seen,
            options,
        ).tally.excluded - run.tally.excluded,
    decreases seen.len(),
{
    if seen.len() > 0 {
        lemma_counters_sum(counters, run, seen.drop_last(), options);
        lemma_counters_bound(counters, seen.drop_last(), options);
    }
}

/// The sum of the counters grows by at most one per entry.
pub proof fn lemma_counters_bound(
    counters: ExclusionCounters,
    seen: Seq<Observation>,
    options: IndexOptions,
)
    requires
        counters.total() + seen.len() <= u64::MAX,
    ensures
        counters.total() <= counted(counters, seen, options).total() <= counters.total()
            + seen.len(),
    decreases seen.len(),
{
    if seen.len() > 0 {
        lemma_counters_bound(counters, seen.drop_last(), options);
    }
}

/// A run over entries whose rows the catalog already holds creates nothing
/// and changes nothing: every persisted entry is counted as already
/// existing.
pub proof fn lemma_run_on_held(run: RunModel, seen: Seq<Observation>, options: IndexOptions)
    requires
        holds_all(run.catalog, seen, options),
    ensures
        run_all(run, seen, options).catalog == run.catalog,
        run_all(run, seen, options).tally.folders_created == run.tally.folders_created,
        run_all(run, seen, options).tally.files_created == run.tally.files_created,
        run_all(run, seen, options).tally.parents_created == run.tally.parents_created,
        run_all(run, seen, options).tally.already_existed == run.tally.already_existed
            + persisted_among(seen, options),
    decreases seen.len(),
{
    if seen.len() > 0 {
        assert forall|i: int| 0 <= i < seen.drop_last().len() implies #[trigger] holds(
            run.catalog,
            seen.drop_last()[i],
            options,
        ) by {
            assert(seen.drop_last()[i] == seen[i]);
            assert(holds(run.catalog, seen[i], options));
        }
        lemma_run_on_held(run, seen.drop_last(), options);
        assert(holds(run.catalog, seen[seen.len() - 1], options));
    }
}

/// Idempotence: a second run over the same entries, on the catalog that the
/// first run left, creates no row and leaves the catalog as it is; every
/// entry that it writes already exists. The number of those entries is the
/// number of rows that the first run created or found, less the parent
/// folders that it created without an entry of their own.
pub proof fn lemma_rescan_creates_nothing(
    catalog: CatalogModel,
    seen: Seq<Observation>,
    options: IndexOptions,
)
    requires
        catalog.wf(),
    ensures
        ({
            let first = run_all(begin(catalog), seen, options);
            let second = run_all(begin(first.catalog), seen, options);
            &&& second.catalog == first.catalog
            &&& second.tally.folders_created == 0
            &&& second.tally.files_created == 0
            &&& second.tally.already_existed == persisted_among(seen, options)
            &&& second.tally.already_existed == first.tally.created() + first.tally.already_existed
                - first.tally.parents_created
            &&& second.tally.excluded == first.tally.excluded
            &&& second.tally.skipped == first.tally.skipped
        }),
{
    let first = run_all(begin(catalog), seen, options);
    lemma_run_keeps_integrity(begin(catalog), seen, options);
    lemma_run_on_held(begin(first.catalog), seen, options);
    lemma_accounting(begin(catalog), seen, options);
    lemma_accounting(begin(first.catalog), seen, options);
    lemma_same_exclusions(begin(catalog), begin(first.catalog), seen, options);
}

/// What the filter excludes and what a run skips does not depend on the
/// catalog: two runs over the same entries exclude and skip the same number.
pub proof fn lemma_same_exclusions(
    a: RunModel,
    b: RunModel,
    seen: Seq<Observation>,
    options: IndexOptions,
)
    ensures
        run_all(a, seen, options).tally.excluded - a.tally.excluded == run_all(
            b,
            seen,
            options,
        ).tally.excluded - b.tally.excluded,
        run_all(a, seen, options).tally.skipped - a.tally.skipped == run_all(
            b,
            seen,
            options,
        ).tally.skipped - b.tally.skipped,
    decreases seen.len(),
{
    if seen.len() > 0 {
        lemma_same_exclusions(a, b, seen.drop_last(), options);
    }
}

/// Idempotence in counts: where the first run found as many rows already
/// existing as it created parent folders without an entry of their own (none
/// of either, in a first scan of a tree whose folders are all enumerated
/// before their files), the second run finds as many rows already existing
/// as the first run created.
pub proof fn lemma_rescan_counts(
    catalog: CatalogModel,
    seen: Seq<Observation>,
    options: IndexOptions,
)
    requires
        catalog.wf(),
        run_all(begin(catalog), seen, options).tally.already_existed == run_all(
            begin(catalog),
            seen,
            options,
        ).tally.parents_created,
    ensures
        ({
            let first = run_all(begin(catalog), seen, options);
            let second = run_all(begin(first.catalog), seen, options);
            &&& second.tally.created() == 0
            &&& second.tally.already_existed == first.tally.created()
        }),
{
    lemma_rescan_creates_nothing(catalog, seen, options);
}

/// Whether a run writes a folder row for `path` because of this entry: the
/// entry is written as a folder with that path, or as a file whose parent is
/// that path.
pub open spec fn makes_folder(seen: Observation, options: IndexOptions, path: Seq<char>) -> bool {
    match disposition(seen, options) {
        Disposition::Folder => seen.entry.path@ == path,
        Disposition::File => seen.entry.parent->0@ == path,
        _ => false,
    }
}

/// Whether a run writes a file row for `path` because of this entry.
pub open spec fn makes_file(seen: Observation, options: IndexOptions, path: Seq<char>) -> bool {
    disposition(seen, options) is File && seen.entry.path@ == path
}

/// Whether one of the entries makes a folder row for `path`.
pub open spec fn some_makes_folder(
    seen: Seq<Observation>,
    options: IndexOptions,
    path: Seq<char>,
) -> bool {
    exists|i: int| 0 <= i < seen.len() && #[trigger] makes_folder(seen[i], options, path)
}

/// Whether one of the entries makes a file row for `path`.
pub open spec fn some_makes_file(
    seen: Seq<Observation>,
    options: IndexOptions,
    path: Seq<char>,
) -> bool {
    exists|i: int| 0 <= i < seen.len() && #[trigger] makes_file(seen[i], options, path)
}

/// What a catalog holds after a run, whatever the order of the entries: a
/// path has a folder row exactly if it had one before or some entry was
/// written as a folder of that path or as a file under it; it has a file
/// row exactly if it had one before or some entry was written as a file of
/// that path.
pub proof fn lemma_run_paths(
    run: RunModel,
    seen: Seq<Observation>,
    options: IndexOptions,
    path: Seq<char>,
)
    ensures
        run_all(run, seen, options).catalog.folders.contains_key(path) <==> (
        run.catalog.folders.contains_key(path) || some_makes_folder(seen, options, path)),
        run_all(run, seen, options).catalog.files.contains_key(path) <==> (
        run.catalog.files.contains_key(path) || some_makes_file(seen, options, path)),
    decreases seen.len(),
{
    if seen.len() > 0 {
        let shorter = seen.drop_last();
        let last = seen[seen.len() - 1];
        lemma_run_paths(run, shorter, options, path);
        if some_makes_folder(shorter, options, path) {
            let i = choose|i: int|
                0 <= i < shorter.len() && #[trigger] makes_folder(shorter[i], options, path);
            assert(makes_folder(seen[i], options, path));
        }
        if some_makes_file(shorter, options, path) {
            let i = choose|i: int|
                0 <= i < shorter.len() && #[trigger] makes_file(shorter[i], options, path);
            assert(makes_file(seen[i], options, path));
        }
        if some_makes_folder(seen, options, path) {
            let i = choose|i: int|
                0 <= i < seen.len() && #[trigger] makes_folder(seen[i], options, path);
            if i < seen.len() - 1 {
                assert(makes_folder(shorter[i], options, path));
            }
        }
        if some_makes_file(seen, options, path) {
            let i = choose|i: int|
                0 <= i < seen.len() && #[trigger] makes_file(seen[i], options, path);
            if i < seen.len() - 1 {
                assert(makes_file(shorter[i], options, path));
            }
        }
        if makes_folder(last, options, path) {
            assert(makes_folder(seen[seen.len() - 1], options, path));
        }
        if makes_file(last, options, path) {
            assert(makes_file(seen[seen.len() - 1], options, path));
        }
    }
}

/// Whether entries that are written as files of one path name one parent,
/// as they do when the parent is a part of the path.
pub open spec fn parents_agree(seen: Seq<Observation>, options: IndexOptions) -> bool {
    forall|i: int, j: int|
        #![trigger seen[i], seen[j]]
        0 <= i < seen.len() && 0 <= j < seen.len() && disposition(seen[i], options) is File
            && disposition(seen[j], options) is File && seen[i].entry.path@ == seen[j].entry.path@
            ==> seen[i].entry.parent->0@ == seen[j].entry.parent->0@
}

/// Every file that a run creates lies under its parent: the file row of an
/// entry whose path had no row before the run refers to the folder row of
/// the entry's parent, whether that row existed, came as an entry before or
/// after the file, or was created for the file.
pub proof fn lemma_file_under_parent(
    run: RunModel,
    seen: Seq<Observation>,
    options: IndexOptions,
    i: int,
)
    requires
        run.catalog.wf(),
        0 <= i < seen.len(),
        disposition(seen[i], options) is File,
        !run.catalog.files.contains_key(seen[i].entry.path@),
        parents_agree(seen, options),
    ensures
        ({
            let after = run_all(run, seen, options).catalog;
            &&& after.files.contains_key(seen[i].entry.path@)
            &&& after.folders.contains_key(seen[i].entry.parent->0@)
            &&& after.files[seen[i].entry.path@].folder_id
                == after.folders[seen[i].entry.parent->0@]
        }),
    decreases seen.len(),
{
    let shorter = seen.drop_last();
    let last = seen[seen.len() - 1];
    let before = run_all(run, shorter, options);
    let after = run_all(run, seen, options);
    let path = seen[i].entry.path@;
    let parent = seen[i].entry.parent->0@;
    lemma_run_keeps_integrity(run, shorter, options);
    lemma_step(before, last, options);
    assert forall|a: int, b: int|
        #![trigger shorter[a], shorter[b]]
        0 <= a < shorter.len() && 0 <= b < shorter.len() && disposition(shorter[a], options)
            is File && disposition(shorter[b], options) is File && shorter[a].entry.path@
            == shorter[b].entry.path@ implies shorter[a].entry.parent->0@
        == shorter[b].entry.parent->0@ by {
        assert(shorter[a] == seen[a] && shorter[b] == seen[b]);
    }
    if i < seen.len() - 1 {
        assert(shorter[i] == seen[i]);
        lemma_run_paths(run, shorter, options, path);
        lemma_file_under_parent(run, shorter, options, i);
    } else {
        lemma_run_paths(run, shorter, options, path);
        if before.catalog.files.contains_key(path) {
            let j = choose|j: int|
                0 <= j < shorter.len() && #[trigger] makes_file(shorter[j], options, path);
            assert(shorter[j] == seen[j]);
            assert(seen[j].entry.parent->0@ == seen[i].entry.parent->0@);
            lemma_file_under_parent(run, shorter, options, j);
        } else {
            lemma_with_folder(before.catalog, parent);
        }
    }
}

/// Whether every entry with the path `path` is kept out of the file table:
/// the filter excludes it, or the run writes it as a folder or skips it.
pub open spec fn never_a_file(
    path: Seq<char>,
    seen: Seq<Observation>,
    options: IndexOptions,
) -> bool {
    forall|i: int|
        0 <= i < seen.len() && (#[trigger] seen[i]).entry.path@ == path ==> !(disposition(
            seen[i],
            options,
        ) is File)
}

/// A path gets a file row only through an entry that the filter lets
/// through as a file: if every entry with the path is excluded, and the path
/// had no file row before the run, it has none after it.
pub proof fn lemma_excluded_stays_out(
    run: RunModel,
    seen: Seq<Observation>,
    options: IndexOptions,
    path: Seq<char>,
)
    requires
        !run.catalog.files.contains_key(path),
        never_a_file(path, seen, options),
    ensures
        !run_all(run, seen, options).catalog.files.contains_key(path),
    decreases seen.len(),
{
    if seen.len() > 0 {
        assert forall|i: int|
            0 <= i < seen.drop_last().len() && (#[trigger] seen.drop_last()[i]).entry.path@
                == path implies !(disposition(seen.drop_last()[i], options) is File) by {
            assert(seen.drop_last()[i] == seen[i]);
        }
        lemma_excluded_stays_out(run, seen.drop_last(), options, path);
        let last = seen[seen.len() - 1];
        assert(last.entry.path@ == path ==> !(disposition(last, options) is File));
    }
}

/// Whether an entry is a hidden one that the filter is asked to leave out:
/// hidden files are excluded, and the entry counts as hidden.
pub open spec fn hidden_and_unwanted(seen: Observation, options: IndexOptions) -> bool {
    toggled(options.exclude_hidden) && is_hidden(seen.entry, seen.facts)
}

/// The hidden filter: with hidden files excluded, a path that every entry
/// reports as hidden, and that had no file row before the run, has no file
/// row after it. On hosts without attribute bits a file whose name starts
/// with a dot is such a path.
pub proof fn lemma_hidden_stays_out(
    run: RunModel,
    seen: Seq<Observation>,
    options: IndexOptions,
    path: Seq<char>,
)
    requires
        !run.catalog.files.contains_key(path),
        forall|i: int|
            0 <= i < seen.len() && (#[trigger] seen[i]).entry.path@ == path
                ==> hidden_and_unwanted(seen[i], options),
    ensures
        !run_all(run, seen, options).catalog.files.contains_key(path),
{
    assert forall|i: int|
        0 <= i < seen.len() && (#[trigger] seen[i]).entry.path@ == path implies !(disposition(
            seen[i],
            options,
        ) is File) by {
        assert(hidden_and_unwanted(seen[i], options));
        assert(exclusion_of(seen[i].entry, seen[i].facts, options) is Some);
    }
    lemma_excluded_stays_out(run, seen, options, path);
}

} // verus!
