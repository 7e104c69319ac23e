//! The scan controller: the state machine of one indexing run.
//!
//! A controller is created idle, is started on a catalog, takes the
//! enumerated entries one by one, and ends completed, cancelled or failed.
//! While it runs it owns the catalog and its open transaction.
//!
//! Cancellation commits: the rows written before the cancellation was
//! observed are kept, and a later run over the same root finds them
//! already existing. A failure rolls the transaction back.

use crate::cancel::CancellationToken;
use crate::catalog::{records, Catalog, CatalogModel, Written};
use crate::enumerate::{select_strategy, strategy_for, Strategy};
use crate::filter::{exclusion_of, should_exclude, ExclusionCounters, ExclusionFilter};
use crate::options::IndexOptions;
use crate::scan::{counted, run_all, step, Observation, RunModel, Tally};
use vstd::prelude::*;

verus! {

/// The states of a run.
#[derive(Debug, Clone, Copy, PartialEq, Eq, Structural)]
pub enum ScanPhase {
    /// Created, not started.
    Idle,
    /// Started; entries are being taken.
    Running,
    /// The enumeration was exhausted and the transaction committed.
    Completed,
    /// Cancellation was observed; what had been written was committed.
    Cancelled,
    /// A fatal condition ended the run; nothing of it was kept.
    Failed,
}

/// Why a run could not start or could not go on.
#[derive(Debug, Clone)]
pub enum ScanFailure {
    /// The exclusion pattern of the options does not compile.
    InvalidPattern { pattern: String, message: String },
    /// The catalog store could not be opened or initialised.
    StoreUnavailable { reason: String },
    /// The target of the run is not a directory.
    NotADirectory { path: String },
    /// The volume or its master file table could not be opened.
    VolumeUnavailable { reason: String },
}

impl ScanFailure {
    /// The text that opens the reason of a failure of this kind.
    pub open spec fn headline(self) -> Seq<char> {
        match self {
            ScanFailure::InvalidPattern { .. } => "Invalid exclusion pattern: "@,
            ScanFailure::StoreUnavailable { .. } => "Failed to open database: "@,
            ScanFailure::NotADirectory { .. } => "Path is not a directory: "@,
            ScanFailure::VolumeUnavailable { .. } => "Failed to open volume: "@,
        }
    }

    /// What the reason says after its headline.
    pub open spec fn detail(self) -> Seq<char> {
        match self {
            ScanFailure::InvalidPattern { message, .. } => message@,
            ScanFailure::StoreUnavailable { reason } => reason@,
            ScanFailure::NotADirectory { path } => path@,
            ScanFailure::VolumeUnavailable { reason } => reason@,
        }
    }

    /// The reason of the failure, as one line for the user.
    pub fn reason(&self) -> (text: String)
        ensures
            text@ == self.headline() + self.detail(),
    {
        let mut text = String::new();
        match self {
            ScanFailure::InvalidPattern { message, .. } => {
                text.append("Invalid exclusion pattern: ");
                text.append(message.as_str());
            },
            ScanFailure::StoreUnavailable { reason } => {
                text.append("Failed to open database: ");
                text.append(reason.as_str());
            },
            ScanFailure::NotADirectory { path } => {
                text.append("Path is not a directory: ");
                text.append(path.as_str());
            },
            ScanFailure::VolumeUnavailable { reason } => {
                text.append("Failed to open volume: ");
                text.append(reason.as_str());
            },
        }
        assert(text@ =~= self.headline() + self.detail());
        text
    }
}

/// The counts of a run.
#[derive(Debug, Clone, Copy)]
pub struct Summary {
    /// Entries taken from the enumerator.
    pub entries: u64,
    /// Folder rows created, as entries of their own or as parents of files.
    pub folders_created: u64,
    /// File rows created.
    pub files_created: u64,
    /// Entries whose row existed before they were written.
    pub already_existed: u64,
    /// Folder rows created as parents of files, not as entries of their own.
    pub parents_created: u64,
    /// Entries that the filter left out; the sum of the counts by reason.
    pub ignored: u64,
    /// Entries neither excluded nor written.
    pub skipped: u64,
    /// Entries that the filter left out, by reason.
    pub excluded: ExclusionCounters,
}

impl Summary {
    /// The counts as mathematical integers.
    pub open spec fn tally(self) -> Tally {
        Tally {
            entries: self.entries as int,
            folders_created: self.folders_created as int,
            files_created: self.files_created as int,
            already_existed: self.already_existed as int,
            parents_created: self.parents_created as int,
            excluded: self.ignored as int,
            skipped: self.skipped as int,
        }
    }

    /// The counts add up: every entry was excluded, skipped or persisted,
    /// and the counts by reason sum to the number of excluded entries.
    pub open spec fn wf(self) -> bool {
        self.tally().balanced() && self.ignored == self.excluded.total()
    }

    /// The number of entries that were written to the catalog, whether
    /// their row was created or existed already.
    pub fn persisted(&self) -> (n: u64)
        requires
            self.wf(),
        ensures
            n == self.tally().persisted(),
            n == self.entries - self.ignored - self.skipped,
    {
        self.folders_created - self.parents_created + self.files_created + self.already_existed
    }

    /// The summary of a run that has seen nothing.
    pub fn new() -> (summary: Summary)
        ensures
            summary.wf(),
            summary.tally() == Tally::zero(),
            summary.excluded == ExclusionCounters::new_spec(),
    {
        Summary {
            entries: 0,
            folders_created: 0,
            files_created: 0,
            already_existed: 0,
            parents_created: 0,
            ignored: 0,
            skipped: 0,
            excluded: ExclusionCounters::new(),
        }
    }
}

/// How a run over a list of entries ended.
#[derive(Debug, Clone)]
pub struct RunEnd {
    /// How many entries were taken before the run ended.
    pub processed: usize,
    /// The rows that the run's transaction committed.
    pub written: Written,
}

/// The controller of one run.
pub struct ScanController {
    phase: ScanPhase,
    filter: ExclusionFilter,
    catalog: Catalog,
    strategy: Strategy,
    summary: Summary,
    failure: Option<ScanFailure>,
}

impl ScanController {
    /// The state of the run.
    pub closed spec fn phase(&self) -> ScanPhase {
        self.phase
    }

    /// The options of the run.
    pub closed spec fn options(&self) -> IndexOptions {
        self.filter.options()
    }

    /// The catalog as the run has left it so far.
    pub closed spec fn catalog(&self) -> CatalogModel {
        self.catalog@
    }

    /// The catalog as it was when the run's transaction began.
    pub closed spec fn committed(&self) -> CatalogModel {
        self.catalog.committed()
    }

    /// The counts of the run so far.
    pub closed spec fn summary(&self) -> Summary {
        self.summary
    }

    /// The enumeration strategy of the run.
    pub closed spec fn strategy(&self) -> Strategy {
        self.strategy
    }

    /// Why the run failed, if it did.
    pub closed spec fn failure(&self) -> Option<ScanFailure> {
        self.failure
    }

    /// The run so far: its catalog and its counts.
    pub open spec fn run_model(&self) -> RunModel {
        RunModel { catalog: self.catalog(), tally: self.summary().tally() }
    }

    /// The invariant of a controller: the catalog is well formed, so that
    /// every file row refers to an existing folder row; the counts add up;
    /// and a failure is recorded exactly in the failed state.
    pub closed spec fn wf(&self) -> bool {
        &&& self.catalog.wf()
        &&& self.summary.wf()
        &&& self.failure is Some <==> self.phase == ScanPhase::Failed
    }

    /// In every state of a run the catalog is well formed: every file row
    /// refers to an existing folder row, and no committed row has been lost.
    pub proof fn lemma_integrity(&self)
        requires
            self.wf(),
        ensures
            self.catalog().wf(),
            self.catalog().referentially_intact(),
            self.committed().wf(),
            self.committed().within(self.catalog()),
            self.summary().wf(),
    {
        self.catalog.lemma_wf();
    }

    /// Whether the run can take `n` more entries without running out of
    /// ids or overflowing a count.
    pub open spec fn has_capacity(&self, n: int) -> bool {
        &&& self.summary().entries + n <= u64::MAX
        &&& self.catalog().next_folder_id + n <= i64::MAX
        &&& self.catalog().next_file_id + n <= i64::MAX
    }

    /// An idle controller for the options of `filter`, on an empty catalog.
    pub fn with_filter(filter: ExclusionFilter) -> (controller: ScanController)
        ensures
            controller.wf(),
            controller.phase() == ScanPhase::Idle,
            controller.options() == filter.options(),
            controller.catalog() == CatalogModel::empty(),
            controller.summary().tally() == Tally::zero(),
            controller.summary().excluded == ExclusionCounters::new_spec(),
    {
        ScanController {
            phase: ScanPhase::Idle,
            filter,
            catalog: Catalog::new(),
            strategy: Strategy::GenericWalk,
            summary: Summary::new(),
            failure: None,
        }
    }

    /// An idle controller for `options`, on an empty catalog. The exclusion
    /// pattern of the options is compiled here, once for the run. Options
    /// without a pattern always have a controller; with one, the compiler
    /// decides, and a failure names the pattern text.
    pub fn new(options: IndexOptions) -> (made: Result<ScanController, ScanFailure>)
        ensures
            options.excluded_regex is None ==> made is Ok,
            made matches Ok(controller) ==> {
                &&& controller.wf()
                &&& controller.phase() == ScanPhase::Idle
                &&& controller.options() == options
                &&& controller.catalog() == CatalogModel::empty()
                &&& controller.summary().tally() == Tally::zero()
                &&& controller.summary().excluded == ExclusionCounters::new_spec()
            },
            made matches Err(failure) ==> failure matches ScanFailure::InvalidPattern {
                pattern,
                ..
            } && options.excluded_regex matches Some(source) && pattern@ == source@,
    {
        match ExclusionFilter::new(options) {
            Ok(filter) => Ok(ScanController::with_filter(filter)),
            Err(error) => Err(
                ScanFailure::InvalidPattern { pattern: error.pattern, message: error.message },
            ),
        }
    }

    /// The state of the run.
    pub fn get_phase(&self) -> (phase: ScanPhase)
        ensures
            phase == self.phase(),
    {
        self.phase
    }

    /// The counts of the run so far.
    pub fn get_summary(&self) -> (summary: Summary)
        ensures
            summary == self.summary(),
    {
        self.summary
    }

    /// The enumeration strategy of the run.
    pub fn get_strategy(&self) -> (strategy: Strategy)
        ensures
            strategy == self.strategy(),
    {
        self.strategy
    }

    /// The options of the run.
    pub fn get_options(&self) -> (options: &IndexOptions)
        ensures
            *options == self.options(),
    {
        self.filter.get_options()
    }

    /// Why the run failed, if it did.
    pub fn get_failure(&self) -> (failure: &Option<ScanFailure>)
        ensures
            *failure == self.failure(),
    {
        &self.failure
    }

    /// The catalog store of the run.
    pub fn get_catalog(&self) -> (catalog: &Catalog)
        ensures
            catalog@ == self.catalog(),
            catalog.committed() == self.committed(),
            self.wf() ==> catalog.wf(),
    {
        &self.catalog
    }

    /// Gives the catalog store back, ending the controller.
    pub fn into_catalog(self) -> (catalog: Catalog)
        ensures
            catalog@ == self.catalog(),
            catalog.committed() == self.committed(),
            self.wf() ==> catalog.wf(),
    {
        self.catalog
    }

    /// Whether the run can take one more entry.
    pub fn can_accept(&self) -> (room: bool)
        requires
            self.wf(),
        ensures
            room == self.has_capacity(1),
    {
        self.summary.entries < u64::MAX && self.catalog.room()
    }

    /// Starts the run.
    ///
    /// `store` is the catalog of the target root, or why it could not be
    /// opened; `target_is_dir` says whether the target is a directory;
    /// `ntfs` whether its volume is NTFS. A store that could not be opened
    /// fails the run, and so does a target that is not a directory. Otherwise
    /// the run is running on the given catalog, with the strategy that fits
    /// the target.
    pub fn start(&mut self, store: Result<Catalog, String>, target_is_dir: bool, ntfs: bool)
        requires
            old(self).wf(),
            old(self).phase() == ScanPhase::Idle,
            store matches Ok(catalog) ==> catalog.wf(),
        ensures
            final(self).wf(),
            final(self).options() == old(self).options(),
            final(self).summary() == old(self).summary(),
            match store {
                Err(reason) => {
                    &&& final(self).phase() == ScanPhase::Failed
                    &&& final(self).failure() == Some(ScanFailure::StoreUnavailable { reason })
                    &&& final(self).catalog() == old(self).catalog()
                },
                Ok(catalog) => {
                    &&& final(self).catalog() == catalog@
                    &&& final(self).committed() == catalog.committed()
                    &&& if target_is_dir {
                        &&& final(self).phase() == ScanPhase::Running
                        &&& final(self).strategy() == strategy_for(
                            ntfs,
                            old(self).options().path@,
                        )
                    } else {
                        &&& final(self).phase() == ScanPhase::Failed
                        &&& final(self).failure() matches Some(
                            ScanFailure::NotADirectory { path },
                        ) && path@ == old(self).options().path@
                    }
                },
            },
    {
        match store {
            Err(reason) => {
                self.phase = ScanPhase::Failed;
                self.failure = Some(ScanFailure::StoreUnavailable { reason });
            },
            Ok(catalog) => {
                self.catalog = catalog;
                if target_is_dir {
                    self.strategy = select_strategy(ntfs, self.filter.get_options().path.as_str());
                    self.phase = ScanPhase::Running;
                } else {
                    self.phase = ScanPhase::Failed;
                    self.failure = Some(
                        ScanFailure::NotADirectory { path: self.filter.get_options().path.clone() },
                    );
                }
            },
        }
    }

    /// Takes one entry: the filter excludes it, or it is written to the
    /// catalog, or it is skipped because the options do not ask for it.
    pub fn on_entry(&mut self, seen: &Observation)
        requires
            old(self).wf(),
            old(self).phase() == ScanPhase::Running,
            old(self).has_capacity(1),
        ensures
            final(self).wf(),
            final(self).phase() == ScanPhase::Running,
            final(self).options() == old(self).options(),
            final(self).strategy() == old(self).strategy(),
            final(self).committed() == old(self).committed(),
            final(self).run_model() == step(old(self).run_model(), *seen, old(self).options()),
            final(self).summary().excluded == old(self).summary().excluded.after(
                exclusion_of(seen.entry, seen.facts, old(self).options()),
            ),
    {
        let mut excluded_counts = self.summary.excluded;
        let excluded = should_exclude(&seen.entry, &seen.facts, &self.filter, &mut excluded_counts);
        self.summary.excluded = excluded_counts;
        self.summary.entries = self.summary.entries + 1;
        if excluded {
            self.summary.ignored = self.summary.ignored + 1;
        } else if seen.entry.is_dir {
            let done = self.catalog.insert_folder(seen.entry.path.as_str());
            if done.created {
                self.summary.folders_created = self.summary.folders_created + 1;
            } else {
                self.summary.already_existed = self.summary.already_existed + 1;
            }
        } else if self.filter.get_options().index_files {
            match &seen.entry.parent {
                Some(parent) => {
                    let done = self.catalog.insert_file(seen.entry.path.as_str(), parent.as_str());
                    if done.parent_created {
                        self.summary.folders_created = self.summary.folders_created + 1;
                        self.summary.parents_created = self.summary.parents_created + 1;
                    }
                    if done.created {
                        self.summary.files_created = self.summary.files_created + 1;
                    } else {
                        self.summary.already_existed = self.summary.already_existed + 1;
                    }
                },
                None => {
                    self.summary.skipped = self.summary.skipped + 1;
                },
            }
        } else {
            self.summary.skipped = self.summary.skipped + 1;
        }
    }

    /// Ends the run because the enumeration is exhausted: the transaction is
    /// committed, and its rows are returned for the durable store.
    pub fn finish(&mut self) -> (written: Written)
        requires
            old(self).wf(),
            old(self).phase() == ScanPhase::Running,
        ensures
            final(self).wf(),
            final(self).phase() == ScanPhase::Completed,
            final(self).options() == old(self).options(),
            final(self).strategy() == old(self).strategy(),
            final(self).summary() == old(self).summary(),
            final(self).catalog() == old(self).catalog(),
            final(self).committed() == old(self).catalog(),
            records(written, old(self).committed(), final(self).catalog()),
    {
        self.phase = ScanPhase::Completed;
        self.catalog.commit()
    }

    /// Ends the run because cancellation was observed. What the run had
    /// written is committed, and its rows are returned for the durable
    /// store; the catalog stays well formed, so no file row is left without
    /// its folder row.
    pub fn cancel(&mut self) -> (written: Written)
        requires
            old(self).wf(),
            old(self).phase() == ScanPhase::Running,
        ensures
            final(self).wf(),
            final(self).phase() == ScanPhase::Cancelled,
            final(self).options() == old(self).options(),
            final(self).strategy() == old(self).strategy(),
            final(self).summary() == old(self).summary(),
            final(self).catalog() == old(self).catalog(),
            final(self).committed() == old(self).catalog(),
            final(self).catalog().referentially_intact(),
            records(written, old(self).committed(), final(self).catalog()),
    {
        self.phase = ScanPhase::Cancelled;
        let written = self.catalog.commit();
        proof {
            self.catalog.lemma_wf();
        }
        written
    }

    /// Ends the run because of a fatal condition: the transaction is rolled
    /// back, so that the catalog is what it was when the transaction began.
    pub fn fail(&mut self, failure: ScanFailure)
        requires
            old(self).wf(),
            old(self).phase() == ScanPhase::Running,
        ensures
            final(self).wf(),
            final(self).phase() == ScanPhase::Failed,
            final(self).failure() == Some(failure),
            final(self).options() == old(self).options(),
            final(self).summary() == old(self).summary(),
            final(self).catalog() == old(self).committed(),
            final(self).committed() == old(self).committed(),
    {
        self.phase = ScanPhase::Failed;
        self.failure = Some(failure);
        self.catalog.rollback();
    }

    /// Runs over a list of entries: before each entry the token is polled,
    /// and the run is cancelled if it has been raised; when the list is
    /// exhausted the run is completed.
    ///
    /// Whenever the run ends, the entries before `processed` have been taken
    /// in order, and no others.
    pub fn run(&mut self, seen: &Vec<Observation>, token: &CancellationToken) -> (end: RunEnd)
        requires
            old(self).wf(),
            old(self).phase() == ScanPhase::Running,
            old(self).has_capacity(seen@.len() as int),
        ensures
            final(self).wf(),
            end.processed <= seen@.len(),
            final(self).phase() == if end.processed == seen@.len() {
                ScanPhase::Completed
            } else {
                ScanPhase::Cancelled
            },
            final(self).options() == old(self).options(),
            final(self).strategy() == old(self).strategy(),
            final(self).run_model() == run_all(
                old(self).run_model(),
                seen@.take(end.processed as int),
                old(self).options(),
            ),
            final(self).summary().excluded == counted(
                old(self).summary().excluded,
                seen@.take(end.processed as int),
                old(self).options(),
            ),
            final(self).committed() == final(self).catalog(),
            final(self).catalog().referentially_intact(),
            records(end.written, old(self).committed(), final(self).catalog()),
    {
        let mut i: usize = 0;
        while i < seen.len()
            invariant
                i <= seen@.len(),
                self.wf(),
                self.phase() == ScanPhase::Running,
                self.has_capacity(seen@.len() - i),
                self.options() == old(self).options(),
                self.strategy() == old(self).strategy(),
                self.committed() == old(self).committed(),
                self.run_model() == run_all(
                    old(self).run_model(),
                    seen@.take(i as int),
                    old(self).options(),
                ),
                self.summary().excluded == counted(
                    old(self).summary().excluded,
                    seen@.take(i as int),
                    old(self).options(),
                ),
            decreases seen@.len() - i,
        {
            if token.is_cancelled() {
                let written = self.cancel();
                return RunEnd { processed: i, written };
            }
            proof {
                assert(seen@.take(i + 1).drop_last() =~= seen@.take(i as int));
                assert(seen@.take(i + 1).last() == seen@[i as int]);
            }
            self.on_entry(&seen[i]);
            i += 1;
        }
        let written = self.finish();
        proof {
            self.catalog.lemma_wf();
        }
        RunEnd { processed: i, written }
    }
}

} // verus!
