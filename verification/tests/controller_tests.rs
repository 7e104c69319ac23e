use guessfs_indexer::cancel::CancellationToken;
use guessfs_indexer::catalog::{Catalog, FileRow, FolderRow, Written};
use guessfs_indexer::controller::{ScanController, ScanFailure, ScanPhase, Summary};
use guessfs_indexer::enumerate::{ScanEntry, Strategy};
use guessfs_indexer::filter::{ExclusionFilter, ExclusionReason, PathFacts, PathKind};
use guessfs_indexer::scan::Observation;
use guessfs_indexer::IndexOptions;

fn scan_options(path: &str) -> IndexOptions {
    IndexOptions {
        path: path.to_string(),
        index_directories: true,
        index_files: true,
        file_types: None,
        excluded_regex: None,
        excluded_paths: None,
        excluded_files: None,
        exclude_hidden: None,
        exclude_system: None,
        exclude_temporary: None,
        exclude_empty: None,
        exclude_admin: None,
    }
}

fn seen_dir(path: &str) -> Observation {
    Observation {
        entry: ScanEntry::new(path.to_string(), true),
        facts: PathFacts {
            kind: PathKind::Directory,
            accessible: true,
            attributes: None,
            children: Some(1),
            len: 0,
        },
    }
}

fn seen_file(path: &str) -> Observation {
    Observation {
        entry: ScanEntry::new(path.to_string(), false),
        facts: PathFacts {
            kind: PathKind::File,
            accessible: true,
            attributes: None,
            children: None,
            len: 5,
        },
    }
}

fn scenario_tree() -> Vec<Observation> {
    vec![seen_dir("R/a"), seen_dir("R/a/b"), seen_file("R/a/f1.txt"), seen_file("R/a/b/f2.txt")]
}

fn running(options: IndexOptions, catalog: Catalog) -> ScanController {
    let mut controller = ScanController::new(options).ok().unwrap();
    assert_eq!(controller.get_phase(), ScanPhase::Idle);
    controller.start(Ok(catalog), true, false);
    assert_eq!(controller.get_phase(), ScanPhase::Running);
    controller
}

fn written_folders(written: &Written) -> Vec<(i64, String)> {
    written.folders.iter().map(|r: &FolderRow| (r.id, r.path.clone())).collect()
}

fn written_files(written: &Written) -> Vec<(i64, String, i64)> {
    written.files.iter().map(|r: &FileRow| (r.id, r.path.clone(), r.folder_id)).collect()
}

fn every_file_has_its_folder(written: &Written, catalog: &Catalog) -> bool {
    written.files.iter().all(|file| {
        let ids = catalog.file_ref(&file.path);
        ids.is_some()
            && written.folders.iter().any(|folder| folder.id == ids.unwrap().folder_id)
    })
}

fn persisted(summary: &Summary) -> u64 {
    summary.persisted()
}

#[test]
fn two_folders_and_two_files_are_indexed() {
    let mut controller = running(scan_options("R"), Catalog::new());
    let end = controller.run(&scenario_tree(), &CancellationToken::new());
    assert_eq!(controller.get_phase(), ScanPhase::Completed);
    assert_eq!(end.processed, 4);
    assert_eq!(
        written_folders(&end.written),
        vec![(1, "R/a".to_string()), (2, "R/a/b".to_string())]
    );
    assert_eq!(
        written_files(&end.written),
        vec![(1, "R/a/f1.txt".to_string(), 1), (2, "R/a/b/f2.txt".to_string(), 2)]
    );
    let summary = controller.get_summary();
    assert_eq!(summary.entries, 4);
    assert_eq!(summary.folders_created, 2);
    assert_eq!(summary.files_created, 2);
    assert_eq!(summary.already_existed, 0);
    assert_eq!(summary.ignored, 0);
    assert_eq!(summary.skipped, 0);
    assert_eq!(summary.parents_created, 0);
    let catalog = controller.get_catalog();
    assert_eq!(catalog.file_ref("R/a/f1.txt").unwrap().folder_id, catalog.folder_id("R/a").unwrap());
    assert_eq!(
        catalog.file_ref("R/a/b/f2.txt").unwrap().folder_id,
        catalog.folder_id("R/a/b").unwrap()
    );
}

#[test]
fn second_run_creates_nothing() {
    let mut first = running(scan_options("R"), Catalog::new());
    first.run(&scenario_tree(), &CancellationToken::new());
    let created = first.get_summary().folders_created + first.get_summary().files_created;
    assert_eq!(created, 4);
    let mut second = running(scan_options("R"), first.into_catalog());
    let end = second.run(&scenario_tree(), &CancellationToken::new());
    assert_eq!(second.get_phase(), ScanPhase::Completed);
    assert!(end.written.folders.is_empty());
    assert!(end.written.files.is_empty());
    let summary = second.get_summary();
    assert_eq!(summary.folders_created, 0);
    assert_eq!(summary.files_created, 0);
    assert_eq!(summary.already_existed, created);
    assert_eq!(summary.ignored, 0);
}

#[test]
fn second_run_counts_entries_not_materialized_parents() {
    let entries = vec![seen_file("R/f.txt")];
    let mut first = running(scan_options("R"), Catalog::new());
    first.run(&entries, &CancellationToken::new());
    assert_eq!(first.get_summary().folders_created, 1);
    assert_eq!(first.get_summary().parents_created, 1);
    assert_eq!(first.get_summary().files_created, 1);
    let mut second = running(scan_options("R"), first.into_catalog());
    second.run(&entries, &CancellationToken::new());
    assert_eq!(second.get_summary().folders_created, 0);
    assert_eq!(second.get_summary().files_created, 0);
    assert_eq!(second.get_summary().already_existed, 1);
}

#[test]
fn files_before_their_folders_keep_integrity() {
    let entries = vec![
        seen_file("R/a/b/f2.txt"),
        seen_file("R/a/f1.txt"),
        seen_dir("R/a/b"),
        seen_dir("R/a"),
    ];
    let mut controller = running(scan_options("R"), Catalog::new());
    let end = controller.run(&entries, &CancellationToken::new());
    assert_eq!(
        written_folders(&end.written),
        vec![(1, "R/a/b".to_string()), (2, "R/a".to_string())]
    );
    assert_eq!(
        written_files(&end.written),
        vec![(1, "R/a/b/f2.txt".to_string(), 1), (2, "R/a/f1.txt".to_string(), 2)]
    );
    assert!(every_file_has_its_folder(&end.written, controller.get_catalog()));
    let summary = controller.get_summary();
    assert_eq!(summary.folders_created, 2);
    assert_eq!(summary.parents_created, 2);
    assert_eq!(summary.files_created, 2);
    assert_eq!(summary.already_existed, 2);
    assert_eq!(persisted(&summary), 4);
    assert_eq!(summary.persisted(), 2 - 2 + 2 + 2);
}

#[test]
fn excluded_entries_are_counted_and_not_written() {
    let mut options = scan_options("R");
    options.exclude_hidden = Some(true);
    options.excluded_files = Some(vec![".log".to_string()]);
    let entries = vec![
        seen_dir("R/a"),
        seen_file("R/a/.secret"),
        seen_file("R/a/run.log"),
        seen_file("R/a/keep.txt"),
        seen_dir("R/.git"),
    ];
    let mut controller = running(options, Catalog::new());
    let end = controller.run(&entries, &CancellationToken::new());
    let summary = controller.get_summary();
    assert_eq!(summary.entries, 5);
    assert_eq!(summary.ignored, 3);
    assert_eq!(summary.excluded.hidden, 2);
    assert_eq!(summary.excluded.excluded_files, 1);
    assert_eq!(summary.excluded.get(ExclusionReason::Pattern), 0);
    assert_eq!(summary.ignored, summary.entries - persisted(&summary));
    assert_eq!(written_folders(&end.written), vec![(1, "R/a".to_string())]);
    assert_eq!(written_files(&end.written), vec![(1, "R/a/keep.txt".to_string(), 1)]);
    assert!(!controller.get_catalog().has_file("R/a/.secret"));
    assert!(!controller.get_catalog().has_file("R/a/run.log"));
    assert_eq!(controller.get_catalog().folder_id("R/.git"), None);
}

#[test]
fn dot_file_never_reaches_the_file_table() {
    let mut options = scan_options("R");
    options.exclude_hidden = Some(true);
    let entries = vec![seen_file("R/.env"), seen_dir("R/a"), seen_file("R/.env")];
    let mut controller = running(options, Catalog::new());
    controller.run(&entries, &CancellationToken::new());
    assert!(!controller.get_catalog().has_file("R/.env"));
    assert_eq!(controller.get_summary().excluded.hidden, 2);
}

#[test]
fn files_are_skipped_when_not_asked_for() {
    let mut options = scan_options("R");
    options.index_files = false;
    let mut controller = running(options, Catalog::new());
    let end = controller.run(&scenario_tree(), &CancellationToken::new());
    let summary = controller.get_summary();
    assert_eq!(summary.folders_created, 2);
    assert_eq!(summary.files_created, 0);
    assert_eq!(summary.skipped, 2);
    assert_eq!(summary.ignored, 0);
    assert!(end.written.files.is_empty());
    assert_eq!(summary.entries, summary.ignored + summary.skipped + persisted(&summary));
}

#[test]
fn file_without_parent_is_skipped() {
    let orphan = Observation {
        entry: ScanEntry { path: "f".to_string(), is_dir: false, name: Some("f".to_string()), parent: None },
        facts: seen_file("f").facts,
    };
    let mut controller = running(scan_options("R"), Catalog::new());
    controller.on_entry(&orphan);
    assert_eq!(controller.get_summary().skipped, 1);
    assert!(!controller.get_catalog().has_file("f"));
}

#[test]
fn cancellation_before_the_first_entry_writes_nothing() {
    let token = CancellationToken::new();
    token.cancel();
    assert!(token.is_cancelled());
    let mut controller = running(scan_options("R"), Catalog::new());
    let end = controller.run(&scenario_tree(), &token);
    assert_eq!(controller.get_phase(), ScanPhase::Cancelled);
    assert_eq!(end.processed, 0);
    assert!(end.written.folders.is_empty());
    assert!(end.written.files.is_empty());
    assert_eq!(controller.get_summary().entries, 0);
}

#[test]
fn cancellation_mid_run_keeps_what_was_written() {
    let entries = vec![seen_file("R/a/b/f2.txt"), seen_file("R/a/f1.txt"), seen_dir("R/a")];
    let mut controller = running(scan_options("R"), Catalog::new());
    assert!(controller.can_accept());
    controller.on_entry(&entries[0]);
    let written = controller.cancel();
    assert_eq!(controller.get_phase(), ScanPhase::Cancelled);
    assert_eq!(written_folders(&written), vec![(1, "R/a/b".to_string())]);
    assert_eq!(written_files(&written), vec![(1, "R/a/b/f2.txt".to_string(), 1)]);
    assert!(every_file_has_its_folder(&written, controller.get_catalog()));
    assert_eq!(controller.get_summary().entries, 1);
    let mut resumed = running(scan_options("R"), controller.into_catalog());
    let end = resumed.run(&entries, &CancellationToken::new());
    assert_eq!(resumed.get_phase(), ScanPhase::Completed);
    assert_eq!(written_folders(&end.written), vec![(2, "R/a".to_string())]);
    assert_eq!(written_files(&end.written), vec![(2, "R/a/f1.txt".to_string(), 2)]);
    assert_eq!(resumed.get_summary().already_existed, 2);
}

#[test]
fn token_clones_share_the_flag() {
    let token = CancellationToken::new();
    let other = token.clone();
    assert!(!other.is_cancelled());
    token.cancel();
    assert!(other.is_cancelled());
}

#[test]
fn failure_rolls_the_transaction_back() {
    let mut catalog = Catalog::new();
    catalog.insert_folder("R/old");
    catalog.commit();
    let mut controller = running(scan_options("C:\\"), catalog);
    controller.on_entry(&seen_dir("R/a"));
    controller.on_entry(&seen_file("R/a/f"));
    controller.fail(ScanFailure::VolumeUnavailable { reason: "access denied".to_string() });
    assert_eq!(controller.get_phase(), ScanPhase::Failed);
    let reason = controller.get_failure().as_ref().unwrap().reason();
    assert_eq!(reason, "Failed to open volume: access denied");
    let catalog = controller.get_catalog();
    assert_eq!(catalog.folder_id("R/old"), Some(1));
    assert_eq!(catalog.folder_id("R/a"), None);
    assert!(!catalog.has_file("R/a/f"));
}

#[test]
fn target_that_is_no_directory_fails_the_run() {
    let mut controller = ScanController::new(scan_options("/r/file.txt")).ok().unwrap();
    controller.start(Ok(Catalog::new()), false, false);
    assert_eq!(controller.get_phase(), ScanPhase::Failed);
    let reason = controller.get_failure().as_ref().unwrap().reason();
    assert_eq!(reason, "Path is not a directory: /r/file.txt");
}

#[test]
fn store_that_cannot_be_opened_fails_the_run() {
    let mut controller = ScanController::new(scan_options("/r")).ok().unwrap();
    controller.start(Err("disk full".to_string()), true, false);
    assert_eq!(controller.get_phase(), ScanPhase::Failed);
    let reason = controller.get_failure().as_ref().unwrap().reason();
    assert_eq!(reason, "Failed to open database: disk full");
}

#[test]
fn pattern_that_does_not_compile_fails_before_the_run() {
    let mut options = scan_options("/r");
    options.excluded_regex = Some("[".to_string());
    let failure = ScanController::new(options).err().unwrap();
    assert!(matches!(&failure, ScanFailure::InvalidPattern { pattern, .. } if pattern == "["));
    assert!(failure.reason().starts_with("Invalid exclusion pattern: "));
}

#[test]
fn strategy_follows_the_target() {
    let mut walk = ScanController::new(scan_options("C:\\Users")).ok().unwrap();
    walk.start(Ok(Catalog::new()), true, true);
    assert_eq!(walk.get_strategy(), Strategy::GenericWalk);
    let mut mft = ScanController::new(scan_options("C:\\")).ok().unwrap();
    mft.start(Ok(Catalog::new()), true, true);
    assert_eq!(mft.get_strategy(), Strategy::NtfsMftScan);
    let mut other = ScanController::new(scan_options("C:\\")).ok().unwrap();
    other.start(Ok(Catalog::new()), true, false);
    assert_eq!(other.get_strategy(), Strategy::GenericWalk);
    assert_eq!(other.get_options().path, "C:\\");
}

#[test]
fn regex_exclusion_is_counted_under_its_reason() {
    let mut options = scan_options("R");
    options.excluded_regex = Some(r"\.txt$".to_string());
    let mut controller = running(options, Catalog::new());
    controller.run(&scenario_tree(), &CancellationToken::new());
    let summary = controller.get_summary();
    assert_eq!(summary.excluded.excluded_regex, 2);
    assert_eq!(summary.ignored, 2);
    assert_eq!(summary.folders_created, 2);
    assert_eq!(summary.files_created, 0);
}

#[test]
fn controller_is_made_from_a_filter() {
    let filter = ExclusionFilter::new(scan_options("R")).ok().unwrap();
    let controller = ScanController::with_filter(filter);
    assert_eq!(controller.get_phase(), ScanPhase::Idle);
    assert_eq!(controller.get_options().path, "R");
    assert_eq!(controller.get_summary().entries, 0);
    assert!(controller.get_failure().is_none());
}

#[test]
fn finish_commits_and_completes() {
    let mut controller = running(scan_options("R"), Catalog::new());
    controller.on_entry(&seen_dir("R/a"));
    let written = controller.finish();
    assert_eq!(controller.get_phase(), ScanPhase::Completed);
    assert_eq!(written_folders(&written), vec![(1, "R/a".to_string())]);
    assert!(written.files.is_empty());
}

#[test]
fn rows_of_successive_runs_restore_as_one_catalog() {
    let mut first = running(scan_options("R"), Catalog::new());
    let one = first.run(&scenario_tree(), &CancellationToken::new()).written;
    let stored = Catalog::restore(&one.folders, &one.files).ok().unwrap();
    let mut second = running(scan_options("R"), stored);
    let more = vec![seen_file("R/c/f3.txt"), seen_dir("R/a"), seen_file("R/a/f4.txt")];
    let two = second.run(&more, &CancellationToken::new()).written;
    assert_eq!(written_folders(&two), vec![(3, "R/c".to_string())]);
    assert_eq!(
        written_files(&two),
        vec![(3, "R/c/f3.txt".to_string(), 3), (4, "R/a/f4.txt".to_string(), 1)]
    );
    let mut folders = one.folders.clone();
    folders.extend(two.folders.iter().cloned());
    let mut files = one.files.clone();
    files.extend(two.files.iter().cloned());
    let restored = Catalog::restore(&folders, &files).ok().unwrap();
    assert_eq!(restored.folder_id("R/a"), Some(1));
    assert_eq!(restored.folder_id("R/a/b"), Some(2));
    assert_eq!(restored.folder_id("R/c"), Some(3));
    assert_eq!(restored.file_ref("R/a/f4.txt").unwrap().folder_id, 1);
    assert_eq!(restored.file_ref("R/c/f3.txt").unwrap().id, 3);
    assert_eq!(second.get_summary().already_existed, 1);
}
