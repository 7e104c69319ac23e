use guessfs_indexer::catalog::{Catalog, FileRow, FolderRow, RestoreError};

fn folder(id: i64, path: &str) -> FolderRow {
    FolderRow { id, path: path.to_string() }
}

fn file(id: i64, path: &str, folder_id: i64) -> FileRow {
    FileRow { id, path: path.to_string(), folder_id }
}

fn folder_pairs(rows: &[FolderRow]) -> Vec<(i64, String)> {
    rows.iter().map(|r| (r.id, r.path.clone())).collect()
}

fn file_triples(rows: &[FileRow]) -> Vec<(i64, String, i64)> {
    rows.iter().map(|r| (r.id, r.path.clone(), r.folder_id)).collect()
}

#[test]
fn new_catalog_is_empty() {
    let catalog = Catalog::new();
    assert_eq!(catalog.folder_id("/r"), None);
    assert!(!catalog.has_file("/r/f"));
    assert!(catalog.file_ref("/r/f").is_none());
    assert!(catalog.room());
}

#[test]
fn folder_insert_creates_once() {
    let mut catalog = Catalog::new();
    let first = catalog.insert_folder("/r/a");
    assert!(first.created);
    assert_eq!(first.id, 1);
    let again = catalog.insert_folder("/r/a");
    assert!(!again.created);
    assert_eq!(again.id, 1);
    let other = catalog.insert_folder("/r/b");
    assert!(other.created);
    assert_eq!(other.id, 2);
    assert_eq!(catalog.folder_id("/r/a"), Some(1));
    assert_eq!(catalog.folder_id("/r/b"), Some(2));
    assert_eq!(catalog.folder_id("/r/c"), None);
}

#[test]
fn file_insert_materializes_its_parent() {
    let mut catalog = Catalog::new();
    let done = catalog.insert_file("/r/a/f1.txt", "/r/a");
    assert!(done.created);
    assert!(done.parent_created);
    assert_eq!(done.folder_id, 1);
    assert_eq!(catalog.folder_id("/r/a"), Some(1));
    let ids = catalog.file_ref("/r/a/f1.txt").unwrap();
    assert_eq!(ids.id, 1);
    assert_eq!(ids.folder_id, 1);
    let later = catalog.insert_folder("/r/a");
    assert!(!later.created);
    assert_eq!(later.id, 1);
}

#[test]
fn file_insert_uses_the_existing_parent() {
    let mut catalog = Catalog::new();
    catalog.insert_folder("/r/x");
    catalog.insert_folder("/r/a");
    let done = catalog.insert_file("/r/a/f1.txt", "/r/a");
    assert!(done.created);
    assert!(!done.parent_created);
    assert_eq!(done.folder_id, 2);
    let again = catalog.insert_file("/r/a/f1.txt", "/r/a");
    assert!(!again.created);
    assert!(!again.parent_created);
    assert_eq!(again.folder_id, 2);
    assert_eq!(catalog.file_ref("/r/a/f1.txt").unwrap().folder_id, 2);
}

#[test]
fn existing_file_still_gets_its_parent_resolved() {
    let mut catalog = Catalog::new();
    catalog.insert_file("/r/a/f", "/r/a");
    let done = catalog.insert_file("/r/a/f", "/r/other");
    assert!(!done.created);
    assert!(done.parent_created);
    assert_eq!(catalog.folder_id("/r/other"), Some(2));
    assert_eq!(catalog.file_ref("/r/a/f").unwrap().folder_id, 1);
}

#[test]
fn commit_returns_the_rows_in_order() {
    let mut catalog = Catalog::new();
    catalog.insert_folder("/r/a");
    catalog.insert_file("/r/a/b/f2.txt", "/r/a/b");
    catalog.insert_file("/r/a/f1.txt", "/r/a");
    catalog.insert_folder("/r/a");
    let written = catalog.commit();
    assert_eq!(
        folder_pairs(&written.folders),
        vec![(1, "/r/a".to_string()), (2, "/r/a/b".to_string())]
    );
    assert_eq!(
        file_triples(&written.files),
        vec![(1, "/r/a/b/f2.txt".to_string(), 2), (2, "/r/a/f1.txt".to_string(), 1)]
    );
    assert_eq!(catalog.folder_id("/r/a/b"), Some(2));
    assert!(catalog.has_file("/r/a/f1.txt"));
    let nothing = catalog.commit();
    assert!(nothing.folders.is_empty());
    assert!(nothing.files.is_empty());
}

#[test]
fn committed_rows_are_found_by_the_next_transaction() {
    let mut catalog = Catalog::new();
    catalog.insert_file("/r/a/f1.txt", "/r/a");
    catalog.commit();
    assert!(!catalog.insert_folder("/r/a").created);
    assert!(!catalog.insert_file("/r/a/f1.txt", "/r/a").created);
    let done = catalog.insert_file("/r/a/f2.txt", "/r/a");
    assert!(done.created);
    assert!(!done.parent_created);
    let written = catalog.commit();
    assert!(written.folders.is_empty());
    assert_eq!(file_triples(&written.files), vec![(2, "/r/a/f2.txt".to_string(), 1)]);
}

#[test]
fn rollback_drops_the_transaction() {
    let mut catalog = Catalog::new();
    catalog.insert_folder("/r/a");
    catalog.commit();
    catalog.insert_folder("/r/b");
    catalog.insert_file("/r/c/f", "/r/c");
    catalog.insert_file("/r/a/g", "/r/a");
    catalog.rollback();
    assert_eq!(catalog.folder_id("/r/a"), Some(1));
    assert_eq!(catalog.folder_id("/r/b"), None);
    assert_eq!(catalog.folder_id("/r/c"), None);
    assert!(!catalog.has_file("/r/c/f"));
    assert!(!catalog.has_file("/r/a/g"));
    let next = catalog.insert_folder("/r/z");
    assert_eq!(next.id, 2);
    let written = catalog.commit();
    assert_eq!(folder_pairs(&written.folders), vec![(2, "/r/z".to_string())]);
    assert!(written.files.is_empty());
}

#[test]
fn restore_holds_the_given_rows() {
    let folders = vec![folder(1, "/r/a"), folder(2, "/r/a/b")];
    let files = vec![file(1, "/r/a/f1.txt", 1), file(2, "/r/a/b/f2.txt", 2)];
    let mut catalog = Catalog::restore(&folders, &files).ok().unwrap();
    assert_eq!(catalog.folder_id("/r/a"), Some(1));
    assert_eq!(catalog.folder_id("/r/a/b"), Some(2));
    assert_eq!(catalog.file_ref("/r/a/b/f2.txt").unwrap().folder_id, 2);
    assert_eq!(catalog.file_ref("/r/a/f1.txt").unwrap().id, 1);
    let nothing = catalog.commit();
    assert!(nothing.folders.is_empty());
    assert!(nothing.files.is_empty());
    assert_eq!(catalog.insert_folder("/r/c").id, 3);
    assert_eq!(catalog.file_ref("/r/a/f1.txt").unwrap().folder_id, 1);
}

#[test]
fn restore_of_nothing_is_the_empty_catalog() {
    let mut catalog = Catalog::restore(&Vec::new(), &Vec::new()).ok().unwrap();
    assert_eq!(catalog.insert_folder("/r").id, 1);
}

#[test]
fn restore_reports_the_first_fault() {
    let good_folders = vec![folder(1, "/r/a"), folder(2, "/r/b")];
    assert_eq!(
        Catalog::restore(&vec![folder(1, "/r/a"), folder(3, "/r/b")], &Vec::new()).err(),
        Some(RestoreError::FolderId { index: 1 })
    );
    assert_eq!(
        Catalog::restore(&vec![folder(0, "/r/a")], &Vec::new()).err(),
        Some(RestoreError::FolderId { index: 0 })
    );
    assert_eq!(
        Catalog::restore(&vec![folder(1, "/r/a"), folder(2, "/r/a")], &Vec::new()).err(),
        Some(RestoreError::FolderPath { index: 1 })
    );
    assert_eq!(
        Catalog::restore(&good_folders, &vec![file(2, "/r/a/f", 1)]).err(),
        Some(RestoreError::FileId { index: 0 })
    );
    assert_eq!(
        Catalog::restore(&good_folders, &vec![file(1, "/r/a/f", 3)]).err(),
        Some(RestoreError::FileFolder { index: 0 })
    );
    assert_eq!(
        Catalog::restore(&good_folders, &vec![file(1, "/r/a/f", 0)]).err(),
        Some(RestoreError::FileFolder { index: 0 })
    );
    assert_eq!(
        Catalog::restore(&good_folders, &vec![file(1, "/r/a/f", 1), file(2, "/r/a/f", 2)]).err(),
        Some(RestoreError::FilePath { index: 1 })
    );
    assert_eq!(
        Catalog::restore(
            &vec![folder(1, "/r/a"), folder(2, "/r/a"), folder(9, "/r/c")],
            &vec![file(5, "/r/a/f", 7)]
        )
        .err(),
        Some(RestoreError::FolderPath { index: 1 })
    );
}
