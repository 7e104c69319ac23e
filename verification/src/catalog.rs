//! The catalog store: a folder table and a file table, each keyed by path,
//! with insert-or-ignore writes inside one transaction.
//!
//! `CatalogModel` is the mathematical catalog that the contracts speak of;
//! `Catalog` is the store itself, whose view is a `CatalogModel`.

use vstd::hash_map::StringHashMap;
use vstd::prelude::*;

verus! {

/// One row of the folder table.
#[derive(Debug, Clone)]
pub struct FolderRow {
    pub id: i64,
    pub path: String,
}

/// One row of the file table.
#[derive(Debug, Clone)]
pub struct FileRow {
    pub id: i64,
    pub path: String,
    /// The id of the folder row of the file's parent.
    pub folder_id: i64,
}

/// The ids of one file row.
#[derive(Debug, Clone, Copy)]
pub struct FileRef {
    pub id: i64,
    pub folder_id: i64,
}

/// The ids of one file row of the model.
pub struct FileEntry {
    pub id: int,
    pub folder_id: int,
}

/// The catalog as a mathematical object: each table is a map from the path,
/// which is the identity of a row, to the ids of the row.
pub struct CatalogModel {
    /// Folder path to folder id.
    pub folders: Map<Seq<char>, int>,
    /// File path to the ids of the file row.
    pub files: Map<Seq<char>, FileEntry>,
    /// The id that the next new folder row gets.
    pub next_folder_id: int,
    /// The id that the next new file row gets.
    pub next_file_id: int,
}

impl CatalogModel {
    /// The catalog without rows.
    pub open spec fn empty() -> CatalogModel {
        CatalogModel {
            folders: Map::empty(),
            files: Map::empty(),
            next_folder_id: 1,
            next_file_id: 1,
        }
    }

    /// Whether some folder row has the id `id`.
    pub open spec fn has_folder_id(self, id: int) -> bool {
        exists|path: Seq<char>| #[trigger]
            self.folders.contains_key(path) && self.folders[path] == id
    }

    /// Every file row refers to an existing folder row.
    pub open spec fn referentially_intact(self) -> bool {
        forall|path: Seq<char>| #[trigger]
            self.files.contains_key(path) ==> self.has_folder_id(self.files[path].folder_id)
    }

    /// Ids identify rows: no two folder rows share an id, no two file rows
    /// share one, and every id in use lies below the next id to hand out.
    pub open spec fn ids_distinct(self) -> bool {
        &&& forall|p: Seq<char>| #[trigger]
            self.folders.contains_key(p) ==> self.folders[p] < self.next_folder_id
        &&& forall|p: Seq<char>| #[trigger]
            self.files.contains_key(p) ==> self.files[p].id < self.next_file_id
        &&& forall|p: Seq<char>, q: Seq<char>|
            #![trigger self.folders.contains_key(p), self.folders.contains_key(q)]
            self.folders.contains_key(p) && self.folders.contains_key(q) && self.folders[p]
                == self.folders[q] ==> p == q
        &&& forall|p: Seq<char>, q: Seq<char>|
            #![trigger self.files.contains_key(p), self.files.contains_key(q)]
            self.files.contains_key(p) && self.files.contains_key(q) && self.files[p].id
                == self.files[q].id ==> p == q
    }

    /// The invariant of a catalog.
    pub open spec fn wf(self) -> bool {
        self.ids_distinct() && self.referentially_intact()
    }

    /// Whether every row of `self` is a row of `later`, unchanged.
    pub open spec fn within(self, later: CatalogModel) -> bool {
        &&& forall|p: Seq<char>| #[trigger]
            self.folders.contains_key(p) ==> later.folders.contains_key(p) && later.folders[p]
                == self.folders[p]
        &&& forall|p: Seq<char>| #[trigger]
            self.files.contains_key(p) ==> later.files.contains_key(p) && later.files[p]
                == self.files[p]
        &&& self.next_folder_id <= later.next_folder_id
        &&& self.next_file_id <= later.next_file_id
    }

    /// The catalog after an insert-or-ignore of the folder `path`: unchanged
    /// if the path has a row, else with a new row under the next folder id.
    pub open spec fn with_folder(self, path: Seq<char>) -> CatalogModel {
        if self.folders.contains_key(path) {
            self
        } else {
            CatalogModel {
                folders: self.folders.insert(path, self.next_folder_id),
                next_folder_id: self.next_folder_id + 1,
                ..self
            }
        }
    }

    /// The catalog after an insert-or-ignore of the file `path` under the
    /// folder `parent`: the parent folder is inserted or ignored first; then
    /// the file gets a row that refers to it, unless the path has a row.
    pub open spec fn with_file(self, path: Seq<char>, parent: Seq<char>) -> CatalogModel {
        let housed = self.with_folder(parent);
        if housed.files.contains_key(path) {
            housed
        } else {
            CatalogModel {
                files: housed.files.insert(
                    path,
                    FileEntry { id: housed.next_file_id, folder_id: housed.folders[parent] },
                ),
                next_file_id: housed.next_file_id + 1,
                ..housed
            }
        }
    }
}

/// Inserting a folder keeps the catalog well formed and loses no row.
pub proof fn lemma_with_folder(catalog: CatalogModel, path: Seq<char>)
    requires
        catalog.wf(),
    ensures
        catalog.with_folder(path).wf(),
        catalog.within(catalog.with_folder(path)),
        catalog.with_folder(path).folders.contains_key(path),
        catalog.with_folder(path).files == catalog.files,
{
    let after = catalog.with_folder(path);
    if !catalog.folders.contains_key(path) {
        assert forall|p: Seq<char>| #[trigger]
            after.files.contains_key(p) implies after.has_folder_id(after.files[p].folder_id) by {
            assert(catalog.files.contains_key(p));
            let q = choose|q: Seq<char>| #[trigger]
                catalog.folders.contains_key(q) && catalog.folders[q]
                    == catalog.files[p].folder_id;
            assert(after.folders.contains_key(q) && after.folders[q] == after.files[p].folder_id);
        }
    }
}

/// Inserting a file keeps the catalog well formed and loses no row: every
/// file row, the new one included, refers to an existing folder row.
pub proof fn lemma_with_file(catalog: CatalogModel, path: Seq<char>, parent: Seq<char>)
    requires
        catalog.wf(),
    ensures
        catalog.with_file(path, parent).wf(),
        catalog.within(catalog.with_file(path, parent)),
        catalog.with_file(path, parent).folders.contains_key(parent),
        catalog.with_file(path, parent).files.contains_key(path),
        catalog.with_file(path, parent).folders == catalog.with_folder(parent).folders,
{
    let housed = catalog.with_folder(parent);
    lemma_with_folder(catalog, parent);
    let after = catalog.with_file(path, parent);
    if !housed.files.contains_key(path) {
        assert forall|p: Seq<char>| #[trigger]
            after.files.contains_key(p) implies after.has_folder_id(after.files[p].folder_id) by {
            if p == path {
                assert(after.folders.contains_key(parent) && after.folders[parent]
                    == after.files[p].folder_id);
            } else {
                assert(housed.files.contains_key(p));
                let q = choose|q: Seq<char>| #[trigger]
                    housed.folders.contains_key(q) && housed.folders[q]
                        == housed.files[p].folder_id;
                assert(after.folders.contains_key(q) && after.folders[q]
                    == after.files[p].folder_id);
            }
        }
    }
}

/// Referential integrity, spelled out: in a well-formed catalog the folder
/// id of every file row is the id of exactly one folder row.
pub proof fn lemma_file_has_folder(catalog: CatalogModel, file: Seq<char>) -> (folder: Seq<char>)
    requires
        catalog.wf(),
        catalog.files.contains_key(file),
    ensures
        catalog.folders.contains_key(folder),
        catalog.folders[folder] == catalog.files[file].folder_id,
        forall|other: Seq<char>|
            catalog.folders.contains_key(other) && catalog.folders[other]
                == catalog.files[file].folder_id ==> other == folder,
{
    choose|q: Seq<char>| #[trigger]
        catalog.folders.contains_key(q) && catalog.folders[q] == catalog.files[file].folder_id
}

/// Inserting a path that has a row changes nothing, for folders and for
/// files whose parent has a row.
pub proof fn lemma_insert_existing(catalog: CatalogModel, path: Seq<char>, parent: Seq<char>)
    ensures
        catalog.folders.contains_key(path) ==> catalog.with_folder(path) == catalog,
        catalog.folders.contains_key(parent) && catalog.files.contains_key(path)
            ==> catalog.with_file(path, parent) == catalog,
{
}

/// What an insert-or-ignore of a folder did.
#[derive(Debug, Clone, Copy)]
pub struct FolderInsertion {
    /// Whether a new row was created.
    pub created: bool,
    /// The id of the folder's row, new or not.
    pub id: i64,
}

/// What an insert-or-ignore of a file did.
#[derive(Debug, Clone, Copy)]
pub struct FileInsertion {
    /// Whether a new file row was created.
    pub created: bool,
    /// Whether the parent folder had no row and got one first.
    pub parent_created: bool,
    /// The id of the parent folder's row.
    pub folder_id: i64,
}

/// The rows written in one transaction, in the order they were written.
#[derive(Debug, Clone)]
pub struct Written {
    pub folders: Vec<FolderRow>,
    pub files: Vec<FileRow>,
}

/// Folder rows as pairs of path and id.
pub open spec fn folder_pairs(rows: Seq<FolderRow>) -> Seq<(Seq<char>, int)> {
    Seq::new(rows.len(), |k: int| (rows[k].path@, rows[k].id as int))
}

/// File rows as triples of path, id and folder id.
pub open spec fn file_triples(rows: Seq<FileRow>) -> Seq<(Seq<char>, int, int)> {
    Seq::new(rows.len(), |k: int| (rows[k].path@, rows[k].id as int, rows[k].folder_id as int))
}

/// Whether `written` lists exactly the rows that `now` has beyond `since`:
/// row `k` of each table carries the `k`-th id handed out after `since` and
/// is the row of `now` under that id, and every row of `now` is a row of
/// `since` or is listed.
pub open spec fn records(written: Written, since: CatalogModel, now: CatalogModel) -> bool {
    &&& written.folders@.len() == now.next_folder_id - since.next_folder_id
    &&& written.files@.len() == now.next_file_id - since.next_file_id
    &&& forall|k: int|
        0 <= k < written.folders@.len() ==> {
            let row = #[trigger] written.folders@[k];
            &&& row.id == since.next_folder_id + k
            &&& now.folders.contains_key(row.path@)
            &&& now.folders[row.path@] == row.id
        }
    &&& forall|k: int|
        0 <= k < written.files@.len() ==> {
            let row = #[trigger] written.files@[k];
            &&& row.id == since.next_file_id + k
            &&& now.files.contains_key(row.path@)
            &&& now.files[row.path@] == (FileEntry {
                id: row.id as int,
                folder_id: row.folder_id as int,
            })
        }
    &&& forall|p: Seq<char>| #[trigger]
        now.folders.contains_key(p) ==> since.folders.contains_key(p) || folder_named(
            written.folders@,
            written.folders@.len() as int,
            p,
        )
    &&& forall|p: Seq<char>| #[trigger]
        now.files.contains_key(p) ==> since.files.contains_key(p) || file_named(
            written.files@,
            written.files@.len() as int,
            p,
        )
}

/// The catalog store.
///
/// Rows that earlier transactions committed are kept apart from the rows of
/// the open transaction, so that the transaction can be committed or rolled
/// back as a whole. Folder ids that a run has resolved are cached for the
/// run.
pub struct Catalog {
    committed_folders: StringHashMap<i64>,
    committed_files: StringHashMap<FileRef>,
    run_folders: StringHashMap<i64>,
    run_files: StringHashMap<FileRef>,
    new_folders: Vec<FolderRow>,
    new_files: Vec<FileRow>,
    base_folder_id: i64,
    base_file_id: i64,
    next_folder_id: i64,
    next_file_id: i64,
}

/// The table that holds the committed rows and, over them, the rows of the
/// open transaction.
pub open spec fn layered<V>(committed: Map<Seq<char>, V>, run: Map<Seq<char>, V>) -> Map<
    Seq<char>,
    V,
> {
    committed.union_prefer_right(run)
}

/// A folder table with its ids as mathematical integers.
pub open spec fn folder_table(rows: Map<Seq<char>, i64>) -> Map<Seq<char>, int> {
    Map::new(|p: Seq<char>| rows.contains_key(p), |p: Seq<char>| rows[p] as int)
}

/// A file table with its ids as mathematical integers.
pub open spec fn file_table(rows: Map<Seq<char>, FileRef>) -> Map<Seq<char>, FileEntry> {
    Map::new(
        |p: Seq<char>| rows.contains_key(p),
        |p: Seq<char>| FileEntry { id: rows[p].id as int, folder_id: rows[p].folder_id as int },
    )
}

impl View for Catalog {
    type V = CatalogModel;

    closed spec fn view(&self) -> CatalogModel {
        CatalogModel {
            folders: folder_table(layered(self.committed_folders@, self.run_folders@)),
            files: file_table(layered(self.committed_files@, self.run_files@)),
            next_folder_id: self.next_folder_id as int,
            next_file_id: self.next_file_id as int,
        }
    }
}

impl Catalog {
    /// The catalog as it was when the open transaction began.
    pub closed spec fn committed(&self) -> CatalogModel {
        CatalogModel {
            folders: folder_table(self.committed_folders@),
            files: file_table(self.committed_files@),
            next_folder_id: self.base_folder_id as int,
            next_file_id: self.base_file_id as int,
        }
    }

    /// The folder rows of the open transaction, oldest first.
    pub closed spec fn pending_folders(&self) -> Seq<(Seq<char>, int)> {
        folder_pairs(self.new_folders@)
    }

    /// The file rows of the open transaction, oldest first.
    pub closed spec fn pending_files(&self) -> Seq<(Seq<char>, int, int)> {
        file_triples(self.new_files@)
    }

    /// A cached folder id is the id of the committed row of the path, or,
    /// where there is none, the id of its row in the open transaction.
    spec fn folder_cache_ok(&self, p: Seq<char>) -> bool {
        if self.committed_folders@.contains_key(p) {
            self.run_folders@[p] == self.committed_folders@[p]
        } else {
            let k = self.run_folders@[p] - self.base_folder_id;
            0 <= k < self.new_folders@.len() && self.new_folders@[k].path@ == p
        }
    }

    /// The `k`-th folder row of the open transaction carries the `k`-th id
    /// of the transaction, is new, and is cached.
    spec fn folder_row_ok(&self, k: int) -> bool {
        let row = self.new_folders@[k];
        &&& row.id == self.base_folder_id + k
        &&& !self.committed_folders@.contains_key(row.path@)
        &&& self.run_folders@.contains_key(row.path@)
        &&& self.run_folders@[row.path@] == row.id
    }

    /// A file of the run is new, and its row is in the open transaction.
    spec fn file_cache_ok(&self, p: Seq<char>) -> bool {
        let k = self.run_files@[p].id - self.base_file_id;
        &&& !self.committed_files@.contains_key(p)
        &&& 0 <= k < self.new_files@.len()
        &&& self.new_files@[k].path@ == p
    }

    /// The `k`-th file row of the open transaction carries the `k`-th id of
    /// the transaction and is a file of the run.
    spec fn file_row_ok(&self, k: int) -> bool {
        let row = self.new_files@[k];
        &&& row.id == self.base_file_id + k
        &&& self.run_files@.contains_key(row.path@)
        &&& self.run_files@[row.path@].id == row.id
        &&& self.run_files@[row.path@].folder_id == row.folder_id
    }

    /// The invariant of the store: its view and its committed part are
    /// well-formed catalogs, and the rows of the open transaction are the
    /// rows that the view has beyond the committed part.
    pub closed spec fn wf(&self) -> bool {
        &&& self@.wf()
        &&& self.committed().wf()
        &&& self.base_folder_id <= self.next_folder_id
        &&& self.base_file_id <= self.next_file_id
        &&& self.new_folders@.len() == self.next_folder_id - self.base_folder_id
        &&& self.new_files@.len() == self.next_file_id - self.base_file_id
        &&& forall|p: Seq<char>| #[trigger]
            self.run_folders@.contains_key(p) ==> self.folder_cache_ok(p)
        &&& forall|k: int| 0 <= k < self.new_folders@.len() ==> #[trigger] self.folder_row_ok(k)
        &&& forall|p: Seq<char>| #[trigger]
            self.run_files@.contains_key(p) ==> self.file_cache_ok(p)
        &&& forall|k: int| 0 <= k < self.new_files@.len() ==> #[trigger] self.file_row_ok(k)
    }

    /// In a well-formed store the view is a well-formed catalog that holds
    /// every committed row, and the pending rows are rows of the view.
    pub proof fn lemma_wf(&self)
        requires
            self.wf(),
        ensures
            self@.wf(),
            self.committed().wf(),
            self.committed().within(self@),
            self.pending_folders().len() == self@.next_folder_id - self.committed().next_folder_id,
            self.pending_files().len() == self@.next_file_id - self.committed().next_file_id,
            forall|k: int|
                0 <= k < self.pending_folders().len() ==> {
                    let row = #[trigger] self.pending_folders()[k];
                    &&& self@.folders.contains_key(row.0)
                    &&& self@.folders[row.0] == row.1
                    &&& !self.committed().folders.contains_key(row.0)
                },
            forall|k: int|
                0 <= k < self.pending_files().len() ==> {
                    let row = #[trigger] self.pending_files()[k];
                    &&& self@.files.contains_key(row.0)
                    &&& self@.files[row.0] == (FileEntry { id: row.1, folder_id: row.2 })
                    &&& !self.committed().files.contains_key(row.0)
                },
    {
        assert forall|p: Seq<char>| #[trigger]
            self.committed().folders.contains_key(p) implies self@.folders.contains_key(p)
            && self@.folders[p] == self.committed().folders[p] by {
            if self.run_folders@.contains_key(p) {
                assert(self.folder_cache_ok(p));
            }
        }
        assert forall|p: Seq<char>| #[trigger]
            self.committed().files.contains_key(p) implies self@.files.contains_key(p)
            && self@.files[p] == self.committed().files[p] by {
            if self.run_files@.contains_key(p) {
                assert(self.file_cache_ok(p));
            }
        }
        assert forall|k: int| 0 <= k < self.pending_folders().len() implies {
            let row = #[trigger] self.pending_folders()[k];
            &&& self@.folders.contains_key(row.0)
            &&& self@.folders[row.0] == row.1
            &&& !self.committed().folders.contains_key(row.0)
        } by {
            assert(self.folder_row_ok(k));
        }
        assert forall|k: int| 0 <= k < self.pending_files().len() implies {
            let row = #[trigger] self.pending_files()[k];
            &&& self@.files.contains_key(row.0)
            &&& self@.files[row.0] == (FileEntry { id: row.1, folder_id: row.2 })
            &&& !self.committed().files.contains_key(row.0)
        } by {
            assert(self.file_row_ok(k));
            assert(self.file_cache_ok(self.new_files@[k].path@));
        }
    }

    /// A store without rows.
    pub fn new() -> (catalog: Catalog)
        ensures
            catalog.wf(),
            catalog@ == CatalogModel::empty(),
            catalog.committed() == CatalogModel::empty(),
            catalog.pending_folders().len() == 0,
            catalog.pending_files().len() == 0,
    {
        let catalog = Catalog {
            committed_folders: StringHashMap::new(),
            committed_files: StringHashMap::new(),
            run_folders: StringHashMap::new(),
            run_files: StringHashMap::new(),
            new_folders: Vec::new(),
            new_files: Vec::new(),
            base_folder_id: 1,
            base_file_id: 1,
            next_folder_id: 1,
            next_file_id: 1,
        };
        assert(catalog@.folders =~= Map::empty());
        assert(catalog@.files =~= Map::empty());
        assert(catalog.committed().folders =~= Map::empty());
        assert(catalog.committed().files =~= Map::empty());
        catalog
    }

    /// Whether ids are left for one more folder row and one more file row,
    /// which is what any insert may need.
    pub open spec fn has_room(&self) -> bool {
        self@.next_folder_id < i64::MAX && self@.next_file_id < i64::MAX
    }

    /// Whether ids are left for one more folder row and one more file row.
    pub fn room(&self) -> (room: bool)
        ensures
            room == self.has_room(),
    {
        self.next_folder_id < i64::MAX && self.next_file_id < i64::MAX
    }

    /// The id of the folder row of `path`, if the path has one.
    pub fn folder_id(&self, path: &str) -> (id: Option<i64>)
        ensures
            id is Some == self@.folders.contains_key(path@),
            id matches Some(found) ==> self@.folders[path@] == found,
    {
        match self.run_folders.get(path) {
            Some(id) => Some(*id),
            None => match self.committed_folders.get(path) {
                Some(id) => Some(*id),
                None => None,
            },
        }
    }

    /// The ids of the file row of `path`, if the path has one.
    pub fn file_ref(&self, path: &str) -> (ids: Option<FileRef>)
        ensures
            ids is Some == self@.files.contains_key(path@),
            ids matches Some(found) ==> self@.files[path@] == (FileEntry {
                id: found.id as int,
                folder_id: found.folder_id as int,
            }),
    {
        match self.run_files.get(path) {
            Some(ids) => Some(*ids),
            None => match self.committed_files.get(path) {
                Some(ids) => Some(*ids),
                None => None,
            },
        }
    }

    /// Whether `path` has a file row.
    pub fn has_file(&self, path: &str) -> (found: bool)
        ensures
            found == self@.files.contains_key(path@),
    {
        self.run_files.contains_key(path) || self.committed_files.contains_key(path)
    }

    /// Insert-or-ignore of the folder `path`.
    ///
    /// A folder whose path has a row is left as it is; otherwise a row is
    /// created under the next folder id, as part of the open transaction.
    /// Either way the id of the folder's row is returned.
    pub fn insert_folder(&mut self, path: &str) -> (done: FolderInsertion)
        requires
            old(self).wf(),
            old(self)@.folders.contains_key(path@) || old(self)@.next_folder_id < i64::MAX,
        ensures
            final(self).wf(),
            final(self)@.wf(),
            final(self)@ == old(self)@.with_folder(path@),
            done.created == !old(self)@.folders.contains_key(path@),
            final(self)@.folders[path@] == done.id,
            final(self).committed() == old(self).committed(),
            final(self).pending_files() == old(self).pending_files(),
            final(self).pending_folders() == if done.created {
                old(self).pending_folders().push((path@, done.id as int))
            } else {
                old(self).pending_folders()
            },
    {
        let ghost before = *self;
        proof {
            lemma_with_folder(before@, path@);
        }
        let cached = match self.run_folders.get(path) {
            Some(id) => Some(*id),
            None => None,
        };
        if let Some(id) = cached {
            return FolderInsertion { created: false, id };
        }
        let stored = match self.committed_folders.get(path) {
            Some(id) => Some(*id),
            None => None,
        };
        if let Some(id) = stored {
            self.run_folders.insert(path.to_owned(), id);
            proof {
                assert(self@.folders =~= before@.folders);
                assert(self@.files =~= before@.files);
                assert forall|p: Seq<char>| #[trigger]
                    self.run_folders@.contains_key(p) implies self.folder_cache_ok(p) by {
                    if p != path@ {
                        assert(before.folder_cache_ok(p));
                    }
                }
                assert forall|k: int| 0 <= k < self.new_folders@.len() implies #[trigger]
                    self.folder_row_ok(k) by {
                    assert(before.folder_row_ok(k));
                }
                assert forall|p: Seq<char>| #[trigger]
                    self.run_files@.contains_key(p) implies self.file_cache_ok(p) by {
                    assert(before.file_cache_ok(p));
                }
                assert forall|k: int| 0 <= k < self.new_files@.len() implies #[trigger]
                    self.file_row_ok(k) by {
                    assert(before.file_row_ok(k));
                }
            }
            return FolderInsertion { created: false, id };
        }
        let id = self.next_folder_id;
        self.new_folders.push(FolderRow { id, path: path.to_owned() });
        self.run_folders.insert(path.to_owned(), id);
        self.next_folder_id = id + 1;
        proof {
            assert(self@.folders =~= before@.with_folder(path@).folders);
            assert(self@.files =~= before@.files);
            assert forall|p: Seq<char>| #[trigger]
                self.run_folders@.contains_key(p) implies self.folder_cache_ok(p) by {
                if p != path@ {
                    assert(before.folder_cache_ok(p));
                }
            }
            assert forall|k: int| 0 <= k < self.new_folders@.len() implies #[trigger]
                self.folder_row_ok(k) by {
                if k < before.new_folders@.len() {
                    assert(before.folder_row_ok(k));
                    assert(before.run_folders@.contains_key(before.new_folders@[k].path@));
                }
            }
            assert forall|p: Seq<char>| #[trigger]
                self.run_files@.contains_key(p) implies self.file_cache_ok(p) by {
                assert(before.file_cache_ok(p));
            }
            assert forall|k: int| 0 <= k < self.new_files@.len() implies #[trigger]
                self.file_row_ok(k) by {
                assert(before.file_row_ok(k));
            }
            assert(self.pending_folders() =~= before.pending_folders().push((path@, id as int)));
        }
        FolderInsertion { created: true, id }
    }

    /// Insert-or-ignore of the file `path` under the folder `parent`.
    ///
    /// The parent folder is resolved first and gets a row if it has none, so
    /// that the file row can refer to it. A file whose path has a row is then
    /// left as it is; otherwise a row is created under the next file id, as
    /// part of the open transaction.
    pub fn insert_file(&mut self, path: &str, parent: &str) -> (done: FileInsertion)
        requires
            old(self).wf(),
            old(self)@.folders.contains_key(parent@) || old(self)@.next_folder_id < i64::MAX,
            old(self)@.files.contains_key(path@) || old(self)@.next_file_id < i64::MAX,
        ensures
            final(self).wf(),
            final(self)@.wf(),
            final(self)@ == old(self)@.with_file(path@, parent@),
            done.created == !old(self)@.files.contains_key(path@),
            done.parent_created == !old(self)@.folders.contains_key(parent@),
            final(self)@.folders[parent@] == done.folder_id,
            final(self).committed() == old(self).committed(),
            final(self).pending_folders() == if done.parent_created {
                old(self).pending_folders().push((parent@, done.folder_id as int))
            } else {
                old(self).pending_folders()
            },
            final(self).pending_files() == if done.created {
                old(self).pending_files().push(
                    (path@, final(self)@.files[path@].id, done.folder_id as int),
                )
            } else {
                old(self).pending_files()
            },
    {
        let ghost start = *self;
        let housed = self.insert_folder(parent);
        let ghost before = *self;
        proof {
            lemma_with_file(start@, path@, parent@);
        }
        if self.run_files.contains_key(path) || self.committed_files.contains_key(path) {
            return FileInsertion {
                created: false,
                parent_created: housed.created,
                folder_id: housed.id,
            };
        }
        let id = self.next_file_id;
        self.new_files.push(FileRow { id, path: path.to_owned(), folder_id: housed.id });
        self.run_files.insert(path.to_owned(), FileRef { id, folder_id: housed.id });
        self.next_file_id = id + 1;
        proof {
            assert(self@.folders =~= before@.folders);
            assert(self@.files =~= start@.with_file(path@, parent@).files);
            assert forall|p: Seq<char>| #[trigger]
                self.run_folders@.contains_key(p) implies self.folder_cache_ok(p) by {
                assert(before.folder_cache_ok(p));
            }
            assert forall|k: int| 0 <= k < self.new_folders@.len() implies #[trigger]
                self.folder_row_ok(k) by {
                assert(before.folder_row_ok(k));
            }
            assert forall|p: Seq<char>| #[trigger]
                self.run_files@.contains_key(p) implies self.file_cache_ok(p) by {
                if p != path@ {
                    assert(before.file_cache_ok(p));
                }
            }
            assert forall|k: int| 0 <= k < self.new_files@.len() implies #[trigger]
                self.file_row_ok(k) by {
                if k < before.new_files@.len() {
                    assert(before.file_row_ok(k));
                    assert(before.run_files@.contains_key(before.new_files@[k].path@));
                }
            }
            assert(self.pending_files() =~= before.pending_files().push(
                (path@, id as int, housed.id as int),
            ));
        }
        FileInsertion { created: true, parent_created: housed.created, folder_id: housed.id }
    }

    /// Commits the open transaction: its rows become committed rows, and a
    /// new transaction begins. The catalog itself does not change. The rows
    /// of the transaction are returned in the order they were written.
    pub fn commit(&mut self) -> (written: Written)
        requires
            old(self).wf(),
        ensures
            final(self).wf(),
            final(self)@ == old(self)@,
            final(self).committed() == old(self)@,
            final(self).pending_folders().len() == 0,
            final(self).pending_files().len() == 0,
            folder_pairs(written.folders@) == old(self).pending_folders(),
            file_triples(written.files@) == old(self).pending_files(),
            records(written, old(self).committed(), final(self)@),
    {
        let ghost before = *self;
        let mut run_folders: StringHashMap<i64> = StringHashMap::new();
        let mut run_files: StringHashMap<FileRef> = StringHashMap::new();
        let mut folders: Vec<FolderRow> = Vec::new();
        let mut files: Vec<FileRow> = Vec::new();
        std::mem::swap(&mut self.run_folders, &mut run_folders);
        std::mem::swap(&mut self.run_files, &mut run_files);
        std::mem::swap(&mut self.new_folders, &mut folders);
        std::mem::swap(&mut self.new_files, &mut files);
        self.committed_folders.union_prefer_right(run_folders);
        self.committed_files.union_prefer_right(run_files);
        self.base_folder_id = self.next_folder_id;
        self.base_file_id = self.next_file_id;
        proof {
            assert(self@.folders =~= before@.folders);
            assert(self@.files =~= before@.files);
            assert(self.committed().folders =~= before@.folders);
            assert(self.committed().files =~= before@.files);
            assert forall|k: int| 0 <= k < folders@.len() implies {
                let row = #[trigger] folders@[k];
                &&& row.id == before.base_folder_id + k
                &&& self@.folders.contains_key(row.path@)
                &&& self@.folders[row.path@] == row.id
            } by {
                assert(before.folder_row_ok(k));
            }
            assert forall|k: int| 0 <= k < files@.len() implies {
                let row = #[trigger] files@[k];
                &&& row.id == before.base_file_id + k
                &&& self@.files.contains_key(row.path@)
                &&& self@.files[row.path@] == (FileEntry {
                    id: row.id as int,
                    folder_id: row.folder_id as int,
                })
            } by {
                assert(before.file_row_ok(k));
            }
            assert forall|p: Seq<char>| #[trigger]
                self@.folders.contains_key(p) implies before.committed().folders.contains_key(p)
                || folder_named(folders@, folders@.len() as int, p) by {
                if !before.committed().folders.contains_key(p) {
                    assert(before.run_folders@.contains_key(p));
                    assert(before.folder_cache_ok(p));
                    let k = before.run_folders@[p] - before.base_folder_id;
                    assert(folders@[k].path@ == p);
                }
            }
            assert forall|p: Seq<char>| #[trigger]
                self@.files.contains_key(p) implies before.committed().files.contains_key(p)
                || file_named(files@, files@.len() as int, p) by {
                if !before.committed().files.contains_key(p) {
                    assert(before.run_files@.contains_key(p));
                    assert(before.file_cache_ok(p));
                    let k = before.run_files@[p].id - before.base_file_id;
                    assert(files@[k].path@ == p);
                }
            }
        }
        Written { folders, files }
    }

    /// Rolls the open transaction back: its rows are dropped, the ids they
    /// took are free again, and a new transaction begins. The catalog is
    /// what it was when the transaction began.
    pub fn rollback(&mut self)
        requires
            old(self).wf(),
        ensures
            final(self).wf(),
            final(self)@ == old(self).committed(),
            final(self).committed() == old(self).committed(),
            final(self).pending_folders().len() == 0,
            final(self).pending_files().len() == 0,
    {
        let ghost before = *self;
        self.run_folders.clear();
        self.run_files.clear();
        self.new_folders.clear();
        self.new_files.clear();
        self.next_folder_id = self.base_folder_id;
        self.next_file_id = self.base_file_id;
        proof {
            assert(self@.folders =~= before.committed().folders);
            assert(self@.files =~= before.committed().files);
        }
    }
}

/// Why stored rows cannot be the rows of a catalog. Each fault names the
/// index of the first row that has it.
#[derive(Debug, Clone, Copy, PartialEq, Eq, Structural)]
pub enum RestoreError {
    /// The id of the folder row is not its position counted from 1, or is
    /// the largest id there is.
    FolderId { index: usize },
    /// An earlier folder row has the same path.
    FolderPath { index: usize },
    /// The id of the file row is not its position counted from 1, or is the
    /// largest id there is.
    FileId { index: usize },
    /// The folder id of the file row is the id of no folder row.
    FileFolder { index: usize },
    /// An earlier file row has the same path.
    FilePath { index: usize },
}

/// Whether one of the first `n` folder rows has the path `path`.
pub open spec fn folder_named(folders: Seq<FolderRow>, n: int, path: Seq<char>) -> bool {
    exists|j: int| 0 <= j < n && (#[trigger] folders[j]).path@ == path
}

/// Whether one of the first `n` file rows has the path `path`.
pub open spec fn file_named(files: Seq<FileRow>, n: int, path: Seq<char>) -> bool {
    exists|j: int| 0 <= j < n && (#[trigger] files[j]).path@ == path
}

/// The fault of the folder row at `k`, if it has one.
pub open spec fn folder_fault(folders: Seq<FolderRow>, k: int) -> Option<RestoreError> {
    if folders[k].id != k + 1 || folders[k].id == i64::MAX {
        Some(RestoreError::FolderId { index: k as usize })
    } else if folder_named(folders, k, folders[k].path@) {
        Some(RestoreError::FolderPath { index: k as usize })
    } else {
        None
    }
}

/// The fault of the file row at `k`, if it has one.
pub open spec fn file_fault(folders: Seq<FolderRow>, files: Seq<FileRow>, k: int) -> Option<
    RestoreError,
> {
    if files[k].id != k + 1 || files[k].id == i64::MAX {
        Some(RestoreError::FileId { index: k as usize })
    } else if !(1 <= files[k].folder_id <= folders.len()) {
        Some(RestoreError::FileFolder { index: k as usize })
    } else if file_named(files, k, files[k].path@) {
        Some(RestoreError::FilePath { index: k as usize })
    } else {
        None
    }
}

/// The fault of the first faulty row among the first `n` folder rows.
pub open spec fn first_folder_fault(folders: Seq<FolderRow>, n: int) -> Option<RestoreError>
    decreases n,
{
    if n <= 0 {
        None
    } else {
        match first_folder_fault(folders, n - 1) {
            Some(fault) => Some(fault),
            None => folder_fault(folders, n - 1),
        }
    }
}

/// The fault of the first faulty row among the first `n` file rows.
pub open spec fn first_file_fault(folders: Seq<FolderRow>, files: Seq<FileRow>, n: int) -> Option<
    RestoreError,
>
    decreases n,
{
    if n <= 0 {
        None
    } else {
        match first_file_fault(folders, files, n - 1) {
            Some(fault) => Some(fault),
            None => file_fault(folders, files, n - 1),
        }
    }
}

/// A fault, once found, is the first fault of every longer list of rows.
proof fn lemma_folder_fault_stays(folders: Seq<FolderRow>, i: int, n: int)
    requires
        0 <= i < n,
        first_folder_fault(folders, i) is None,
        folder_fault(folders, i) is Some,
    ensures
        first_folder_fault(folders, n) == folder_fault(folders, i),
    decreases n - i,
{
    if n > i + 1 {
        lemma_folder_fault_stays(folders, i, n - 1);
    }
}

/// A fault, once found, is the first fault of every longer list of rows.
proof fn lemma_file_fault_stays(folders: Seq<FolderRow>, files: Seq<FileRow>, i: int, n: int)
    requires
        0 <= i < n,
        first_file_fault(folders, files, i) is None,
        file_fault(folders, files, i) is Some,
    ensures
        first_file_fault(folders, files, n) == file_fault(folders, files, i),
    decreases n - i,
{
    if n > i + 1 {
        lemma_file_fault_stays(folders, files, i, n - 1);
    }
}

/// The first fault of stored rows, folder rows before file rows; `None` if
/// the rows are the rows of a catalog.
pub open spec fn restore_fault(folders: Seq<FolderRow>, files: Seq<FileRow>) -> Option<
    RestoreError,
> {
    match first_folder_fault(folders, folders.len() as int) {
        Some(fault) => Some(fault),
        None => first_file_fault(folders, files, files.len() as int),
    }
}

/// Whether the catalog holds the first `n` folder rows and the first `m`
/// file rows, and nothing else.
pub open spec fn holds_rows(
    catalog: CatalogModel,
    folders: Seq<FolderRow>,
    n: int,
    files: Seq<FileRow>,
    m: int,
) -> bool {
    &&& catalog.next_folder_id == n + 1
    &&& catalog.next_file_id == m + 1
    &&& forall|k: int|
        0 <= k < n ==> {
            let row = #[trigger] folders[k];
            catalog.folders.contains_key(row.path@) && catalog.folders[row.path@] == row.id
        }
    &&& forall|p: Seq<char>| #[trigger]
        catalog.folders.contains_key(p) ==> folder_named(folders, n, p)
    &&& forall|k: int|
        0 <= k < m ==> {
            let row = #[trigger] files[k];
            catalog.files.contains_key(row.path@) && catalog.files[row.path@] == (FileEntry {
                id: row.id as int,
                folder_id: row.folder_id as int,
            })
        }
    &&& forall|p: Seq<char>| #[trigger] catalog.files.contains_key(p) ==> file_named(files, m, p)
}

impl Catalog {
    /// The store that holds the given rows as committed rows.
    ///
    /// The rows are those of a catalog if the ids of each table count up
    /// from 1 in row order, no path occurs twice in a table, and every file
    /// row refers to a folder row. If they are, the store holds exactly
    /// these rows; if not, the first fault is reported.
    pub fn restore(folders: &Vec<FolderRow>, files: &Vec<FileRow>) -> (restored: Result<
        Catalog,
        RestoreError,
    >)
        ensures
            match restored {
                Ok(catalog) => {
                    &&& restore_fault(folders@, files@) is None
                    &&& catalog.wf()
                    &&& catalog.committed() == catalog@
                    &&& catalog.pending_folders().len() == 0
                    &&& catalog.pending_files().len() == 0
                    &&& holds_rows(
                        catalog@,
                        folders@,
                        folders@.len() as int,
                        files@,
                        files@.len() as int,
                    )
                },
                Err(fault) => restore_fault(folders@, files@) == Some(fault),
            },
    {
        let mut catalog = Catalog::new();
        let mut i: usize = 0;
        while i < folders.len()
            invariant
                i <= folders@.len(),
                catalog.wf(),
                first_folder_fault(folders@, i as int) is None,
                forall|k: int| 0 <= k < i ==> (#[trigger] folders@[k]).id == k + 1,
                holds_rows(catalog@, folders@, i as int, files@, 0),
            decreases folders@.len() - i,
        {
            let row = &folders[i];
            if row.id != catalog.next_folder_id || row.id == i64::MAX {
                proof {
                    lemma_folder_fault_stays(folders@, i as int, folders@.len() as int);
                }
                return Err(RestoreError::FolderId { index: i });
            }
            if catalog.folder_id(row.path.as_str()).is_some() {
                proof {
                    lemma_folder_fault_stays(folders@, i as int, folders@.len() as int);
                }
                return Err(RestoreError::FolderPath { index: i });
            }
            let ghost before = catalog@;
            catalog.insert_folder(row.path.as_str());
            proof {
                if folder_named(folders@, i as int, row.path@) {
                    let j = choose|j: int|
                        0 <= j < i && (#[trigger] folders@[j]).path@ == row.path@;
                    assert(before.folders.contains_key(folders@[j].path@));
                }
                assert(folder_fault(folders@, i as int) is None);
                assert forall|k: int| 0 <= k < i + 1 implies {
                    let r = #[trigger] folders@[k];
                    catalog@.folders.contains_key(r.path@) && catalog@.folders[r.path@] == r.id
                } by {
                    if k < i {
                        assert(before.folders.contains_key(folders@[k].path@));
                    }
                }
                assert forall|p: Seq<char>| #[trigger]
                    catalog@.folders.contains_key(p) implies folder_named(
                    folders@,
                    i + 1,
                    p,
                ) by {
                    if p == row.path@ {
                        assert(folders@[i as int].path@ == p);
                    } else {
                        assert(before.folders.contains_key(p));
                        let j = choose|j: int|
                            0 <= j < i && (#[trigger] folders@[j]).path@ == p;
                        assert(folders@[j].path@ == p);
                    }
                }
            }
            i += 1;
        }
        let mut j: usize = 0;
        while j < files.len()
            invariant
                j <= files@.len(),
                catalog.wf(),
                first_folder_fault(folders@, folders@.len() as int) is None,
                first_file_fault(folders@, files@, j as int) is None,
                forall|k: int| 0 <= k < folders@.len() ==> (#[trigger] folders@[k]).id == k + 1,
                holds_rows(catalog@, folders@, folders@.len() as int, files@, j as int),
            decreases files@.len() - j,
        {
            let row = &files[j];
            if row.id != catalog.next_file_id || row.id == i64::MAX {
                proof {
                    lemma_file_fault_stays(folders@, files@, j as int, files@.len() as int);
                }
                return Err(RestoreError::FileId { index: j });
            }
            if row.folder_id < 1 || row.folder_id >= catalog.next_folder_id {
                proof {
                    lemma_file_fault_stays(folders@, files@, j as int, files@.len() as int);
                }
                return Err(RestoreError::FileFolder { index: j });
            }
            if catalog.has_file(row.path.as_str()) {
                proof {
                    lemma_file_fault_stays(folders@, files@, j as int, files@.len() as int);
                }
                return Err(RestoreError::FilePath { index: j });
            }
            let count: usize = folders.len();
            assert(0 <= row.folder_id - 1 < count);
            let at: usize = (row.folder_id - 1) as usize;
            let parent = &folders[at];
            let ghost before = catalog@;
            proof {
                assert(folders@[at as int].id == at + 1);
                assert(before.folders.contains_key(parent.path@));
                assert(before.folders[parent.path@] == row.folder_id);
                if file_named(files@, j as int, row.path@) {
                    let k = choose|k: int| 0 <= k < j && (#[trigger] files@[k]).path@ == row.path@;
                    assert(before.files.contains_key(files@[k].path@));
                }
                assert(file_fault(folders@, files@, j as int) is None);
            }
            catalog.insert_file(row.path.as_str(), parent.path.as_str());
            proof {
                assert(catalog@.folders =~= before.folders);
                assert forall|k: int| 0 <= k < j + 1 implies {
                    let r = #[trigger] files@[k];
                    catalog@.files.contains_key(r.path@) && catalog@.files[r.path@] == (FileEntry {
                        id: r.id as int,
                        folder_id: r.folder_id as int,
                    })
                } by {
                    if k < j {
                        assert(before.files.contains_key(files@[k].path@));
                        assert(files@[k].path@ != row.path@);
                    } else {
                        assert(before.with_folder(parent.path@) == before);
                    }
                }
                assert forall|p: Seq<char>| #[trigger]
                    catalog@.files.contains_key(p) implies file_named(files@, j + 1, p) by {
                    if p == row.path@ {
                        assert(files@[j as int].path@ == p);
                    } else {
                        assert(before.files.contains_key(p));
                        let k = choose|k: int| 0 <= k < j && (#[trigger] files@[k]).path@ == p;
                        assert(files@[k].path@ == p);
                    }
                }
            }
            j += 1;
        }
        catalog.commit();
        Ok(catalog)
    }
}

/// Rows without a fault of their own have no first fault.
proof fn lemma_no_folder_fault(folders: Seq<FolderRow>, n: int)
    requires
        forall|k: int| 0 <= k < n ==> #[trigger] folder_fault(folders, k) is None,
    ensures
        first_folder_fault(folders, n) is None,
    decreases n,
{
    if n > 0 {
        lemma_no_folder_fault(folders, n - 1);
    }
}

/// Rows without a fault of their own have no first fault.
proof fn lemma_no_file_fault(folders: Seq<FolderRow>, files: Seq<FileRow>, n: int)
    requires
        forall|k: int| 0 <= k < n ==> #[trigger] file_fault(folders, files, k) is None,
    ensures
        first_file_fault(folders, files, n) is None,
    decreases n,
{
    if n > 0 {
        lemma_no_file_fault(folders, files, n - 1);
    }
}

/// Rows without a first fault have no fault of their own.
proof fn lemma_each_folder_sound(folders: Seq<FolderRow>, n: int, k: int)
    requires
        first_folder_fault(folders, n) is None,
        0 <= k < n,
    ensures
        folder_fault(folders, k) is None,
    decreases n,
{
    if k < n - 1 {
        lemma_each_folder_sound(folders, n - 1, k);
    }
}

/// Rows without a first fault have no fault of their own.
proof fn lemma_each_file_sound(folders: Seq<FolderRow>, files: Seq<FileRow>, n: int, k: int)
    requires
        first_file_fault(folders, files, n) is None,
        0 <= k < n,
    ensures
        file_fault(folders, files, k) is None,
    decreases n,
{
    if k < n - 1 {
        lemma_each_file_sound(folders, files, n - 1, k);
    }
}

/// What is written can be read back: if stored rows are the rows of a
/// catalog, and a transaction on that catalog is committed, then the stored
/// rows followed by the rows of the transaction are the rows of the catalog
/// that the transaction left. So a catalog file to which every run appends
/// its rows stays a catalog, run after run.
pub proof fn lemma_written_rows_restore(
    folders: Seq<FolderRow>,
    files: Seq<FileRow>,
    since: CatalogModel,
    written: Written,
    now: CatalogModel,
)
    requires
        restore_fault(folders, files) is None,
        holds_rows(since, folders, folders.len() as int, files, files.len() as int),
        since.wf(),
        now.wf(),
        since.within(now),
        now.next_folder_id <= i64::MAX,
        now.next_file_id <= i64::MAX,
        records(written, since, now),
    ensures
        restore_fault(folders + written.folders@, files + written.files@) is None,
        holds_rows(
            now,
            folders + written.folders@,
            (folders + written.folders@).len() as int,
            files + written.files@,
            (files + written.files@).len() as int,
        ),
{
    let all_folders = folders + written.folders@;
    let all_files = files + written.files@;
    let n = folders.len() as int;
    let m = files.len() as int;
    // Every folder row of the catalog is listed, and listed at its id.
    assert forall|p: Seq<char>| #[trigger] now.folders.contains_key(p) implies folder_named(
        all_folders,
        all_folders.len() as int,
        p,
    ) by {
        if since.folders.contains_key(p) {
            let j = choose|j: int| 0 <= j < n && (#[trigger] folders[j]).path@ == p;
            assert(all_folders[j] == folders[j]);
        } else {
            let k = choose|k: int|
                0 <= k < written.folders@.len() && (#[trigger] written.folders@[k]).path@ == p;
            assert(all_folders[n + k] == written.folders@[k]);
        }
    }
    assert forall|p: Seq<char>| #[trigger] now.files.contains_key(p) implies file_named(
        all_files,
        all_files.len() as int,
        p,
    ) by {
        if since.files.contains_key(p) {
            let j = choose|j: int| 0 <= j < m && (#[trigger] files[j]).path@ == p;
            assert(all_files[j] == files[j]);
        } else {
            let k = choose|k: int|
                0 <= k < written.files@.len() && (#[trigger] written.files@[k]).path@ == p;
            assert(all_files[m + k] == written.files@[k]);
        }
    }
    assert forall|k: int| 0 <= k < all_folders.len() implies {
        let row = #[trigger] all_folders[k];
        now.folders.contains_key(row.path@) && now.folders[row.path@] == row.id && row.id == k + 1
    } by {
        if k < n {
            assert(all_folders[k] == folders[k]);
            lemma_each_folder_sound(folders, n, k);
            assert(since.folders.contains_key(folders[k].path@));
        } else {
            assert(all_folders[k] == written.folders@[k - n]);
        }
    }
    assert forall|k: int| 0 <= k < all_files.len() implies {
        let row = #[trigger] all_files[k];
        now.files.contains_key(row.path@) && now.files[row.path@] == (FileEntry {
            id: row.id as int,
            folder_id: row.folder_id as int,
        }) && row.id == k + 1
    } by {
        if k < m {
            assert(all_files[k] == files[k]);
            lemma_each_file_sound(folders, files, m, k);
            assert(since.files.contains_key(files[k].path@));
        } else {
            assert(all_files[k] == written.files@[k - m]);
        }
    }
    // No row has a fault.
    assert forall|k: int| 0 <= k < all_folders.len() implies #[trigger] folder_fault(
        all_folders,
        k,
    ) is None by {
        let row = all_folders[k];
        assert(now.folders[row.path@] == row.id);
        if folder_named(all_folders, k, row.path@) {
            let j = choose|j: int| 0 <= j < k && (#[trigger] all_folders[j]).path@ == row.path@;
            assert(now.folders[all_folders[j].path@] == all_folders[j].id);
        }
    }
    assert forall|k: int| 0 <= k < all_files.len() implies #[trigger] file_fault(
        all_folders,
        all_files,
        k,
    ) is None by {
        let row = all_files[k];
        assert(now.files[row.path@].id == row.id);
        if file_named(all_files, k, row.path@) {
            let j = choose|j: int| 0 <= j < k && (#[trigger] all_files[j]).path@ == row.path@;
            assert(now.files[all_files[j].path@].id == all_files[j].id);
        }
        assert(now.has_folder_id(row.folder_id as int));
        let q = choose|q: Seq<char>| #[trigger]
            now.folders.contains_key(q) && now.folders[q] == row.folder_id;
        assert(folder_named(all_folders, all_folders.len() as int, q));
        let at = choose|at: int|
            0 <= at < all_folders.len() && (#[trigger] all_folders[at]).path@ == q;
        assert(all_folders[at].id == at + 1);
    }
    lemma_no_folder_fault(all_folders, all_folders.len() as int);
    lemma_no_file_fault(all_folders, all_files, all_files.len() as int);
}

} // verus!
