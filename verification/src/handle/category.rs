//! The category commands: listing with counts, renaming and deleting.
use vstd::prelude::*;
use crate::model::{CategoryView, NoteView};
use crate::seqs::any;
use crate::storage::{
    category_is, category_named, default_name, note_ids, not_named, rename_category_in,
    rename_category_named, reset_category_of, DataBaseStorage,
};
use crate::time::{local_now, ts_valid, Timestamp};

verus! {

/// A category with the number of notes in it.
pub struct CategoryRow {
    pub id: u32,
    pub name: String,
    pub count: usize,
}

/// The number of notes in the category named `name`.
pub open spec fn notes_in(notes: Seq<NoteView>, name: Seq<char>) -> nat {
    notes.filter(category_is(name)).len()
}

/// Each category with the number of notes whose category has its name.
pub fn list(storage: &DataBaseStorage) -> (r: Vec<CategoryRow>)
    ensures
        r@.len() == storage.categories().len(),
        forall|i: int|
            0 <= i < r@.len() ==> (#[trigger] r@[i]).id == storage.categories()[i].id && r@[i].name@
                == storage.categories()[i].name && r@[i].count == notes_in(
                storage.notes(),
                storage.categories()[i].name,
            ),
{
    let cats = storage.list_categories();
    let mut r: Vec<CategoryRow> = Vec::new();
    let mut i: usize = 0;
    while i < cats.len()
        invariant
            i <= cats@.len(),
            crate::model::categories_view(cats@) == storage.categories(),
            r@.len() == i,
            forall|k: int|
                0 <= k < i ==> (#[trigger] r@[k]).id == storage.categories()[k].id && r@[k].name@
                    == storage.categories()[k].name && r@[k].count == notes_in(
                    storage.notes(),
                    storage.categories()[k].name,
                ),
        decreases cats.len() - i,
    {
        let ids = storage.notes_in_category(cats[i].name.as_str());
        assert(storage.categories()[i as int] == cats@[i as int]@);
        r.push(CategoryRow { id: cats[i].id, name: cats[i].name.clone(), count: ids.len() });
        i += 1;
    }
    r
}

/// The categories as a tree: every category is top-level, so each is
/// shown with its note count, in order (as `list`).
pub fn tree(storage: &DataBaseStorage) -> (r: Vec<CategoryRow>)
    ensures
        r@.len() == storage.categories().len(),
        forall|i: int|
            0 <= i < r@.len() ==> (#[trigger] r@[i]).id == storage.categories()[i].id && r@[i].name@
                == storage.categories()[i].name && r@[i].count == notes_in(
                storage.notes(),
                storage.categories()[i].name,
            ),
{
    list(storage)
}

/// Why a category or tag command did nothing.
#[derive(Debug, Clone, Copy, PartialEq, Eq, Structural)]
pub enum CatalogError {
    /// No current name was given.
    MissingOldName,
    /// No new name was given.
    MissingNewName,
    /// No category (or tag) has the name.
    NotFound,
}

/// What `note category rename` does: refused when a name is missing or no
/// category has the old name (nothing changes); else the category and the
/// notes in it are renamed (see `DataBaseStorage::rename_category`), and the
/// ids of the notes whose files are rewritten are given.
pub open spec fn category_rename_outcome(
    old: DataBaseStorage,
    new: DataBaseStorage,
    old_name: Option<String>,
    new_name: Option<String>,
    now: Timestamp,
    r: Result<Vec<u32>, CatalogError>,
) -> bool {
    &&& (match (old_name, new_name) {
            (None, _) => r == Err::<Vec<u32>, CatalogError>(CatalogError::MissingOldName) && new == old,
            (Some(_), None) => r == Err::<Vec<u32>, CatalogError>(CatalogError::MissingNewName)
                && new == old,
            (Some(o), Some(n)) => if !any(old.categories(), category_named(o@)) {
                r == Err::<Vec<u32>, CatalogError>(CatalogError::NotFound) && new == old
            } else {
                &&& r matches Ok(ids)
                &&& r->Ok_0@ == note_ids(new.notes().filter(category_is(n@)))
                &&& new.notes() == old.notes().map_values(
                    rename_category_in(o@, n@, now),
                )
                &&& new.categories() == old.categories().map_values(
                    rename_category_named(o@, n@),
                )
                &&& new.pinned() == old.pinned()
                &&& new.archived() == old.archived()
                &&& new.done() == old.done()
                &&& new.tags() == old.tags()
                &&& new.notes_dir_spec() == old.notes_dir_spec()
                &&& new.index_file_spec() == old.index_file_spec()
            },
        })
}

/// `note category rename` at the time the clock gives.
pub fn rename(
    old_name: &Option<String>,
    new_name: &Option<String>,
    storage: &mut DataBaseStorage,
) -> (r: Result<Vec<u32>, CatalogError>)
    ensures
        exists|now: Timestamp| ts_valid(now) && category_rename_outcome(*old(storage), *final(storage), *old_name, *new_name, now, r),
{
    let now = local_now();
    rename_at(old_name, new_name, storage, now)
}

/// `note category rename` at the time `now`.
pub fn rename_at(
    old_name: &Option<String>,
    new_name: &Option<String>,
    storage: &mut DataBaseStorage,
    now: Timestamp,
) -> (r: Result<Vec<u32>, CatalogError>)
    ensures
        category_rename_outcome(*old(storage), *final(storage), *old_name, *new_name, now, r),
{
    let old = match old_name {
        Some(n) => n,
        None => return Err(CatalogError::MissingOldName),
    };
    let new = match new_name {
        Some(n) => n,
        None => return Err(CatalogError::MissingNewName),
    };
    if !storage.has_category(old.as_str()) {
        return Err(CatalogError::NotFound);
    }
    Ok(storage.rename_category(old.as_str(), new.as_str(), now))
}

/// What deleting a category did or asks for.
pub enum CategoryDeletion {
    /// Nothing was done without `force`; `count` notes are in the category.
    Confirm { count: usize, keep: bool },
    /// The category is gone and its `count` notes moved to `default`; the
    /// files of the notes `rewrite` are rewritten.
    Kept { count: usize, rewrite: Vec<u32> },
    /// The category is gone; its notes `ids` are deleted one by one.
    Deleted { count: usize, ids: Vec<u32> },
}

/// What `note category delete` does: refused when no category has the
/// name; without `force` only the number of its notes is told; with `keep`
/// its notes move to `default` (at time `now`), else they are to be deleted.
pub open spec fn category_delete_outcome(
    old: DataBaseStorage,
    new: DataBaseStorage,
    name: Seq<char>,
    force: bool,
    keep: bool,
    now: Timestamp,
    r: Result<CategoryDeletion, CatalogError>,
) -> bool {
    &&& !any(old.categories(), category_named(name)) ==> r == Err::<CategoryDeletion, CatalogError>(
        CatalogError::NotFound,
    ) && new == old
    &&& any(old.categories(), category_named(name)) ==> (r matches Ok(d) && match d {
        CategoryDeletion::Confirm { count, keep: k } => !force && k == keep && count == notes_in(
            old.notes(),
            name,
        ) && new == old,
        CategoryDeletion::Kept { count, rewrite } => force && keep && count == notes_in(
            old.notes(),
            name,
        ) && new.notes() == old.notes().map_values(reset_category_of(name, now))
            && new.categories() == old.categories().filter(not_named(name)) && rewrite@ == note_ids(
            new.notes().filter(category_is(default_name())),
        ) && new.pinned() == old.pinned() && new.archived() == old.archived() && new.done()
            == old.done() && new.tags() == old.tags(),
        CategoryDeletion::Deleted { count, ids } => force && !keep && count == notes_in(
            old.notes(),
            name,
        ) && ids@ == note_ids(old.notes().filter(category_is(name))) && new.categories()
            == old.categories().filter(not_named(name)) && new.same_but_categories(&old),
    })
}

/// `note category delete` at the time the clock gives.
pub fn delete(
    name: &str,
    force: bool,
    keep: bool,
    storage: &mut DataBaseStorage,
) -> (r: Result<CategoryDeletion, CatalogError>)
    ensures
        exists|now: Timestamp| ts_valid(now) && category_delete_outcome(*old(storage), *final(storage), name@, force, keep, now, r),
{
    let now = local_now();
    delete_at(name, force, keep, storage, now)
}

/// `note category delete` at the time `now`.
pub fn delete_at(
    name: &str,
    force: bool,
    keep: bool,
    storage: &mut DataBaseStorage,
    now: Timestamp,
) -> (r: Result<CategoryDeletion, CatalogError>)
    ensures
        category_delete_outcome(*old(storage), *final(storage), name@, force, keep, now, r),
{
    if !storage.has_category(name) {
        return Err(CatalogError::NotFound);
    }
    let count = storage.notes_in_category(name).len();
    if !force {
        return Ok(CategoryDeletion::Confirm { count, keep });
    }
    if keep {
        let rewrite = storage.delete_category_keep_notes(name, now);
        Ok(CategoryDeletion::Kept { count, rewrite })
    } else {
        let ids = storage.delete_category_with_notes(name);
        Ok(CategoryDeletion::Deleted { count, ids })
    }
}

} // verus!
