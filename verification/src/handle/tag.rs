//! The tag commands: listing with counts, renaming and deleting.
use vstd::prelude::*;
use crate::handle::category::CatalogError;
use crate::model::NoteView;
use crate::seqs::any;
use crate::storage::{
    carries_tag, drop_tag_in, note_ids, rename_tag_in, rename_tag_named, tag_named,
    tag_not_named, DataBaseStorage,
};
use crate::time::{local_now, ts_valid, Timestamp};

verus! {

/// A tag with the number of notes that carry it.
pub struct TagRow {
    pub id: u32,
    pub name: String,
    pub count: usize,
}

/// The number of notes carrying a tag named `name`.
pub open spec fn notes_carrying(notes: Seq<NoteView>, name: Seq<char>) -> nat {
    notes.filter(carries_tag(name)).len()
}

/// Each tag with the number of notes that carry a tag of its name.
pub fn list(storage: &DataBaseStorage) -> (r: Vec<TagRow>)
    ensures
        r@.len() == storage.tags().len(),
        forall|i: int|
            0 <= i < r@.len() ==> (#[trigger] r@[i]).id == storage.tags()[i].id && r@[i].name@
                == storage.tags()[i].name && r@[i].count == notes_carrying(
                storage.notes(),
                storage.tags()[i].name,
            ),
{
    let tags = storage.list_tags();
    let mut r: Vec<TagRow> = Vec::new();
    let mut i: usize = 0;
    while i < tags.len()
        invariant
            i <= tags@.len(),
            crate::model::tags_view(tags@) == storage.tags(),
            r@.len() == i,
            forall|k: int|
                0 <= k < i ==> (#[trigger] r@[k]).id == storage.tags()[k].id && r@[k].name@
                    == storage.tags()[k].name && r@[k].count == notes_carrying(
                    storage.notes(),
                    storage.tags()[k].name,
                ),
        decreases tags.len() - i,
    {
        let ids = storage.notes_with_tag(tags[i].name.as_str());
        assert(storage.tags()[i as int] == tags@[i as int]@);
        r.push(TagRow { id: tags[i].id, name: tags[i].name.clone(), count: ids.len() });
        i += 1;
    }
    r
}

/// What `note tag rename` does: refused when a name is missing or no tag
/// has the old name (nothing changes); else the tag is renamed in the tag
/// list and in every note (see `DataBaseStorage::rename_tag`), and the ids
/// of the notes whose files are rewritten are given.
pub open spec fn tag_rename_outcome(
    old: DataBaseStorage,
    new: DataBaseStorage,
    old_name: Option<String>,
    new_name: Option<String>,
    now: Timestamp,
    r: Result<Vec<u32>, CatalogError>,
) -> bool {
    &&& (match (old_name, new_name) {
            (None, _) => r == Err::<Vec<u32>, CatalogError>(CatalogError::MissingOldName) && new == old,
            (Some(_), None) => r == Err::<Vec<u32>, CatalogError>(CatalogError::MissingNewName)
                && new == old,
            (Some(o), Some(n)) => if !any(old.tags(), tag_named(o@)) {
                r == Err::<Vec<u32>, CatalogError>(CatalogError::NotFound) && new == old
            } else {
                &&& r matches Ok(ids)
                &&& r->Ok_0@ == note_ids(new.notes().filter(carries_tag(n@)))
                &&& new.notes() == old.notes().map_values(
                    rename_tag_in(o@, n@, now),
                )
                &&& new.tags() == old.tags().map_values(
                    rename_tag_named(o@, n@),
                )
                &&& new.pinned() == old.pinned()
                &&& new.archived() == old.archived()
                &&& new.done() == old.done()
                &&& new.categories() == old.categories()
                &&& new.notes_dir_spec() == old.notes_dir_spec()
                &&& new.index_file_spec() == old.index_file_spec()
            },
        })
}

/// `note tag rename` at the time the clock gives.
pub fn rename(
    old_name: &Option<String>,
    new_name: &Option<String>,
    storage: &mut DataBaseStorage,
) -> (r: Result<Vec<u32>, CatalogError>)
    ensures
        exists|now: Timestamp| ts_valid(now) && tag_rename_outcome(*old(storage), *final(storage), *old_name, *new_name, now, r),
{
    let now = local_now();
    rename_at(old_name, new_name, storage, now)
}

/// `note tag rename` at the time `now`.
pub fn rename_at(
    old_name: &Option<String>,
    new_name: &Option<String>,
    storage: &mut DataBaseStorage,
    now: Timestamp,
) -> (r: Result<Vec<u32>, CatalogError>)
    ensures
        tag_rename_outcome(*old(storage), *final(storage), *old_name, *new_name, now, r),
{
    let old = match old_name {
        Some(n) => n,
        None => return Err(CatalogError::MissingOldName),
    };
    let new = match new_name {
        Some(n) => n,
        None => return Err(CatalogError::MissingNewName),
    };
    if !storage.has_tag(old.as_str()) {
        return Err(CatalogError::NotFound);
    }
    Ok(storage.rename_tag(old.as_str(), new.as_str(), now))
}

/// What deleting a tag did or asks for.
pub enum TagDeletion {
    /// Nothing was done without `force`; `count` notes carry the tag.
    Confirm { count: usize },
    /// The tag is gone from the tag list and from every note.
    Deleted,
}

/// `note tag delete`: refused when no tag has the name; without `force`
/// only the number of notes carrying it is told; else it is removed from
/// the tag list and every note.
pub fn delete(name: &str, force: bool, storage: &mut DataBaseStorage) -> (r: Result<TagDeletion, CatalogError>)
    ensures
        !any(old(storage).tags(), tag_named(name@)) ==> r == Err::<TagDeletion, CatalogError>(
            CatalogError::NotFound,
        ) && *final(storage) == *old(storage),
        any(old(storage).tags(), tag_named(name@)) ==> (r matches Ok(d) && match d {
            TagDeletion::Confirm { count } => !force && count == notes_carrying(
                old(storage).notes(),
                name@,
            ) && *final(storage) == *old(storage),
            TagDeletion::Deleted => force && final(storage).tags() == old(storage).tags().filter(
                tag_not_named(name@),
            ) && final(storage).notes() == old(storage).notes().map_values(drop_tag_in(name@))
                && final(storage).pinned() == old(storage).pinned() && final(storage).archived()
                == old(storage).archived() && final(storage).done() == old(storage).done()
                && final(storage).categories() == old(storage).categories(),
        }),
{
    if !storage.has_tag(name) {
        return Err(CatalogError::NotFound);
    }
    if !force {
        let count = storage.notes_with_tag(name).len();
        return Ok(TagDeletion::Confirm { count });
    }
    storage.delete_tag(name);
    Ok(TagDeletion::Deleted)
}

} // verus!
