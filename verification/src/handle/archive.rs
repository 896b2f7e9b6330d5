//! Archiving and unarchiving notes.
use vstd::prelude::*;
use crate::handle::pin::Outcome;
use crate::seqs::{any, without};
use crate::storage::{has_id, DataBaseStorage};

verus! {

/// `note archive`: archives an existing note that is not archived yet.
pub fn archive(id: u32, storage: &mut DataBaseStorage) -> (r: Outcome)
    ensures
        !any(old(storage).notes(), has_id(id)) ==> r == Outcome::NotFound && *final(storage) == *old(storage),
        any(old(storage).notes(), has_id(id)) && old(storage).archived().contains(id) ==> r == Outcome::Unchanged
            && *final(storage) == *old(storage),
        any(old(storage).notes(), has_id(id)) && !old(storage).archived().contains(id) ==> r == Outcome::Changed
            && final(storage).archived() == old(storage).archived().push(id)
            && final(storage).pinned() == old(storage).pinned()
            && final(storage).done() == old(storage).done()
            && final(storage).same_but_status(old(storage)),
{
    if !storage.id_exists(id) {
        return Outcome::NotFound;
    }
    if storage.is_archived(id) {
        return Outcome::Unchanged;
    }
    storage.archive_note(id);
    Outcome::Changed
}

/// `note unarchive`: takes an existing archived note out of the archive.
pub fn unarchive(id: u32, storage: &mut DataBaseStorage) -> (r: Outcome)
    ensures
        !any(old(storage).notes(), has_id(id)) ==> r == Outcome::NotFound && *final(storage) == *old(storage),
        any(old(storage).notes(), has_id(id)) && !old(storage).archived().contains(id) ==> r == Outcome::Unchanged
            && *final(storage) == *old(storage),
        any(old(storage).notes(), has_id(id)) && old(storage).archived().contains(id) ==> r == Outcome::Changed
            && final(storage).archived() == without(old(storage).archived(), id)
            && final(storage).pinned() == old(storage).pinned()
            && final(storage).done() == old(storage).done()
            && final(storage).same_but_status(old(storage)),
{
    if !storage.id_exists(id) {
        return Outcome::NotFound;
    }
    if !storage.is_archived(id) {
        return Outcome::Unchanged;
    }
    storage.unarchive_note(id);
    Outcome::Changed
}

} // verus!
