//! Pinning and unpinning notes.
use vstd::prelude::*;
use crate::seqs::{any, without};
use crate::storage::{has_id, DataBaseStorage};

verus! {

/// What a status command did.
#[derive(Debug, Clone, Copy, PartialEq, Eq, Structural)]
pub enum Outcome {
    /// No note has the id; nothing changed.
    NotFound,
    /// The note already had the status asked for; nothing changed.
    Unchanged,
    /// The note's status changed.
    Changed,
}

/// `note pin`: pins an existing note that is not pinned yet.
pub fn pin(id: u32, storage: &mut DataBaseStorage) -> (r: Outcome)
    ensures
        !any(old(storage).notes(), has_id(id)) ==> r == Outcome::NotFound && *final(storage) == *old(storage),
        any(old(storage).notes(), has_id(id)) && old(storage).pinned().contains(id) ==> r == Outcome::Unchanged
            && *final(storage) == *old(storage),
        any(old(storage).notes(), has_id(id)) && !old(storage).pinned().contains(id) ==> r == Outcome::Changed
            && final(storage).pinned() == old(storage).pinned().push(id)
            && final(storage).archived() == old(storage).archived()
            && final(storage).done() == old(storage).done()
            && final(storage).same_but_status(old(storage)),
{
    if !storage.id_exists(id) {
        return Outcome::NotFound;
    }
    if storage.is_pinned(id) {
        return Outcome::Unchanged;
    }
    storage.pin_note(id);
    Outcome::Changed
}

/// `note unpin`: unpins an existing pinned note.
pub fn unpin(id: u32, storage: &mut DataBaseStorage) -> (r: Outcome)
    ensures
        !any(old(storage).notes(), has_id(id)) ==> r == Outcome::NotFound && *final(storage) == *old(storage),
        any(old(storage).notes(), has_id(id)) && !old(storage).pinned().contains(id) ==> r == Outcome::Unchanged
            && *final(storage) == *old(storage),
        any(old(storage).notes(), has_id(id)) && old(storage).pinned().contains(id) ==> r == Outcome::Changed
            && final(storage).pinned() == without(old(storage).pinned(), id)
            && final(storage).archived() == old(storage).archived()
            && final(storage).done() == old(storage).done()
            && final(storage).same_but_status(old(storage)),
{
    if !storage.id_exists(id) {
        return Outcome::NotFound;
    }
    if !storage.is_pinned(id) {
        return Outcome::Unchanged;
    }
    storage.unpin_note(id);
    Outcome::Changed
}

} // verus!
