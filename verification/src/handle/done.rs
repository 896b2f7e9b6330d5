//! Marking notes done.
use vstd::prelude::*;
use crate::handle::pin::Outcome;
use crate::seqs::{any, with_id};
use crate::storage::{has_id, DataBaseStorage};

verus! {

/// `note done`: marks an existing note done (a done note stays listed once).
pub fn handle(id: u32, storage: &mut DataBaseStorage) -> (r: Outcome)
    ensures
        !any(old(storage).notes(), has_id(id)) ==> r == Outcome::NotFound && *final(storage) == *old(storage),
        any(old(storage).notes(), has_id(id)) ==> r == Outcome::Changed && final(storage).done()
            == with_id(old(storage).done(), id) && final(storage).pinned() == old(storage).pinned() && final(storage).archived() == old(
            storage,
        ).archived() && final(storage).same_but_status(old(storage)),
{
    if !storage.id_exists(id) {
        return Outcome::NotFound;
    }
    storage.done_note(id);
    Outcome::Changed
}

} // verus!
