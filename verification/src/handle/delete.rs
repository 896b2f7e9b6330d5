//! Deleting a note.
use vstd::prelude::*;
use crate::handle::list::{has_all_tags, has_all_tags_exec};
use crate::model::NoteView;
use crate::notefile::sanitized;
use crate::seqs::{any, find_first};
use crate::storage::{has_id, DataBaseStorage};
use crate::text::{str_eq, strings_view};

verus! {

/// Why a note was not deleted.
#[derive(Debug, Clone, Copy, PartialEq, Eq, Structural)]
pub enum DeleteError {
    /// No note has the id.
    NotFound,
    /// The note is archived.
    Archived,
}

/// What deleting a note asks for.
pub enum DeletePlan {
    /// Nothing is done without `force`.
    Confirm,
    /// Remove this file, then the note from the index (`delete_note`).
    Remove { file: String },
}

/// `note delete`: refused for a missing or archived note; without `force`
/// only a confirmation is asked for; else the note's file is named, to be
/// removed before the note leaves the index.
pub fn handle(id: u32, force: bool, storage: &DataBaseStorage) -> (r: Result<DeletePlan, DeleteError>)
    ensures
        !any(storage.notes(), has_id(id)) ==> r == Err::<DeletePlan, DeleteError>(DeleteError::NotFound),
        any(storage.notes(), has_id(id)) && storage.archived().contains(id) ==> r == Err::<
            DeletePlan,
            DeleteError,
        >(DeleteError::Archived),
        any(storage.notes(), has_id(id)) && !storage.archived().contains(id) && !force ==> r matches Ok(
            DeletePlan::Confirm,
        ),
        any(storage.notes(), has_id(id)) && !storage.archived().contains(id) && force ==> (r matches Ok(
            DeletePlan::Remove { file },
        ) && file@ == sanitized(storage.notes()[find_first(storage.notes(), has_id(id))->Some_0].title)
            + ".md"@),
{
    if !storage.id_exists(id) {
        return Err(DeleteError::NotFound);
    }
    if storage.is_archived(id) {
        return Err(DeleteError::Archived);
    }
    if !force {
        return Ok(DeletePlan::Confirm);
    }
    proof {
        crate::seqs::lemma_find_first(storage.notes(), has_id(id));
        reveal_strlit(".md");
        assert(".md"@ =~= seq!['.', 'm', 'd']);
    }
    match storage.note_file_name_of(id) {
        Some(file) => Ok(DeletePlan::Remove { file }),
        None => Err(DeleteError::NotFound),
    }
}

/// A note that `note delete -T ... -c ...` selects: at least one of the
/// two is given, and the note carries every tag and has the category given.
pub open spec fn batch_selects(n: NoteView, tags: Option<Seq<Seq<char>>>, category: Option<Seq<char>>) -> bool {
    &&& (tags is Some || category is Some)
    &&& match tags {
        Some(ts) => has_all_tags(n, ts),
        None => true,
    }
    &&& match category {
        Some(c) => n.category.name == c,
        None => true,
    }
}

/// The ids, in index order, of the notes selected for a batch delete that
/// are archived (`archived_ones`) or not.
pub open spec fn batch_ids(
    notes: Seq<NoteView>,
    archived: Seq<u32>,
    tags: Option<Seq<Seq<char>>>,
    category: Option<Seq<char>>,
    archived_ones: bool,
) -> Seq<u32>
    decreases notes.len(),
{
    if notes.len() == 0 {
        Seq::empty()
    } else {
        let before = batch_ids(notes.drop_last(), archived, tags, category, archived_ones);
        let n = notes.last();
        if batch_selects(n, tags, category) && archived.contains(n.id) == archived_ones {
            before.push(n.id)
        } else {
            before
        }
    }
}

/// The names of an optional list of tags.
pub open spec fn opt_tag_names(o: Option<Vec<String>>) -> Option<Seq<Seq<char>>> {
    match o {
        Some(v) => Some(strings_view(v@)),
        None => None,
    }
}

/// The text of an optional category.
pub open spec fn opt_category(o: Option<String>) -> Option<Seq<char>> {
    match o {
        Some(c) => Some(c@),
        None => None,
    }
}

/// The notes `note delete -T <tags> -c <category>` removes: the ids, in
/// index order, of the selected notes that are not archived, and the ids
/// of the selected ones that are archived (which are kept). Nothing is
/// selected when neither tags nor a category is given.
pub fn batch_targets(tags: &Option<Vec<String>>, category: &Option<String>, storage: &DataBaseStorage) -> (r: (
    Vec<u32>,
    Vec<u32>,
))
    ensures
        r.0@ == batch_ids(storage.notes(), storage.archived(), opt_tag_names(*tags), opt_category(*category), false),
        r.1@ == batch_ids(storage.notes(), storage.archived(), opt_tag_names(*tags), opt_category(*category), true),
{
    let notes = storage.list_notes();
    let ghost sn = storage.notes();
    let ghost ts = opt_tag_names(*tags);
    let ghost cs = opt_category(*category);
    let mut keep: Vec<u32> = Vec::new();
    let mut held: Vec<u32> = Vec::new();
    let mut i: usize = 0;
    while i < notes.len()
        invariant
            i <= notes@.len(),
            notes@.len() == sn.len(),
            sn == storage.notes(),
            ts == opt_tag_names(*tags),
            cs == opt_category(*category),
            forall|k: int| 0 <= k < notes@.len() ==> (#[trigger] notes@[k])@ == sn[k],
            keep@ == batch_ids(sn.take(i as int), storage.archived(), ts, cs, false),
            held@ == batch_ids(sn.take(i as int), storage.archived(), ts, cs, true),
        decreases notes.len() - i,
    {
        let n = notes[i];
        assert(sn.take(i + 1).drop_last() =~= sn.take(i as int));
        assert(sn.take(i + 1).last() == sn[i as int]);
        let tags_ok = match tags {
            Some(t) => has_all_tags_exec(n, t),
            None => true,
        };
        let cat_ok = match category {
            Some(c) => str_eq(n.category.name.as_str(), c.as_str()),
            None => true,
        };
        let selected = (tags.is_some() || category.is_some()) && tags_ok && cat_ok;
        if selected {
            if storage.is_archived(n.id) {
                held.push(n.id);
            } else {
                keep.push(n.id);
            }
        }
        i += 1;
    }
    assert(sn.take(i as int) =~= sn);
    (keep, held)
}

} // verus!
