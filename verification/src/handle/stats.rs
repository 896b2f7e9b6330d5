//! The figures `note stats` shows.
use vstd::prelude::*;
use crate::handle::category::{list as category_rows, notes_in, CategoryRow};
use crate::handle::list::pinned_in;
use crate::handle::tag::{list as tag_rows, notes_carrying, TagRow};
use crate::model::{NoteIndexModel, NoteView, Priority};
use crate::storage::DataBaseStorage;

verus! {

/// The property of a note of having the priority `p`.
pub open spec fn priority_is(p: Priority) -> spec_fn(NoteView) -> bool {
    |n: NoteView| n.priority == p
}

/// The figures of the index.
pub struct Stats {
    pub total: usize,
    pub pinned: usize,
    pub archived: usize,
    pub low: usize,
    pub normal: usize,
    pub high: usize,
    pub urgent: usize,
    pub categories: usize,
    pub tags: usize,
    pub by_category: Vec<CategoryRow>,
    pub by_tag: Vec<TagRow>,
}

fn count_where(notes: &Vec<&NoteIndexModel>, storage: &DataBaseStorage, by_pin: bool, p: Priority) -> (r: usize)
    requires
        notes@.len() == storage.notes().len(),
        forall|k: int| 0 <= k < notes@.len() ==> (#[trigger] notes@[k])@ == storage.notes()[k],
    ensures
        r == storage.notes().filter(
            if by_pin {
                pinned_in(storage.pinned())
            } else {
                priority_is(p)
            },
        ).len(),
{
    let ghost src = storage.notes();
    let ghost pr = if by_pin {
        pinned_in(storage.pinned())
    } else {
        priority_is(p)
    };
    let mut c: usize = 0;
    let mut i: usize = 0;
    while i < notes.len()
        invariant
            i <= notes@.len(),
            notes@.len() == src.len(),
            src == storage.notes(),
            forall|k: int| 0 <= k < notes@.len() ==> (#[trigger] notes@[k])@ == src[k],
            pr == (if by_pin {
                pinned_in(storage.pinned())
            } else {
                priority_is(p)
            }),
            c == src.take(i as int).filter(pr).len(),
            c <= i,
        decreases notes.len() - i,
    {
        assert(src.take(i + 1).drop_last() =~= src.take(i as int));
        reveal_with_fuel(Seq::<_>::filter, 1);
        let hit = if by_pin {
            storage.is_pinned(notes[i].id)
        } else {
            notes[i].priority == p
        };
        if hit {
            c += 1;
        }
        i += 1;
    }
    assert(src.take(i as int) =~= src);
    c
}

/// `note stats`: nothing for an empty index; else the number of notes, of
/// pinned notes, of archived ids, of notes of each priority, of categories
/// and of tags, with each category's and each tag's note count.
pub fn handle(storage: &DataBaseStorage) -> (r: Option<Stats>)
    ensures
        storage.notes().len() == 0 ==> r is None,
        storage.notes().len() > 0 ==> (r matches Some(s) && {
            &&& s.total == storage.notes().len()
            &&& s.pinned == storage.notes().filter(pinned_in(storage.pinned())).len()
            &&& s.archived == storage.archived().len()
            &&& s.low == storage.notes().filter(priority_is(Priority::Low)).len()
            &&& s.normal == storage.notes().filter(priority_is(Priority::Normal)).len()
            &&& s.high == storage.notes().filter(priority_is(Priority::High)).len()
            &&& s.urgent == storage.notes().filter(priority_is(Priority::Urgent)).len()
            &&& s.categories == storage.categories().len()
            &&& s.tags == storage.tags().len()
            &&& s.by_category@.len() == storage.categories().len()
            &&& forall|i: int|
                0 <= i < s.by_category@.len() ==> (#[trigger] s.by_category@[i]).name@
                    == storage.categories()[i].name && s.by_category@[i].id
                    == storage.categories()[i].id && s.by_category@[i].count == notes_in(
                    storage.notes(),
                    storage.categories()[i].name,
                )
            &&& s.by_tag@.len() == storage.tags().len()
            &&& forall|i: int|
                0 <= i < s.by_tag@.len() ==> (#[trigger] s.by_tag@[i]).name@ == storage.tags()[i].name
                    && s.by_tag@[i].id == storage.tags()[i].id && s.by_tag@[i].count
                    == notes_carrying(storage.notes(), storage.tags()[i].name)
        }),
{
    let notes = storage.list_notes();
    let total = notes.len();
    if total == 0 {
        return None;
    }
    let status = storage.note_status_ref();
    Some(
        Stats {
            total,
            pinned: count_where(&notes, storage, true, Priority::Low),
            archived: status.archived_notes.len(),
            low: count_where(&notes, storage, false, Priority::Low),
            normal: count_where(&notes, storage, false, Priority::Normal),
            high: count_where(&notes, storage, false, Priority::High),
            urgent: count_where(&notes, storage, false, Priority::Urgent),
            categories: storage.list_categories().len(),
            tags: storage.list_tags().len(),
            by_category: category_rows(storage),
            by_tag: tag_rows(storage),
        },
    )
}

} // verus!
