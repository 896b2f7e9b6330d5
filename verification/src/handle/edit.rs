//! Changing a note's fields.
use vstd::prelude::*;
use crate::handle::add::{resolve_duplicate_title, resolved_title};
use crate::model::{
    own, parse_priority, priority_of_text, same_text, tags_view, CategoryView, NoteModel,
    NoteView, Priority, TagView,
};
use crate::notefile::body_of;
use crate::seqs::{find_first, max_of};
use crate::storage::{
    category_ids, category_resolution, has_id, tag_ids, tags_resolution,
    DataBaseStorage,
};
use crate::text::{strings_view, push_str};
use crate::time::{local_now, ts_valid, Timestamp};

verus! {

/// Why a note was not edited.
#[derive(Debug, Clone, Copy, PartialEq, Eq, Structural)]
pub enum EditError {
    /// No note has the id, or its file could not be read.
    NotFound,
    /// The note is archived.
    Archived,
}

/// The title after an edit asking for `asked`: unchanged when it is the
/// current title, else made unique among the notes.
pub open spec fn edited_title(notes: Seq<NoteView>, current: Seq<char>, asked: Option<String>) -> Seq<char> {
    match asked {
        Some(t) => if t@ == current {
            current
        } else {
            resolved_title(notes, t@)
        },
        None => current,
    }
}

/// The body after an edit: replaced by `content` when given, else with
/// `append` added on a new line (or as the whole body when it was empty).
pub open spec fn edited_body(body: Seq<char>, content: Option<String>, append: Option<String>) -> Seq<char> {
    match content {
        Some(c) => c@,
        None => match append {
            Some(a) => if body.len() == 0 {
                a@
            } else {
                body + seq!['\n'] + a@
            },
            None => body,
        },
    }
}

/// The category after an edit and the categories after it.
pub open spec fn edited_category(cats: Seq<CategoryView>, current: CategoryView, asked: Option<String>) -> (CategoryView, Seq<CategoryView>) {
    match asked {
        Some(c) => category_resolution(cats, c@),
        None => (current, cats),
    }
}

/// The tags after an edit and the tags of the index after it.
pub open spec fn edited_tags(tags: Seq<TagView>, current: Seq<TagView>, asked: Option<Vec<String>>) -> (Seq<TagView>, Seq<TagView>) {
    match asked {
        Some(t) => tags_resolution(tags, strings_view(t@)),
        None => (current, tags),
    }
}

/// The priority after an edit.
pub open spec fn edited_priority(current: Priority, asked: Option<String>) -> Priority {
    match asked {
        Some(p) => priority_of_text(p@),
        None => current,
    }
}

/// The ids leave room for the categories and tags an edit may make.
pub open spec fn room_for_edit(s: &DataBaseStorage, category: Option<String>, tags: Option<Vec<String>>) -> bool {
    &&& category is Some ==> max_of(category_ids(s.categories())) < u32::MAX
    &&& tags matches Some(t) ==> max_of(tag_ids(s.tags())) + t@.len() < u32::MAX
}

/// Whether the ids leave room for what an edit may make (see
/// `room_for_edit`).
pub fn has_room_for_edit(s: &DataBaseStorage, category: &Option<String>, tags: &Option<Vec<String>>) -> (r: bool)
    ensures
        r == room_for_edit(s, *category, *tags),
{
    let (_, c, t) = s.max_ids();
    let cat_ok = match category {
        Some(_) => c < u32::MAX,
        None => true,
    };
    let tags_ok = match tags {
        Some(v) => (t as u128) + (v.len() as u128) < u32::MAX as u128,
        None => true,
    };
    cat_ok && tags_ok
}

fn edited_body_of(body: String, content: &Option<String>, append: &Option<String>) -> (r: String)
    ensures
        r@ == edited_body(body@, *content, *append),
{
    match content {
        Some(c) => c.clone(),
        None => match append {
            Some(a) => {
                if body.as_str().is_empty() {
                    a.clone()
                } else {
                    let mut s = body;
                    push_str(&mut s, "\n");
                    push_str(&mut s, a.as_str());
                    proof {
                        reveal_strlit("\n");
                    }
                    s
                }
            },
            None => body,
        },
    }
}

/// What `note edit` does to note `id`, whose file holds `file_text`
/// (`None` where it could not be read): refused when there is no such note
/// or file, or when the note is archived (nothing changes); else each field
/// given replaces the note's (a new title made unique, a category or tags
/// made when missing), the body is replaced or appended to, and the
/// modification time becomes `now`. The categories and tags of the index
/// take what was made; the note's entry is replaced once its file is
/// written.
pub open spec fn edit_outcome(
    old: DataBaseStorage,
    new: DataBaseStorage,
    id: u32,
    title: Option<String>,
    category: Option<String>,
    tags: Option<Vec<String>>,
    priority: Option<String>,
    content: Option<String>,
    append: Option<String>,
    file_text: Option<&str>,
    now: Timestamp,
    r: Result<NoteModel, EditError>,
) -> bool {
    match find_first(old.notes(), has_id(id)) {
        None => r == Err::<NoteModel, EditError>(EditError::NotFound) && new == old,
        Some(i) => match file_text {
            None => r == Err::<NoteModel, EditError>(EditError::NotFound) && new
                == old,
            Some(raw) => if old.archived().contains(id) {
                r == Err::<NoteModel, EditError>(EditError::Archived) && new == old
            } else {
                let n = old.notes()[i];
                let cat = edited_category(old.categories(), n.category, category);
                let tgs = edited_tags(old.tags(), n.tags, tags);
                &&& r matches Ok(note)
                &&& r->Ok_0.index@ == NoteView {
                    id: n.id,
                    title: edited_title(old.notes(), n.title, title),
                    category: cat.0,
                    tags: tgs.0,
                    priority: edited_priority(n.priority, priority),
                    created: n.created,
                    modified: now,
                }
                &&& r->Ok_0.content@ == edited_body(body_of(raw@), content, append)
                &&& new.categories() == cat.1
                &&& new.tags() == tgs.1
                &&& new.notes() == old.notes()
                &&& new.pinned() == old.pinned()
                &&& new.archived() == old.archived()
                &&& new.done() == old.done()
                &&& new.notes_dir_spec() == old.notes_dir_spec()
                &&& new.index_file_spec() == old.index_file_spec()
            },
        },
    }
}

/// `note edit` with the current time read from the clock (see `edit_outcome`).
pub fn handle(
    id: u32,
    title: &Option<String>,
    category: &Option<String>,
    tags: &Option<Vec<String>>,
    priority: &Option<String>,
    content: &Option<String>,
    append: &Option<String>,
    file_text: Option<&str>,
    storage: &mut DataBaseStorage,
) -> (r: Result<NoteModel, EditError>)
    requires
        room_for_edit(old(storage), *category, *tags),
    ensures
        exists|now: Timestamp|
            ts_valid(now) && edit_outcome(
                *old(storage),
                *final(storage),
                id,
                *title,
                *category,
                *tags,
                *priority,
                *content,
                *append,
                file_text,
                now,
                r,
            ),
{
    let now = local_now();
    handle_at(id, title, category, tags, priority, content, append, file_text, storage, now)
}

/// `note edit` at the time `now` (see `edit_outcome`).
pub fn handle_at(
    id: u32,
    title: &Option<String>,
    category: &Option<String>,
    tags: &Option<Vec<String>>,
    priority: &Option<String>,
    content: &Option<String>,
    append: &Option<String>,
    file_text: Option<&str>,
    storage: &mut DataBaseStorage,
    now: Timestamp,
) -> (r: Result<NoteModel, EditError>)
    requires
        room_for_edit(old(storage), *category, *tags),
    ensures
        edit_outcome(
            *old(storage),
            *final(storage),
            id,
            *title,
            *category,
            *tags,
            *priority,
            *content,
            *append,
            file_text,
            now,
            r,
        ),
{
    let raw = match file_text {
        Some(t) => t,
        None => {
            proof {
                crate::seqs::lemma_find_first(storage.notes(), has_id(id));
            }
            return Err(EditError::NotFound);
        },
    };
    let mut note = match storage.get_note(id, raw) {
        Some(n) => n,
        None => {
            return Err(EditError::NotFound);
        },
    };
    if storage.is_archived(id) {
        return Err(EditError::Archived);
    }
    let ghost n = note.index@;
    if let Some(t) = title {
        if !same_text(t, note.index.title.as_str()) {
            note.index.title = resolve_duplicate_title(t.as_str(), storage);
        }
    }
    proof {
        crate::seqs::lemma_max_of(category_ids(storage.categories()));
        assert forall|k: int| 0 <= k < storage.categories().len() implies #[trigger] storage.categories()[k].id
            < u32::MAX || category is None by {
            assert(category_ids(storage.categories())[k] == storage.categories()[k].id);
        }
    }
    if let Some(c) = category {
        note.index.category = storage.resolve_category(c.as_str());
    }
    if let Some(t) = tags {
        note.index.tags = storage.resolve_tags(t);
    }
    if let Some(p) = priority {
        note.index.priority = parse_priority(p.as_str());
    }
    note.content = edited_body_of(note.content, content, append);
    note.index.modified = now;
    Ok(note)
}

} // verus!
