//! The note index kept in memory: the notes' metadata, the pinned, archived
//! and done lists, the categories and the tags, with the operations that keep
//! them. Reading and writing files is the caller's part; the operations say
//! which files to write or remove.
use vstd::prelude::*;
use crate::model::{
    categories_view, clone_tags, notes_view, tags_view, CategoryModel, CategoryStatus,
    CategoryView, NoteIndexModel, NoteModel, NoteStatus, NoteView, TagModel, TagStatus, TagView,
};
use crate::notefile::{body_of, extract_body, note_file_name, sanitized};
use crate::seqs::{
    any, contains_u32, find_first, first_of_key, first_positions, first_positions_by_key,
    keyed_table, lemma_find_first, lemma_find_first_at, max_of, max_u32, remove_all, with_id,
    without,
};
use crate::text::{str_eq, strings_view};
use crate::time::Timestamp;

verus! {

/// The property of a note of having the id `id`.
pub open spec fn has_id(id: u32) -> spec_fn(NoteView) -> bool {
    |n: NoteView| n.id == id
}

/// The property of a note of having another id than `id`.
pub open spec fn not_id(id: u32) -> spec_fn(NoteView) -> bool {
    |n: NoteView| n.id != id
}

/// The property of a note of having the title `t`.
pub open spec fn has_title(t: Seq<char>) -> spec_fn(NoteView) -> bool {
    |n: NoteView| n.title == t
}

/// The property of a category of having the name `name`.
pub open spec fn category_named(name: Seq<char>) -> spec_fn(CategoryView) -> bool {
    |c: CategoryView| c.name == name
}

/// The property of a tag of having the name `name`.
pub open spec fn tag_named(name: Seq<char>) -> spec_fn(TagView) -> bool {
    |t: TagView| t.name == name
}

/// The ids of some notes.
pub open spec fn note_ids(s: Seq<NoteView>) -> Seq<u32> {
    s.map_values(|n: NoteView| n.id)
}

/// The ids of some categories.
pub open spec fn category_ids(s: Seq<CategoryView>) -> Seq<u32> {
    s.map_values(|c: CategoryView| c.id)
}

/// The ids of some tags.
pub open spec fn tag_ids(s: Seq<TagView>) -> Seq<u32> {
    s.map_values(|t: TagView| t.id)
}

/// Why an operation on a note did not happen.
#[derive(Debug, Clone, Copy, PartialEq, Eq, Structural)]
pub enum StorageError {
    /// No note has the id.
    NotFound,
}

/// The index: notes, status lists, categories and tags, with the places of
/// the notes directory and of the index file.
#[derive(Debug)]
pub struct DataBaseStorage {
    notes_dir: String,
    index_file: String,
    note_status: NoteStatus,
    category_status: CategoryStatus,
    tag_status: TagStatus,
}

impl DataBaseStorage {
    /// The notes' metadata, in index order.
    pub closed spec fn notes(&self) -> Seq<NoteView> {
        notes_view(self.note_status.notes@)
    }

    /// The ids of the pinned notes, in pinning order.
    pub closed spec fn pinned(&self) -> Seq<u32> {
        self.note_status.pinned_notes_id@
    }

    /// The ids of the archived notes.
    pub closed spec fn archived(&self) -> Seq<u32> {
        self.note_status.archived_notes@
    }

    /// The ids of the notes marked done.
    pub closed spec fn done(&self) -> Seq<u32> {
        self.note_status.done_notes@
    }

    /// The categories.
    pub closed spec fn categories(&self) -> Seq<CategoryView> {
        categories_view(self.category_status.categories@)
    }

    /// The tags.
    pub closed spec fn tags(&self) -> Seq<TagView> {
        tags_view(self.tag_status.tags@)
    }

    /// The directory of the note files.
    pub closed spec fn notes_dir_spec(&self) -> Seq<char> {
        self.notes_dir@
    }

    /// The index file.
    pub closed spec fn index_file_spec(&self) -> Seq<char> {
        self.index_file@
    }

    /// Everything but the notes is as in `other`.
    pub open spec fn same_but_notes(&self, other: &Self) -> bool {
        &&& self.pinned() == other.pinned()
        &&& self.archived() == other.archived()
        &&& self.done() == other.done()
        &&& self.categories() == other.categories()
        &&& self.tags() == other.tags()
        &&& self.notes_dir_spec() == other.notes_dir_spec()
        &&& self.index_file_spec() == other.index_file_spec()
    }

    /// Only the status lists may differ from `other`.
    pub open spec fn same_but_status(&self, other: &Self) -> bool {
        &&& self.notes() == other.notes()
        &&& self.categories() == other.categories()
        &&& self.tags() == other.tags()
        &&& self.notes_dir_spec() == other.notes_dir_spec()
        &&& self.index_file_spec() == other.index_file_spec()
    }

    /// An empty index for the given places.
    pub fn new(notes_dir: String, index_file: String) -> (s: Self)
        ensures
            s.notes() == Seq::<NoteView>::empty(),
            s.pinned() == Seq::<u32>::empty(),
            s.archived() == Seq::<u32>::empty(),
            s.done() == Seq::<u32>::empty(),
            s.categories() == Seq::<CategoryView>::empty(),
            s.tags() == Seq::<TagView>::empty(),
            s.notes_dir_spec() == notes_dir@,
            s.index_file_spec() == index_file@,
    {
        let s = DataBaseStorage {
            notes_dir,
            index_file,
            note_status: NoteStatus::default(),
            category_status: CategoryStatus::default(),
            tag_status: TagStatus::default(),
        };
        assert(s.notes() =~= Seq::<NoteView>::empty());
        assert(s.categories() =~= Seq::<CategoryView>::empty());
        assert(s.tags() =~= Seq::<TagView>::empty());
        s
    }

    /// An index made of the parts that were read back from the index file.
    pub fn from_parts(
        notes_dir: String,
        index_file: String,
        note_status: NoteStatus,
        category_status: CategoryStatus,
        tag_status: TagStatus,
    ) -> (s: Self)
        ensures
            s.notes() == notes_view(note_status.notes@),
            s.pinned() == note_status.pinned_notes_id@,
            s.archived() == note_status.archived_notes@,
            s.done() == note_status.done_notes@,
            s.categories() == categories_view(category_status.categories@),
            s.tags() == tags_view(tag_status.tags@),
            s.notes_dir_spec() == notes_dir@,
            s.index_file_spec() == index_file@,
    {
        DataBaseStorage { notes_dir, index_file, note_status, category_status, tag_status }
    }

    /// The directory of the note files.
    pub fn notes_dir(&self) -> (r: &str)
        ensures
            r@ == self.notes_dir_spec(),
    {
        self.notes_dir.as_str()
    }

    /// The index file.
    pub fn index_file(&self) -> (r: &str)
        ensures
            r@ == self.index_file_spec(),
    {
        self.index_file.as_str()
    }

    /// The note status, for saving the index.
    pub fn note_status_ref(&self) -> (r: &NoteStatus)
        ensures
            notes_view(r.notes@) == self.notes(),
            r.pinned_notes_id@ == self.pinned(),
            r.archived_notes@ == self.archived(),
            r.done_notes@ == self.done(),
    {
        &self.note_status
    }

    /// The category status, for saving the index.
    pub fn category_status_ref(&self) -> (r: &CategoryStatus)
        ensures
            categories_view(r.categories@) == self.categories(),
    {
        &self.category_status
    }

    /// The tag status, for saving the index.
    pub fn tag_status_ref(&self) -> (r: &TagStatus)
        ensures
            tags_view(r.tags@) == self.tags(),
    {
        &self.tag_status
    }

    /// The position of the first note with id `id`.
    fn position_of(&self, id: u32) -> (r: Option<usize>)
        ensures
            match r {
                Some(i) => find_first(self.notes(), has_id(id)) == Some(i as int) && i
                    < self.note_status.notes@.len(),
                None => find_first(self.notes(), has_id(id)) is None,
            },
    {
        let mut i: usize = 0;
        while i < self.note_status.notes.len()
            invariant
                i <= self.note_status.notes.len(),
                forall|j: int| 0 <= j < i ==> !has_id(id)(#[trigger] self.notes()[j]),
            decreases self.note_status.notes.len() - i,
        {
            if self.note_status.notes[i].id == id {
                proof {
                    lemma_find_first_at(self.notes(), has_id(id), i as int);
                }
                return Some(i);
            }
            i += 1;
        }
        proof {
            crate::seqs::lemma_find_first_none(self.notes(), has_id(id));
        }
        None
    }

    /// The id one above the largest note id (1 for no notes).
    pub fn next_note_id(&self) -> (r: u32)
        requires
            forall|i: int| 0 <= i < self.notes().len() ==> #[trigger] self.notes()[i].id < u32::MAX,
        ensures
            r == max_of(note_ids(self.notes())) + 1,
    {
        let mut ids: Vec<u32> = Vec::new();
        let mut i: usize = 0;
        while i < self.note_status.notes.len()
            invariant
                i <= self.note_status.notes.len(),
                ids@ == note_ids(self.notes()).take(i as int),
            decreases self.note_status.notes.len() - i,
        {
            ids.push(self.note_status.notes[i].id);
            assert(note_ids(self.notes()).take(i + 1) =~= note_ids(self.notes()).take(i as int).push(
                self.notes()[i as int].id,
            ));
            i += 1;
        }
        assert(note_ids(self.notes()).take(i as int) =~= note_ids(self.notes()));
        let m = max_u32(&ids);
        proof {
            crate::seqs::lemma_max_of(ids@);
            if ids@.len() > 0 {
                let k = choose|k: int| 0 <= k < ids@.len() && ids@[k] == m;
                assert(self.notes()[k].id == m);
            }
        }
        m + 1
    }

    /// The largest note id, category id and tag id (0 where there is none).
    pub fn max_ids(&self) -> (r: (u32, u32, u32))
        ensures
            r.0 == max_of(note_ids(self.notes())),
            r.1 == max_of(category_ids(self.categories())),
            r.2 == max_of(tag_ids(self.tags())),
    {
        let mut ns: Vec<u32> = Vec::new();
        let mut i: usize = 0;
        while i < self.note_status.notes.len()
            invariant
                i <= self.note_status.notes.len(),
                ns@ == note_ids(self.notes()).take(i as int),
            decreases self.note_status.notes.len() - i,
        {
            ns.push(self.note_status.notes[i].id);
            assert(note_ids(self.notes()).take(i + 1) =~= note_ids(self.notes()).take(i as int).push(
                self.notes()[i as int].id,
            ));
            i += 1;
        }
        assert(note_ids(self.notes()).take(i as int) =~= note_ids(self.notes()));
        let mut cs: Vec<u32> = Vec::new();
        let mut k: usize = 0;
        while k < self.category_status.categories.len()
            invariant
                k <= self.category_status.categories.len(),
                cs@ == category_ids(self.categories()).take(k as int),
            decreases self.category_status.categories.len() - k,
        {
            cs.push(self.category_status.categories[k].id);
            assert(category_ids(self.categories()).take(k + 1) =~= category_ids(self.categories()).take(
                k as int,
            ).push(self.categories()[k as int].id));
            k += 1;
        }
        assert(category_ids(self.categories()).take(k as int) =~= category_ids(self.categories()));
        let mut ts: Vec<u32> = Vec::new();
        let mut j: usize = 0;
        while j < self.tag_status.tags.len()
            invariant
                j <= self.tag_status.tags.len(),
                ts@ == tag_ids(self.tags()).take(j as int),
            decreases self.tag_status.tags.len() - j,
        {
            ts.push(self.tag_status.tags[j].id);
            assert(tag_ids(self.tags()).take(j + 1) =~= tag_ids(self.tags()).take(j as int).push(
                self.tags()[j as int].id,
            ));
            j += 1;
        }
        assert(tag_ids(self.tags()).take(j as int) =~= tag_ids(self.tags()));
        (max_u32(&ns), max_u32(&cs), max_u32(&ts))
    }

    /// The category named `name`; one is made, with the next free id and no
    /// parent, when none has that name.
    pub fn resolve_category(&mut self, name: &str) -> (r: CategoryModel)
        requires
            !any(old(self).categories(), category_named(name@)) ==> forall|i: int|
                0 <= i < old(self).categories().len() ==> #[trigger] old(self).categories()[i].id
                    < u32::MAX,
        ensures
            final(self).same_but_categories(old(self)),
            match find_first(old(self).categories(), category_named(name@)) {
                Some(i) => r@ == old(self).categories()[i] && final(self).categories() == old(
                    self,
                ).categories(),
                None => r@ == (CategoryView {
                    id: (max_of(category_ids(old(self).categories())) + 1) as u32,
                    name: name@,
                    parentid: 0,
                }) && final(self).categories() == old(self).categories().push(r@),
            },
            (r@, final(self).categories()) == category_resolution(old(self).categories(), name@),
    {
        let mut i: usize = 0;
        let n = self.category_status.categories.len();
        while i < n
            invariant
                n == self.category_status.categories.len(),
                i <= n,
                forall|j: int| 0 <= j < i ==> !category_named(name@)(#[trigger] self.categories()[j]),
            decreases n - i,
        {
            if str_eq(self.category_status.categories[i].name.as_str(), name) {
                proof {
                    lemma_find_first_at(self.categories(), category_named(name@), i as int);
                }
                return self.category_status.categories[i].clone();
            }
            i += 1;
        }
        proof {
            lemma_find_first(self.categories(), category_named(name@));
            crate::seqs::lemma_find_first_none(self.categories(), category_named(name@));
        }
        let mut ids: Vec<u32> = Vec::new();
        let mut k: usize = 0;
        while k < n
            invariant
                n == self.category_status.categories.len(),
                k <= n,
                ids@ == category_ids(self.categories()).take(k as int),
            decreases n - k,
        {
            ids.push(self.category_status.categories[k].id);
            assert(category_ids(self.categories()).take(k + 1) =~= category_ids(self.categories()).take(
                k as int,
            ).push(self.categories()[k as int].id));
            k += 1;
        }
        assert(category_ids(self.categories()).take(k as int) =~= category_ids(self.categories()));
        let m = max_u32(&ids);
        proof {
            crate::seqs::lemma_max_of(ids@);
            if ids@.len() > 0 {
                let j = choose|j: int| 0 <= j < ids@.len() && ids@[j] == m;
                assert(self.categories()[j].id == m);
            }
        }
        let model = CategoryModel { id: m + 1, name: crate::model::own(name), parentid: 0 };
        let ghost before = self.category_status.categories@;
        self.category_status.categories.push(model.clone());
        assert(self.categories() =~= categories_view(before).push(model@));
        model
    }

    /// Everything but the categories is as in `other`.
    pub open spec fn same_but_categories(&self, other: &Self) -> bool {
        &&& self.notes() == other.notes()
        &&& self.pinned() == other.pinned()
        &&& self.archived() == other.archived()
        &&& self.done() == other.done()
        &&& self.tags() == other.tags()
        &&& self.notes_dir_spec() == other.notes_dir_spec()
        &&& self.index_file_spec() == other.index_file_spec()
    }

    /// Everything but the tags is as in `other`.
    pub open spec fn same_but_tags(&self, other: &Self) -> bool {
        &&& self.notes() == other.notes()
        &&& self.pinned() == other.pinned()
        &&& self.archived() == other.archived()
        &&& self.done() == other.done()
        &&& self.categories() == other.categories()
        &&& self.notes_dir_spec() == other.notes_dir_spec()
        &&& self.index_file_spec() == other.index_file_spec()
    }

    /// The tag named `name`; one is made, with the next free id, when none has
    /// that name.
    pub fn resolve_tag(&mut self, name: &str) -> (r: TagModel)
        requires
            !any(old(self).tags(), tag_named(name@)) ==> forall|i: int|
                0 <= i < old(self).tags().len() ==> #[trigger] old(self).tags()[i].id < u32::MAX,
        ensures
            final(self).same_but_tags(old(self)),
            match find_first(old(self).tags(), tag_named(name@)) {
                Some(i) => r@ == old(self).tags()[i] && final(self).tags() == old(self).tags(),
                None => r@ == (TagView {
                    id: (max_of(tag_ids(old(self).tags())) + 1) as u32,
                    name: name@,
                }) && final(self).tags() == old(self).tags().push(r@),
            },
            (r@, final(self).tags()) == tag_resolution(old(self).tags(), name@),
    {
        let mut i: usize = 0;
        let n = self.tag_status.tags.len();
        while i < n
            invariant
                n == self.tag_status.tags.len(),
                i <= n,
                forall|j: int| 0 <= j < i ==> !tag_named(name@)(#[trigger] self.tags()[j]),
            decreases n - i,
        {
            if str_eq(self.tag_status.tags[i].name.as_str(), name) {
                proof {
                    lemma_find_first_at(self.tags(), tag_named(name@), i as int);
                }
                return self.tag_status.tags[i].clone();
            }
            i += 1;
        }
        proof {
            lemma_find_first(self.tags(), tag_named(name@));
            crate::seqs::lemma_find_first_none(self.tags(), tag_named(name@));
        }
        let mut ids: Vec<u32> = Vec::new();
        let mut k: usize = 0;
        while k < n
            invariant
                n == self.tag_status.tags.len(),
                k <= n,
                ids@ == tag_ids(self.tags()).take(k as int),
            decreases n - k,
        {
            ids.push(self.tag_status.tags[k].id);
            assert(tag_ids(self.tags()).take(k + 1) =~= tag_ids(self.tags()).take(k as int).push(
                self.tags()[k as int].id,
            ));
            k += 1;
        }
        assert(tag_ids(self.tags()).take(k as int) =~= tag_ids(self.tags()));
        let m = max_u32(&ids);
        proof {
            crate::seqs::lemma_max_of(ids@);
            if ids@.len() > 0 {
                let j = choose|j: int| 0 <= j < ids@.len() && ids@[j] == m;
                assert(self.tags()[j].id == m);
            }
        }
        let model = TagModel { id: m + 1, name: crate::model::own(name) };
        let ghost before = self.tag_status.tags@;
        self.tag_status.tags.push(model.clone());
        assert(self.tags() =~= tags_view(before).push(model@));
        model
    }

    /// The tags named `names`, in that order, each resolved as `resolve_tag`
    /// does (made when missing).
    pub fn resolve_tags(&mut self, names: &Vec<String>) -> (r: Vec<TagModel>)
        requires
            max_of(tag_ids(old(self).tags())) + names@.len() < u32::MAX,
        ensures
            final(self).same_but_tags(old(self)),
            (tags_view(r@), final(self).tags()) == tags_resolution(old(self).tags(), strings_view(names@)),
    {
        let ghost start = self.tags();
        let ghost wanted = strings_view(names@);
        let mut r: Vec<TagModel> = Vec::new();
        let mut i: usize = 0;
        while i < names.len()
            invariant
                i <= names.len(),
                wanted == strings_view(names@),
                max_of(tag_ids(start)) + names@.len() < u32::MAX,
                self.same_but_tags(old(self)),
                start == old(self).tags(),
                (tags_view(r@), self.tags()) == tags_resolution(start, wanted.take(i as int)),
                max_of(tag_ids(self.tags())) <= max_of(tag_ids(start)) + i,
            decreases names.len() - i,
        {
            proof {
                crate::seqs::lemma_max_of(tag_ids(self.tags()));
                assert forall|k: int| 0 <= k < self.tags().len() implies #[trigger] self.tags()[k].id
                    < u32::MAX by {
                    assert(tag_ids(self.tags())[k] == self.tags()[k].id);
                }
                assert(wanted.take(i + 1).drop_last() =~= wanted.take(i as int));
                assert(wanted.take(i + 1).last() == names@[i as int]@);
            }
            let ghost before = self.tags();
            let ghost rv = tags_view(r@);
            let t = self.resolve_tag(names[i].as_str());
            proof {
                lemma_max_of_push(tag_ids(before), (max_of(tag_ids(before)) + 1) as u32);
                assert(tag_ids(before.push(t@)) =~= tag_ids(before).push(t@.id));
            }
            r.push(t);
            assert(tags_view(r@) =~= rv.push(t@));
            i += 1;
        }
        assert(wanted.take(i as int) =~= wanted);
        r
    }

    /// Adds a note's metadata to the index.
    pub fn add_note(&mut self, note: NoteModel)
        ensures
            final(self).notes() == old(self).notes().push(note.index@),
            final(self).same_but_notes(old(self)),
    {
        let ghost before = self.note_status.notes@;
        self.note_status.notes.push(note.index);
        assert(self.notes() =~= notes_view(before).push(note.index@));
    }

    /// Whether a note has the title `title`.
    pub fn title_exists(&self, title: &str) -> (r: bool)
        ensures
            r == any(self.notes(), has_title(title@)),
    {
        let mut i: usize = 0;
        while i < self.note_status.notes.len()
            invariant
                i <= self.note_status.notes.len(),
                forall|j: int| 0 <= j < i ==> !has_title(title@)(#[trigger] self.notes()[j]),
            decreases self.note_status.notes.len() - i,
        {
            if str_eq(self.note_status.notes[i].title.as_str(), title) {
                assert(has_title(title@)(self.notes()[i as int]));
                return true;
            }
            i += 1;
        }
        false
    }

    /// Whether a note has the id `id`.
    pub fn id_exists(&self, id: u32) -> (r: bool)
        ensures
            r == any(self.notes(), has_id(id)),
    {
        let r = self.position_of(id);
        proof {
            lemma_find_first(self.notes(), has_id(id));
        }
        r.is_some()
    }

    /// The number of notes.
    pub fn note_count(&self) -> (r: usize)
        ensures
            r == self.notes().len(),
    {
        self.note_status.notes.len()
    }

    /// The notes' metadata, in index order.
    pub fn list_notes(&self) -> (r: Vec<&NoteIndexModel>)
        ensures
            r@.len() == self.notes().len(),
            forall|i: int| 0 <= i < r@.len() ==> (#[trigger] r@[i])@ == self.notes()[i],
    {
        let mut r: Vec<&NoteIndexModel> = Vec::new();
        let mut i: usize = 0;
        while i < self.note_status.notes.len()
            invariant
                i <= self.note_status.notes.len(),
                r@.len() == i,
                forall|k: int| 0 <= k < i ==> (#[trigger] r@[k])@ == self.notes()[k],
            decreases self.note_status.notes.len() - i,
        {
            r.push(&self.note_status.notes[i]);
            i += 1;
        }
        r
    }

    /// The metadata of the first note with id `id`.
    pub fn get_note_index(&self, id: u32) -> (r: Option<&NoteIndexModel>)
        ensures
            match find_first(self.notes(), has_id(id)) {
                Some(i) => r matches Some(n) && n@ == self.notes()[i],
                None => r is None,
            },
    {
        match self.position_of(id) {
            Some(i) => Some(&self.note_status.notes[i]),
            None => None,
        }
    }

    /// The metadata of the first note with id `id`, to change in place.
    pub fn get_note_index_mut(&mut self, id: u32) -> (r: Option<&mut NoteIndexModel>)
        ensures
            match find_first(old(self).notes(), has_id(id)) {
                Some(i) => r matches Some(m) && (*m)@ == old(self).notes()[i] && final(self).notes()
                    == old(self).notes().update(i, (*final(m))@) && final(self).same_but_notes(old(self)),
                None => r is None && *final(self) == *old(self),
            },
    {
        match self.position_of(id) {
            Some(i) => Some(&mut self.note_status.notes[i]),
            None => None,
        }
    }

    /// The name of the file that holds the first note with id `id`.
    pub fn note_file_name_of(&self, id: u32) -> (r: Option<String>)
        ensures
            match find_first(self.notes(), has_id(id)) {
                Some(i) => r matches Some(f) && f@ == sanitized(self.notes()[i].title) + seq![
                    '.',
                    'm',
                    'd',
                ],
                None => r is None,
            },
    {
        match self.position_of(id) {
            Some(i) => Some(note_file_name(self.note_status.notes[i].title.as_str())),
            None => None,
        }
    }

    /// The note with id `id`, its body read from `raw`, the text of its file.
    pub fn get_note(&self, id: u32, raw: &str) -> (r: Option<NoteModel>)
        ensures
            match find_first(self.notes(), has_id(id)) {
                Some(i) => r matches Some(n) && n.index@ == self.notes()[i] && n.content@ == body_of(
                    raw@,
                ),
                None => r is None,
            },
    {
        match self.position_of(id) {
            Some(i) => Some(
                NoteModel { index: self.note_status.notes[i].clone(), content: extract_body(raw) },
            ),
            None => None,
        }
    }

    /// Before a note is rewritten: the file its old title was stored under,
    /// when that file differs from the one the new title is stored under (to
    /// be removed once the new file is written).
    pub fn update_plan(&self, note: &NoteModel) -> (r: Result<Option<String>, StorageError>)
        ensures
            match find_first(self.notes(), has_id(note.index.id)) {
                Some(i) => r matches Ok(old_file) && if sanitized(self.notes()[i].title) == sanitized(
                    note.index.title@,
                ) {
                    old_file is None
                } else {
                    old_file matches Some(f) && f@ == sanitized(self.notes()[i].title) + seq![
                        '.',
                        'm',
                        'd',
                    ]
                },
                None => r == Err::<Option<String>, StorageError>(StorageError::NotFound),
            },
    {
        match self.position_of(note.index.id) {
            Some(i) => {
                let old_file = note_file_name(self.note_status.notes[i].title.as_str());
                let new_file = note_file_name(note.index.title.as_str());
                let ghost a = sanitized(self.notes()[i as int].title);
                let ghost b = sanitized(note.index.title@);
                if str_eq(old_file.as_str(), new_file.as_str()) {
                    proof {
                        assert(a =~= old_file@.take(a.len() as int));
                        assert(b =~= new_file@.take(b.len() as int));
                    }
                    Ok(None)
                } else {
                    Ok(Some(old_file))
                }
            },
            None => Err(StorageError::NotFound),
        }
    }

    /// Replaces the metadata of the first note with the id of `index`.
    pub fn update_note(&mut self, index: NoteIndexModel) -> (r: Result<(), StorageError>)
        ensures
            final(self).same_but_notes(old(self)),
            match find_first(old(self).notes(), has_id(index.id)) {
                Some(i) => r is Ok && final(self).notes() == old(self).notes().update(i, index@),
                None => r == Err::<(), StorageError>(StorageError::NotFound) && final(self).notes()
                    == old(self).notes(),
            },
    {
        match self.position_of(index.id) {
            Some(i) => {
                let ghost before = self.note_status.notes@;
                let ghost v = index@;
                self.note_status.notes.set(i, index);
                assert(self.notes() =~= notes_view(before).update(i as int, v));
                Ok(())
            },
            None => Err(StorageError::NotFound),
        }
    }

    /// Removes every note with id `id` from the index, and the id from the
    /// pinned, archived and done lists (the caller removes the note's file
    /// first); refused, with nothing changed, when no note has the id.
    pub fn delete_note(&mut self, id: u32) -> (r: Result<(), StorageError>)
        ensures
            any(old(self).notes(), has_id(id)) ==> {
                &&& r is Ok
                &&& final(self).notes() == old(self).notes().filter(not_id(id))
                &&& final(self).pinned() == without(old(self).pinned(), id)
                &&& final(self).archived() == without(old(self).archived(), id)
                &&& final(self).done() == without(old(self).done(), id)
                &&& final(self).categories() == old(self).categories()
                &&& final(self).tags() == old(self).tags()
                &&& final(self).notes_dir_spec() == old(self).notes_dir_spec()
                &&& final(self).index_file_spec() == old(self).index_file_spec()
            },
            !any(old(self).notes(), has_id(id)) ==> r == Err::<(), StorageError>(StorageError::NotFound)
                && *final(self) == *old(self),
    {
        if !self.id_exists(id) {
            return Err(StorageError::NotFound);
        }
        let mut kept: Vec<NoteIndexModel> = Vec::new();
        let mut i: usize = 0;
        let ghost src = self.notes();
        while i < self.note_status.notes.len()
            invariant
                i <= self.note_status.notes.len(),
                src == self.notes(),
                notes_view(kept@) == src.take(i as int).filter(not_id(id)),
            decreases self.note_status.notes.len() - i,
        {
            assert(src.take(i + 1).drop_last() =~= src.take(i as int));
            reveal_with_fuel(Seq::<_>::filter, 1);
            if self.note_status.notes[i].id != id {
                let ghost before = kept@;
                kept.push(self.note_status.notes[i].clone());
                assert(notes_view(kept@) =~= notes_view(before).push(src[i as int]));
            }
            i += 1;
        }
        assert(src.take(i as int) =~= src);
        self.note_status.notes = kept;
        self.note_status.pinned_notes_id = remove_all(&self.note_status.pinned_notes_id, id);
        self.note_status.archived_notes = remove_all(&self.note_status.archived_notes, id);
        self.note_status.done_notes = remove_all(&self.note_status.done_notes, id);
        Ok(())
    }

    /// Pins the note `id`; a pinned note stays pinned once.
    pub fn pin_note(&mut self, id: u32)
        ensures
            final(self).pinned() == with_id(old(self).pinned(), id),
            final(self).archived() == old(self).archived(),
            final(self).done() == old(self).done(),
            final(self).same_but_status(old(self)),
    {
        if !contains_u32(&self.note_status.pinned_notes_id, id) {
            self.note_status.pinned_notes_id.push(id);
        }
    }

    /// Unpins the note `id`.
    pub fn unpin_note(&mut self, id: u32)
        ensures
            final(self).pinned() == without(old(self).pinned(), id),
            final(self).archived() == old(self).archived(),
            final(self).done() == old(self).done(),
            final(self).same_but_status(old(self)),
    {
        self.note_status.pinned_notes_id = remove_all(&self.note_status.pinned_notes_id, id);
    }

    /// Whether the note `id` is pinned.
    pub fn is_pinned(&self, id: u32) -> (r: bool)
        ensures
            r == self.pinned().contains(id),
    {
        contains_u32(&self.note_status.pinned_notes_id, id)
    }

    /// Archives the note `id`; an archived note stays listed once.
    pub fn archive_note(&mut self, id: u32)
        ensures
            final(self).archived() == with_id(old(self).archived(), id),
            final(self).pinned() == old(self).pinned(),
            final(self).done() == old(self).done(),
            final(self).same_but_status(old(self)),
    {
        if !contains_u32(&self.note_status.archived_notes, id) {
            self.note_status.archived_notes.push(id);
        }
    }

    /// Takes the note `id` out of the archive.
    pub fn unarchive_note(&mut self, id: u32)
        ensures
            final(self).archived() == without(old(self).archived(), id),
            final(self).pinned() == old(self).pinned(),
            final(self).done() == old(self).done(),
            final(self).same_but_status(old(self)),
    {
        self.note_status.archived_notes = remove_all(&self.note_status.archived_notes, id);
    }

    /// Whether the note `id` is archived.
    pub fn is_archived(&self, id: u32) -> (r: bool)
        ensures
            r == self.archived().contains(id),
    {
        contains_u32(&self.note_status.archived_notes, id)
    }

    /// Marks the note `id` done; a done note stays listed once.
    pub fn done_note(&mut self, id: u32)
        ensures
            final(self).done() == with_id(old(self).done(), id),
            final(self).pinned() == old(self).pinned(),
            final(self).archived() == old(self).archived(),
            final(self).same_but_status(old(self)),
    {
        if !contains_u32(&self.note_status.done_notes, id) {
            self.note_status.done_notes.push(id);
        }
    }

    /// Whether the note `id` is marked done.
    pub fn is_done(&self, id: u32) -> (r: bool)
        ensures
            r == self.done().contains(id),
    {
        contains_u32(&self.note_status.done_notes, id)
    }

    /// The categories.
    pub fn list_categories(&self) -> (r: &Vec<CategoryModel>)
        ensures
            categories_view(r@) == self.categories(),
    {
        &self.category_status.categories
    }

    /// The tags.
    pub fn list_tags(&self) -> (r: &Vec<TagModel>)
        ensures
            tags_view(r@) == self.tags(),
    {
        &self.tag_status.tags
    }

    /// Brings the index in line with the notes found on disk (`disk`, the
    /// metadata read from each note file): notes on disk that the index lacks
    /// are added, notes whose id is on no disk file are dropped (and unpinned),
    /// and the categories and tags are rebuilt from the notes, ordered by id,
    /// the first note that names an id giving its value. Gives whether the
    /// index changed (and is to be saved).
    pub fn sync_notes(&mut self, disk: &Vec<NoteIndexModel>) -> (changed: bool)
        ensures
            ({
                let merged = merged_notes(old(self).notes(), notes_view(disk@));
                let kept = synced_notes(old(self).notes(), notes_view(disk@));
                &&& final(self).notes() == kept
                &&& final(self).pinned() == old(self).pinned().filter(among(note_ids(notes_view(disk@))))
                &&& keyed_table(final(self).categories(), note_categories(kept), category_key())
                &&& keyed_table(final(self).tags(), note_tags(kept), tag_key())
                &&& changed == (merged.len() != old(self).notes().len() || kept.len() != merged.len()
                    || category_ids(old(self).categories()).to_set() != category_ids(
                    final(self).categories(),
                ).to_set() || tag_ids(old(self).tags()).to_set() != tag_ids(final(self).tags()).to_set())
            }),
            final(self).archived() == old(self).archived(),
            final(self).done() == old(self).done(),
            final(self).notes_dir_spec() == old(self).notes_dir_spec(),
            final(self).index_file_spec() == old(self).index_file_spec(),
    {
        let ghost start = self.notes();
        let ghost dv = notes_view(disk@);
        let index_ids = ids_of_notes(&self.note_status.notes);
        let ghost p = id_outside(note_ids(start));
        let mut pushed = false;
        let mut i: usize = 0;
        while i < disk.len()
            invariant
                i <= disk.len(),
                self.note_status.notes@.len() >= start.len(),
                pushed == (self.note_status.notes@.len() != start.len()),
                dv == notes_view(disk@),
                p == id_outside(note_ids(start)),
                index_ids@ == note_ids(start),
                self.notes() == start + dv.take(i as int).filter(p),
                self.pinned() == old(self).pinned(),
                self.archived() == old(self).archived(),
                self.done() == old(self).done(),
                self.categories() == old(self).categories(),
                self.tags() == old(self).tags(),
                self.notes_dir_spec() == old(self).notes_dir_spec(),
                self.index_file_spec() == old(self).index_file_spec(),
            decreases disk.len() - i,
        {
            assert(dv.take(i + 1).drop_last() =~= dv.take(i as int));
            reveal_with_fuel(Seq::<_>::filter, 1);
            if !contains_u32(&index_ids, disk[i].id) {
                let ghost before = self.note_status.notes@;
                self.note_status.notes.push(disk[i].clone());
                assert(notes_view(self.note_status.notes@) =~= notes_view(before).push(dv[i as int]));
                pushed = true;
            }
            i += 1;
        }
        assert(dv.take(i as int) =~= dv);
        let ghost merged = self.notes();
        let merged_len = self.note_status.notes.len();
        let disk_ids = ids_of_notes(disk);
        let ghost q = id_among(note_ids(dv));
        let mut kept: Vec<NoteIndexModel> = Vec::new();
        let mut k: usize = 0;
        while k < self.note_status.notes.len()
            invariant
                k <= self.note_status.notes.len(),
                merged == self.notes(),
                q == id_among(note_ids(dv)),
                disk_ids@ == note_ids(dv),
                notes_view(kept@) == merged.take(k as int).filter(q),
            decreases self.note_status.notes.len() - k,
        {
            assert(merged.take(k + 1).drop_last() =~= merged.take(k as int));
            reveal_with_fuel(Seq::<_>::filter, 1);
            if contains_u32(&disk_ids, self.note_status.notes[k].id) {
                let ghost before = kept@;
                kept.push(self.note_status.notes[k].clone());
                assert(notes_view(kept@) =~= notes_view(before).push(merged[k as int]));
            }
            k += 1;
        }
        assert(merged.take(k as int) =~= merged);
        self.note_status.notes = kept;
        let ghost pp = among(note_ids(dv));
        let mut pins: Vec<u32> = Vec::new();
        let mut m: usize = 0;
        while m < self.note_status.pinned_notes_id.len()
            invariant
                m <= self.note_status.pinned_notes_id.len(),
                pp == among(note_ids(dv)),
                disk_ids@ == note_ids(dv),
                pins@ == self.note_status.pinned_notes_id@.take(m as int).filter(pp),
            decreases self.note_status.pinned_notes_id.len() - m,
        {
            assert(self.note_status.pinned_notes_id@.take(m + 1).drop_last() =~= self.note_status.pinned_notes_id@.take(m as int));
            reveal_with_fuel(Seq::<_>::filter, 1);
            if contains_u32(&disk_ids, self.note_status.pinned_notes_id[m]) {
                pins.push(self.note_status.pinned_notes_id[m]);
            }
            m += 1;
        }
        assert(self.note_status.pinned_notes_id@.take(m as int) =~= self.note_status.pinned_notes_id@);
        self.note_status.pinned_notes_id = pins;
        let old_cat_ids = ids_of_categories(&self.category_status.categories);
        let old_tag_ids = ids_of_tags(&self.tag_status.tags);
        self.category_status.categories = category_table(&self.note_status.notes);
        self.tag_status.tags = tag_table(&self.note_status.notes);
        let new_cat_ids = ids_of_categories(&self.category_status.categories);
        let new_tag_ids = ids_of_tags(&self.tag_status.tags);
        let same_cats = same_id_set(&old_cat_ids, &new_cat_ids);
        let same_tags = same_id_set(&old_tag_ids, &new_tag_ids);
        pushed || merged_len != self.note_status.notes.len() || !same_cats || !same_tags
    }

    /// Renames the category `old_name` to `new_name` in the category list and
    /// in every note that has it (those notes' modification time becomes
    /// `now`); gives the ids of the notes that now have category `new_name`,
    /// whose files the caller rewrites.
    pub fn rename_category(&mut self, old_name: &str, new_name: &str, now: Timestamp) -> (r: Vec<u32>)
        ensures
            final(self).notes() == old(self).notes().map_values(
                rename_category_in(old_name@, new_name@, now),
            ),
            final(self).categories() == old(self).categories().map_values(
                rename_category_named(old_name@, new_name@),
            ),
            r@ == note_ids(final(self).notes().filter(category_is(new_name@))),
            final(self).pinned() == old(self).pinned(),
            final(self).archived() == old(self).archived(),
            final(self).done() == old(self).done(),
            final(self).tags() == old(self).tags(),
            final(self).notes_dir_spec() == old(self).notes_dir_spec(),
            final(self).index_file_spec() == old(self).index_file_spec(),
    {
        let ghost src = self.notes();
        let ghost f = rename_category_in(old_name@, new_name@, now);
        let mut out: Vec<NoteIndexModel> = Vec::new();
        let mut i: usize = 0;
        while i < self.note_status.notes.len()
            invariant
                f == rename_category_in(old_name@, new_name@, now),
                i <= self.note_status.notes.len(),
                src == self.notes(),
                notes_view(out@) == src.take(i as int).map_values(f),
            decreases self.note_status.notes.len() - i,
        {
            let mut n = self.note_status.notes[i].clone();
            if str_eq(n.category.name.as_str(), old_name) {
                n.category.name = crate::model::own(new_name);
                n.modified = now;
            }
            let ghost before = out@;
            out.push(n);
            assert(notes_view(out@) =~= notes_view(before).push(f(src[i as int])));
            assert(src.take(i + 1).map_values(f) =~= src.take(i as int).map_values(f).push(f(src[i as int])));
            i += 1;
        }
        assert(src.take(i as int) =~= src);
        self.note_status.notes = out;
        let ghost csrc = self.categories();
        let ghost g = rename_category_named(old_name@, new_name@);
        let mut cats: Vec<CategoryModel> = Vec::new();
        let mut k: usize = 0;
        while k < self.category_status.categories.len()
            invariant
                g == rename_category_named(old_name@, new_name@),
                k <= self.category_status.categories.len(),
                csrc == self.categories(),
                categories_view(cats@) == csrc.take(k as int).map_values(g),
            decreases self.category_status.categories.len() - k,
        {
            let mut c = self.category_status.categories[k].clone();
            if str_eq(c.name.as_str(), old_name) {
                c.name = crate::model::own(new_name);
            }
            let ghost before = cats@;
            cats.push(c);
            assert(categories_view(cats@) =~= categories_view(before).push(g(csrc[k as int])));
            assert(csrc.take(k + 1).map_values(g) =~= csrc.take(k as int).map_values(g).push(g(csrc[k as int])));
            k += 1;
        }
        assert(csrc.take(k as int) =~= csrc);
        self.category_status.categories = cats;
        self.ids_with_category(new_name)
    }

    /// Whether a category is named `name`.
    pub fn has_category(&self, name: &str) -> (r: bool)
        ensures
            r == any(self.categories(), category_named(name@)),
    {
        let mut i: usize = 0;
        while i < self.category_status.categories.len()
            invariant
                i <= self.category_status.categories.len(),
                forall|j: int| 0 <= j < i ==> !category_named(name@)(#[trigger] self.categories()[j]),
            decreases self.category_status.categories.len() - i,
        {
            if str_eq(self.category_status.categories[i].name.as_str(), name) {
                assert(category_named(name@)(self.categories()[i as int]));
                return true;
            }
            i += 1;
        }
        false
    }

    /// Whether a tag of the tag list is named `name`.
    pub fn has_tag(&self, name: &str) -> (r: bool)
        ensures
            r == any(self.tags(), tag_named(name@)),
    {
        has_tag_named(&self.tag_status.tags, name)
    }

    /// The ids of the notes that carry the tag `name`, in index order.
    pub fn notes_with_tag(&self, name: &str) -> (r: Vec<u32>)
        ensures
            r@ == note_ids(self.notes().filter(carries_tag(name@))),
    {
        self.ids_with_tag(name)
    }

    /// The ids of the notes in the category `name`, in index order.
    pub fn notes_in_category(&self, name: &str) -> (r: Vec<u32>)
        ensures
            r@ == note_ids(self.notes().filter(category_is(name@))),
    {
        self.ids_with_category(name)
    }

    fn ids_with_category(&self, name: &str) -> (r: Vec<u32>)
        ensures
            r@ == note_ids(self.notes().filter(category_is(name@))),
    {
        let ghost src = self.notes();
        let mut r: Vec<u32> = Vec::new();
        let mut i: usize = 0;
        while i < self.note_status.notes.len()
            invariant
                i <= self.note_status.notes.len(),
                src == self.notes(),
                r@ == note_ids(src.take(i as int).filter(category_is(name@))),
            decreases self.note_status.notes.len() - i,
        {
            assert(src.take(i + 1).drop_last() =~= src.take(i as int));
            reveal_with_fuel(Seq::<_>::filter, 1);
            if str_eq(self.note_status.notes[i].category.name.as_str(), name) {
                let ghost before = r@;
                r.push(self.note_status.notes[i].id);
                assert(r@ =~= before.push(src[i as int].id));
                assert(note_ids(src.take(i + 1).filter(category_is(name@))) =~= note_ids(
                    src.take(i as int).filter(category_is(name@)),
                ).push(src[i as int].id));
            }
            i += 1;
        }
        assert(src.take(i as int) =~= src);
        r
    }

    /// Removes the category `name` from the category list; the notes in it
    /// move to the category `default` (id 0, no parent) with modification time
    /// `now`. Gives the ids of the notes now in `default`, whose files the
    /// caller rewrites.
    pub fn delete_category_keep_notes(&mut self, name: &str, now: Timestamp) -> (r: Vec<u32>)
        ensures
            final(self).notes() == old(self).notes().map_values(reset_category_of(name@, now)),
            final(self).categories() == old(self).categories().filter(not_named(name@)),
            r@ == note_ids(final(self).notes().filter(category_is(default_name()))),
            final(self).pinned() == old(self).pinned(),
            final(self).archived() == old(self).archived(),
            final(self).done() == old(self).done(),
            final(self).tags() == old(self).tags(),
            final(self).notes_dir_spec() == old(self).notes_dir_spec(),
            final(self).index_file_spec() == old(self).index_file_spec(),
    {
        self.drop_category(name);
        let ghost src = self.notes();
        let ghost f = reset_category_of(name@, now);
        let mut out: Vec<NoteIndexModel> = Vec::new();
        let mut i: usize = 0;
        while i < self.note_status.notes.len()
            invariant
                f == reset_category_of(name@, now),
                i <= self.note_status.notes.len(),
                src == self.notes(),
                notes_view(out@) == src.take(i as int).map_values(f),
            decreases self.note_status.notes.len() - i,
        {
            let mut n = self.note_status.notes[i].clone();
            if str_eq(n.category.name.as_str(), name) {
                n.category = CategoryModel { id: 0, name: crate::model::own("default"), parentid: 0 };
                n.modified = now;
                proof {
                    reveal_strlit("default");
                    assert("default"@ =~= default_name());
                }
            }
            let ghost before = out@;
            out.push(n);
            assert(notes_view(out@) =~= notes_view(before).push(f(src[i as int])));
            assert(src.take(i + 1).map_values(f) =~= src.take(i as int).map_values(f).push(f(src[i as int])));
            i += 1;
        }
        assert(src.take(i as int) =~= src);
        self.note_status.notes = out;
        proof {
            reveal_strlit("default");
            assert("default"@ =~= default_name());
        }
        self.ids_with_category("default")
    }

    /// Removes the category `name` from the category list and gives the ids of
    /// the notes in it, which the caller deletes one by one (file, then
    /// `delete_note`).
    pub fn delete_category_with_notes(&mut self, name: &str) -> (r: Vec<u32>)
        ensures
            r@ == note_ids(old(self).notes().filter(category_is(name@))),
            final(self).categories() == old(self).categories().filter(not_named(name@)),
            final(self).same_but_categories(old(self)),
    {
        let r = self.ids_with_category(name);
        self.drop_category(name);
        r
    }

    fn drop_category(&mut self, name: &str)
        ensures
            final(self).categories() == old(self).categories().filter(not_named(name@)),
            final(self).same_but_categories(old(self)),
    {
        let ghost csrc = self.categories();
        let mut cats: Vec<CategoryModel> = Vec::new();
        let mut k: usize = 0;
        while k < self.category_status.categories.len()
            invariant
                k <= self.category_status.categories.len(),
                csrc == self.categories(),
                categories_view(cats@) == csrc.take(k as int).filter(not_named(name@)),
            decreases self.category_status.categories.len() - k,
        {
            assert(csrc.take(k + 1).drop_last() =~= csrc.take(k as int));
            reveal_with_fuel(Seq::<_>::filter, 1);
            if !str_eq(self.category_status.categories[k].name.as_str(), name) {
                let ghost before = cats@;
                cats.push(self.category_status.categories[k].clone());
                assert(categories_view(cats@) =~= categories_view(before).push(csrc[k as int]));
            }
            k += 1;
        }
        assert(csrc.take(k as int) =~= csrc);
        self.category_status.categories = cats;
    }

    /// Renames the tag `old_name` to `new_name` in the tag list and in every
    /// note that carries it (those notes' modification time becomes `now`);
    /// gives the ids of the notes that now carry `new_name`, whose files the
    /// caller rewrites.
    pub fn rename_tag(&mut self, old_name: &str, new_name: &str, now: Timestamp) -> (r: Vec<u32>)
        ensures
            final(self).notes() == old(self).notes().map_values(rename_tag_in(old_name@, new_name@, now)),
            final(self).tags() == old(self).tags().map_values(rename_tag_named(old_name@, new_name@)),
            r@ == note_ids(final(self).notes().filter(carries_tag(new_name@))),
            final(self).pinned() == old(self).pinned(),
            final(self).archived() == old(self).archived(),
            final(self).done() == old(self).done(),
            final(self).categories() == old(self).categories(),
            final(self).notes_dir_spec() == old(self).notes_dir_spec(),
            final(self).index_file_spec() == old(self).index_file_spec(),
    {
        let ghost src = self.notes();
        let ghost f = rename_tag_in(old_name@, new_name@, now);
        let mut out: Vec<NoteIndexModel> = Vec::new();
        let mut i: usize = 0;
        while i < self.note_status.notes.len()
            invariant
                f == rename_tag_in(old_name@, new_name@, now),
                i <= self.note_status.notes.len(),
                src == self.notes(),
                notes_view(out@) == src.take(i as int).map_values(f),
            decreases self.note_status.notes.len() - i,
        {
            let mut n = self.note_status.notes[i].clone();
            let (tags, hit) = rename_in_tags(&n.tags, old_name, new_name);
            n.tags = tags;
            if hit {
                n.modified = now;
            }
            let ghost before = out@;
            out.push(n);
            assert(notes_view(out@) =~= notes_view(before).push(f(src[i as int])));
            assert(src.take(i + 1).map_values(f) =~= src.take(i as int).map_values(f).push(f(src[i as int])));
            i += 1;
        }
        assert(src.take(i as int) =~= src);
        self.note_status.notes = out;
        let (tags, _) = rename_in_tags(&self.tag_status.tags, old_name, new_name);
        self.tag_status.tags = tags;
        self.ids_with_tag(new_name)
    }

    fn ids_with_tag(&self, name: &str) -> (r: Vec<u32>)
        ensures
            r@ == note_ids(self.notes().filter(carries_tag(name@))),
    {
        let ghost src = self.notes();
        let mut r: Vec<u32> = Vec::new();
        let mut i: usize = 0;
        while i < self.note_status.notes.len()
            invariant
                i <= self.note_status.notes.len(),
                src == self.notes(),
                r@ == note_ids(src.take(i as int).filter(carries_tag(name@))),
            decreases self.note_status.notes.len() - i,
        {
            assert(src.take(i + 1).drop_last() =~= src.take(i as int));
            reveal_with_fuel(Seq::<_>::filter, 1);
            if has_tag_named(&self.note_status.notes[i].tags, name) {
                let ghost before = r@;
                r.push(self.note_status.notes[i].id);
                assert(r@ =~= before.push(src[i as int].id));
                assert(note_ids(src.take(i + 1).filter(carries_tag(name@))) =~= note_ids(
                    src.take(i as int).filter(carries_tag(name@)),
                ).push(src[i as int].id));
            }
            i += 1;
        }
        assert(src.take(i as int) =~= src);
        r
    }

    /// Removes the tag `name` from the tag list and from every note.
    pub fn delete_tag(&mut self, name: &str)
        ensures
            final(self).tags() == old(self).tags().filter(tag_not_named(name@)),
            final(self).notes() == old(self).notes().map_values(drop_tag_in(name@)),
            final(self).pinned() == old(self).pinned(),
            final(self).archived() == old(self).archived(),
            final(self).done() == old(self).done(),
            final(self).categories() == old(self).categories(),
            final(self).notes_dir_spec() == old(self).notes_dir_spec(),
            final(self).index_file_spec() == old(self).index_file_spec(),
    {
        self.tag_status.tags = drop_tags_named(&self.tag_status.tags, name);
        let ghost src = self.notes();
        let ghost f = drop_tag_in(name@);
        let mut out: Vec<NoteIndexModel> = Vec::new();
        let mut i: usize = 0;
        while i < self.note_status.notes.len()
            invariant
                f == drop_tag_in(name@),
                i <= self.note_status.notes.len(),
                src == self.notes(),
                notes_view(out@) == src.take(i as int).map_values(f),
            decreases self.note_status.notes.len() - i,
        {
            let mut n = self.note_status.notes[i].clone();
            n.tags = drop_tags_named(&n.tags, name);
            let ghost before = out@;
            out.push(n);
            assert(notes_view(out@) =~= notes_view(before).push(f(src[i as int])));
            assert(src.take(i + 1).map_values(f) =~= src.take(i as int).map_values(f).push(f(src[i as int])));
            i += 1;
        }
        assert(src.take(i as int) =~= src);
        self.note_status.notes = out;
    }
}

} // verus!

verus! {

/// `default`, the category that notes fall back to.
pub open spec fn default_name() -> Seq<char> {
    seq!['d', 'e', 'f', 'a', 'u', 'l', 't']
}

/// The property of a note of being in the category `name`.
pub open spec fn category_is(name: Seq<char>) -> spec_fn(NoteView) -> bool {
    |n: NoteView| n.category.name == name
}

/// The property of a category of not being named `name`.
pub open spec fn not_named(name: Seq<char>) -> spec_fn(CategoryView) -> bool {
    |c: CategoryView| c.name != name
}

/// The property of a tag of not being named `name`.
pub open spec fn tag_not_named(name: Seq<char>) -> spec_fn(TagView) -> bool {
    |t: TagView| t.name != name
}

/// The property of a note of carrying a tag named `name`.
pub open spec fn carries_tag(name: Seq<char>) -> spec_fn(NoteView) -> bool {
    |n: NoteView| any(n.tags, tag_named(name))
}

/// A note after its category `old` was renamed to `new` at `now`.
pub open spec fn rename_category_in(old: Seq<char>, new: Seq<char>, now: Timestamp) -> spec_fn(NoteView) -> NoteView {
    |n: NoteView| if n.category.name == old {
        NoteView { category: CategoryView { name: new, ..n.category }, modified: now, ..n }
    } else {
        n
    }
}

/// A category after `old` was renamed to `new`.
pub open spec fn rename_category_named(old: Seq<char>, new: Seq<char>) -> spec_fn(CategoryView) -> CategoryView {
    |c: CategoryView| if c.name == old {
        CategoryView { name: new, ..c }
    } else {
        c
    }
}

/// A note after its category `name` was deleted at `now`.
pub open spec fn reset_category_of(name: Seq<char>, now: Timestamp) -> spec_fn(NoteView) -> NoteView {
    |n: NoteView| if n.category.name == name {
        NoteView {
            category: CategoryView { id: 0, name: default_name(), parentid: 0 },
            modified: now,
            ..n
        }
    } else {
        n
    }
}

/// A tag after `old` was renamed to `new`.
pub open spec fn rename_tag_named(old: Seq<char>, new: Seq<char>) -> spec_fn(TagView) -> TagView {
    |t: TagView| if t.name == old {
        TagView { name: new, ..t }
    } else {
        t
    }
}

/// A note after its tag `old` was renamed to `new` at `now`.
pub open spec fn rename_tag_in(old: Seq<char>, new: Seq<char>, now: Timestamp) -> spec_fn(NoteView) -> NoteView {
    |n: NoteView| NoteView {
        tags: n.tags.map_values(rename_tag_named(old, new)),
        modified: if any(n.tags, tag_named(old)) {
            now
        } else {
            n.modified
        },
        ..n
    }
}

/// A note after the tag `name` was deleted.
pub open spec fn drop_tag_in(name: Seq<char>) -> spec_fn(NoteView) -> NoteView {
    |n: NoteView| NoteView { tags: n.tags.filter(tag_not_named(name)), ..n }
}

/// The tags with `old` renamed to `new`, and whether one was.
fn rename_in_tags(v: &Vec<TagModel>, old: &str, new: &str) -> (r: (Vec<TagModel>, bool))
    ensures
        tags_view(r.0@) == tags_view(v@).map_values(rename_tag_named(old@, new@)),
        r.1 == any(tags_view(v@), tag_named(old@)),
{
    let ghost src = tags_view(v@);
    let ghost g = rename_tag_named(old@, new@);
    let mut out: Vec<TagModel> = Vec::new();
    let mut hit = false;
    let mut i: usize = 0;
    while i < v.len()
        invariant
            g == rename_tag_named(old@, new@),
            i <= v.len(),
            src == tags_view(v@),
            tags_view(out@) == src.take(i as int).map_values(g),
            hit == any(src.take(i as int), tag_named(old@)),
        decreases v.len() - i,
    {
        let mut t = v[i].clone();
        if str_eq(t.name.as_str(), old) {
            t.name = crate::model::own(new);
            hit = true;
            assert(src.take(i + 1)[i as int] == src[i as int]);
        }
        proof {
            if any(src.take(i + 1), tag_named(old@)) && !any(src.take(i as int), tag_named(old@)) {
                let j = choose|j: int| 0 <= j < i + 1 && tag_named(old@)(#[trigger] src.take(i + 1)[j]);
                if j < i {
                    assert(src.take(i as int)[j] == src.take(i + 1)[j]);
                }
            }
            if any(src.take(i as int), tag_named(old@)) {
                let j = choose|j: int| 0 <= j < i && tag_named(old@)(#[trigger] src.take(i as int)[j]);
                assert(src.take(i + 1)[j] == src.take(i as int)[j]);
            }
        }
        let ghost before = out@;
        out.push(t);
        assert(tags_view(out@) =~= tags_view(before).push(g(src[i as int])));
        assert(src.take(i + 1).map_values(g) =~= src.take(i as int).map_values(g).push(g(src[i as int])));
        i += 1;
    }
    assert(src.take(i as int) =~= src);
    (out, hit)
}

/// Whether a tag of `v` is named `name`.
pub fn has_tag_named(v: &Vec<TagModel>, name: &str) -> (r: bool)
    ensures
        r == any(tags_view(v@), tag_named(name@)),
{
    let mut i: usize = 0;
    while i < v.len()
        invariant
            i <= v.len(),
            forall|j: int| 0 <= j < i ==> !tag_named(name@)(#[trigger] tags_view(v@)[j]),
        decreases v.len() - i,
    {
        if str_eq(v[i].name.as_str(), name) {
            assert(tag_named(name@)(tags_view(v@)[i as int]));
            return true;
        }
        i += 1;
    }
    false
}

/// The tags other than those named `name`.
fn drop_tags_named(v: &Vec<TagModel>, name: &str) -> (r: Vec<TagModel>)
    ensures
        tags_view(r@) == tags_view(v@).filter(tag_not_named(name@)),
{
    let ghost src = tags_view(v@);
    let mut out: Vec<TagModel> = Vec::new();
    let mut i: usize = 0;
    while i < v.len()
        invariant
            i <= v.len(),
            src == tags_view(v@),
            tags_view(out@) == src.take(i as int).filter(tag_not_named(name@)),
        decreases v.len() - i,
    {
        assert(src.take(i + 1).drop_last() =~= src.take(i as int));
        reveal_with_fuel(Seq::<_>::filter, 1);
        if !str_eq(v[i].name.as_str(), name) {
            let ghost before = out@;
            out.push(v[i].clone());
            assert(tags_view(out@) =~= tags_view(before).push(src[i as int]));
        }
        i += 1;
    }
    assert(src.take(i as int) =~= src);
    out
}

/// The index's notes followed by those on disk whose id the index lacks.
pub open spec fn merged_notes(index: Seq<NoteView>, disk: Seq<NoteView>) -> Seq<NoteView> {
    index + disk.filter(id_outside(note_ids(index)))
}

/// The notes after a sync: the merged notes whose id is on disk.
pub open spec fn synced_notes(index: Seq<NoteView>, disk: Seq<NoteView>) -> Seq<NoteView> {
    merged_notes(index, disk).filter(id_among(note_ids(disk)))
}

/// The property of a note of having an id that `ids` lacks.
pub open spec fn id_outside(ids: Seq<u32>) -> spec_fn(NoteView) -> bool {
    |n: NoteView| !ids.contains(n.id)
}

/// The property of a note of having an id that `ids` holds.
pub open spec fn id_among(ids: Seq<u32>) -> spec_fn(NoteView) -> bool {
    |n: NoteView| ids.contains(n.id)
}

/// The property of an id of being in `ids`.
pub open spec fn among(ids: Seq<u32>) -> spec_fn(u32) -> bool {
    |x: u32| ids.contains(x)
}

/// The categories of some notes, one per note.
pub open spec fn note_categories(s: Seq<NoteView>) -> Seq<CategoryView> {
    s.map_values(|n: NoteView| n.category)
}

/// The tag lists of some notes, one per note.
pub open spec fn note_tag_lists(s: Seq<NoteView>) -> Seq<Seq<TagView>> {
    s.map_values(|n: NoteView| n.tags)
}

/// The tags of some notes, note after note.
pub open spec fn note_tags(s: Seq<NoteView>) -> Seq<TagView> {
    note_tag_lists(s).flatten()
}

/// A category's id.
pub open spec fn category_key() -> spec_fn(CategoryView) -> u32 {
    |c: CategoryView| c.id
}

/// A tag's id.
pub open spec fn tag_key() -> spec_fn(TagView) -> u32 {
    |t: TagView| t.id
}

fn ids_of_notes(v: &Vec<NoteIndexModel>) -> (r: Vec<u32>)
    ensures
        r@ == note_ids(notes_view(v@)),
{
    let mut r: Vec<u32> = Vec::new();
    let mut i: usize = 0;
    while i < v.len()
        invariant
            i <= v.len(),
            r@ == note_ids(notes_view(v@)).take(i as int),
        decreases v.len() - i,
    {
        r.push(v[i].id);
        assert(note_ids(notes_view(v@)).take(i + 1) =~= note_ids(notes_view(v@)).take(i as int).push(
            v@[i as int].id,
        ));
        i += 1;
    }
    assert(note_ids(notes_view(v@)).take(i as int) =~= note_ids(notes_view(v@)));
    r
}

fn ids_of_categories(v: &Vec<CategoryModel>) -> (r: Vec<u32>)
    ensures
        r@ == category_ids(categories_view(v@)),
{
    let mut r: Vec<u32> = Vec::new();
    let mut i: usize = 0;
    while i < v.len()
        invariant
            i <= v.len(),
            r@ == category_ids(categories_view(v@)).take(i as int),
        decreases v.len() - i,
    {
        r.push(v[i].id);
        assert(category_ids(categories_view(v@)).take(i + 1) =~= category_ids(
            categories_view(v@),
        ).take(i as int).push(v@[i as int].id));
        i += 1;
    }
    assert(category_ids(categories_view(v@)).take(i as int) =~= category_ids(categories_view(v@)));
    r
}

fn ids_of_tags(v: &Vec<TagModel>) -> (r: Vec<u32>)
    ensures
        r@ == tag_ids(tags_view(v@)),
{
    let mut r: Vec<u32> = Vec::new();
    let mut i: usize = 0;
    while i < v.len()
        invariant
            i <= v.len(),
            r@ == tag_ids(tags_view(v@)).take(i as int),
        decreases v.len() - i,
    {
        r.push(v[i].id);
        assert(tag_ids(tags_view(v@)).take(i + 1) =~= tag_ids(tags_view(v@)).take(i as int).push(
            v@[i as int].id,
        ));
        i += 1;
    }
    assert(tag_ids(tags_view(v@)).take(i as int) =~= tag_ids(tags_view(v@)));
    r
}

/// Whether two lists hold the same ids, as sets.
fn same_id_set(a: &Vec<u32>, b: &Vec<u32>) -> (r: bool)
    ensures
        r == (a@.to_set() == b@.to_set()),
{
    let mut i: usize = 0;
    while i < a.len()
        invariant
            i <= a.len(),
            forall|k: int| 0 <= k < i ==> b@.contains(#[trigger] a@[k]),
        decreases a.len() - i,
    {
        if !contains_u32(b, a[i]) {
            proof {
                assert(a@.to_set().contains(a@[i as int]));
                assert(!b@.to_set().contains(a@[i as int]));
            }
            return false;
        }
        i += 1;
    }
    let mut j: usize = 0;
    while j < b.len()
        invariant
            j <= b.len(),
            forall|k: int| 0 <= k < j ==> a@.contains(#[trigger] b@[k]),
        decreases b.len() - j,
    {
        if !contains_u32(a, b[j]) {
            proof {
                assert(b@.to_set().contains(b@[j as int]));
                assert(!a@.to_set().contains(b@[j as int]));
            }
            return false;
        }
        j += 1;
    }
    proof {
        assert forall|x: u32| a@.to_set().contains(x) <==> b@.to_set().contains(x) by {
            if a@.contains(x) {
                let k = choose|k: int| 0 <= k < a@.len() && a@[k] == x;
                assert(b@.contains(a@[k]));
            }
            if b@.contains(x) {
                let k = choose|k: int| 0 <= k < b@.len() && b@[k] == x;
                assert(a@.contains(b@[k]));
            }
        }
        assert(a@.to_set() =~= b@.to_set());
    }
    true
}

/// The categories of `notes`, ordered by id, the first note naming an id
/// giving its category.
fn category_table(notes: &Vec<NoteIndexModel>) -> (r: Vec<CategoryModel>)
    ensures
        keyed_table(categories_view(r@), note_categories(notes_view(notes@)), category_key()),
{
    let ghost src = note_categories(notes_view(notes@));
    let mut keys: Vec<u32> = Vec::new();
    let mut i: usize = 0;
    while i < notes.len()
        invariant
            i <= notes.len(),
            src == note_categories(notes_view(notes@)),
            keys@ == src.map_values(category_key()).take(i as int),
        decreases notes.len() - i,
    {
        keys.push(notes[i].category.id);
        assert(src.map_values(category_key()).take(i + 1) =~= src.map_values(category_key()).take(
            i as int,
        ).push(notes@[i as int].category.id));
        i += 1;
    }
    assert(src.map_values(category_key()).take(i as int) =~= src.map_values(category_key()));
    let ps = first_positions_by_key(&keys);
    let mut r: Vec<CategoryModel> = Vec::new();
    let mut j: usize = 0;
    while j < ps.len()
        invariant
            j <= ps.len(),
            src == note_categories(notes_view(notes@)),
            keys@ == src.map_values(category_key()),
            first_positions(keys@, ps@),
            r@.len() == j,
            forall|t: int| 0 <= t < j ==> (#[trigger] r@[t])@ == src[ps@[t] as int],
        decreases ps.len() - j,
    {
        assert(first_of_key(keys@, ps@[j as int] as int));
        let p = ps[j];
        r.push(notes[p].category.clone());
        j += 1;
    }
    proof {
        assert(first_positions(src.map_values(category_key()), ps@));
        assert(ps@.len() == categories_view(r@).len());
        assert forall|t: int| 0 <= t < ps@.len() implies categories_view(r@)[t] == src[#[trigger] ps@[t] as int] by {
            assert(r@[t]@ == src[ps@[t] as int]);
        }
    }
    r
}

/// The tags of `notes`, ordered by id, the first occurrence of an id giving
/// its tag.
fn tag_table(notes: &Vec<NoteIndexModel>) -> (r: Vec<TagModel>)
    ensures
        keyed_table(tags_view(r@), note_tags(notes_view(notes@)), tag_key()),
{
    let ghost nested = note_tag_lists(notes_view(notes@));
    let mut all: Vec<TagModel> = Vec::new();
    let mut i: usize = 0;
    while i < notes.len()
        invariant
            i <= notes.len(),
            nested == note_tag_lists(notes_view(notes@)),
            tags_view(all@) == nested.take(i as int).flatten(),
        decreases notes.len() - i,
    {
        let ghost base = tags_view(all@);
        let tv = &notes[i].tags;
        let mut j: usize = 0;
        while j < tv.len()
            invariant
                j <= tv.len(),
                tags_view(all@) == base + tags_view(tv@).take(j as int),
            decreases tv.len() - j,
        {
            let ghost before = all@;
            all.push(tv[j].clone());
            assert(tags_view(all@) =~= tags_view(before).push(tv@[j as int]@));
            assert(tags_view(tv@).take(j + 1) =~= tags_view(tv@).take(j as int).push(tv@[j as int]@));
            assert(base + tags_view(tv@).take(j + 1) =~= (base + tags_view(tv@).take(j as int)).push(
                tv@[j as int]@,
            ));
            j += 1;
        }
        proof {
            assert(tags_view(tv@).take(j as int) =~= tags_view(tv@));
            assert(nested[i as int] == tags_view(tv@));
            assert(nested.take(i + 1) =~= nested.take(i as int).push(nested[i as int]));
            nested.take(i as int).lemma_flatten_push(nested[i as int]);
        }
        i += 1;
    }
    assert(nested.take(i as int) =~= nested);
    let ghost src = tags_view(all@);
    assert(src == note_tags(notes_view(notes@)));
    let mut keys: Vec<u32> = Vec::new();
    let mut k: usize = 0;
    while k < all.len()
        invariant
            k <= all.len(),
            src == tags_view(all@),
            keys@ == src.map_values(tag_key()).take(k as int),
        decreases all.len() - k,
    {
        keys.push(all[k].id);
        assert(src.map_values(tag_key()).take(k + 1) =~= src.map_values(tag_key()).take(
            k as int,
        ).push(all@[k as int].id));
        k += 1;
    }
    assert(src.map_values(tag_key()).take(k as int) =~= src.map_values(tag_key()));
    let ps = first_positions_by_key(&keys);
    let mut r: Vec<TagModel> = Vec::new();
    let mut j: usize = 0;
    while j < ps.len()
        invariant
            j <= ps.len(),
            src == tags_view(all@),
            keys@ == src.map_values(tag_key()),
            first_positions(keys@, ps@),
            r@.len() == j,
            forall|t: int| 0 <= t < j ==> (#[trigger] r@[t])@ == src[ps@[t] as int],
        decreases ps.len() - j,
    {
        assert(first_of_key(keys@, ps@[j as int] as int));
        let p = ps[j];
        r.push(all[p].clone());
        j += 1;
    }
    proof {
        assert(ps@.len() == tags_view(r@).len());
        assert forall|t: int| 0 <= t < ps@.len() implies tags_view(r@)[t] == src[#[trigger] ps@[t] as int] by {
            assert(r@[t]@ == src[ps@[t] as int]);
        }
    }
    r
}

/// The category named `name` among `cats` and the categories after the
/// lookup: the first one with that name, or a new one with the next id and
/// no parent, added at the end.
pub open spec fn category_resolution(cats: Seq<CategoryView>, name: Seq<char>) -> (CategoryView, Seq<CategoryView>) {
    match find_first(cats, category_named(name)) {
        Some(i) => (cats[i], cats),
        None => {
            let c = CategoryView { id: (max_of(category_ids(cats)) + 1) as u32, name, parentid: 0 };
            (c, cats.push(c))
        },
    }
}

/// The tag named `name` among `tags` and the tags after the lookup: the
/// first one with that name, or a new one with the next id, added at the end.
pub open spec fn tag_resolution(tags: Seq<TagView>, name: Seq<char>) -> (TagView, Seq<TagView>) {
    match find_first(tags, tag_named(name)) {
        Some(i) => (tags[i], tags),
        None => {
            let t = TagView { id: (max_of(tag_ids(tags)) + 1) as u32, name };
            (t, tags.push(t))
        },
    }
}

/// The tags named `names`, resolved one after the other, and the tags after.
pub open spec fn tags_resolution(tags: Seq<TagView>, names: Seq<Seq<char>>) -> (Seq<TagView>, Seq<TagView>)
    decreases names.len(),
{
    if names.len() == 0 {
        (Seq::empty(), tags)
    } else {
        let (got, after) = tags_resolution(tags, names.drop_last());
        let (t, last) = tag_resolution(after, names.last());
        (got.push(t), last)
    }
}

/// The largest number after pushing one is the larger of the two.
pub proof fn lemma_max_of_push(s: Seq<u32>, x: u32)
    ensures
        max_of(s.push(x)) == if x > max_of(s) { x as nat } else { max_of(s) },
{
    assert(s.push(x).drop_last() =~= s);
}

} // verus!
