//! The data model: notes, categories, tags and the status lists that the
//! index keeps.
use vstd::prelude::*;
use crate::text::{chars_of, str_eq};
use crate::time::Timestamp;

verus! {

/// How urgent a note is; the variants are in increasing order.
#[derive(Debug, Clone, Copy, PartialEq, Eq, Structural, Hash, PartialOrd, Ord)]
pub enum Priority {
    Low,
    Normal,
    High,
    Urgent,
}

/// The rank of a priority in the order `Low < Normal < High < Urgent`.
pub open spec fn priority_rank(p: Priority) -> nat {
    match p {
        Priority::Low => 0,
        Priority::Normal => 1,
        Priority::High => 2,
        Priority::Urgent => 3,
    }
}

/// The lower-case name of a priority, as the notes show it.
pub open spec fn priority_text(p: Priority) -> Seq<char> {
    match p {
        Priority::Low => seq!['l', 'o', 'w'],
        Priority::Normal => seq!['n', 'o', 'r', 'm', 'a', 'l'],
        Priority::High => seq!['h', 'i', 'g', 'h'],
        Priority::Urgent => seq!['u', 'r', 'g', 'e', 'n', 't'],
    }
}

/// The priority that a (lower-cased) name selects; any other name selects `Normal`.
pub open spec fn priority_from_lower(s: Seq<char>) -> Priority {
    if s == seq!['l', 'o', 'w'] {
        Priority::Low
    } else if s == seq!['h', 'i', 'g', 'h'] {
        Priority::High
    } else if s == seq!['u', 'r', 'g', 'e', 'n', 't'] {
        Priority::Urgent
    } else {
        Priority::Normal
    }
}

/// The priority a user's text names, ignoring case: `low`, `high` and
/// `urgent` select those, anything else `Normal`. A priority's own
/// lower-case name is read as it stands (lower-casing leaves it as it is);
/// any other text is lower-cased first.
pub open spec fn priority_of_text(s: Seq<char>) -> Priority {
    if s == priority_text(Priority::Low) || s == priority_text(Priority::Normal) || s == priority_text(
        Priority::High,
    ) || s == priority_text(Priority::Urgent) {
        priority_from_lower(s)
    } else {
        priority_from_lower(crate::text::lowercase(s))
    }
}

/// The priority a lower-cased name selects.
fn priority_of_lower(v: &Vec<char>) -> (p: Priority)
    ensures
        p == priority_from_lower(v@),
{
    if v.len() == 3 && v[0] == 'l' && v[1] == 'o' && v[2] == 'w' {
        assert(v@ =~= seq!['l', 'o', 'w']);
        Priority::Low
    } else if v.len() == 4 && v[0] == 'h' && v[1] == 'i' && v[2] == 'g' && v[3] == 'h' {
        assert(v@ =~= seq!['h', 'i', 'g', 'h']);
        Priority::High
    } else if v.len() == 6 && v[0] == 'u' && v[1] == 'r' && v[2] == 'g' && v[3] == 'e' && v[4]
        == 'n' && v[5] == 't' {
        assert(v@ =~= seq!['u', 'r', 'g', 'e', 'n', 't']);
        Priority::Urgent
    } else {
        proof {
            if v@ == seq!['l', 'o', 'w'] {
                assert(v@[0] == 'l' && v@[1] == 'o' && v@[2] == 'w');
            }
            if v@ == seq!['h', 'i', 'g', 'h'] {
                assert(v@[0] == 'h' && v@[1] == 'i' && v@[2] == 'g' && v@[3] == 'h');
            }
            if v@ == seq!['u', 'r', 'g', 'e', 'n', 't'] {
                assert(v@[0] == 'u' && v@[1] == 'r' && v@[2] == 'g' && v@[3] == 'e' && v@[4]
                    == 'n' && v@[5] == 't');
            }
        }
        Priority::Normal
    }
}


/// The priority a user's text names (see `priority_of_text`).
pub fn parse_priority(s: &str) -> (p: Priority)
    ensures
        p == priority_of_text(s@),
{
    proof {
        reveal_strlit("low");
        reveal_strlit("normal");
        reveal_strlit("high");
        reveal_strlit("urgent");
    }
    if crate::text::str_eq(s, "low") || crate::text::str_eq(s, "normal") || crate::text::str_eq(s, "high")
        || crate::text::str_eq(s, "urgent") {
        let v = chars_of(s);
        proof {
            assert("low"@ =~= priority_text(Priority::Low));
            assert("normal"@ =~= priority_text(Priority::Normal));
            assert("high"@ =~= priority_text(Priority::High));
            assert("urgent"@ =~= priority_text(Priority::Urgent));
        }
        return priority_of_lower(&v);
    }
    proof {
        assert("low"@ =~= priority_text(Priority::Low));
        assert("normal"@ =~= priority_text(Priority::Normal));
        assert("high"@ =~= priority_text(Priority::High));
        assert("urgent"@ =~= priority_text(Priority::Urgent));
    }
    let lower = crate::text::to_lowercase(s);
    let v = chars_of(lower.as_str());
    priority_of_lower(&v)
}

/// The lower-case name of a priority.
pub fn priority_name(p: Priority) -> (s: String)
    ensures
        s@ == priority_text(p),
{
    let mut s = String::new();
    match p {
        Priority::Low => crate::text::push_str(&mut s, "low"),
        Priority::Normal => crate::text::push_str(&mut s, "normal"),
        Priority::High => crate::text::push_str(&mut s, "high"),
        Priority::Urgent => crate::text::push_str(&mut s, "urgent"),
    }
    proof {
        reveal_strlit("low");
        reveal_strlit("normal");
        reveal_strlit("high");
        reveal_strlit("urgent");
        assert(s@ =~= priority_text(p));
    }
    s
}

/// Whether `a` comes after `b` in priority order.
pub fn priority_after(a: Priority, b: Priority) -> (r: bool)
    ensures
        r == (priority_rank(a) > priority_rank(b)),
{
    rank_of(a) > rank_of(b)
}

fn rank_of(p: Priority) -> (r: u8)
    ensures
        r as nat == priority_rank(p),
{
    match p {
        Priority::Low => 0,
        Priority::Normal => 1,
        Priority::High => 2,
        Priority::Urgent => 3,
    }
}

/// A category; `parentid` 0 marks a top-level category.
#[derive(Debug)]
pub struct CategoryModel {
    pub id: u32,
    pub name: String,
    pub parentid: u32,
}

/// The value of a category.
pub struct CategoryView {
    pub id: u32,
    pub name: Seq<char>,
    pub parentid: u32,
}

impl View for CategoryModel {
    type V = CategoryView;

    open spec fn view(&self) -> CategoryView {
        CategoryView { id: self.id, name: self.name@, parentid: self.parentid }
    }
}

impl Clone for CategoryModel {
    fn clone(&self) -> (r: Self)
        ensures
            r@ == self@,
    {
        CategoryModel { id: self.id, name: self.name.clone(), parentid: self.parentid }
    }
}

/// A tag.
#[derive(Debug)]
pub struct TagModel {
    pub id: u32,
    pub name: String,
}

/// The value of a tag.
pub struct TagView {
    pub id: u32,
    pub name: Seq<char>,
}

impl View for TagModel {
    type V = TagView;

    open spec fn view(&self) -> TagView {
        TagView { id: self.id, name: self.name@ }
    }
}

impl Clone for TagModel {
    fn clone(&self) -> (r: Self)
        ensures
            r@ == self@,
    {
        TagModel { id: self.id, name: self.name.clone() }
    }
}

/// The values of a list of tags.
pub open spec fn tags_view(v: Seq<TagModel>) -> Seq<TagView> {
    v.map_values(|t: TagModel| t@)
}

/// The values of a list of categories.
pub open spec fn categories_view(v: Seq<CategoryModel>) -> Seq<CategoryView> {
    v.map_values(|c: CategoryModel| c@)
}

/// A copy of a list of tags.
pub fn clone_tags(v: &Vec<TagModel>) -> (r: Vec<TagModel>)
    ensures
        tags_view(r@) == tags_view(v@),
{
    let mut r: Vec<TagModel> = Vec::new();
    let mut i: usize = 0;
    while i < v.len()
        invariant
            i <= v.len(),
            tags_view(r@) == tags_view(v@.take(i as int)),
        decreases v.len() - i,
    {
        let t = v[i].clone();
        let ghost old_r = r@;
        r.push(t);
        assert(tags_view(r@) =~= tags_view(old_r).push(t@));
        assert(tags_view(v@.take(i + 1)) =~= tags_view(v@.take(i as int)).push(v@[i as int]@));
        i += 1;
    }
    assert(v@.take(v@.len() as int) == v@);
    r
}

/// The metadata of a note, as the index keeps it.
#[derive(Debug)]
pub struct NoteIndexModel {
    pub id: u32,
    pub title: String,
    pub category: CategoryModel,
    pub tags: Vec<TagModel>,
    pub priority: Priority,
    pub created: Timestamp,
    pub modified: Timestamp,
}

/// The value of a note's metadata.
pub struct NoteView {
    pub id: u32,
    pub title: Seq<char>,
    pub category: CategoryView,
    pub tags: Seq<TagView>,
    pub priority: Priority,
    pub created: Timestamp,
    pub modified: Timestamp,
}

impl View for NoteIndexModel {
    type V = NoteView;

    open spec fn view(&self) -> NoteView {
        NoteView {
            id: self.id,
            title: self.title@,
            category: self.category@,
            tags: tags_view(self.tags@),
            priority: self.priority,
            created: self.created,
            modified: self.modified,
        }
    }
}

/// The values of a list of notes.
pub open spec fn notes_view(v: Seq<NoteIndexModel>) -> Seq<NoteView> {
    v.map_values(|n: NoteIndexModel| n@)
}

impl Clone for NoteIndexModel {
    fn clone(&self) -> (r: Self)
        ensures
            r@ == self@,
    {
        NoteIndexModel {
            id: self.id,
            title: self.title.clone(),
            category: self.category.clone(),
            tags: clone_tags(&self.tags),
            priority: self.priority,
            created: self.created,
            modified: self.modified,
        }
    }
}

/// A note: its metadata and its Markdown body.
#[derive(Debug)]
pub struct NoteModel {
    pub index: NoteIndexModel,
    pub content: String,
}

/// The notes of the index and the ids that are pinned, archived or done.
#[derive(Debug)]
pub struct NoteStatus {
    pub notes: Vec<NoteIndexModel>,
    pub pinned_notes_id: Vec<u32>,
    pub archived_notes: Vec<u32>,
    pub done_notes: Vec<u32>,
}

impl Default for NoteStatus {
    fn default() -> (r: Self)
        ensures
            r.notes@.len() == 0,
            r.pinned_notes_id@.len() == 0,
            r.archived_notes@.len() == 0,
            r.done_notes@.len() == 0,
    {
        NoteStatus {
            notes: Vec::new(),
            pinned_notes_id: Vec::new(),
            archived_notes: Vec::new(),
            done_notes: Vec::new(),
        }
    }
}

/// The categories of the index.
#[derive(Debug)]
pub struct CategoryStatus {
    pub categories: Vec<CategoryModel>,
}

impl Default for CategoryStatus {
    fn default() -> (r: Self)
        ensures
            r.categories@.len() == 0,
    {
        CategoryStatus { categories: Vec::new() }
    }
}

/// The tags of the index.
#[derive(Debug)]
pub struct TagStatus {
    pub tags: Vec<TagModel>,
}

impl Default for TagStatus {
    fn default() -> (r: Self)
        ensures
            r.tags@.len() == 0,
    {
        TagStatus { tags: Vec::new() }
    }
}

/// An owned copy of a string slice.
pub fn own(s: &str) -> (r: String)
    ensures
        r@ == s@,
{
    let mut r = String::new();
    crate::text::push_str(&mut r, s);
    r
}

/// Whether two strings are equal (the `==` of `String`).
pub fn same_text(a: &String, b: &str) -> (r: bool)
    ensures
        r == (a@ == b@),
{
    str_eq(a.as_str(), b)
}

} // verus!
