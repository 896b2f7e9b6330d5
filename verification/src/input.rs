//! What the interactive prompts show and preselect; the prompts themselves
//! run in the terminal.
use vstd::prelude::*;
use crate::handle::list::{tag_name_list, tag_names};
use crate::handle::show::priority_debug;
use crate::model::{own, priority_rank, CategoryView, NoteIndexModel, NoteView, Priority, TagView};
use crate::numeric::{dec, dec_string};
use crate::seqs::{any, find_first};
use crate::storage::{category_named, tag_named, DataBaseStorage};
use crate::text::{join, join_strings, push_str, str_eq, strings_view};

verus! {

/// What the interactive delete picks.
pub enum DeleteTarget {
    ById(u32),
    ByTag(Vec<String>),
    ByCategory(String),
    Cancelled,
}

/// The fields an interactive edit asks to change.
pub struct EditFields {
    pub title: Option<String>,
    pub category: Option<String>,
    pub tags: Option<Vec<String>>,
    pub priority: Option<String>,
    pub content: Option<String>,
}

/// How a note is offered for selection: `[id] title (category)`.
pub open spec fn label_of(n: NoteView) -> Seq<char> {
    "["@ + dec(n.id as nat) + "] "@ + n.title + " ("@ + n.category.name + ")"@
}

/// How a note is offered for selection.
pub fn note_label(n: &NoteIndexModel) -> (r: String)
    ensures
        r@ == label_of(n@),
{
    let mut s = own("[");
    push_str(&mut s, dec_string(n.id as u64).as_str());
    push_str(&mut s, "] ");
    push_str(&mut s, n.title.as_str());
    push_str(&mut s, " (");
    push_str(&mut s, n.category.name.as_str());
    push_str(&mut s, ")");
    s
}

/// The property of a note of not being archived.
pub open spec fn not_archived(archived: Seq<u32>) -> spec_fn(NoteView) -> bool {
    |n: NoteView| !archived.contains(n.id)
}

/// The notes offered when a command asks for one: those not archived, in
/// index order, each with its id and label.
pub fn selectable_notes(storage: &DataBaseStorage) -> (r: Vec<(u32, String)>)
    ensures
        r@.len() == storage.notes().filter(not_archived(storage.archived())).len(),
        forall|i: int|
            0 <= i < r@.len() ==> (#[trigger] r@[i]).0 == storage.notes().filter(
                not_archived(storage.archived()),
            )[i].id && r@[i].1@ == label_of(storage.notes().filter(not_archived(storage.archived()))[i]),
{
    let all = storage.list_notes();
    let ghost src = storage.notes();
    let ghost p = not_archived(storage.archived());
    let ghost mut picked: Seq<NoteView> = Seq::empty();
    let mut r: Vec<(u32, String)> = Vec::new();
    let mut i: usize = 0;
    while i < all.len()
        invariant
            i <= all@.len(),
            all@.len() == src.len(),
            src == storage.notes(),
            p == not_archived(storage.archived()),
            forall|k: int| 0 <= k < all@.len() ==> (#[trigger] all@[k])@ == src[k],
            picked == src.take(i as int).filter(p),
            r@.len() == picked.len(),
            forall|k: int| 0 <= k < r@.len() ==> (#[trigger] r@[k]).0 == picked[k].id && r@[k].1@ == label_of(picked[k]),
        decreases all.len() - i,
    {
        assert(src.take(i + 1).drop_last() =~= src.take(i as int));
        reveal_with_fuel(Seq::<_>::filter, 1);
        if !storage.is_archived(all[i].id) {
            r.push((all[i].id, note_label(all[i])));
            proof {
                picked = picked.push(src[i as int]);
            }
        }
        i += 1;
    }
    assert(src.take(i as int) =~= src);
    r
}

/// The line an interactive edit opens with, showing the note's title,
/// category, tags and priority.
pub open spec fn edit_prompt_text(n: NoteView) -> Seq<char> {
    "选择要编辑的字段 (当前: "@ + n.title + " / "@ + n.category.name + " / "@ + join(tag_names(n.tags), ", "@)
        + " / "@ + priority_debug(n.priority) + ")"@
}

/// The line an interactive edit opens with.
pub fn edit_prompt(n: &NoteIndexModel) -> (r: String)
    ensures
        r@ == edit_prompt_text(n@),
{
    let mut s = own("选择要编辑的字段 (当前: ");
    push_str(&mut s, n.title.as_str());
    push_str(&mut s, " / ");
    push_str(&mut s, n.category.name.as_str());
    push_str(&mut s, " / ");
    let names = tag_name_list(&n.tags);
    push_str(&mut s, join_strings(&names, ", ").as_str());
    push_str(&mut s, " / ");
    let pri = match n.priority {
        Priority::Low => own("Low"),
        Priority::Normal => own("Normal"),
        Priority::High => own("High"),
        Priority::Urgent => own("Urgent"),
    };
    push_str(&mut s, pri.as_str());
    push_str(&mut s, ")");
    s
}

/// The category choices of an interactive edit: the category names, then
/// the entry for a new category.
pub open spec fn category_choices(cats: Seq<CategoryView>) -> Seq<Seq<char>> {
    cats.map_values(|c: CategoryView| c.name).push("+ 新建分类"@)
}

/// The category choices of an interactive edit.
pub fn category_choice_list(storage: &DataBaseStorage) -> (r: Vec<String>)
    ensures
        strings_view(r@) == category_choices(storage.categories()),
{
    let cats = storage.list_categories();
    let ghost want = storage.categories().map_values(|c: CategoryView| c.name);
    let mut r: Vec<String> = Vec::new();
    let mut i: usize = 0;
    while i < cats.len()
        invariant
            i <= cats@.len(),
            crate::model::categories_view(cats@) == storage.categories(),
            want == storage.categories().map_values(|c: CategoryView| c.name),
            strings_view(r@) == want.take(i as int),
        decreases cats.len() - i,
    {
        let ghost before = r@;
        r.push(cats[i].name.clone());
        assert(strings_view(r@) =~= strings_view(before).push(cats@[i as int].name@));
        assert(want.take(i + 1) =~= want.take(i as int).push(cats@[i as int].name@));
        i += 1;
    }
    assert(want.take(i as int) =~= want);
    r.push(own("+ 新建分类"));
    assert(strings_view(r@) =~= category_choices(storage.categories()));
    r
}

/// The position of the first choice equal to `name`, or 0.
pub open spec fn position_or_first(choices: Seq<Seq<char>>, name: Seq<char>) -> int {
    match find_first(choices, |c: Seq<char>| c == name) {
        Some(i) => i,
        None => 0,
    }
}

/// The choice preselected for a note's category.
pub fn category_default_position(choices: &Vec<String>, current: &str) -> (r: usize)
    ensures
        r as int == position_or_first(strings_view(choices@), current@),
{
    let ghost p = |c: Seq<char>| c == current@;
    let mut i: usize = 0;
    while i < choices.len()
        invariant
            i <= choices@.len(),
            p == (|c: Seq<char>| c == current@),
            forall|j: int| 0 <= j < i ==> !p(#[trigger] strings_view(choices@)[j]),
        decreases choices.len() - i,
    {
        if str_eq(choices[i].as_str(), current) {
            proof {
                crate::seqs::lemma_find_first_at(strings_view(choices@), p, i as int);
            }
            return i;
        }
        i += 1;
    }
    proof {
        crate::seqs::lemma_find_first_none(strings_view(choices@), p);
    }
    0
}

/// Which tags of the tag list an interactive edit preselects: those whose
/// name the note carries.
pub fn tag_defaults(all: &Vec<crate::model::TagModel>, note: &NoteIndexModel) -> (r: Vec<bool>)
    ensures
        r@.len() == all@.len(),
        forall|i: int| 0 <= i < r@.len() ==> r@[i] == any(note@.tags, tag_named(#[trigger] all@[i]@.name)),
{
    let mut r: Vec<bool> = Vec::new();
    let mut i: usize = 0;
    while i < all.len()
        invariant
            i <= all@.len(),
            r@.len() == i,
            forall|k: int| 0 <= k < i ==> r@[k] == any(note@.tags, tag_named(#[trigger] all@[k]@.name)),
        decreases all.len() - i,
    {
        r.push(crate::storage::has_tag_named(&note.tags, all[i].name.as_str()));
        i += 1;
    }
    r
}

/// The priority preselected for a note: its place in `low, normal, high, urgent`.
pub fn priority_position(p: Priority) -> (r: usize)
    ensures
        r as nat == priority_rank(p),
{
    match p {
        Priority::Low => 0,
        Priority::Normal => 1,
        Priority::High => 2,
        Priority::Urgent => 3,
    }
}

/// The delete target the interactive answers give: the way chosen (`0` by
/// id, `1` by tag, `2` by category), the note picked for `0`, and for `1`
/// and `2` the position picked among the offered tag or category names.
/// A missing answer, an empty list or any other way cancels.
pub fn delete_target(
    mode: usize,
    id: Option<u32>,
    tags: &Vec<String>,
    categories: &Vec<String>,
    pick: Option<usize>,
) -> (r: DeleteTarget)
    ensures
        mode == 0 ==> match id {
            Some(i) => r matches DeleteTarget::ById(j) && j == i,
            None => r is Cancelled,
        },
        mode == 1 ==> match pick {
            Some(p) => if p < tags@.len() {
                r matches DeleteTarget::ByTag(v) && v@.len() == 1 && v@[0]@ == tags@[p as int]@
            } else {
                r is Cancelled
            },
            None => r is Cancelled,
        },
        mode == 2 ==> match pick {
            Some(p) => if p < categories@.len() {
                r matches DeleteTarget::ByCategory(c) && c@ == categories@[p as int]@
            } else {
                r is Cancelled
            },
            None => r is Cancelled,
        },
        mode > 2 ==> r is Cancelled,
{
    if mode == 0 {
        match id {
            Some(i) => DeleteTarget::ById(i),
            None => DeleteTarget::Cancelled,
        }
    } else if mode == 1 {
        match pick {
            Some(p) => if p < tags.len() {
                let mut v: Vec<String> = Vec::new();
                v.push(tags[p].clone());
                DeleteTarget::ByTag(v)
            } else {
                DeleteTarget::Cancelled
            },
            None => DeleteTarget::Cancelled,
        }
    } else if mode == 2 {
        match pick {
            Some(p) => if p < categories.len() {
                DeleteTarget::ByCategory(categories[p].clone())
            } else {
                DeleteTarget::Cancelled
            },
            None => DeleteTarget::Cancelled,
        }
    } else {
        DeleteTarget::Cancelled
    }
}

/// The category an interactive edit asks for: the choice picked, or, for
/// the last choice (a new category), the name typed.
pub fn category_answer(choices: &Vec<String>, selection: usize, typed: Option<String>) -> (r: Option<String>)
    requires
        selection < choices@.len(),
    ensures
        selection + 1 == choices@.len() ==> r == typed,
        selection + 1 < choices@.len() ==> (r matches Some(c) && c@ == choices@[selection as int]@),
{
    if selection == choices.len() - 1 {
        typed
    } else {
        Some(choices[selection].clone())
    }
}

/// The tags an interactive edit asks for: the names picked, in the order
/// picked, then the new tag typed where it is not blank.
pub fn tags_answer(names: &Vec<String>, picked: &Vec<usize>, new_tag: Option<String>) -> (r: Vec<String>)
    requires
        forall|k: int| 0 <= k < picked@.len() ==> #[trigger] picked@[k] < names@.len(),
    ensures
        ({
            let chosen = Seq::new(picked@.len(), |k: int| names@[picked@[k] as int]@);
            match new_tag {
                Some(t) => if crate::text::trim(t@).len() > 0 {
                    strings_view(r@) == chosen.push(t@)
                } else {
                    strings_view(r@) == chosen
                },
                None => strings_view(r@) == chosen,
            }
        }),
{
    let ghost chosen = Seq::new(picked@.len(), |k: int| names@[picked@[k] as int]@);
    let mut r: Vec<String> = Vec::new();
    let mut i: usize = 0;
    while i < picked.len()
        invariant
            i <= picked@.len(),
            forall|k: int| 0 <= k < picked@.len() ==> #[trigger] picked@[k] < names@.len(),
            chosen == Seq::new(picked@.len(), |k: int| names@[picked@[k] as int]@),
            strings_view(r@) == chosen.take(i as int),
        decreases picked.len() - i,
    {
        let ghost before = r@;
        r.push(names[picked[i]].clone());
        assert(strings_view(r@) =~= strings_view(before).push(names@[picked@[i as int] as int]@));
        assert(chosen.take(i + 1) =~= chosen.take(i as int).push(chosen[i as int]));
        i += 1;
    }
    assert(chosen.take(i as int) =~= chosen);
    if let Some(t) = new_tag {
        let trimmed = crate::text::trim_str(t.as_str());
        if !trimmed.as_str().is_empty() {
            let ghost before = r@;
            r.push(t);
            assert(strings_view(r@) =~= strings_view(before).push(t@));
        }
    }
    r
}

/// The priority name an interactive edit asks for: the one at position
/// `selection` of `low, normal, high, urgent`.
pub fn priority_answer(selection: usize) -> (r: String)
    requires
        selection < 4,
    ensures
        r@ == crate::model::priority_text(
            if selection == 0 {
                Priority::Low
            } else if selection == 1 {
                Priority::Normal
            } else if selection == 2 {
                Priority::High
            } else {
                Priority::Urgent
            },
        ),
{
    let p = if selection == 0 {
        Priority::Low
    } else if selection == 1 {
        Priority::Normal
    } else if selection == 2 {
        Priority::High
    } else {
        Priority::Urgent
    };
    crate::model::priority_name(p)
}

} // verus!
