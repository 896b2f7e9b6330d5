//! Which notes `note list` shows, in which order, and what each row reads.
use vstd::prelude::*;
use crate::model::{notes_view, priority_name, priority_text, NoteIndexModel, NoteView, TagView};
use crate::order::{sort_key_named, sort_key_of, sort_notes, stable_sorted};
use crate::seqs::{any, contains_u32};
use crate::storage::{has_tag_named, tag_named, DataBaseStorage};
use crate::text::{strings_view, join, join_strings, lowercase, str_eq, to_lowercase};
use crate::time::{
    date_expr_defined, date_expr_ok, date_matches, date_minute_format, format_minutes,
    formatted_time, local_day, local_day_of, match_date,
};

verus! {

/// The text of an optional string.
pub open spec fn opt_text(o: Option<String>) -> Option<Seq<char>> {
    match o {
        Some(s) => Some(s@),
        None => None,
    }
}

/// The texts of an optional list of strings.
pub open spec fn opt_names(o: Option<Vec<String>>) -> Option<Seq<Seq<char>>> {
    match o {
        Some(v) => Some(strings_view(v@)),
        None => None,
    }
}

/// The note carries a tag of each name in `names`.
pub open spec fn has_all_tags(n: NoteView, names: Seq<Seq<char>>) -> bool {
    forall|k: int| 0 <= k < names.len() ==> any(n.tags, tag_named(#[trigger] names[k]))
}

/// The note passes the filters of `note list`: it is not archived, and has
/// the category, every tag, the priority (`priority` is the lower-cased
/// name asked for) and a creation
/// day that the date expression selects, where these are given; with
/// `hastag` it has a tag, with `notag` none.
pub open spec fn passes(
    n: NoteView,
    archived: Seq<u32>,
    category: Option<Seq<char>>,
    tags: Option<Seq<Seq<char>>>,
    priority: Option<Seq<char>>,
    date: Option<Seq<char>>,
    hastag: bool,
    notag: bool,
    today: int,
) -> bool {
    &&& !archived.contains(n.id)
    &&& match category {
        Some(c) => n.category.name == c,
        None => true,
    }
    &&& match tags {
        Some(ts) => has_all_tags(n, ts),
        None => true,
    }
    &&& match priority {
        Some(p) => priority_text(n.priority) == p,
        None => true,
    }
    &&& hastag ==> n.tags.len() > 0
    &&& notag ==> n.tags.len() == 0
    &&& match date {
        Some(d) => date_matches(local_day(n.created), d, today),
        None => true,
    }
}

/// The property of passing the filters of `note list`.
pub open spec fn listed(
    archived: Seq<u32>,
    category: Option<Seq<char>>,
    tags: Option<Seq<Seq<char>>>,
    priority: Option<Seq<char>>,
    date: Option<Seq<char>>,
    hastag: bool,
    notag: bool,
    today: int,
) -> spec_fn(NoteView) -> bool {
    |n: NoteView| passes(n, archived, category, tags, priority, date, hastag, notag, today)
}

/// The property of a note of being pinned.
pub open spec fn pinned_in(pinned: Seq<u32>) -> spec_fn(NoteView) -> bool {
    |n: NoteView| pinned.contains(n.id)
}

/// The property of a note of not being pinned.
pub open spec fn unpinned_in(pinned: Seq<u32>) -> spec_fn(NoteView) -> bool {
    |n: NoteView| !pinned.contains(n.id)
}

/// The pinned notes first, then the others, each in their order.
pub open spec fn pinned_first(s: Seq<NoteView>, pinned: Seq<u32>) -> Seq<NoteView> {
    s.filter(pinned_in(pinned)) + s.filter(unpinned_in(pinned))
}

/// The notes after skipping `offset` of them and keeping at most `limit`.
pub open spec fn page(s: Seq<NoteView>, offset: Option<u32>, limit: Option<u32>) -> Seq<NoteView> {
    let off: int = match offset {
        Some(o) => o as int,
        None => 0,
    };
    let rest = if off < s.len() {
        s.skip(off)
    } else {
        Seq::empty()
    };
    match limit {
        Some(l) => if (l as int) < rest.len() {
            rest.take(l as int)
        } else {
            rest
        },
        None => rest,
    }
}

/// The date expression, where given, is one chrono can evaluate today.
pub open spec fn date_ok(date: Option<String>, today: int) -> bool {
    match date {
        Some(d) => date_expr_defined(d@, today),
        None => true,
    }
}

/// `out` is what `note list` shows of the notes of `s` for these options.
pub open spec fn is_listing(
    s: &DataBaseStorage,
    sort: Option<String>,
    limit: Option<u32>,
    offset: Option<u32>,
    category: Option<String>,
    tag: Option<Vec<String>>,
    priority: Option<String>,
    date: Option<String>,
    hastag: bool,
    notag: bool,
    today: int,
    out: Seq<NoteView>,
) -> bool {
    exists|sorted: Seq<NoteView>|
        stable_sorted(
            s.notes().filter(
                listed(
                    s.archived(),
                    opt_text(category),
                    opt_names(tag),
                    match priority {
                        Some(p) => Some(lowercase(p@)),
                        None => None,
                    },
                    opt_text(date),
                    hastag,
                    notag,
                    today,
                ),
            ),
            sort_key_named(opt_text(sort)),
            sorted,
        ) && out == page(pinned_first(sorted, s.pinned()), offset, limit)
}

/// Whether the note carries a tag of each name in `names`.
pub fn has_all_tags_exec(n: &NoteIndexModel, names: &Vec<String>) -> (r: bool)
    ensures
        r == has_all_tags(n@, strings_view(names@)),
{
    let mut k: usize = 0;
    while k < names.len()
        invariant
            k <= names.len(),
            forall|j: int| 0 <= j < k ==> any(n@.tags, tag_named(#[trigger] strings_view(names@)[j])),
        decreases names.len() - k,
    {
        if !has_tag_named(&n.tags, names[k].as_str()) {
            assert(!any(n@.tags, tag_named(strings_view(names@)[k as int])));
            return false;
        }
        k += 1;
    }
    true
}

fn passes_exec(
    n: &NoteIndexModel,
    storage: &DataBaseStorage,
    category: &Option<String>,
    tag: &Option<Vec<String>>,
    priority_lower: &Option<String>,
    date: &Option<String>,
    hastag: bool,
    notag: bool,
    today: i64,
) -> (r: bool)
    requires
        date_ok(*date, today as int),
    ensures
        r == passes(
            n@,
            storage.archived(),
            opt_text(*category),
            opt_names(*tag),
            match *priority_lower {
                Some(p) => Some(p@),
                None => None,
            },
            opt_text(*date),
            hastag,
            notag,
            today as int,
        ),
{
    if storage.is_archived(n.id) {
        return false;
    }
    if let Some(c) = category {
        if !str_eq(n.category.name.as_str(), c.as_str()) {
            return false;
        }
    }
    if let Some(ts) = tag {
        if !has_all_tags_exec(n, ts) {
            return false;
        }
    }
    if let Some(p) = priority_lower {
        let name = priority_name(n.priority);
        if !str_eq(name.as_str(), p.as_str()) {
            return false;
        }
    }
    if hastag && n.tags.len() == 0 {
        return false;
    }
    if notag && n.tags.len() != 0 {
        return false;
    }
    if let Some(d) = date {
        let day = local_day_of(&n.created);
        if !match_date(day, d.as_str(), today) {
            return false;
        }
    }
    true
}

/// The notes with a given property, in order.
fn keep_pinned(v: &Vec<NoteIndexModel>, storage: &DataBaseStorage, want: bool) -> (r: Vec<NoteIndexModel>)
    ensures
        notes_view(r@) == notes_view(v@).filter(
            if want {
                pinned_in(storage.pinned())
            } else {
                unpinned_in(storage.pinned())
            },
        ),
{
    let ghost p = if want {
        pinned_in(storage.pinned())
    } else {
        unpinned_in(storage.pinned())
    };
    let ghost src = notes_view(v@);
    let mut r: Vec<NoteIndexModel> = Vec::new();
    let mut i: usize = 0;
    while i < v.len()
        invariant
            i <= v.len(),
            src == notes_view(v@),
            p == (if want {
                pinned_in(storage.pinned())
            } else {
                unpinned_in(storage.pinned())
            }),
            notes_view(r@) == src.take(i as int).filter(p),
        decreases v.len() - i,
    {
        assert(src.take(i + 1).drop_last() =~= src.take(i as int));
        reveal_with_fuel(Seq::<_>::filter, 1);
        if storage.is_pinned(v[i].id) == want {
            let ghost before = r@;
            r.push(v[i].clone());
            assert(notes_view(r@) =~= notes_view(before).push(src[i as int]));
        }
        i += 1;
    }
    assert(src.take(i as int) =~= src);
    r
}

/// The notes that `note list` shows: those passing the filters, sorted
/// stably by the field `sort` names (creation time by default), the pinned
/// ones first, after skipping `offset` and keeping at most `limit`; today's
/// day number is `today`.
pub fn handle_at(
    sort: &Option<String>,
    limit: &Option<u32>,
    offset: &Option<u32>,
    category: &Option<String>,
    tag: &Option<Vec<String>>,
    priority: &Option<String>,
    date: &Option<String>,
    hastag: bool,
    notag: bool,
    storage: &DataBaseStorage,
    today: i64,
) -> (r: Vec<NoteIndexModel>)
    requires
        date_ok(*date, today as int),
    ensures
        is_listing(
            storage,
            *sort,
            *limit,
            *offset,
            *category,
            *tag,
            *priority,
            *date,
            hastag,
            notag,
            today as int,
            notes_view(r@),
        ),
{
    let priority_lower: Option<String> = match priority {
        Some(p) => Some(to_lowercase(p.as_str())),
        None => None,
    };
    let ghost pl: Option<Seq<char>> = match priority {
        Some(p) => Some(lowercase(p@)),
        None => None,
    };
    let ghost pred = listed(
        storage.archived(),
        opt_text(*category),
        opt_names(*tag),
        pl,
        opt_text(*date),
        hastag,
        notag,
        today as int,
    );
    let all = storage.list_notes();
    let ghost src = storage.notes();
    let mut kept: Vec<NoteIndexModel> = Vec::new();
    let mut i: usize = 0;
    while i < all.len()
        invariant
            i <= all.len(),
            all@.len() == src.len(),
            src == storage.notes(),
            forall|k: int| 0 <= k < all@.len() ==> (#[trigger] all@[k])@ == src[k],
            date_ok(*date, today as int),
            pl == (match priority_lower {
                Some(p) => Some(p@),
                None => None::<Seq<char>>,
            }),
            pred == listed(
                storage.archived(),
                opt_text(*category),
                opt_names(*tag),
                pl,
                opt_text(*date),
                hastag,
                notag,
                today as int,
            ),
            notes_view(kept@) == src.take(i as int).filter(pred),
        decreases all.len() - i,
    {
        assert(src.take(i + 1).drop_last() =~= src.take(i as int));
        reveal_with_fuel(Seq::<_>::filter, 1);
        let n: &NoteIndexModel = all[i];
        if passes_exec(n, storage, category, tag, &priority_lower, date, hastag, notag, today) {
            let ghost before = kept@;
            kept.push(n.clone());
            assert(notes_view(kept@) =~= notes_view(before).push(src[i as int]));
        }
        i += 1;
    }
    assert(src.take(i as int) =~= src);
    let by = sort_key_of(sort);
    let sorted = sort_notes(&kept, by);
    let mut front = keep_pinned(&sorted, storage, true);
    let back = keep_pinned(&sorted, storage, false);
    let ghost joined = notes_view(front@) + notes_view(back@);
    let mut k: usize = 0;
    while k < back.len()
        invariant
            k <= back.len(),
            notes_view(front@) == joined.take(notes_view(front@).len() as int),
            joined == pinned_first(notes_view(sorted@), storage.pinned()),
            front@.len() == joined.len() - back@.len() + k,
            joined.len() == joined.len() - back@.len() + back@.len(),
            forall|t: int| 0 <= t < back@.len() ==> joined[joined.len() - back@.len() + t] == (#[trigger] back@[t])@,
        decreases back.len() - k,
    {
        let ghost before = front@;
        front.push(back[k].clone());
        assert(notes_view(front@) =~= joined.take(notes_view(front@).len() as int));
        k += 1;
    }
    assert(notes_view(front@) =~= joined);
    let off: usize = match offset {
        Some(o) => *o as usize,
        None => 0,
    };
    let total = front.len();
    let end: usize = if off >= total {
        off
    } else {
        match limit {
            Some(l) => if (*l as usize) < total - off {
                off + *l as usize
            } else {
                total
            },
            None => total,
        }
    };
    let mut r: Vec<NoteIndexModel> = Vec::new();
    let mut j: usize = off;
    while j < end
        invariant
            off <= j,
            end <= total || end == off,
            j <= end || j == off,
            total == front@.len(),
            r@.len() == j - off,
            forall|t: int| 0 <= t < r@.len() ==> (#[trigger] r@[t])@ == joined[off + t],
            notes_view(front@) == joined,
        decreases end - j,
    {
        r.push(front[j].clone());
        j += 1;
    }
    proof {
        let pg = page(joined, *offset, *limit);
        assert forall|t: int| 0 <= t < r@.len() implies notes_view(r@)[t] == joined[off + t] by {
        }
        if off < total {
            assert(notes_view(r@) =~= pg);
        } else {
            assert(notes_view(r@) =~= pg);
        }
    }
    r
}

/// `handle_at` where the date expression can be evaluated today; `None`
/// where chrono's date arithmetic for it would leave chrono's range (where
/// it panics).
pub fn handle_checked_at(
    sort: &Option<String>,
    limit: &Option<u32>,
    offset: &Option<u32>,
    category: &Option<String>,
    tag: &Option<Vec<String>>,
    priority: &Option<String>,
    date: &Option<String>,
    hastag: bool,
    notag: bool,
    storage: &DataBaseStorage,
    today: i64,
) -> (r: Option<Vec<NoteIndexModel>>)
    ensures
        match r {
            Some(v) => date_ok(*date, today as int) && is_listing(
                storage,
                *sort,
                *limit,
                *offset,
                *category,
                *tag,
                *priority,
                *date,
                hastag,
                notag,
                today as int,
                notes_view(v@),
            ),
            None => !date_ok(*date, today as int),
        },
{
    if let Some(d) = date {
        if !date_expr_ok(d.as_str(), today) {
            return None;
        }
    }
    Some(handle_at(sort, limit, offset, category, tag, priority, date, hastag, notag, storage, today))
}

/// `note list` on the day the clock gives (see `handle_checked_at`).
pub fn handle(
    sort: &Option<String>,
    limit: &Option<u32>,
    offset: &Option<u32>,
    category: &Option<String>,
    tag: &Option<Vec<String>>,
    priority: &Option<String>,
    date: &Option<String>,
    hastag: bool,
    notag: bool,
    storage: &DataBaseStorage,
) -> (r: Option<Vec<NoteIndexModel>>)
    ensures
        exists|now: crate::time::Timestamp|
            crate::time::ts_valid(now) && match r {
                Some(v) => date_ok(*date, local_day(now)) && is_listing(
                    storage,
                    *sort,
                    *limit,
                    *offset,
                    *category,
                    *tag,
                    *priority,
                    *date,
                    hastag,
                    notag,
                    local_day(now),
                    notes_view(v@),
                ),
                None => !date_ok(*date, local_day(now)),
            },
{
    let now = crate::time::local_now();
    let today = local_day_of(&now);
    handle_checked_at(sort, limit, offset, category, tag, priority, date, hastag, notag, storage, today)
}

/// The status column: `*` for a pinned note, `[DONE]` for a done one.
pub open spec fn status_text(pinned: bool, done: bool) -> Seq<char> {
    if pinned && done {
        seq!['*', ' ', '[', 'D', 'O', 'N', 'E', ']']
    } else if pinned {
        seq!['*']
    } else if done {
        seq!['[', 'D', 'O', 'N', 'E', ']']
    } else {
        Seq::empty()
    }
}

/// The status column of note `id`.
pub fn status_of(storage: &DataBaseStorage, id: u32) -> (s: String)
    ensures
        s@ == status_text(storage.pinned().contains(id), storage.done().contains(id)),
{
    let pinned = storage.is_pinned(id);
    let done = storage.is_done(id);
    proof {
        reveal_strlit("* [DONE]");
        reveal_strlit("*");
        reveal_strlit("[DONE]");
        reveal_strlit("");
    }
    if pinned && done {
        crate::model::own("* [DONE]")
    } else if pinned {
        crate::model::own("*")
    } else if done {
        crate::model::own("[DONE]")
    } else {
        crate::model::own("")
    }
}

/// The names of some tags.
pub open spec fn tag_names(tags: Seq<TagView>) -> Seq<Seq<char>> {
    tags.map_values(|t: TagView| t.name)
}

/// The names of some tags, as strings.
pub fn tag_name_list(tags: &Vec<crate::model::TagModel>) -> (r: Vec<String>)
    ensures
        strings_view(r@) == tag_names(crate::model::tags_view(tags@)),
{
    let ghost want = tag_names(crate::model::tags_view(tags@));
    let mut r: Vec<String> = Vec::new();
    let mut i: usize = 0;
    while i < tags.len()
        invariant
            i <= tags.len(),
            want == tag_names(crate::model::tags_view(tags@)),
            strings_view(r@) == want.take(i as int),
        decreases tags.len() - i,
    {
        let ghost before = r@;
        r.push(tags[i].name.clone());
        assert(strings_view(r@) =~= strings_view(before).push(
            tags@[i as int].name@,
        ));
        assert(want.take(i + 1) =~= want.take(i as int).push(tags@[i as int].name@));
        i += 1;
    }
    assert(want.take(i as int) =~= want);
    r
}

/// The tag column: the names joined by `, `, or `-` for none.
pub open spec fn tags_text(tags: Seq<TagView>) -> Seq<char> {
    if tags.len() == 0 {
        seq!['-']
    } else {
        join(tag_names(tags), seq![',', ' '])
    }
}

/// The tag column of a note.
pub fn tags_cell(tags: &Vec<crate::model::TagModel>) -> (s: String)
    ensures
        s@ == tags_text(crate::model::tags_view(tags@)),
{
    proof {
        reveal_strlit("-");
        reveal_strlit(", ");
        assert(", "@ =~= seq![',', ' ']);
    }
    if tags.len() == 0 {
        crate::model::own("-")
    } else {
        let names = tag_name_list(tags);
        join_strings(&names, ", ")
    }
}

/// One row of the list: id, title, category, priority, creation time,
/// tags and status.
pub struct ListRow {
    pub id: u32,
    pub title: String,
    pub category: String,
    pub priority: String,
    pub created: String,
    pub tags: String,
    pub status: String,
}

/// The rows the list shows for `notes`.
pub fn rows(notes: &Vec<NoteIndexModel>, storage: &DataBaseStorage) -> (r: Vec<ListRow>)
    ensures
        r@.len() == notes@.len(),
        forall|i: int|
            0 <= i < r@.len() ==> {
                let n = (#[trigger] notes@[i])@;
                let row = r@[i];
                &&& row.id == n.id
                &&& row.title@ == n.title
                &&& row.category@ == n.category.name
                &&& row.priority@ == priority_text(n.priority)
                &&& row.created@ == formatted_time(
                    n.created.secs,
                    n.created.nanos,
                    n.created.offset,
                    date_minute_format(),
                )
                &&& row.tags@ == tags_text(n.tags)
                &&& row.status@ == status_text(
                    storage.pinned().contains(n.id),
                    storage.done().contains(n.id),
                )
            },
{
    let mut r: Vec<ListRow> = Vec::new();
    let mut i: usize = 0;
    while i < notes.len()
        invariant
            i <= notes.len(),
            r@.len() == i,
            forall|k: int|
                0 <= k < i ==> {
                    let n = (#[trigger] notes@[k])@;
                    let row = r@[k];
                    &&& row.id == n.id
                    &&& row.title@ == n.title
                    &&& row.category@ == n.category.name
                    &&& row.priority@ == priority_text(n.priority)
                    &&& row.created@ == formatted_time(
                        n.created.secs,
                        n.created.nanos,
                        n.created.offset,
                        date_minute_format(),
                    )
                    &&& row.tags@ == tags_text(n.tags)
                    &&& row.status@ == status_text(
                        storage.pinned().contains(n.id),
                        storage.done().contains(n.id),
                    )
                },
        decreases notes.len() - i,
    {
        let n = &notes[i];
        let row = ListRow {
            id: n.id,
            title: n.title.clone(),
            category: n.category.name.clone(),
            priority: priority_name(n.priority),
            created: format_minutes(&n.created),
            tags: tags_cell(&n.tags),
            status: status_of(storage, n.id),
        };
        r.push(row);
        i += 1;
    }
    r
}

} // verus!
