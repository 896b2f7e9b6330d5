//! Properties that hold across the operations of the index and the
//! commands, stated over the specifications the operations meet.
use vstd::prelude::*;
use crate::handle::add::{free_suffix, lemma_free_suffix, resolved_title, suffixed, title_taken, titles_of};
use crate::model::{CategoryView, NoteView, TagView};
use crate::seqs::{any, find_first, lemma_find_first, lemma_without, max_of, with_id, without};
use crate::storage::{
    carries_tag, category_is, id_among, id_outside, merged_notes, synced_notes, category_named, category_resolution, default_name, drop_tag_in, has_id,
    has_title, not_id, note_ids, rename_category_in, rename_tag_in, reset_category_of, tag_named,
    tag_not_named, tag_resolution,
};
use crate::handle::list::{is_listing, listed, opt_names, opt_text, page, passes, pinned_first, pinned_in, unpinned_in};
use crate::order::{is_perm, key_lt, lemma_key_lt, pos_before, sort_key_named, stable_sorted, SortKey};
use crate::storage::DataBaseStorage;
use crate::text::{find, join, split};
use crate::time::Timestamp;
use crate::config::{field_kind, key_parts, lookup, set_refusal, stored_text, Config};
use crate::handle::export::JsonNote;
use crate::handle::import::{entry_tags, json_entry_outcome, ImportEntry};
use crate::handle::list::{has_all_tags, tag_names};
use crate::model::{priority_text, NoteModel};
use crate::storage::tags_resolution;
use crate::text::strings_view;

verus! {

/// Pinning (archiving, marking done) a note twice is pinning it once, and
/// afterwards the note is pinned.
pub proof fn law_status_add_idempotent(s: Seq<u32>, id: u32)
    ensures
        with_id(with_id(s, id), id) == with_id(s, id),
        with_id(s, id).contains(id),
{
    if !s.contains(id) {
        assert(s.push(id)[s.len() as int] == id);
    }
}

/// Pinning (archiving, marking done) never lists a note twice.
pub proof fn law_status_add_keeps_unique(s: Seq<u32>, id: u32)
    requires
        s.no_duplicates(),
    ensures
        with_id(s, id).no_duplicates(),
{
    if !s.contains(id) {
        let t = s.push(id);
        assert forall|i: int, j: int| 0 <= i < t.len() && 0 <= j < t.len() && i != j implies t[i] != t[j] by {
            if i == s.len() as int {
                assert(t[j] == s[j]);
            } else if j == s.len() as int {
                assert(t[i] == s[i]);
            }
        }
    }
}

/// Unpinning (unarchiving) a note undoes pinning it: the note is no longer
/// listed, and the other notes are listed as before.
pub proof fn law_status_remove_undoes_add(s: Seq<u32>, id: u32)
    ensures
        without(with_id(s, id), id) == without(s, id),
        !without(s, id).contains(id),
{
    lemma_without(s, id);
    if !s.contains(id) {
        reveal_with_fuel(Seq::<_>::filter, 1);
        assert(s.push(id).drop_last() =~= s);
    }
}

/// Deleting a note leaves no note with its id, and its id in no status list.
pub proof fn law_delete_forgets(notes: Seq<NoteView>, pinned: Seq<u32>, archived: Seq<u32>, done: Seq<u32>, id: u32)
    ensures
        !any(notes.filter(not_id(id)), has_id(id)),
        !without(pinned, id).contains(id),
        !without(archived, id).contains(id),
        !without(done, id).contains(id),
{
    lemma_without(pinned, id);
    lemma_without(archived, id);
    lemma_without(done, id);
    let f = notes.filter(not_id(id));
    if any(f, has_id(id)) {
        let i = choose|i: int| 0 <= i < f.len() && has_id(id)(#[trigger] f[i]);
        notes.lemma_filter_pred(not_id(id), i);
    }
}

/// The id a new note gets is the id of no note in the index.
pub proof fn law_next_id_is_fresh(notes: Seq<NoteView>)
    requires
        max_of(note_ids(notes)) < u32::MAX,
    ensures
        !any(notes, has_id((max_of(note_ids(notes)) + 1) as u32)),
{
    crate::seqs::lemma_max_of(note_ids(notes));
    if any(notes, has_id((max_of(note_ids(notes)) + 1) as u32)) {
        let i = choose|i: int| 0 <= i < notes.len() && has_id((max_of(note_ids(notes)) + 1) as u32)(#[trigger] notes[i]);
        assert(note_ids(notes)[i] == notes[i].id);
    }
}

/// The title a new note gets is the title of no note in the index.
pub proof fn law_resolved_title_is_free(notes: Seq<NoteView>, base: Seq<char>)
    ensures
        !title_taken(notes, resolved_title(notes, base)),
{
    if title_taken(notes, base) {
        let j = choose|j: int| 0 <= j < notes.len() && has_title(base)(#[trigger] notes[j]);
        lemma_free_suffix(notes, base, 1);
    }
}

/// A note added under the title it resolved to keeps the titles of the
/// index distinct.
pub proof fn law_titles_stay_distinct(notes: Seq<NoteView>, base: Seq<char>, n: NoteView)
    requires
        titles_of(notes).no_duplicates(),
        n.title == resolved_title(notes, base),
    ensures
        titles_of(notes.push(n)).no_duplicates(),
{
    law_resolved_title_is_free(notes, base);
    let t = titles_of(notes.push(n));
    assert forall|i: int, j: int| 0 <= i < t.len() && 0 <= j < t.len() && i != j implies t[i] != t[j] by {
        if i == notes.len() as int && t[i] == t[j] {
            assert(has_title(n.title)(notes[j]));
        } else if j == notes.len() as int && t[i] == t[j] {
            assert(has_title(n.title)(notes[i]));
        } else if i < notes.len() && j < notes.len() {
            assert(t[i] == titles_of(notes)[i] && t[j] == titles_of(notes)[j]);
        }
    }
}

/// Resolving a category name twice gives the same category and adds it at
/// most once; the category found or made has that name.
pub proof fn law_category_resolution_idempotent(cats: Seq<CategoryView>, name: Seq<char>)
    ensures
        category_resolution(category_resolution(cats, name).1, name) == category_resolution(cats, name),
        category_resolution(cats, name).0.name == name,
{
    lemma_find_first(cats, category_named(name));
    let (c, after) = category_resolution(cats, name);
    lemma_find_first(after, category_named(name));
    match find_first(cats, category_named(name)) {
        Some(i) => {},
        None => {
            assert forall|j: int| 0 <= j < cats.len() implies !category_named(name)(#[trigger] after[j]) by {
                assert(after[j] == cats[j]);
            }
            crate::seqs::lemma_find_first_at(after, category_named(name), cats.len() as int);
        },
    }
}

/// Resolving a tag name twice gives the same tag and adds it at most once;
/// the tag found or made has that name.
pub proof fn law_tag_resolution_idempotent(tags: Seq<TagView>, name: Seq<char>)
    ensures
        tag_resolution(tag_resolution(tags, name).1, name) == tag_resolution(tags, name),
        tag_resolution(tags, name).0.name == name,
{
    lemma_find_first(tags, tag_named(name));
    let (t, after) = tag_resolution(tags, name);
    lemma_find_first(after, tag_named(name));
    match find_first(tags, tag_named(name)) {
        Some(i) => {},
        None => {
            assert forall|j: int| 0 <= j < tags.len() implies !tag_named(name)(#[trigger] after[j]) by {
                assert(after[j] == tags[j]);
            }
            crate::seqs::lemma_find_first_at(after, tag_named(name), tags.len() as int);
        },
    }
}

/// Resolving a list of tag names gives tags with those names, in order.
pub proof fn lemma_tags_resolution_names(tags: Seq<TagView>, names: Seq<Seq<char>>)
    ensures
        tag_names(tags_resolution(tags, names).0) == names,
    decreases names.len(),
{
    if names.len() > 0 {
        lemma_tags_resolution_names(tags, names.drop_last());
        let got = tags_resolution(tags, names.drop_last()).0;
        let after = tags_resolution(tags, names.drop_last()).1;
        let tg = tag_resolution(after, names.last()).0;
        law_tag_resolution_idempotent(after, names.last());
        assert(tags_resolution(tags, names).0 == got.push(tg));
        assert(tag_names(got.push(tg)) =~= tag_names(got).push(tg.name));
        assert(names =~= names.drop_last().push(names.last()));
    }
}

/// A note exported as JSON and read back by the import, under a title no
/// note has yet and with no default category or tags given, is imported
/// with the title, body, category, tags and priority it was exported with.
pub proof fn law_json_import_round_trip(
    old: DataBaseStorage,
    new: DataBaseStorage,
    exported: NoteView,
    body: Seq<char>,
    j: JsonNote,
    entry: ImportEntry,
    now: Timestamp,
    note: NoteModel,
)
    requires
        j.title@ == exported.title,
        j.category@ == exported.category.name,
        strings_view(j.tags@) == tag_names(exported.tags),
        j.priority@ == priority_text(exported.priority),
        j.content@ == body,
        entry.title == Some(j.title),
        entry.content == Some(j.content),
        entry.category == Some(j.category),
        entry.priority == Some(j.priority),
        entry.tags@ == j.tags@,
        !title_taken(old.notes(), exported.title),
        json_entry_outcome(old, new, entry, None, None, now, note),
    ensures
        note.index@.title == exported.title,
        note.content@ == body,
        note.index@.category.name == exported.category.name,
        tag_names(note.index@.tags) == tag_names(exported.tags),
        note.index@.priority == exported.priority,
{
    law_category_resolution_idempotent(old.categories(), exported.category.name);
    let names = entry_tags(entry, None);
    lemma_tags_resolution_names(old.tags(), names);
    if entry.tags@.len() == 0 {
        assert(tag_names(exported.tags) =~= names);
    }
}

/// After renaming a category, no note is left in the old one, and every
/// note that was in it is in the new one.
pub proof fn law_rename_category_moves_notes(notes: Seq<NoteView>, old: Seq<char>, new: Seq<char>, now: Timestamp)
    requires
        old != new,
    ensures
        !any(notes.map_values(rename_category_in(old, new, now)), category_is(old)),
        forall|i: int| 0 <= i < notes.len() && notes[i].category.name == old ==> #[trigger] notes.map_values(
            rename_category_in(old, new, now),
        )[i].category.name == new,
{
    let m = notes.map_values(rename_category_in(old, new, now));
    if any(m, category_is(old)) {
        let i = choose|i: int| 0 <= i < m.len() && category_is(old)(#[trigger] m[i]);
        assert(m[i] == rename_category_in(old, new, now)(notes[i]));
    }
}

/// After a category is deleted keeping its notes, no note is left in it
/// (unless it was `default` itself).
pub proof fn law_deleted_category_is_empty(notes: Seq<NoteView>, name: Seq<char>, now: Timestamp)
    requires
        name != default_name(),
    ensures
        !any(notes.map_values(reset_category_of(name, now)), category_is(name)),
{
    let m = notes.map_values(reset_category_of(name, now));
    if any(m, category_is(name)) {
        let i = choose|i: int| 0 <= i < m.len() && category_is(name)(#[trigger] m[i]);
        assert(m[i] == reset_category_of(name, now)(notes[i]));
    }
}

/// After renaming a tag, no note carries the old name.
pub proof fn law_rename_tag_moves_notes(notes: Seq<NoteView>, old: Seq<char>, new: Seq<char>, now: Timestamp)
    requires
        old != new,
    ensures
        !any(notes.map_values(rename_tag_in(old, new, now)), carries_tag(old)),
{
    let m = notes.map_values(rename_tag_in(old, new, now));
    if any(m, carries_tag(old)) {
        let i = choose|i: int| 0 <= i < m.len() && carries_tag(old)(#[trigger] m[i]);
        assert(m[i] == rename_tag_in(old, new, now)(notes[i]));
        let ts = m[i].tags;
        let k = choose|k: int| 0 <= k < ts.len() && tag_named(old)(#[trigger] ts[k]);
        assert(ts[k] == crate::storage::rename_tag_named(old, new)(notes[i].tags[k]));
    }
}

/// After deleting a tag, no note carries it and the tag list lacks it.
pub proof fn law_deleted_tag_is_gone(notes: Seq<NoteView>, tags: Seq<TagView>, name: Seq<char>)
    ensures
        !any(notes.map_values(drop_tag_in(name)), carries_tag(name)),
        !any(tags.filter(tag_not_named(name)), tag_named(name)),
{
    let m = notes.map_values(drop_tag_in(name));
    if any(m, carries_tag(name)) {
        let i = choose|i: int| 0 <= i < m.len() && carries_tag(name)(#[trigger] m[i]);
        assert(m[i] == drop_tag_in(name)(notes[i]));
        let ts = m[i].tags;
        let k = choose|k: int| 0 <= k < ts.len() && tag_named(name)(#[trigger] ts[k]);
        notes[i].tags.lemma_filter_pred(tag_not_named(name), k);
    }
    let f = tags.filter(tag_not_named(name));
    if any(f, tag_named(name)) {
        let k = choose|k: int| 0 <= k < f.len() && tag_named(name)(#[trigger] f[k]);
        tags.lemma_filter_pred(tag_not_named(name), k);
    }
}

/// After a sync the index holds a note for every note on disk, only notes
/// whose id is on disk, and keeps every note of the index whose id is on
/// disk.
pub proof fn law_sync_matches_disk(index: Seq<NoteView>, disk: Seq<NoteView>)
    ensures
        forall|i: int| 0 <= i < disk.len() ==> any(synced_notes(index, disk), has_id(#[trigger] disk[i].id)),
        forall|k: int|
            0 <= k < synced_notes(index, disk).len() ==> note_ids(disk).contains(
                #[trigger] synced_notes(index, disk)[k].id,
            ),
        forall|j: int|
            0 <= j < index.len() && note_ids(disk).contains(index[j].id) ==> synced_notes(index, disk).contains(
                #[trigger] index[j],
            ),
{
    let merged = merged_notes(index, disk);
    let added = disk.filter(id_outside(note_ids(index)));
    let kept = synced_notes(index, disk);
    let q = id_among(note_ids(disk));
    assert forall|j: int| 0 <= j < index.len() && note_ids(disk).contains(index[j].id) implies kept.contains(
        #[trigger] index[j],
    ) by {
        assert(merged[j] == index[j]);
        merged.lemma_filter_contains(q, j);
    }
    assert forall|i: int| 0 <= i < disk.len() implies any(kept, has_id(#[trigger] disk[i].id)) by {
        let x = disk[i].id;
        assert(note_ids(disk)[i] == x);
        if note_ids(index).contains(x) {
            let j = choose|j: int| 0 <= j < note_ids(index).len() && note_ids(index)[j] == x;
            assert(index[j].id == x);
            assert(merged[j] == index[j]);
            merged.lemma_filter_contains(q, j);
            let k = choose|k: int| 0 <= k < kept.len() && kept[k] == index[j];
            assert(has_id(x)(kept[k]));
        } else {
            disk.lemma_filter_contains(id_outside(note_ids(index)), i);
            let a = choose|a: int| 0 <= a < added.len() && added[a] == disk[i];
            assert(merged[index.len() + a] == disk[i]);
            merged.lemma_filter_contains(q, index.len() + a);
            let k = choose|k: int| 0 <= k < kept.len() && kept[k] == disk[i];
            assert(has_id(x)(kept[k]));
        }
    }
    assert forall|k: int| 0 <= k < kept.len() implies note_ids(disk).contains(#[trigger] kept[k].id) by {
        merged.lemma_filter_pred(q, k);
    }
}

/// No note of `s` sorts strictly before an earlier one.
pub open spec fn sorted_by(s: Seq<NoteView>, by: SortKey) -> bool {
    forall|a: int, b: int| 0 <= a < b < s.len() ==> !key_lt(by, #[trigger] s[b], #[trigger] s[a])
}

/// A stable sort's output is sorted and made of the input's notes.
pub proof fn lemma_stable_sorted_facts(src: Seq<NoteView>, by: SortKey, out: Seq<NoteView>)
    requires
        stable_sorted(src, by, out),
    ensures
        sorted_by(out, by),
        forall|j: int| 0 <= j < out.len() ==> src.contains(#[trigger] out[j]),
{
    let ps = choose|ps: Seq<usize>|
        #![trigger is_perm(ps, src.len())]
        is_perm(ps, src.len()) && (forall|a: int, b: int|
            0 <= a < b < ps.len() ==> pos_before(src, by, #[trigger] ps[a] as int, #[trigger] ps[b] as int))
            && out.len() == ps.len() && forall|j: int| 0 <= j < ps.len() ==> out[j] == src[#[trigger] ps[j] as int];
    assert forall|a: int, b: int| 0 <= a < b < out.len() implies !key_lt(by, #[trigger] out[b], #[trigger] out[a]) by {
        assert(pos_before(src, by, ps[a] as int, ps[b] as int));
        assert(out[a] == src[ps[a] as int] && out[b] == src[ps[b] as int]);
        lemma_key_lt(by, out[a], out[b], out[a]);
    }
    assert forall|j: int| 0 <= j < out.len() implies src.contains(#[trigger] out[j]) by {
        assert(out[j] == src[ps[j] as int]);
    }
}

/// Filtering keeps a sorted sequence sorted.
pub proof fn lemma_filter_sorted(s: Seq<NoteView>, p: spec_fn(NoteView) -> bool, by: SortKey)
    requires
        sorted_by(s, by),
    ensures
        sorted_by(s.filter(p), by),
    decreases s.len(),
{
    reveal_with_fuel(Seq::<_>::filter, 1);
    if s.len() > 0 {
        let d = s.drop_last();
        assert(sorted_by(d, by)) by {
            assert forall|a: int, b: int| 0 <= a < b < d.len() implies !key_lt(by, #[trigger] d[b], #[trigger] d[a]) by {
                assert(d[a] == s[a] && d[b] == s[b]);
            }
        }
        lemma_filter_sorted(d, p, by);
        if p(s.last()) {
            let f = d.filter(p);
            let g = f.push(s.last());
            assert forall|a: int, b: int| 0 <= a < b < g.len() implies !key_lt(by, #[trigger] g[b], #[trigger] g[a]) by {
                if b == f.len() {
                    assert(f.contains(g[a]));
                    d.lemma_filter_contains_rev(p, g[a]);
                    let k = choose|k: int| 0 <= k < d.len() && d[k] == g[a];
                    assert(s[k] == g[a]);
                    assert(s[s.len() - 1] == g[b]);
                } else {
                    assert(g[a] == f[a] && g[b] == f[b]);
                }
            }
        }
    }
}

/// `note list` shows only notes passing its filters (so never an archived
/// note), the pinned notes before the others, and within each group no
/// note sorts before an earlier one by the sort field.
pub proof fn law_listing_order(
    s: &DataBaseStorage,
    sort: Option<String>,
    limit: Option<u32>,
    offset: Option<u32>,
    category: Option<String>,
    tag: Option<Vec<String>>,
    priority: Option<String>,
    date: Option<String>,
    hastag: bool,
    notag: bool,
    today: int,
    out: Seq<NoteView>,
)
    requires
        is_listing(s, sort, limit, offset, category, tag, priority, date, hastag, notag, today, out),
    ensures
        forall|i: int|
            0 <= i < out.len() ==> passes(
                #[trigger] out[i],
                s.archived(),
                opt_text(category),
                opt_names(tag),
                match priority {
                    Some(p) => Some(crate::text::lowercase(p@)),
                    None => None,
                },
                opt_text(date),
                hastag,
                notag,
                today,
            ),
        forall|i: int| 0 <= i < out.len() ==> !s.archived().contains(#[trigger] out[i].id),
        forall|i: int, j: int|
            0 <= i < j < out.len() && s.pinned().contains(#[trigger] out[j].id) ==> s.pinned().contains(
                #[trigger] out[i].id,
            ),
        forall|i: int, j: int|
            0 <= i < j < out.len() && (s.pinned().contains(out[i].id) == s.pinned().contains(out[j].id))
                ==> !key_lt(sort_key_named(opt_text(sort)), #[trigger] out[j], #[trigger] out[i]),
{
    let pl = match priority {
        Some(p) => Some(crate::text::lowercase(p@)),
        None => None,
    };
    let pred = listed(s.archived(), opt_text(category), opt_names(tag), pl, opt_text(date), hastag, notag, today);
    let filtered = s.notes().filter(pred);
    let by = sort_key_named(opt_text(sort));
    let sorted = choose|sorted: Seq<NoteView>|
        stable_sorted(filtered, by, sorted) && out == page(pinned_first(sorted, s.pinned()), offset, limit);
    lemma_stable_sorted_facts(filtered, by, sorted);
    let a = sorted.filter(pinned_in(s.pinned()));
    let b = sorted.filter(unpinned_in(s.pinned()));
    let pf = a + b;
    lemma_filter_sorted(sorted, pinned_in(s.pinned()), by);
    lemma_filter_sorted(sorted, unpinned_in(s.pinned()), by);
    let off: int = match offset {
        Some(o) => o as int,
        None => 0,
    };
    assert forall|i: int| 0 <= i < out.len() implies out[i] == pf[off + i] && 0 <= off + i < pf.len() by {
    }
    assert forall|k: int| 0 <= k < pf.len() implies pred(#[trigger] pf[k]) by {
        if k < a.len() {
            assert(pf[k] == a[k]);
            a.lemma_filter_contains_rev(pinned_in(s.pinned()), pf[k]);
            sorted.lemma_filter_contains_rev(pinned_in(s.pinned()), pf[k]);
        } else {
            assert(pf[k] == b[k - a.len()]);
            b.lemma_filter_contains_rev(unpinned_in(s.pinned()), pf[k]);
            sorted.lemma_filter_contains_rev(unpinned_in(s.pinned()), pf[k]);
        }
        assert(sorted.contains(pf[k]));
        let m = choose|m: int| 0 <= m < sorted.len() && sorted[m] == pf[k];
        assert(filtered.contains(sorted[m]));
        let q = choose|q: int| 0 <= q < filtered.len() && filtered[q] == sorted[m];
        s.notes().lemma_filter_pred(pred, q);
    }
    assert forall|k: int| 0 <= k < pf.len() implies (k < a.len() <==> s.pinned().contains(#[trigger] pf[k].id)) by {
        if k < a.len() {
            sorted.lemma_filter_pred(pinned_in(s.pinned()), k);
        } else {
            assert(pf[k] == b[k - a.len()]);
            sorted.lemma_filter_pred(unpinned_in(s.pinned()), k - a.len());
        }
    }
    assert forall|i: int| 0 <= i < out.len() implies passes(
        #[trigger] out[i],
        s.archived(),
        opt_text(category),
        opt_names(tag),
        pl,
        opt_text(date),
        hastag,
        notag,
        today,
    ) by {
        assert(pred(pf[off + i]));
    }
    assert forall|i: int, j: int|
        0 <= i < j < out.len() && (s.pinned().contains(out[i].id) == s.pinned().contains(out[j].id))
        implies !key_lt(by, #[trigger] out[j], #[trigger] out[i]) by {
        assert(out[i] == pf[off + i] && out[j] == pf[off + j]);
        if off + j < a.len() {
            assert(pf[off + i] == a[off + i] && pf[off + j] == a[off + j]);
        } else if off + i >= a.len() {
            assert(pf[off + i] == b[off + i - a.len()] && pf[off + j] == b[off + j - a.len()]);
        }
    }
}

/// Joining a piece in front of at least one more.
pub proof fn lemma_join_front(x: Seq<char>, r: Seq<Seq<char>>, sep: Seq<char>)
    requires
        r.len() > 0,
    ensures
        join(seq![x] + r, sep) == x + sep + join(r, sep),
    decreases r.len(),
{
    let c = seq![x] + r;
    assert(c.len() >= 2);
    assert(c.last() == r.last());
    if r.len() == 1 {
        assert(c.drop_last() =~= seq![x]);
        assert(join(seq![x], sep) == x);
    } else {
        assert(c.drop_last() =~= seq![x] + r.drop_last());
        lemma_join_front(x, r.drop_last(), sep);
        assert(join(r, sep) == join(r.drop_last(), sep) + sep + r.last());
        assert(join(c, sep) =~= x + sep + join(r, sep));
    }
}

/// `split` always gives at least one piece.
pub proof fn lemma_split_nonempty(h: Seq<char>, p: Seq<char>)
    ensures
        split(h, p).len() >= 1,
    decreases h.len(),
{
}

/// The sections a file is cut into at a separator, joined again with the
/// separator, give back the file: importing loses no text to the cutting.
pub proof fn law_sections_rejoin(h: Seq<char>, p: Seq<char>)
    requires
        p.len() > 0,
    ensures
        join(split(h, p), p) == h,
    decreases h.len(),
{
    crate::text::lemma_find(h, p);
    match find(h, p) {
        None => {},
        Some(i) => {
            if 0 <= i && i + p.len() <= h.len() {
                let rest = h.skip(i + p.len());
                law_sections_rejoin(rest, p);
                lemma_split_nonempty(rest, p);
                lemma_join_front(h.take(i), split(rest, p), p);
                assert(h.subrange(i, i + p.len()) == p);
                assert(h =~= h.take(i) + p + rest);
            }
        },
    }
}

/// What `note config set` stores under a key, `note config get` reads back
/// as the very text given, for every key that is not a flag or a count
/// (those read back in their normal form, such as `true` or `7`).
pub proof fn law_set_then_get(key: Seq<char>, value: Seq<char>, c: Config)
    requires
        set_refusal(key, value) is None,
        key_parts(key).len() == 2,
        field_kind(key_parts(key)[0], key_parts(key)[1]) matches Some(k) && !(k is Flag) && !(k is Count),
        lookup(c, key) == Some(stored_text(field_kind(key_parts(key)[0], key_parts(key)[1])->0, value)),
    ensures
        lookup(c, key) == Some(value),
{
}

/// `note list` orders each group (pinned, then the others) by the field the
/// sort names: with `--sort modified` no note listed has a modification
/// time earlier than a note listed before it in its group; with `--sort
/// title` no title comes before an earlier one's in code-point order; with
/// `--sort priority` no priority ranks below an earlier one's; by default
/// (and for any other name) no creation time is earlier than an earlier
/// note's.
pub proof fn law_listing_sorted_by_field(
    s: &DataBaseStorage,
    sort: Option<String>,
    limit: Option<u32>,
    offset: Option<u32>,
    category: Option<String>,
    tag: Option<Vec<String>>,
    priority: Option<String>,
    date: Option<String>,
    hastag: bool,
    notag: bool,
    today: int,
    out: Seq<NoteView>,
)
    requires
        is_listing(s, sort, limit, offset, category, tag, priority, date, hastag, notag, today, out),
    ensures
        forall|i: int, j: int|
            0 <= i < j < out.len() && (s.pinned().contains(out[i].id) == s.pinned().contains(out[j].id))
                ==> {
                let a = #[trigger] out[i];
                let b = #[trigger] out[j];
                let named = match sort {
                    Some(t) => t@,
                    None => Seq::empty(),
                };
                if sort is Some && named == "modified"@ {
                    !(b.modified.secs < a.modified.secs || (b.modified.secs == a.modified.secs
                        && b.modified.nanos < a.modified.nanos))
                } else if sort is Some && named == "title"@ {
                    !crate::order::chars_lt(b.title, a.title)
                } else if sort is Some && named == "priority"@ {
                    crate::model::priority_rank(a.priority) <= crate::model::priority_rank(b.priority)
                } else {
                    !(b.created.secs < a.created.secs || (b.created.secs == a.created.secs
                        && b.created.nanos < a.created.nanos))
                }
            },
{
    reveal_strlit("modified");
    reveal_strlit("title");
    reveal_strlit("priority");
    law_listing_order(s, sort, limit, offset, category, tag, priority, date, hastag, notag, today, out);
    assert("modified"@ =~= seq!['m', 'o', 'd', 'i', 'f', 'i', 'e', 'd']);
    assert("title"@ =~= seq!['t', 'i', 't', 'l', 'e']);
    assert("priority"@ =~= seq!['p', 'r', 'i', 'o', 'r', 'i', 't', 'y']);
}

/// Text that occurs somewhere is contained.
proof fn lemma_occurs_contains(h: Seq<char>, p: Seq<char>, j: int)
    requires
        crate::text::occurs_at(h, p, j),
    ensures
        crate::text::contains(h, p),
{
    crate::text::lemma_find(h, p);
}

/// Text that occurs in a part occurs in the whole it sits in at `off`.
proof fn lemma_occurs_within(part: Seq<char>, whole: Seq<char>, off: int, p: Seq<char>)
    requires
        crate::text::contains(part, p),
        0 <= off,
        off + part.len() <= whole.len(),
        whole.subrange(off, off + part.len()) == part,
    ensures
        crate::text::contains(whole, p),
{
    crate::text::lemma_find(part, p);
    let j = find(part, p)->Some_0;
    assert(whole.subrange(off + j, off + j + p.len()) =~= part.subrange(j, j + p.len()));
    lemma_occurs_contains(whole, p, off + j);
}

/// Where piece `k` sits in the pieces joined with `sep`.
proof fn lemma_join_part(names: Seq<Seq<char>>, sep: Seq<char>, k: int) -> (off: int)
    requires
        0 <= k < names.len(),
    ensures
        0 <= off,
        off + names[k].len() <= join(names, sep).len(),
        join(names, sep).subrange(off, off + names[k].len()) == names[k],
    decreases names.len(),
{
    if names.len() == 1 {
        assert(join(names, sep).subrange(0, names[0].len() as int) =~= names[0]);
        0
    } else {
        let d = names.drop_last();
        let jd = join(d, sep);
        assert(join(names, sep) == jd + sep + names.last());
        if k == names.len() - 1 {
            let o: int = jd.len() as int + sep.len();
            assert(join(names, sep).subrange(o, o + names[k].len()) =~= names[k]);
            o
        } else {
            let o = lemma_join_part(d, sep, k);
            assert(d[k] == names[k]);
            assert(join(names, sep).subrange(o, o + names[k].len()) =~= jd.subrange(o, o + names[k].len()));
            o
        }
    }
}

/// A case-sensitive plain search finds every note whose title, body,
/// category name or one of whose tag names contains the keyword; the
/// search results list the hits in index order, up to the limit.
pub proof fn law_search_finds_fields(
    notes: Seq<NoteView>,
    files: Seq<Option<String>>,
    keyword: Seq<char>,
    i: int,
)
    requires
        0 <= i < notes.len(),
        crate::text::contains(notes[i].title, keyword) || crate::text::contains(
            crate::handle::search::body_at(files, i),
            keyword,
        ) || crate::text::contains(notes[i].category.name, keyword) || exists|k: int|
            0 <= k < notes[i].tags.len() && crate::text::contains(#[trigger] notes[i].tags[k].name, keyword),
    ensures
        crate::handle::search::hits(notes, files, crate::handle::search::SearchMode::Plain, keyword, true).contains(i),
{
    let n = notes[i];
    let body = crate::handle::search::body_at(files, i);
    let h = crate::handle::search::haystack_of(n, body);
    let rest = join(tag_names(n.tags), seq![' ']);
    assert(h =~= n.title + (seq![' '] + body + seq![' '] + n.category.name + seq![' '] + rest));
    let o2: int = n.title.len() as int + 1;
    let o3: int = o2 + body.len() + 1;
    if crate::text::contains(n.title, keyword) {
        assert(h.subrange(0, n.title.len() as int) =~= n.title);
        lemma_occurs_within(n.title, h, 0, keyword);
    } else if crate::text::contains(body, keyword) {
        assert(h.subrange(o2, o2 + body.len()) =~= body);
        lemma_occurs_within(body, h, o2, keyword);
    } else if crate::text::contains(n.category.name, keyword) {
        assert(h.subrange(o3, o3 + n.category.name.len()) =~= n.category.name);
        lemma_occurs_within(n.category.name, h, o3, keyword);
    } else {
        let k = choose|k: int| 0 <= k < n.tags.len() && crate::text::contains(#[trigger] n.tags[k].name, keyword);
        let names = tag_names(n.tags);
        assert(names[k] == n.tags[k].name);
        let o = lemma_join_part(names, seq![' '], k);
        let o4: int = o3 + n.category.name.len() + 1;
        assert(h.subrange(o4 + o, o4 + o + names[k].len()) =~= rest.subrange(o, o + names[k].len()));
        lemma_occurs_within(names[k], h, o4 + o, keyword);
    }
    let pred = crate::handle::search::is_hit(notes, files, crate::handle::search::SearchMode::Plain, keyword, true);
    assert(pred(i));
    let u = crate::handle::search::upto(notes.len());
    assert(u[i] == i);
    u.lemma_filter_contains(pred, i);
}

/// Importing a non-blank section of a Markdown or plain-text file makes a
/// note in the category given with `-c` (`default` when none is given),
/// with exactly the tags given with `-T`, of normal priority, created and
/// modified at the time of the import.
pub proof fn law_section_import_fields(
    old: DataBaseStorage,
    new: DataBaseStorage,
    section: Seq<char>,
    total: usize,
    file_stem: Seq<char>,
    category: Option<String>,
    tags: Option<Vec<String>>,
    now: Timestamp,
    r: Option<NoteModel>,
)
    requires
        crate::handle::import::section_outcome(old, new, section, total, file_stem, category, tags, now, r),
        crate::text::trim(section).len() > 0,
    ensures
        r is Some,
        r->Some_0.index@.category.name == match category {
            Some(c) => c@,
            None => "default"@,
        },
        tag_names(r->Some_0.index@.tags) == match tags {
            Some(t) => strings_view(t@),
            None => Seq::<Seq<char>>::empty(),
        },
        r->Some_0.index@.priority == crate::model::Priority::Normal,
        r->Some_0.index@.created == now,
        r->Some_0.index@.modified == now,
{
    reveal_strlit("default");
    assert("default"@ =~= seq!['d', 'e', 'f', 'a', 'u', 'l', 't']);
    let cat = match category {
        Some(c) => c@,
        None => seq!['d', 'e', 'f', 'a', 'u', 'l', 't'],
    };
    let names = match tags {
        Some(t) => strings_view(t@),
        None => Seq::<Seq<char>>::empty(),
    };
    law_category_resolution_idempotent(old.categories(), cat);
    lemma_tags_resolution_names(old.tags(), names);
}

/// Importing a JSON entry makes a note in the entry's category (else the
/// one given with `-c`, else `default`), with the entry's tags (else those
/// given with `-T`), the entry's body (empty when it has none), created and
/// modified at the time of the import.
pub proof fn law_json_entry_import_fields(
    old: DataBaseStorage,
    new: DataBaseStorage,
    entry: ImportEntry,
    category: Option<String>,
    tags: Option<Vec<String>>,
    now: Timestamp,
    note: NoteModel,
)
    requires
        json_entry_outcome(old, new, entry, category, tags, now, note),
    ensures
        note.index@.category.name == match entry.category {
            Some(c) => c@,
            None => match category {
                Some(c) => c@,
                None => "default"@,
            },
        },
        tag_names(note.index@.tags) == if entry.tags@.len() > 0 {
            strings_view(entry.tags@)
        } else {
            match tags {
                Some(t) => strings_view(t@),
                None => Seq::<Seq<char>>::empty(),
            }
        },
        note.content@ == match entry.content {
            Some(c) => c@,
            None => Seq::<char>::empty(),
        },
        note.index@.created == now,
        note.index@.modified == now,
{
    reveal_strlit("default");
    assert("default"@ =~= seq!['d', 'e', 'f', 'a', 'u', 'l', 't']);
    let cat = match entry.category {
        Some(c) => c@,
        None => crate::handle::import::or_else(category, seq!['d', 'e', 'f', 'a', 'u', 'l', 't']),
    };
    law_category_resolution_idempotent(old.categories(), cat);
    lemma_tags_resolution_names(old.tags(), entry_tags(entry, tags));
}

/// Every position the export plan takes is below `n` and passes the
/// export filters.
proof fn lemma_export_plan_taken(
    notes: Seq<NoteView>,
    files: Seq<Option<String>>,
    n: nat,
    selected: Option<Seq<u32>>,
    ids: Option<Seq<Seq<char>>>,
    category: Option<Seq<char>>,
    tags: Option<Seq<Seq<char>>>,
    date: Option<Seq<char>>,
    today: int,
)
    requires
        n <= notes.len(),
    ensures
        ({
            let plan = crate::handle::export::export_plan(notes, files, n, selected, ids, category, tags, date, today);
            forall|j: int|
                0 <= j < plan.0.len() ==> 0 <= #[trigger] plan.0[j] < n && crate::handle::export::exported(
                    notes[plan.0[j]],
                    selected,
                    ids,
                    category,
                    tags,
                    date,
                    today,
                )
        }),
    decreases n,
{
    if n > 0 {
        lemma_export_plan_taken(notes, files, (n - 1) as nat, selected, ids, category, tags, date, today);
        let prev = crate::handle::export::export_plan(notes, files, (n - 1) as nat, selected, ids, category, tags, date, today);
        let plan = crate::handle::export::export_plan(notes, files, n, selected, ids, category, tags, date, today);
        match crate::handle::export::step_of(notes, files, n - 1, selected, ids, category, tags, date, today) {
            crate::handle::export::ExportStep::Taken => {
                assert(plan.0 == prev.0.push(n - 1));
                assert forall|j: int| 0 <= j < plan.0.len() implies 0 <= #[trigger] plan.0[j] < n
                    && crate::handle::export::exported(notes[plan.0[j]], selected, ids, category, tags, date, today) by {
                    if j < prev.0.len() {
                        assert(plan.0[j] == prev.0[j]);
                    }
                }
            },
            _ => {
                assert(plan.0 == prev.0);
            },
        }
    }
}

/// Some tag among `tags` has the name `name`.
pub open spec fn carries_name(tags: Seq<TagView>, name: Seq<char>) -> bool {
    exists|m: int| 0 <= m < tags.len() && #[trigger] tags[m].name == name
}

/// The filters of `note export`, spelled out for one note.
pub open spec fn export_filters_hold(
    n: NoteView,
    ids: Option<Vec<String>>,
    selected: Option<Vec<u32>>,
    category: Option<String>,
    tag: Option<Vec<String>>,
    date: Option<String>,
    today: int,
) -> bool {
    &&& match selected {
        Some(sel) => sel@.contains(n.id),
        None => match ids {
            Some(v) => strings_view(v@).contains(crate::numeric::dec(n.id as nat)),
            None => true,
        },
    }
    &&& match category {
        Some(cn) => n.category.name == cn@,
        None => true,
    }
    &&& match tag {
        Some(ts) => forall|k: int| 0 <= k < ts@.len() ==> carries_name(n.tags, #[trigger] ts@[k]@),
        None => true,
    }
    &&& match date {
        Some(d) => crate::time::day_matches(crate::time::local_day(n.modified), d@, today),
        None => true,
    }
}

/// A note the export filters let through has what each filter asks.
proof fn lemma_exported_filters(
    n: NoteView,
    ids: Option<Vec<String>>,
    selected: Option<Vec<u32>>,
    category: Option<String>,
    tag: Option<Vec<String>>,
    date: Option<String>,
    today: int,
)
    requires
        crate::handle::export::exported(
            n,
            crate::handle::export::opt_ids(selected),
            opt_names(ids),
            opt_text(category),
            opt_names(tag),
            opt_text(date),
            today,
        ),
    ensures
        export_filters_hold(n, ids, selected, category, tag, date, today),
{
    match selected {
        Some(v) => assert(v@.contains(n.id)),
        None => match ids {
            Some(v) => assert(strings_view(v@).contains(crate::numeric::dec(n.id as nat))),
            None => {},
        },
    }
    match category {
        Some(cn) => assert(n.category.name == cn@),
        None => {},
    }
    match date {
        Some(d) => assert(crate::time::day_matches(crate::time::local_day(n.modified), d@, today)),
        None => {},
    }
    if tag is Some {
        let ts = tag->Some_0;
        assert(opt_names(tag) == Some(strings_view(ts@)));
        assert(has_all_tags(n, strings_view(ts@)));
        assert forall|k: int| 0 <= k < ts@.len() implies carries_name(n.tags, #[trigger] ts@[k]@) by {
            assert(strings_view(ts@)[k] == ts@[k]@);
            assert(any(n.tags, tag_named(strings_view(ts@)[k])));
            let m = choose|m: int| 0 <= m < n.tags.len() && tag_named(strings_view(ts@)[k])(#[trigger] n.tags[m]);
            assert(n.tags[m].name == ts@[k]@);
        }
    }
}

/// Every note collected for `note export` passes its filters: it is among
/// the notes picked (or, with none picked, its id's decimal text is among
/// the ids given with `--id`), it has the category given with `--category`,
/// it carries a tag of each name given with `--tag`, and the date
/// expression given with `--date` selects its modification day.
pub proof fn law_export_filters(
    s: &DataBaseStorage,
    files: Seq<Option<String>>,
    ids: Option<Vec<String>>,
    selected: Option<Vec<u32>>,
    category: Option<String>,
    tag: Option<Vec<String>>,
    date: Option<String>,
    today: int,
    c: crate::handle::export::Collected,
)
    requires
        crate::handle::export::collected(s, files, ids, selected, category, tag, date, today, c),
    ensures
        forall|j: int|
            0 <= j < c.notes@.len() ==> export_filters_hold(
                (#[trigger] c.notes@[j]).index@,
                ids,
                selected,
                category,
                tag,
                date,
                today,
            ),
{
    let sel = crate::handle::export::opt_ids(selected);
    let idn = opt_names(ids);
    let cat = opt_text(category);
    let tgs = opt_names(tag);
    let dt = opt_text(date);
    lemma_export_plan_taken(s.notes(), files, s.notes().len(), sel, idn, cat, tgs, dt, today);
    let plan = crate::handle::export::export_plan(s.notes(), files, s.notes().len(), sel, idn, cat, tgs, dt, today);
    assert forall|j: int| 0 <= j < c.notes@.len() implies export_filters_hold(
        (#[trigger] c.notes@[j]).index@,
        ids,
        selected,
        category,
        tag,
        date,
        today,
    ) by {
        let p = plan.0[j];
        assert(c.notes@[j].index@ == s.notes()[p]);
        lemma_exported_filters(s.notes()[p], ids, selected, category, tag, date, today);
    }
}

/// A successful `note edit` changes only what it was asked to: with no
/// priority given the priority stays, with none of title, category or
/// tags given those stay, with neither new content nor text to append the
/// body stays what the file holds; the id and creation time always stay,
/// and the modification time becomes the time of the edit. A priority
/// given by its own lower-case name is taken as it stands.
pub proof fn law_edit_keeps_unasked_fields(
    old: DataBaseStorage,
    new: DataBaseStorage,
    id: u32,
    title: Option<String>,
    category: Option<String>,
    tags: Option<Vec<String>>,
    priority: Option<String>,
    content: Option<String>,
    append: Option<String>,
    file_text: Option<&str>,
    now: Timestamp,
    r: Result<NoteModel, crate::handle::edit::EditError>,
)
    requires
        crate::handle::edit::edit_outcome(
            old,
            new,
            id,
            title,
            category,
            tags,
            priority,
            content,
            append,
            file_text,
            now,
            r,
        ),
        r is Ok,
    ensures
        find_first(old.notes(), has_id(id)) is Some,
        ({
            let before = old.notes()[find_first(old.notes(), has_id(id))->Some_0];
            let after = r->Ok_0.index@;
            &&& after.id == before.id
            &&& after.id == id
            &&& after.created == before.created
            &&& after.modified == now
            &&& priority is None ==> after.priority == before.priority
            &&& priority matches Some(p) ==> (p@ == "low"@ ==> after.priority == crate::model::Priority::Low)
            &&& priority matches Some(p) ==> (p@ == "normal"@ ==> after.priority == crate::model::Priority::Normal)
            &&& priority matches Some(p) ==> (p@ == "high"@ ==> after.priority == crate::model::Priority::High)
            &&& priority matches Some(p) ==> (p@ == "urgent"@ ==> after.priority == crate::model::Priority::Urgent)
            &&& title is None ==> after.title == before.title
            &&& title matches Some(t) ==> (t@ == before.title ==> after.title == before.title)
            &&& category is None ==> after.category == before.category
            &&& category matches Some(c) ==> after.category.name == c@
            &&& tags is None ==> after.tags == before.tags
            &&& tags matches Some(ts) ==> tag_names(after.tags) == strings_view(ts@)
            &&& (content is None && append is None) ==> r->Ok_0.content@ == crate::notefile::body_of(
                file_text->Some_0@,
            )
            &&& content matches Some(c) ==> r->Ok_0.content@ == c@
        }),
{
    reveal_strlit("low");
    reveal_strlit("normal");
    reveal_strlit("high");
    reveal_strlit("urgent");
    crate::output::lemma_priority_names_differ();
    assert("normal"@ =~= priority_text(crate::model::Priority::Normal));
    lemma_find_first(old.notes(), has_id(id));
    let i = find_first(old.notes(), has_id(id))->Some_0;
    let before = old.notes()[i];
    if let Some(c) = category {
        law_category_resolution_idempotent(old.categories(), c@);
    }
    if let Some(ts) = tags {
        lemma_tags_resolution_names(old.tags(), strings_view(ts@));
    }
}

/// Every note `note list` shows passes its filters, spelled out: it is not
/// archived, it has the category given with `-c`, it carries a tag of each
/// name given with `-T`, with `--has-tag` it has a tag, with `--no-tag`
/// none, and the date expression given with `-d` selects its creation day.
pub proof fn law_listing_filters(
    s: &DataBaseStorage,
    sort: Option<String>,
    limit: Option<u32>,
    offset: Option<u32>,
    category: Option<String>,
    tag: Option<Vec<String>>,
    priority: Option<String>,
    date: Option<String>,
    hastag: bool,
    notag: bool,
    today: int,
    out: Seq<NoteView>,
)
    requires
        is_listing(s, sort, limit, offset, category, tag, priority, date, hastag, notag, today, out),
    ensures
        forall|i: int|
            0 <= i < out.len() ==> {
                let n = #[trigger] out[i];
                &&& !s.archived().contains(n.id)
                &&& match category {
                    Some(c) => n.category.name == c@,
                    None => true,
                }
                &&& match tag {
                    Some(ts) => forall|k: int| 0 <= k < ts@.len() ==> carries_name(n.tags, #[trigger] ts@[k]@),
                    None => true,
                }
                &&& hastag ==> n.tags.len() > 0
                &&& notag ==> n.tags.len() == 0
                &&& match date {
                    Some(d) => crate::time::date_matches(crate::time::local_day(n.created), d@, today),
                    None => true,
                }
            },
{
    law_listing_order(s, sort, limit, offset, category, tag, priority, date, hastag, notag, today, out);
    assert forall|i: int| 0 <= i < out.len() implies {
        let n = #[trigger] out[i];
        match tag {
            Some(ts) => forall|k: int| 0 <= k < ts@.len() ==> carries_name(n.tags, #[trigger] ts@[k]@),
            None => true,
        }
    } by {
        let n = out[i];
        if tag is Some {
            let ts = tag->Some_0;
            assert forall|k: int| 0 <= k < ts@.len() implies carries_name(n.tags, #[trigger] ts@[k]@) by {
                assert(strings_view(ts@)[k] == ts@[k]@);
                assert(any(n.tags, tag_named(strings_view(ts@)[k])));
                let m = choose|m: int| 0 <= m < n.tags.len() && tag_named(strings_view(ts@)[k])(#[trigger] n.tags[m]);
                assert(n.tags[m].name == ts@[k]@);
            }
        }
    }
}

/// `note add` with non-blank content makes a note holding that content,
/// under an id and a title no note has (the title asked for, or the
/// content's start, where no note has it yet), in the category asked for
/// (else the configured default), with exactly the tags asked for, created
/// and modified at the time of the call; a priority asked for (else the
/// configured default) by its own lower-case name is taken as it stands.
pub proof fn law_add_fields(
    old: DataBaseStorage,
    new: DataBaseStorage,
    content: Seq<char>,
    title: Option<String>,
    category: Option<String>,
    tags: Option<Vec<String>>,
    priority: Option<String>,
    defaults: crate::config::GeneralConfig,
    now: Timestamp,
    r: Result<NoteModel, crate::handle::add::AddError>,
)
    requires
        crate::handle::add::add_outcome(old, new, content, title, category, tags, priority, defaults, now, r),
        crate::text::trim(content).len() > 0,
        max_of(note_ids(old.notes())) < u32::MAX,
    ensures
        r is Ok,
        ({
            let n = r->Ok_0.index@;
            let asked = match title {
                Some(t) => t@,
                None => crate::handle::add::default_title(content),
            };
            let pri = match priority {
                Some(p) => p@,
                None => defaults.default_priority@,
            };
            &&& r->Ok_0.content@ == content
            &&& !any(old.notes(), has_id(n.id))
            &&& !title_taken(old.notes(), n.title)
            &&& !title_taken(old.notes(), asked) ==> n.title == asked
            &&& n.category.name == match category {
                Some(c) => c@,
                None => defaults.default_category@,
            }
            &&& tag_names(n.tags) == match tags {
                Some(ts) => strings_view(ts@),
                None => Seq::<Seq<char>>::empty(),
            }
            &&& n.created == now
            &&& n.modified == now
            &&& pri == "low"@ ==> n.priority == crate::model::Priority::Low
            &&& pri == "normal"@ ==> n.priority == crate::model::Priority::Normal
            &&& pri == "high"@ ==> n.priority == crate::model::Priority::High
            &&& pri == "urgent"@ ==> n.priority == crate::model::Priority::Urgent
        }),
{
    reveal_strlit("normal");
    crate::output::lemma_priority_names_differ();
    assert("normal"@ =~= priority_text(crate::model::Priority::Normal));
    let asked = match title {
        Some(t) => t@,
        None => crate::handle::add::default_title(content),
    };
    let cat = match category {
        Some(c) => c@,
        None => defaults.default_category@,
    };
    law_next_id_is_fresh(old.notes());
    law_resolved_title_is_free(old.notes(), asked);
    law_category_resolution_idempotent(old.categories(), cat);
    lemma_tags_resolution_names(old.tags(), crate::handle::add::names_or_none(tags));
}

/// The four priority counts of `note stats` add up to the number of notes:
/// every note has exactly one priority.
pub proof fn law_priority_counts_sum(notes: Seq<NoteView>)
    ensures
        notes.filter(crate::handle::stats::priority_is(crate::model::Priority::Low)).len()
            + notes.filter(crate::handle::stats::priority_is(crate::model::Priority::Normal)).len()
            + notes.filter(crate::handle::stats::priority_is(crate::model::Priority::High)).len()
            + notes.filter(crate::handle::stats::priority_is(crate::model::Priority::Urgent)).len()
            == notes.len(),
    decreases notes.len(),
{
    reveal_with_fuel(Seq::<_>::filter, 1);
    if notes.len() > 0 {
        law_priority_counts_sum(notes.drop_last());
    }
}

} // verus!
