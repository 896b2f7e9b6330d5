//! Making a new note from what the user gave.
use vstd::prelude::*;
use crate::config::GeneralConfig;
use crate::model::{
    own, parse_priority, priority_of_text, tags_view, NoteIndexModel, NoteModel, NoteView,
};
use crate::numeric::{dec, dec_string, lemma_dec_injective};
use crate::seqs::{any, max_of};
use crate::storage::{
    category_ids, category_resolution, has_title, note_ids, tag_ids,
    tags_resolution, DataBaseStorage,
};
use crate::text::{strings_view, chars_of, push_str, string_of_range, trim, trim_str};
use crate::time::{local_now, ts_valid, Timestamp};

verus! {

/// Some note has the title `t`.
pub open spec fn title_taken(notes: Seq<NoteView>, t: Seq<char>) -> bool {
    any(notes, has_title(t))
}

/// `base` with the suffix `_n`.
pub open spec fn suffixed(base: Seq<char>, n: nat) -> Seq<char> {
    base + seq!['_'] + dec(n)
}

/// The first suffix from `n` on whose title is free, not looking past the
/// number of notes.
pub open spec fn free_suffix(notes: Seq<NoteView>, base: Seq<char>, n: nat) -> nat
    decreases notes.len() - n,
{
    if n >= notes.len() || !title_taken(notes, suffixed(base, n)) {
        n
    } else {
        free_suffix(notes, base, n + 1)
    }
}

/// The title a note asking for `base` gets: `base` itself when free, else
/// `base` with the first suffix `_1`, `_2`, ... that is free.
pub open spec fn resolved_title(notes: Seq<NoteView>, base: Seq<char>) -> Seq<char> {
    if !title_taken(notes, base) {
        base
    } else {
        suffixed(base, free_suffix(notes, base, 1))
    }
}

/// The titles of some notes.
pub open spec fn titles_of(notes: Seq<NoteView>) -> Seq<Seq<char>> {
    notes.map_values(|n: NoteView| n.title)
}

/// `base` and its first `k` suffixed forms.
pub open spec fn title_candidates(base: Seq<char>, k: nat) -> Seq<Seq<char>> {
    Seq::new(k + 1, |i: int| if i == 0 { base } else { suffixed(base, i as nat) })
}

/// With `n` notes, `base` and its suffixes `_1` to `_n` cannot all be taken.
pub proof fn lemma_some_candidate_free(notes: Seq<NoteView>, base: Seq<char>)
    requires
        title_taken(notes, base),
    ensures
        exists|m: nat| 1 <= m <= notes.len() && !title_taken(notes, #[trigger] suffixed(base, m)),
{
    if forall|m: nat| 1 <= m <= notes.len() ==> title_taken(notes, #[trigger] suffixed(base, m)) {
        lemma_all_taken_impossible(notes, base);
    }
}

proof fn lemma_all_taken_impossible(notes: Seq<NoteView>, base: Seq<char>)
    requires
        title_taken(notes, base),
        forall|m: nat| 1 <= m <= notes.len() ==> title_taken(notes, #[trigger] suffixed(base, m)),
    ensures
        notes.len() + 1 <= notes.len(),
{
    let k = notes.len();
    let cands = title_candidates(base, k);
    let titles = titles_of(notes);
    assert forall|i: int, j: int| 0 <= i < cands.len() && 0 <= j < cands.len() && i != j implies cands[i]
        != cands[j] by {
        if i > 0 && j > 0 && cands[i] == cands[j] {
            assert(suffixed(base, i as nat).skip(base.len() + 1int) =~= dec(i as nat));
            assert(suffixed(base, j as nat).skip(base.len() + 1int) =~= dec(j as nat));
            lemma_dec_injective(i as nat, j as nat);
        }
        if i == 0 || j == 0 {
            assert(cands[i].len() != cands[j].len());
        }
    }
    cands.unique_seq_to_set();
    assert forall|t: Seq<char>| cands.to_set().contains(t) implies titles.to_set().contains(t) by {
        let i = choose|i: int| 0 <= i < cands.len() && cands[i] == t;
        if i > 0 {
            assert(title_taken(notes, suffixed(base, i as nat)));
        }
        assert(title_taken(notes, t));
        let j = choose|j: int| 0 <= j < notes.len() && has_title(t)(#[trigger] notes[j]);
        assert(titles[j] == t);
    }
    vstd::seq_lib::seq_to_set_is_finite(titles);
    vstd::set_lib::lemma_len_subset(cands.to_set(), titles.to_set());
    titles.lemma_cardinality_of_set();
}

/// From `n` on, `free_suffix` finds a free suffix, and all before it are taken.
pub proof fn lemma_free_suffix(notes: Seq<NoteView>, base: Seq<char>, n: nat)
    requires
        title_taken(notes, base),
        1 <= n <= notes.len(),
        forall|m: nat| 1 <= m < n ==> title_taken(notes, #[trigger] suffixed(base, m)),
    ensures
        n <= free_suffix(notes, base, n) <= notes.len(),
        !title_taken(notes, suffixed(base, free_suffix(notes, base, n))),
        forall|m: nat| 1 <= m < free_suffix(notes, base, n) ==> title_taken(notes, #[trigger] suffixed(base, m)),
    decreases notes.len() - n,
{
    if title_taken(notes, suffixed(base, n)) {
        if n == notes.len() {
            lemma_some_candidate_free(notes, base);
            let m = choose|m: nat| 1 <= m <= notes.len() && !title_taken(notes, #[trigger] suffixed(base, m));
            assert(m == n || m < n);
        } else {
            lemma_free_suffix(notes, base, n + 1);
        }
    }
}

/// `base` with the suffix `_n`.
fn suffixed_title(base: &str, n: usize) -> (r: String)
    ensures
        r@ == suffixed(base@, n as nat),
{
    let mut r = own(base);
    push_str(&mut r, "_");
    let d = dec_string(n as u64);
    push_str(&mut r, d.as_str());
    proof {
        reveal_strlit("_");
        assert(r@ =~= suffixed(base@, n as nat));
    }
    r
}

/// The title a new note asking for `base` gets: `base` when no note has it,
/// else `base_1`, `base_2`, ..., the first that no note has.
pub fn resolve_duplicate_title(base: &str, storage: &DataBaseStorage) -> (r: String)
    ensures
        r@ == resolved_title(storage.notes(), base@),
        !title_taken(storage.notes(), r@),
        title_taken(storage.notes(), base@) ==> exists|n: nat|
            1 <= n && r@ == suffixed(base@, n) && forall|m: nat|
                1 <= m < n ==> title_taken(storage.notes(), #[trigger] suffixed(base@, m)),
{
    let ghost notes = storage.notes();
    if !storage.title_exists(base) {
        return own(base);
    }
    let total = storage.note_count();
    proof {
        let j = choose|j: int| 0 <= j < notes.len() && has_title(base@)(#[trigger] notes[j]);
        lemma_free_suffix(notes, base@, 1);
    }
    let mut n: usize = 1;
    loop
        invariant
            notes == storage.notes(),
            total == notes.len(),
            title_taken(notes, base@),
            1 <= n <= total,
            forall|m: nat| 1 <= m < n ==> title_taken(notes, #[trigger] suffixed(base@, m)),
            free_suffix(notes, base@, n as nat) == free_suffix(notes, base@, 1),
        decreases total - n,
    {
        let cand = suffixed_title(base, n);
        if !storage.title_exists(cand.as_str()) {
            proof {
                lemma_free_suffix(notes, base@, n as nat);
            }
            return cand;
        }
        proof {
            if n == total {
                lemma_some_candidate_free(notes, base@);
                let m = choose|m: nat| 1 <= m <= notes.len() && !title_taken(notes, #[trigger] suffixed(base@, m));
                assert(m == n || m < n);
            }
        }
        n += 1;
    }
}

/// Why no note was made.
#[derive(Debug, Clone, Copy, PartialEq, Eq, Structural)]
pub enum AddError {
    /// The content is empty or only white space.
    EmptyContent,
}

/// The title of a note made without one and without content.
pub open spec fn untitled_note() -> Seq<char> {
    seq!['未', '命', '名', '笔', '记']
}

/// The title a note gets from its content: its first 20 characters.
pub open spec fn default_title(content: Seq<char>) -> Seq<char> {
    if content.len() == 0 {
        untitled_note()
    } else if content.len() <= 20 {
        content
    } else {
        content.take(20)
    }
}

/// The first 20 characters of `content` (the placeholder title when empty).
pub fn default_title_of(content: &str) -> (r: String)
    ensures
        r@ == default_title(content@),
{
    let v = chars_of(content);
    if v.len() == 0 {
        proof {
            reveal_strlit("未命名笔记");
            assert("未命名笔记"@ =~= untitled_note());
        }
        return own("未命名笔记");
    }
    let k: usize = if v.len() <= 20 {
        v.len()
    } else {
        20
    };
    let r = string_of_range(&v, 0, k);
    assert(v@.subrange(0, v@.len() as int) =~= v@);
    r
}

/// The text of an optional string, or `d` where there is none.
pub open spec fn text_or(o: Option<String>, d: Seq<char>) -> Seq<char> {
    match o {
        Some(t) => t@,
        None => d,
    }
}

/// The names of an optional tag list (none where there is no list).
pub open spec fn names_or_none(o: Option<Vec<String>>) -> Seq<Seq<char>> {
    match o {
        Some(v) => strings_view(v@),
        None => Seq::empty(),
    }
}

/// The ids in the index leave room for the next note, category and tags.
pub open spec fn room_for_note(s: &DataBaseStorage, new_tags: nat) -> bool {
    &&& max_of(note_ids(s.notes())) < u32::MAX
    &&& max_of(category_ids(s.categories())) < u32::MAX
    &&& max_of(tag_ids(s.tags())) + new_tags < u32::MAX
}

/// Whether the ids leave room for one more note with `new_tags` new tags
/// (see `room_for_note`).
pub fn has_room_for_note(s: &DataBaseStorage, new_tags: usize) -> (r: bool)
    ensures
        r == room_for_note(s, new_tags as nat),
{
    let (n, c, t) = s.max_ids();
    n < u32::MAX && c < u32::MAX && (t as u128) + (new_tags as u128) < u32::MAX as u128
}

/// What `note add` does: refused when the content is blank (nothing
/// changes); else it makes a note with the next id, the title asked for (or
/// the content's first 20 characters) made unique, the category and the
/// tags asked for (made when missing; the configured default category when
/// none is given), the priority asked for (or the configured default), and
/// `now` as its creation and modification time. The categories and tags of
/// the index take what was made; the note itself is added once its file is
/// written.
pub open spec fn add_outcome(
    old: DataBaseStorage,
    new: DataBaseStorage,
    content: Seq<char>,
    title: Option<String>,
    category: Option<String>,
    tags: Option<Vec<String>>,
    priority: Option<String>,
    defaults: GeneralConfig,
    now: Timestamp,
    r: Result<NoteModel, AddError>,
) -> bool {
    &&& trim(content).len() == 0 ==> r == Err::<NoteModel, AddError>(AddError::EmptyContent) && new == old
    &&& trim(content).len() > 0 ==> (r matches Ok(note) && ({
        let cat = category_resolution(old.categories(), text_or(category, defaults.default_category@));
        let tgs = tags_resolution(old.tags(), names_or_none(tags));
        &&& note.index@ == NoteView {
            id: (max_of(note_ids(old.notes())) + 1) as u32,
            title: resolved_title(old.notes(), text_or(title, default_title(content))),
            category: cat.0,
            tags: tgs.0,
            priority: priority_of_text(text_or(priority, defaults.default_priority@)),
            created: now,
            modified: now,
        }
        &&& note.content@ == content
        &&& new.categories() == cat.1
        &&& new.tags() == tgs.1
        &&& new.notes() == old.notes()
        &&& new.pinned() == old.pinned()
        &&& new.archived() == old.archived()
        &&& new.done() == old.done()
        &&& new.notes_dir_spec() == old.notes_dir_spec()
        &&& new.index_file_spec() == old.index_file_spec()
    }))
}

/// `note add` with the current time read from the clock (see `add_outcome`).
pub fn handle(
    content: &str,
    title: &Option<String>,
    category: &Option<String>,
    tags: &Option<Vec<String>>,
    priority: &Option<String>,
    defaults: &GeneralConfig,
    storage: &mut DataBaseStorage,
) -> (r: Result<NoteModel, AddError>)
    requires
        trim(content@).len() > 0 ==> room_for_note(old(storage), names_or_none(*tags).len()),
    ensures
        exists|now: Timestamp|
            ts_valid(now) && add_outcome(
                *old(storage),
                *final(storage),
                content@,
                *title,
                *category,
                *tags,
                *priority,
                *defaults,
                now,
                r,
            ),
{
    let now = local_now();
    handle_at(content, title, category, tags, priority, defaults, storage, now)
}

/// `note add` at the time `now` (see `add_outcome`).
pub fn handle_at(
    content: &str,
    title: &Option<String>,
    category: &Option<String>,
    tags: &Option<Vec<String>>,
    priority: &Option<String>,
    defaults: &GeneralConfig,
    storage: &mut DataBaseStorage,
    now: Timestamp,
) -> (r: Result<NoteModel, AddError>)
    requires
        trim(content@).len() > 0 ==> room_for_note(old(storage), names_or_none(*tags).len()),
    ensures
        add_outcome(
            *old(storage),
            *final(storage),
            content@,
            *title,
            *category,
            *tags,
            *priority,
            *defaults,
            now,
            r,
        ),
{
    let trimmed = trim_str(content);
    if trimmed.as_str().is_empty() {
        return Err(AddError::EmptyContent);
    }
    let base = match title {
        Some(t) => t.clone(),
        None => default_title_of(content),
    };
    let note_title = resolve_duplicate_title(base.as_str(), storage);
    proof {
        crate::seqs::lemma_max_of(note_ids(storage.notes()));
        assert forall|k: int| 0 <= k < storage.notes().len() implies #[trigger] storage.notes()[k].id
            < u32::MAX by {
            assert(note_ids(storage.notes())[k] == storage.notes()[k].id);
        }
        crate::seqs::lemma_max_of(category_ids(storage.categories()));
        assert forall|k: int| 0 <= k < storage.categories().len() implies #[trigger] storage.categories()[k].id
            < u32::MAX by {
            assert(category_ids(storage.categories())[k] == storage.categories()[k].id);
        }
    }
    let id = storage.next_note_id();
    let cat = match category {
        Some(c) => storage.resolve_category(c.as_str()),
        None => storage.resolve_category(defaults.default_category.as_str()),
    };
    let tag_models = match tags {
        Some(t) => storage.resolve_tags(t),
        None => Vec::new(),
    };
    proof {
        assert(tags_view(tag_models@) =~= tags_resolution(old(storage).tags(), names_or_none(*tags)).0);
    }
    let pri = match priority {
        Some(p) => parse_priority(p.as_str()),
        None => parse_priority(defaults.default_priority.as_str()),
    };
    let note = NoteModel {
        index: NoteIndexModel {
            id,
            title: note_title,
            category: cat,
            tags: tag_models,
            priority: pri,
            created: now,
            modified: now,
        },
        content: own(content),
    };
    Ok(note)
}

/// What a new note's metadata is, given what it asks for: the next id, the
/// title made unique, the category and tags resolved, and `now` as both
/// times.
pub open spec fn new_note_view(
    s: &DataBaseStorage,
    base: Seq<char>,
    category: Seq<char>,
    tags: Seq<Seq<char>>,
    priority: crate::model::Priority,
    now: Timestamp,
) -> NoteView {
    NoteView {
        id: (max_of(note_ids(s.notes())) + 1) as u32,
        title: resolved_title(s.notes(), base),
        category: category_resolution(s.categories(), category).0,
        tags: tags_resolution(s.tags(), tags).0,
        priority,
        created: now,
        modified: now,
    }
}

/// Makes a new note asking for the title `base`, the category, the tags and
/// the priority, with body `content`, resolving the category and tags in
/// the index (see `new_note_view`); the note itself is not added.
pub fn new_note(
    base: &str,
    content: String,
    category: &str,
    tags: &Vec<String>,
    priority: crate::model::Priority,
    storage: &mut DataBaseStorage,
    now: Timestamp,
) -> (note: NoteModel)
    requires
        room_for_note(old(storage), tags@.len()),
    ensures
        note.index@ == new_note_view(old(storage), base@, category@, strings_view(tags@), priority, now),
        note.content@ == content@,
        final(storage).categories() == category_resolution(old(storage).categories(), category@).1,
        final(storage).tags() == tags_resolution(old(storage).tags(), strings_view(tags@)).1,
        final(storage).notes() == old(storage).notes(),
        final(storage).pinned() == old(storage).pinned(),
        final(storage).archived() == old(storage).archived(),
        final(storage).done() == old(storage).done(),
        final(storage).notes_dir_spec() == old(storage).notes_dir_spec(),
        final(storage).index_file_spec() == old(storage).index_file_spec(),
{
    let title = resolve_duplicate_title(base, storage);
    proof {
        crate::seqs::lemma_max_of(note_ids(storage.notes()));
        assert forall|k: int| 0 <= k < storage.notes().len() implies #[trigger] storage.notes()[k].id
            < u32::MAX by {
            assert(note_ids(storage.notes())[k] == storage.notes()[k].id);
        }
        crate::seqs::lemma_max_of(category_ids(storage.categories()));
        assert forall|k: int| 0 <= k < storage.categories().len() implies #[trigger] storage.categories()[k].id
            < u32::MAX by {
            assert(category_ids(storage.categories())[k] == storage.categories()[k].id);
        }
    }
    let id = storage.next_note_id();
    let cat = storage.resolve_category(category);
    let tag_models = storage.resolve_tags(tags);
    NoteModel {
        index: NoteIndexModel {
            id,
            title,
            category: cat,
            tags: tag_models,
            priority,
            created: now,
            modified: now,
        },
        content,
    }
}

} // verus!
