//! Turning an imported file into notes: its format, its sections, and the
//! note each section or JSON entry makes.
use vstd::prelude::*;
use crate::handle::add::{new_note, new_note_view, room_for_note};
use crate::model::{own, parse_priority, priority_of_text, NoteModel, Priority};
use crate::storage::DataBaseStorage;
use crate::text::{
    chars_of, contains, contains_str, find, split, split_str, starts_with, starts_with_str,
    string_of_range, strings_view, trim, trim_front, trim_str, CharClass,
};
use crate::time::{local_now, ts_valid, Timestamp};

verus! {

/// The formats a file is imported in.
#[derive(Debug, Clone, Copy, PartialEq, Eq, Structural)]
pub enum ImportFormat {
    Json,
    Markdown,
    PlainText,
}

/// The format of a file's text: JSON when it starts with `[` or `{`,
/// Markdown when it starts with `#` or has a line starting with `# `,
/// plain text otherwise (leading and trailing white space ignored).
pub open spec fn format_of(raw: Seq<char>) -> ImportFormat {
    let t = trim(raw);
    if starts_with(t, seq!['[']) || starts_with(t, seq!['{']) {
        ImportFormat::Json
    } else if starts_with(t, seq!['#']) || contains(t, seq!['\n', '#', ' ']) {
        ImportFormat::Markdown
    } else {
        ImportFormat::PlainText
    }
}

/// The format of a file's text.
pub fn detect_format(raw: &str) -> (f: ImportFormat)
    ensures
        f == format_of(raw@),
{
    let t = trim_str(raw);
    proof {
        reveal_strlit("[");
        reveal_strlit("{");
        reveal_strlit("#");
        reveal_strlit("\n# ");
        assert("["@ =~= seq!['[']);
        assert("{"@ =~= seq!['{']);
        assert("#"@ =~= seq!['#']);
        assert("\n# "@ =~= seq!['\n', '#', ' ']);
    }
    if starts_with_str(t.as_str(), "[") || starts_with_str(t.as_str(), "{") {
        ImportFormat::Json
    } else if starts_with_str(t.as_str(), "#") || contains_str(t.as_str(), "\n# ") {
        ImportFormat::Markdown
    } else {
        ImportFormat::PlainText
    }
}

/// `\n## `, the start of a second-level heading after the first line.
pub open spec fn heading_marker() -> Seq<char> {
    seq!['\n', '#', '#', ' ']
}

/// `\n---\n`, a separator line.
pub open spec fn separator_marker() -> Seq<char> {
    seq!['\n', '-', '-', '-', '\n']
}

/// The sections of a Markdown file: split at second-level headings, or
/// the whole text when it has none.
pub open spec fn markdown_sections(raw: Seq<char>) -> Seq<Seq<char>> {
    if contains(raw, heading_marker()) || starts_with(raw, seq!['#', '#', ' ']) {
        split(raw, heading_marker())
    } else {
        seq![raw]
    }
}

/// The sections of a plain-text file: split at `---` lines.
pub open spec fn plain_sections(raw: Seq<char>) -> Seq<Seq<char>> {
    split(raw, separator_marker())
}

/// The sections of a file's text in the format, each to become a note.
pub fn sections(raw: &str, format: ImportFormat) -> (r: Vec<String>)
    requires
        format != ImportFormat::Json,
    ensures
        strings_view(r@) == if format == ImportFormat::Markdown {
            markdown_sections(raw@)
        } else {
            plain_sections(raw@)
        },
{
    proof {
        reveal_strlit("\n## ");
        reveal_strlit("## ");
        reveal_strlit("\n---\n");
        assert("\n## "@ =~= heading_marker());
        assert("## "@ =~= seq!['#', '#', ' ']);
        assert("\n---\n"@ =~= separator_marker());
    }
    let r = if format == ImportFormat::Markdown {
        if contains_str(raw, "\n## ") || starts_with_str(raw, "## ") {
            split_str(raw, "\n## ")
        } else {
            let mut v: Vec<String> = Vec::new();
            v.push(own(raw));
            v
        }
    } else {
        split_str(raw, "\n---\n")
    };
    assert(strings_view(r@) =~= if format == ImportFormat::Markdown {
        markdown_sections(raw@)
    } else {
        plain_sections(raw@)
    });
    r
}

/// The title and body a section gives: after dropping leading `#`s and
/// trimming, the first line (trimmed) and the rest (trimmed); a one-line
/// section is the body of a note titled `fallback` when it is the file's
/// only section, else a title with an empty body.
pub open spec fn title_and_content(text: Seq<char>, total: nat, fallback: Seq<char>) -> (Seq<char>, Seq<char>) {
    let t = trim(trim_front(text, CharClass::Letter('#')));
    match find(t, seq!['\n']) {
        Some(p) => (trim(t.take(p)), trim(t.skip(p + 1))),
        None => if total == 1 {
            (fallback, t)
        } else {
            (t, Seq::empty())
        },
    }
}

/// The title and body a section gives (see `title_and_content`).
pub fn extract_title_and_content(text: &str, index: usize, total: usize, fallback: &str) -> (r: (
    String,
    String,
))
    ensures
        (r.0@, r.1@) == title_and_content(text@, total as nat, fallback@),
{
    let v = chars_of(text);
    let a = crate::text::skip_front(&v, 0, v.len(), CharClass::Letter('#'));
    let rest = string_of_range(&v, a, v.len());
    proof {
        assert(v@.subrange(0, v@.len() as int) =~= v@);
    }
    let t = trim_str(rest.as_str());
    let tv = chars_of(t.as_str());
    let nl = vec!['\n'];
    assert(nl@ =~= seq!['\n']);
    match crate::text::find_from_exec(&tv, &nl, 0) {
        Some(p) => {
            proof {
                crate::text::lemma_find_from(tv@, seq!['\n'], 0);
            }
            assert(p + 1 <= tv@.len() && tv@.len() == tv.len());
            let head = string_of_range(&tv, 0, p);
            let tail = string_of_range(&tv, p + 1, tv.len());
            assert(tv@.subrange(0, p as int) =~= tv@.take(p as int));
            assert(tv@.subrange(p + 1, tv@.len() as int) =~= tv@.skip(p + 1));
            (trim_str(head.as_str()), trim_str(tail.as_str()))
        },
        None => {
            if total == 1 {
                (own(fallback), t)
            } else {
                (t, String::new())
            }
        },
    }
}

/// The priority a JSON entry names (`normal` when it names none).
pub fn parse_priority_str(s: &str) -> (p: Priority)
    ensures
        p == priority_of_text(s@),
{
    parse_priority(s)
}

/// What importing one section of a Markdown or plain-text file does, the
/// section being number `index` of `total`, in a file named `file_stem`:
/// nothing for a blank section; else a note of normal priority with the
/// section's title and body, in the given category (`default` when none)
/// with the given tags, made at `now`. Its category and tags are resolved
/// in the index; the note is added once its file is written.
pub open spec fn section_outcome(
    old: DataBaseStorage,
    new: DataBaseStorage,
    section: Seq<char>,
    total: usize,
    file_stem: Seq<char>,
    category: Option<String>,
    tags: Option<Vec<String>>,
    now: Timestamp,
    r: Option<NoteModel>,
) -> bool {
    &&& (trim(section).len() == 0 ==> r is None && new == old)
    &&& (trim(section).len() > 0 ==> (r matches Some(note) && ({
            let tc = title_and_content(trim(section), total as nat, file_stem);
            let cat = match category {
                Some(c) => c@,
                None => seq!['d', 'e', 'f', 'a', 'u', 'l', 't'],
            };
            let names = match tags {
                Some(t) => strings_view(t@),
                None => Seq::empty(),
            };
            &&& note.index@ == new_note_view(&old, tc.0, cat, names, Priority::Normal, now)
            &&& note.content@ == tc.1
            &&& new.categories() == crate::storage::category_resolution(
                old.categories(),
                cat,
            ).1
            &&& new.tags() == crate::storage::tags_resolution(old.tags(), names).1
            &&& new.notes() == old.notes()
            &&& new.pinned() == old.pinned()
            &&& new.archived() == old.archived()
            &&& new.done() == old.done()
            &&& new.notes_dir_spec() == old.notes_dir_spec()
            &&& new.index_file_spec() == old.index_file_spec()
        })))
}

/// Imports one section at the time the clock gives (see `section_outcome`).
pub fn section_note(
    section: &str,
    index: usize,
    total: usize,
    file_stem: &str,
    category: &Option<String>,
    tags: &Option<Vec<String>>,
    storage: &mut DataBaseStorage,
) -> (r: Option<NoteModel>)
    requires
        trim(section@).len() > 0 ==> room_for_note(old(storage), match *tags { Some(t) => t@.len(), None => 0 }),
    ensures
        exists|now: Timestamp| ts_valid(now) && section_outcome(*old(storage), *final(storage), section@, total, file_stem@, *category, *tags, now, r),
{
    let now = local_now();
    section_note_at(section, index, total, file_stem, category, tags, storage, now)
}

/// Imports one section at the time `now` (see `section_outcome`).
pub fn section_note_at(
    section: &str,
    index: usize,
    total: usize,
    file_stem: &str,
    category: &Option<String>,
    tags: &Option<Vec<String>>,
    storage: &mut DataBaseStorage,
    now: Timestamp,
) -> (r: Option<NoteModel>)
    requires
        trim(section@).len() > 0 ==> room_for_note(old(storage), match *tags { Some(t) => t@.len(), None => 0 }),
    ensures
        section_outcome(*old(storage), *final(storage), section@, total, file_stem@, *category, *tags, now, r),
{
    let text = trim_str(section);
    if text.as_str().is_empty() {
        return None;
    }
    let (title, content) = extract_title_and_content(text.as_str(), index, total, file_stem);
    let cat = match category {
        Some(c) => c.clone(),
        None => own("default"),
    };
    proof {
        reveal_strlit("default");
        assert("default"@ =~= seq!['d', 'e', 'f', 'a', 'u', 'l', 't']);
    }
    let names: Vec<String> = match tags {
        Some(t) => t.clone(),
        None => Vec::new(),
    };
    assert(strings_view(names@) =~= match *tags {
        Some(t) => strings_view(t@),
        None => Seq::empty(),
    });
    Some(new_note(title.as_str(), content, cat.as_str(), &names, Priority::Normal, storage, now))
}

/// What one entry of an imported JSON array holds, as plain values: its
/// string fields where they are strings, and the strings among its tags.
pub struct ImportEntry {
    pub title: Option<String>,
    pub content: Option<String>,
    pub category: Option<String>,
    pub priority: Option<String>,
    pub tags: Vec<String>,
}

/// The title of a JSON entry without one.
pub open spec fn unnamed() -> Seq<char> {
    seq!['未', '命', '名']
}

/// The text of an optional string, or `d`.
pub open spec fn or_else(o: Option<String>, d: Seq<char>) -> Seq<char> {
    match o {
        Some(t) => t@,
        None => d,
    }
}

/// The tags a JSON entry gets: its own, or the defaults when it has none.
pub open spec fn entry_tags(entry: ImportEntry, tags: Option<Vec<String>>) -> Seq<Seq<char>> {
    if entry.tags@.len() > 0 {
        strings_view(entry.tags@)
    } else {
        match tags {
            Some(t) => strings_view(t@),
            None => Seq::empty(),
        }
    }
}

/// What importing one JSON entry does: a note with its title (`未命名`
/// when it has none), body, category (else the given one, else `default`),
/// priority (`normal` when it names none) and tags (else the given ones),
/// made at `now`. Its category and tags are resolved in the index; the
/// note is added once its file is written.
pub open spec fn json_entry_outcome(
    old: DataBaseStorage,
    new: DataBaseStorage,
    entry: ImportEntry,
    category: Option<String>,
    tags: Option<Vec<String>>,
    now: Timestamp,
    note: NoteModel,
) -> bool {
    &&& (({
            let cat = match entry.category {
                Some(c) => c@,
                None => or_else(category, seq!['d', 'e', 'f', 'a', 'u', 'l', 't']),
            };
            let pri = priority_of_text(or_else(entry.priority, seq!['n', 'o', 'r', 'm', 'a', 'l']));
            &&& note.index@ == new_note_view(
                &old,
                or_else(entry.title, unnamed()),
                cat,
                entry_tags(entry, tags),
                pri,
                now,
            )
            &&& note.content@ == or_else(entry.content, Seq::empty())
            &&& new.categories() == crate::storage::category_resolution(
                old.categories(),
                cat,
            ).1
            &&& new.tags() == crate::storage::tags_resolution(
                old.tags(),
                entry_tags(entry, tags),
            ).1
            &&& new.notes() == old.notes()
            &&& new.pinned() == old.pinned()
            &&& new.archived() == old.archived()
            &&& new.done() == old.done()
            &&& new.notes_dir_spec() == old.notes_dir_spec()
            &&& new.index_file_spec() == old.index_file_spec()
        }))
}

/// Imports one JSON entry at the time the clock gives (see
/// `json_entry_outcome`).
pub fn json_entry_note(
    entry: &ImportEntry,
    category: &Option<String>,
    tags: &Option<Vec<String>>,
    storage: &mut DataBaseStorage,
) -> (note: NoteModel)
    requires
        room_for_note(old(storage), entry_tags(*entry, *tags).len()),
    ensures
        exists|now: Timestamp| ts_valid(now) && json_entry_outcome(*old(storage), *final(storage), *entry, *category, *tags, now, note),
{
    let now = local_now();
    json_entry_note_at(entry, category, tags, storage, now)
}

/// Imports one JSON entry at the time `now` (see `json_entry_outcome`).
pub fn json_entry_note_at(
    entry: &ImportEntry,
    category: &Option<String>,
    tags: &Option<Vec<String>>,
    storage: &mut DataBaseStorage,
    now: Timestamp,
) -> (note: NoteModel)
    requires
        room_for_note(old(storage), entry_tags(*entry, *tags).len()),
    ensures
        json_entry_outcome(*old(storage), *final(storage), *entry, *category, *tags, now, note),
{
    proof {
        reveal_strlit("未命名");
        reveal_strlit("default");
        reveal_strlit("normal");
        reveal_strlit("");
        assert("未命名"@ =~= unnamed());
        assert("default"@ =~= seq!['d', 'e', 'f', 'a', 'u', 'l', 't']);
        assert("normal"@ =~= seq!['n', 'o', 'r', 'm', 'a', 'l']);
    }
    let title = match &entry.title {
        Some(t) => t.clone(),
        None => own("未命名"),
    };
    let content = match &entry.content {
        Some(c) => c.clone(),
        None => String::new(),
    };
    let cat = match &entry.category {
        Some(c) => c.clone(),
        None => match category {
            Some(c) => c.clone(),
            None => own("default"),
        },
    };
    let pri = match &entry.priority {
        Some(p) => parse_priority_str(p.as_str()),
        None => parse_priority_str("normal"),
    };
    let names: Vec<String> = if entry.tags.len() > 0 {
        entry.tags.clone()
    } else {
        match tags {
            Some(t) => t.clone(),
            None => Vec::new(),
        }
    };
    assert(strings_view(names@) =~= entry_tags(*entry, *tags));
    new_note(title.as_str(), content, cat.as_str(), &names, pri, storage, now)
}

} // verus!
