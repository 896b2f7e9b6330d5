//! Which notes `note export` writes, and the text of each format.
use vstd::prelude::*;
use crate::handle::list::{has_all_tags, opt_names, opt_text, tag_name_list, tag_names};
use crate::model::{notes_view, own, priority_name, priority_text, NoteIndexModel, NoteView, TagView};
use crate::notefile::{body_of, extract_body, sanitize_filename, sanitized};
use crate::numeric::{dec, dec_string};
use crate::storage::DataBaseStorage;
use crate::text::{join, join_strings, push_char, push_str, str_eq, strings_view};
use crate::time::{day_expr_defined, day_expr_ok, day_matches, date_minute_format, format_minutes, formatted_time, local_day, local_day_of, match_day};

verus! {

/// A note to export: its metadata and body.
pub struct ExportNote {
    pub index: NoteIndexModel,
    pub content: String,
}

/// The note passes the export filters: its id's decimal text is among
/// `ids` (or its id among `selected`, the notes picked interactively,
/// which take precedence), and it has the category, every tag and a
/// modification day the date expression selects, where these are given.
pub open spec fn exported(
    n: NoteView,
    selected: Option<Seq<u32>>,
    ids: Option<Seq<Seq<char>>>,
    category: Option<Seq<char>>,
    tags: Option<Seq<Seq<char>>>,
    date: Option<Seq<char>>,
    today: int,
) -> bool {
    &&& match selected {
        Some(s) => s.contains(n.id),
        None => match ids {
            Some(i) => i.contains(dec(n.id as nat)),
            None => true,
        },
    }
    &&& match category {
        Some(c) => n.category.name == c,
        None => true,
    }
    &&& match tags {
        Some(ts) => has_all_tags(n, ts),
        None => true,
    }
    &&& match date {
        Some(d) => day_matches(local_day(n.modified), d, today),
        None => true,
    }
}

/// The date expression, where given, is one chrono can evaluate today.
pub open spec fn day_ok(date: Option<String>, today: int) -> bool {
    match date {
        Some(d) => day_expr_defined(d@, today),
        None => true,
    }
}

/// The ids of an optional list.
pub open spec fn opt_ids(o: Option<Vec<u32>>) -> Option<Seq<u32>> {
    match o {
        Some(v) => Some(v@),
        None => None,
    }
}

/// The text of note `i`'s file, where it could be read.
pub open spec fn file_at(files: Seq<Option<String>>, i: int) -> Option<Seq<char>> {
    if 0 <= i < files.len() {
        match files[i] {
            Some(t) => Some(t@),
            None => None,
        }
    } else {
        None
    }
}

/// The outcome for note `i` of the index: exported with its body, skipped
/// (its file unreadable), or left out by the filters.
pub enum ExportStep {
    Taken,
    Skipped,
    Left,
}

/// What happens to note `i`.
pub open spec fn step_of(
    notes: Seq<NoteView>,
    files: Seq<Option<String>>,
    i: int,
    selected: Option<Seq<u32>>,
    ids: Option<Seq<Seq<char>>>,
    category: Option<Seq<char>>,
    tags: Option<Seq<Seq<char>>>,
    date: Option<Seq<char>>,
    today: int,
) -> ExportStep {
    if !exported(notes[i], selected, ids, category, tags, date, today) {
        ExportStep::Left
    } else if file_at(files, i) is None {
        ExportStep::Skipped
    } else {
        ExportStep::Taken
    }
}

/// The positions taken, and the ids of the notes skipped, among the first `n`.
pub open spec fn export_plan(
    notes: Seq<NoteView>,
    files: Seq<Option<String>>,
    n: nat,
    selected: Option<Seq<u32>>,
    ids: Option<Seq<Seq<char>>>,
    category: Option<Seq<char>>,
    tags: Option<Seq<Seq<char>>>,
    date: Option<Seq<char>>,
    today: int,
) -> (Seq<int>, Seq<u32>)
    decreases n,
{
    if n == 0 {
        (Seq::empty(), Seq::empty())
    } else {
        let (t, s) = export_plan(notes, files, (n - 1) as nat, selected, ids, category, tags, date, today);
        match step_of(notes, files, n - 1, selected, ids, category, tags, date, today) {
            ExportStep::Taken => (t.push(n - 1), s),
            ExportStep::Skipped => (t, s.push(notes[n - 1].id)),
            ExportStep::Left => (t, s),
        }
    }
}

/// The notes to export and the ids skipped for an unreadable file.
pub struct Collected {
    pub notes: Vec<ExportNote>,
    pub skipped: Vec<u32>,
}

fn contains_text(v: &Vec<String>, s: &str) -> (r: bool)
    ensures
        r == strings_view(v@).contains(s@),
{
    let mut i: usize = 0;
    while i < v.len()
        invariant
            i <= v.len(),
            forall|k: int| 0 <= k < i ==> strings_view(v@)[k] != s@,
        decreases v.len() - i,
    {
        if str_eq(v[i].as_str(), s) {
            assert(strings_view(v@)[i as int] == s@);
            return true;
        }
        i += 1;
    }
    false
}

fn exported_exec(
    n: &NoteIndexModel,
    selected: &Option<Vec<u32>>,
    ids: &Option<Vec<String>>,
    category: &Option<String>,
    tag: &Option<Vec<String>>,
    date: &Option<String>,
    today: i64,
) -> (r: bool)
    requires
        day_ok(*date, today as int),
    ensures
        r == exported(
            n@,
            opt_ids(*selected),
            opt_names(*ids),
            opt_text(*category),
            opt_names(*tag),
            opt_text(*date),
            today as int,
        ),
{
    match selected {
        Some(s) => {
            if !crate::seqs::contains_u32(s, n.id) {
                return false;
            }
        },
        None => {
            if let Some(i) = ids {
                let text = dec_string(n.id as u64);
                if !contains_text(i, text.as_str()) {
                    return false;
                }
            }
        },
    }
    if let Some(c) = category {
        if !str_eq(n.category.name.as_str(), c.as_str()) {
            return false;
        }
    }
    if let Some(ts) = tag {
        if !crate::handle::list::has_all_tags_exec(n, ts) {
            return false;
        }
    }
    if let Some(d) = date {
        let day = local_day_of(&n.modified);
        if !match_day(day, d.as_str(), today) {
            return false;
        }
    }
    true
}

/// The notes `note export` writes, in index order, each with the body read
/// from `files[i]`, the text of note `i`'s file; those whose file could not
/// be read are skipped and their ids listed. `selected` holds the ids picked
/// interactively when no filter was given.
pub fn collect_notes_at(
    ids: &Option<Vec<String>>,
    selected: &Option<Vec<u32>>,
    category: &Option<String>,
    tag: &Option<Vec<String>>,
    date: &Option<String>,
    storage: &DataBaseStorage,
    files: &Vec<Option<String>>,
    today: i64,
) -> (r: Collected)
    requires
        day_ok(*date, today as int),
    ensures
        ({
            let plan = export_plan(
                storage.notes(),
                files@,
                storage.notes().len(),
                opt_ids(*selected),
                opt_names(*ids),
                opt_text(*category),
                opt_names(*tag),
                opt_text(*date),
                today as int,
            );
            &&& r.notes@.len() == plan.0.len()
            &&& forall|j: int|
                0 <= j < plan.0.len() ==> (#[trigger] r.notes@[j]).index@ == storage.notes()[plan.0[j]]
                    && r.notes@[j].content@ == body_of(file_at(files@, plan.0[j])->Some_0)
            &&& r.skipped@ == plan.1
        }),
{
    let notes = storage.list_notes();
    let ghost sn = storage.notes();
    let ghost sel = opt_ids(*selected);
    let mut out: Vec<ExportNote> = Vec::new();
    let mut skipped: Vec<u32> = Vec::new();
    let mut i: usize = 0;
    while i < notes.len()
        invariant
            i <= notes@.len(),
            notes@.len() == sn.len(),
            sn == storage.notes(),
            day_ok(*date, today as int),
            sel == opt_ids(*selected),
            forall|k: int| 0 <= k < notes@.len() ==> (#[trigger] notes@[k])@ == sn[k],
            ({
                let plan = export_plan(
                    sn,
                    files@,
                    i as nat,
                    sel,
                    opt_names(*ids),
                    opt_text(*category),
                    opt_names(*tag),
                    opt_text(*date),
                    today as int,
                );
                &&& out@.len() == plan.0.len()
                &&& forall|j: int|
                    0 <= j < plan.0.len() ==> (#[trigger] out@[j]).index@ == sn[plan.0[j]]
                        && out@[j].content@ == body_of(file_at(files@, plan.0[j])->Some_0)
                &&& skipped@ == plan.1
            }),
        decreases notes.len() - i,
    {
        let n: &NoteIndexModel = notes[i];
        let ghost before = export_plan(
            sn,
            files@,
            i as nat,
            sel,
            opt_names(*ids),
            opt_text(*category),
            opt_names(*tag),
            opt_text(*date),
            today as int,
        );
        if exported_exec(n, selected, ids, category, tag, date, today) {
            let text: Option<&String> = if i < files.len() {
                match &files[i] {
                    Some(t) => Some(t),
                    None => None,
                }
            } else {
                None
            };
            match text {
                Some(t) => {
                    out.push(ExportNote { index: n.clone(), content: extract_body(t.as_str()) });
                    proof {
                        let after = export_plan(
                            sn,
                            files@,
                            (i + 1) as nat,
                            sel,
                            opt_names(*ids),
                            opt_text(*category),
                            opt_names(*tag),
                            opt_text(*date),
                            today as int,
                        );
                        assert(after.0 == before.0.push(i as int));
                        assert forall|j: int| 0 <= j < after.0.len() implies (#[trigger] out@[j]).index@ == sn[after.0[j]]
                            && out@[j].content@ == body_of(file_at(files@, after.0[j])->Some_0) by {
                            if j < before.0.len() {
                                assert(after.0[j] == before.0[j]);
                            }
                        }
                    }
                },
                None => {
                    skipped.push(n.id);
                },
            }
        }
        i += 1;
    }
    Collected { notes: out, skipped }
}

/// `collect_notes_at` where the date expression can be evaluated today;
/// `None` where chrono's date arithmetic for it would leave its range.
pub fn collect_notes_checked_at(
    ids: &Option<Vec<String>>,
    selected: &Option<Vec<u32>>,
    category: &Option<String>,
    tag: &Option<Vec<String>>,
    date: &Option<String>,
    storage: &DataBaseStorage,
    files: &Vec<Option<String>>,
    today: i64,
) -> (r: Option<Collected>)
    ensures
        r is None <==> !day_ok(*date, today as int),
        r matches Some(c) ==> collected(storage, files@, *ids, *selected, *category, *tag, *date, today as int, c),
{
    if let Some(d) = date {
        if !day_expr_ok(d.as_str(), today) {
            return None;
        }
    }
    Some(collect_notes_at(ids, selected, category, tag, date, storage, files, today))
}

/// `c` holds the notes the export plan takes, with their bodies, and the
/// ids it skips.
pub open spec fn collected(
    s: &DataBaseStorage,
    files: Seq<Option<String>>,
    ids: Option<Vec<String>>,
    selected: Option<Vec<u32>>,
    category: Option<String>,
    tag: Option<Vec<String>>,
    date: Option<String>,
    today: int,
    c: Collected,
) -> bool {
    let plan = export_plan(
        s.notes(),
        files,
        s.notes().len(),
        opt_ids(selected),
        opt_names(ids),
        opt_text(category),
        opt_names(tag),
        opt_text(date),
        today,
    );
    &&& c.notes@.len() == plan.0.len()
    &&& forall|j: int|
        0 <= j < plan.0.len() ==> (#[trigger] c.notes@[j]).index@ == s.notes()[plan.0[j]]
            && c.notes@[j].content@ == body_of(file_at(files, plan.0[j])->Some_0)
    &&& c.skipped@ == plan.1
}

/// The notes `note export` writes, on the day the clock gives (see
/// `collect_notes_checked_at`).
pub fn collect_notes(
    ids: &Option<Vec<String>>,
    selected: &Option<Vec<u32>>,
    category: &Option<String>,
    tag: &Option<Vec<String>>,
    date: &Option<String>,
    storage: &DataBaseStorage,
    files: &Vec<Option<String>>,
) -> (r: Option<Collected>)
    ensures
        exists|now: crate::time::Timestamp|
            crate::time::ts_valid(now) && (r is None <==> !day_ok(*date, local_day(now))) && (r matches Some(
                c,
            ) ==> collected(storage, files@, *ids, *selected, *category, *tag, *date, local_day(now), c)),
{
    let now = crate::time::local_now();
    let today = local_day_of(&now);
    collect_notes_checked_at(ids, selected, category, tag, date, storage, files, today)
}

/// A title made fit for a file name (see `sanitized`).
pub fn sanitize(title: &str) -> (r: String)
    ensures
        r@ == sanitized(title@),
{
    sanitize_filename(title)
}

/// The file a note is exported to as text.
pub fn txt_file_name(title: &str) -> (r: String)
    ensures
        r@ == sanitized(title@) + ".txt"@,
{
    let mut r = sanitize(title);
    push_str(&mut r, ".txt");
    r
}

/// The file a note is exported to as Markdown.
pub fn markdown_file_name(title: &str) -> (r: String)
    ensures
        r@ == sanitized(title@) + ".md"@,
{
    let mut r = sanitize(title);
    push_str(&mut r, ".md");
    r
}

/// A time as notes display it.
pub open spec fn shown_time(t: crate::time::Timestamp) -> Seq<char> {
    formatted_time(t.secs, t.nanos, t.offset, date_minute_format())
}

/// Each tag name between backquotes.
pub open spec fn quoted_names(tags: Seq<TagView>) -> Seq<Seq<char>> {
    tags.map_values(|t: TagView| "`"@ + t.name + "`"@)
}

/// The Markdown file of an exported note: a heading, the metadata as
/// quotes, the tags in backquotes (when any), then the body (when any).
pub open spec fn markdown_text(n: NoteView, content: Seq<char>) -> Seq<char> {
    "# "@ + n.title + "\n\n"@ + "> ID: "@ + dec(n.id as nat) + " | 分类: "@ + n.category.name
        + " | 优先级: "@ + priority_text(n.priority) + "\n"@ + "> 创建: "@ + shown_time(n.created)
        + " | 修改: "@ + shown_time(n.modified) + "\n\n"@ + (if n.tags.len() > 0 {
        "标签: "@ + join(quoted_names(n.tags), " "@) + "\n\n"@
    } else {
        Seq::empty()
    }) + (if content.len() > 0 {
        content + "\n"@
    } else {
        Seq::empty()
    })
}

/// The Markdown file of an exported note.
pub fn export_markdown_text(note: &ExportNote) -> (r: String)
    ensures
        r@ == markdown_text(note.index@, note.content@),
{
    let idx = &note.index;
    let mut md = own("# ");
    push_str(&mut md, idx.title.as_str());
    push_str(&mut md, "\n\n");
    push_str(&mut md, "> ID: ");
    push_str(&mut md, dec_string(idx.id as u64).as_str());
    push_str(&mut md, " | 分类: ");
    push_str(&mut md, idx.category.name.as_str());
    push_str(&mut md, " | 优先级: ");
    push_str(&mut md, priority_name(idx.priority).as_str());
    push_str(&mut md, "\n");
    push_str(&mut md, "> 创建: ");
    push_str(&mut md, format_minutes(&idx.created).as_str());
    push_str(&mut md, " | 修改: ");
    push_str(&mut md, format_minutes(&idx.modified).as_str());
    push_str(&mut md, "\n\n");
    let ghost head = md@;
    if idx.tags.len() > 0 {
        let mut quoted: Vec<String> = Vec::new();
        let mut i: usize = 0;
        while i < idx.tags.len()
            invariant
                i <= idx.tags.len(),
                strings_view(quoted@) == quoted_names(idx@.tags).take(i as int),
            decreases idx.tags.len() - i,
        {
            let mut q = own("`");
            push_str(&mut q, idx.tags[i].name.as_str());
            push_str(&mut q, "`");
            let ghost before = quoted@;
            quoted.push(q);
            assert(strings_view(quoted@) =~= strings_view(before).push(q@));
            assert(quoted_names(idx@.tags).take(i + 1) =~= quoted_names(idx@.tags).take(i as int).push(q@));
            i += 1;
        }
        assert(quoted_names(idx@.tags).take(i as int) =~= quoted_names(idx@.tags));
        push_str(&mut md, "标签: ");
        push_str(&mut md, join_strings(&quoted, " ").as_str());
        push_str(&mut md, "\n\n");
    }
    if !note.content.as_str().is_empty() {
        push_str(&mut md, note.content.as_str());
        push_str(&mut md, "\n");
    }
    assert(md@ =~= markdown_text(note.index@, note.content@));
    md
}

/// `s` with each `c` replaced by `by` (`str::replace` of one character).
pub open spec fn replace_char(s: Seq<char>, c: char, by: Seq<char>) -> Seq<char>
    decreases s.len(),
{
    if s.len() == 0 {
        Seq::empty()
    } else {
        replace_char(s.drop_last(), c, by) + if s.last() == c {
            by
        } else {
            seq![s.last()]
        }
    }
}

/// `s` with each `c` replaced by `by`.
pub fn replace_char_str(s: &str, c: char, by: &str) -> (r: String)
    ensures
        r@ == replace_char(s@, c, by@),
{
    let v = crate::text::chars_of(s);
    let mut r = String::new();
    let mut i: usize = 0;
    while i < v.len()
        invariant
            i <= v.len(),
            r@ == replace_char(v@.take(i as int), c, by@),
        decreases v.len() - i,
    {
        assert(v@.take(i + 1).drop_last() =~= v@.take(i as int));
        if v[i] == c {
            push_str(&mut r, by);
        } else {
            push_char(&mut r, v[i]);
            assert(r@ =~= replace_char(v@.take(i as int), c, by@) + seq![v@[i as int]]);
        }
        i += 1;
    }
    assert(v@.take(i as int) =~= v@);
    r
}

/// A CSV field with its quotes doubled.
pub open spec fn csv_escape(s: Seq<char>) -> Seq<char> {
    replace_char(s, '"', "\"\""@)
}

/// The first line of the CSV export.
pub open spec fn csv_header() -> Seq<char> {
    "ID,标题,分类,标签,优先级,创建时间,修改时间,内容\n"@
}

/// The CSV line of an exported note: id, quoted title and category, the
/// tags joined by `|`, priority, times, and the quoted body with its line
/// breaks written as `\n`.
pub open spec fn csv_line(n: NoteView, content: Seq<char>) -> Seq<char> {
    dec(n.id as nat) + ",\""@ + csv_escape(n.title) + "\",\""@ + csv_escape(n.category.name) + "\",\""@
        + join(tag_names(n.tags), "|"@) + "\","@ + priority_text(n.priority) + ","@ + shown_time(
        n.created,
    ) + ","@ + shown_time(n.modified) + ",\""@ + replace_char(csv_escape(content), '\n', "\\n"@)
        + "\"\n"@
}

/// The CSV lines of the notes, one after the other.
pub open spec fn csv_lines(notes: Seq<ExportNote>) -> Seq<char>
    decreases notes.len(),
{
    if notes.len() == 0 {
        Seq::empty()
    } else {
        csv_lines(notes.drop_last()) + csv_line(notes.last().index@, notes.last().content@)
    }
}

/// The CSV line of an exported note.
pub fn export_csv_line(note: &ExportNote) -> (r: String)
    ensures
        r@ == csv_line(note.index@, note.content@),
{
    let idx = &note.index;
    let names = tag_name_list(&idx.tags);
    let tags = join_strings(&names, "|");
    let content = replace_char_str(
        replace_char_str(note.content.as_str(), '"', "\"\"").as_str(),
        '\n',
        "\\n",
    );
    let mut line = dec_string(idx.id as u64);
    push_str(&mut line, ",\"");
    push_str(&mut line, replace_char_str(idx.title.as_str(), '"', "\"\"").as_str());
    push_str(&mut line, "\",\"");
    push_str(&mut line, replace_char_str(idx.category.name.as_str(), '"', "\"\"").as_str());
    push_str(&mut line, "\",\"");
    push_str(&mut line, tags.as_str());
    push_str(&mut line, "\",");
    push_str(&mut line, priority_name(idx.priority).as_str());
    push_str(&mut line, ",");
    push_str(&mut line, format_minutes(&idx.created).as_str());
    push_str(&mut line, ",");
    push_str(&mut line, format_minutes(&idx.modified).as_str());
    push_str(&mut line, ",\"");
    push_str(&mut line, content.as_str());
    push_str(&mut line, "\"\n");
    assert(line@ =~= csv_line(note.index@, note.content@));
    line
}

/// The CSV export of some notes.
pub fn export_csv_text(notes: &Vec<ExportNote>) -> (r: String)
    ensures
        r@ == csv_header() + csv_lines(notes@),
{
    let mut csv = own("ID,标题,分类,标签,优先级,创建时间,修改时间,内容\n");
    let mut i: usize = 0;
    while i < notes.len()
        invariant
            i <= notes.len(),
            csv@ == csv_header() + csv_lines(notes@.take(i as int)),
        decreases notes.len() - i,
    {
        assert(notes@.take(i + 1).drop_last() =~= notes@.take(i as int));
        let line = export_csv_line(&notes[i]);
        push_str(&mut csv, line.as_str());
        assert(csv@ =~= csv_header() + csv_lines(notes@.take(i + 1)));
        i += 1;
    }
    assert(notes@.take(i as int) =~= notes@);
    csv
}

/// What one note of the JSON export holds.
pub struct JsonNote {
    pub id: u32,
    pub title: String,
    pub category: String,
    pub tags: Vec<String>,
    pub priority: String,
    pub created: String,
    pub modified: String,
    pub content: String,
}

/// The JSON export entry of a note: its fields, the category and tags by
/// name, the priority and times as text.
pub fn json_note(note: &ExportNote) -> (r: JsonNote)
    ensures
        r.id == note.index@.id,
        r.title@ == note.index@.title,
        r.category@ == note.index@.category.name,
        strings_view(r.tags@) == tag_names(note.index@.tags),
        r.priority@ == priority_text(note.index@.priority),
        r.created@ == shown_time(note.index@.created),
        r.modified@ == shown_time(note.index@.modified),
        r.content@ == note.content@,
{
    let idx = &note.index;
    JsonNote {
        id: idx.id,
        title: idx.title.clone(),
        category: idx.category.name.clone(),
        tags: tag_name_list(&idx.tags),
        priority: priority_name(idx.priority),
        created: format_minutes(&idx.created),
        modified: format_minutes(&idx.modified),
        content: note.content.clone(),
    }
}

} // verus!
