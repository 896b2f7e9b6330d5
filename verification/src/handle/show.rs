//! Showing one note.
use vstd::prelude::*;
use crate::handle::list::{tag_name_list, tag_names};
use crate::model::{own, NoteModel, NoteView, Priority};
use crate::notefile::body_of;
use crate::numeric::{dec, dec_string};
use crate::seqs::find_first;
use crate::storage::{has_id, DataBaseStorage};
use crate::text::{join, join_strings, push_str, strings_view};
use crate::time::{date_minute_format, format_minutes, formatted_time};

verus! {

/// Why no note is shown.
#[derive(Debug, Clone, Copy, PartialEq, Eq, Structural)]
pub enum ShowError {
    /// No id was given.
    MissingId,
    /// No note has the id, or its file could not be read.
    NotFound,
}

/// `note show`: the note with the id, its body read from `file_text`, the
/// text of its file (`None` where it could not be read).
pub fn handle(id: &Option<u32>, file_text: Option<&str>, storage: &DataBaseStorage) -> (r: Result<NoteModel, ShowError>)
    ensures
        match *id {
            None => r == Err::<NoteModel, ShowError>(ShowError::MissingId),
            Some(i) => match (find_first(storage.notes(), has_id(i)), file_text) {
                (Some(k), Some(t)) => r matches Ok(n) && n.index@ == storage.notes()[k] && n.content@
                    == body_of(t@),
                _ => r == Err::<NoteModel, ShowError>(ShowError::NotFound),
            },
        },
{
    let i = match id {
        Some(i) => *i,
        None => return Err(ShowError::MissingId),
    };
    let t = match file_text {
        Some(t) => t,
        None => return Err(ShowError::NotFound),
    };
    match storage.get_note(i, t) {
        Some(n) => Ok(n),
        None => Err(ShowError::NotFound),
    }
}

/// The name `{:?}` gives a priority.
pub open spec fn priority_debug(p: Priority) -> Seq<char> {
    match p {
        Priority::Low => "Low"@,
        Priority::Normal => "Normal"@,
        Priority::High => "High"@,
        Priority::Urgent => "Urgent"@,
    }
}

/// A time as notes display it.
pub open spec fn shown(t: crate::time::Timestamp) -> Seq<char> {
    formatted_time(t.secs, t.nanos, t.offset, date_minute_format())
}

/// The lines `note show --raw` prints: title, id, category, priority and
/// times, the tags when there are any, and the body after `---` when it is
/// not empty.
pub open spec fn raw_lines_of(n: NoteView, content: Seq<char>) -> Seq<Seq<char>> {
    seq![
        "标题: "@ + n.title,
        "ID: "@ + dec(n.id as nat),
        "分类: "@ + n.category.name,
        "优先级: "@ + priority_debug(n.priority),
        "创建: "@ + shown(n.created),
        "修改: "@ + shown(n.modified),
    ] + (if n.tags.len() > 0 {
        seq!["标签: "@ + join(tag_names(n.tags), ", "@)]
    } else {
        Seq::empty()
    }) + (if content.len() > 0 {
        seq!["---"@, content]
    } else {
        Seq::empty()
    })
}

fn line(prefix: &str, rest: &str) -> (r: String)
    ensures
        r@ == prefix@ + rest@,
{
    let mut s = own(prefix);
    push_str(&mut s, rest);
    s
}

/// The lines `note show --raw` prints.
pub fn raw_lines(note: &NoteModel) -> (r: Vec<String>)
    ensures
        strings_view(r@) == raw_lines_of(note.index@, note.content@),
{
    let idx = &note.index;
    let mut v: Vec<String> = Vec::new();
    v.push(line("标题: ", idx.title.as_str()));
    v.push(line("ID: ", dec_string(idx.id as u64).as_str()));
    v.push(line("分类: ", idx.category.name.as_str()));
    let pri = match idx.priority {
        Priority::Low => own("Low"),
        Priority::Normal => own("Normal"),
        Priority::High => own("High"),
        Priority::Urgent => own("Urgent"),
    };
    v.push(line("优先级: ", pri.as_str()));
    v.push(line("创建: ", format_minutes(&idx.created).as_str()));
    v.push(line("修改: ", format_minutes(&idx.modified).as_str()));
    if idx.tags.len() > 0 {
        let names = tag_name_list(&idx.tags);
        v.push(line("标签: ", join_strings(&names, ", ").as_str()));
    }
    if !note.content.as_str().is_empty() {
        v.push(own("---"));
        v.push(note.content.clone());
    }
    assert(strings_view(v@) =~= raw_lines_of(note.index@, note.content@));
    v
}

} // verus!
