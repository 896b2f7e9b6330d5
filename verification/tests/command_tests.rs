use notecli::config::default_general;
use notecli::handle::add::handle_at as add_at;
use notecli::handle::category::{self, CatalogError, CategoryDeletion};
use notecli::handle::export::{
    collect_notes_at, export_csv_text, export_markdown_text, json_note, replace_char_str, txt_file_name,
    ExportNote,
};
use notecli::handle::import::{
    detect_format, extract_title_and_content, json_entry_note_at, section_note_at, sections, ImportEntry,
    ImportFormat,
};
use notecli::handle::list::{handle_at as list_at, handle_checked_at, rows, status_of, tags_cell};
use notecli::handle::log::{handle_at as log_at, LogError};
use notecli::handle::search::{
    handle as search, highlight_match, search_fuzzy, search_plain, search_regex, SearchMode,
};
use notecli::handle::show::{handle as show, raw_lines, ShowError};
use notecli::handle::stats::handle as stats;
use notecli::handle::tag::{self, TagDeletion};
use notecli::model::Priority;
use notecli::storage::DataBaseStorage;
use notecli::time::Timestamp;

const DAY: i64 = 86_400;
const EPOCH_DAY: i64 = 719_163;

fn at(secs: i64) -> Timestamp {
    Timestamp { secs, nanos: 0, offset: 0 }
}

fn add(s: &mut DataBaseStorage, content: &str, title: &str, category: &str, tags: &[&str], pri: &str, secs: i64) -> u32 {
    let tags = if tags.is_empty() { None } else { Some(tags.iter().map(|t| t.to_string()).collect()) };
    let note = add_at(
        content,
        &Some(title.to_string()),
        &Some(category.to_string()),
        &tags,
        &Some(pri.to_string()),
        &default_general(),
        s,
        at(secs),
    )
    .unwrap();
    let id = note.index.id;
    s.add_note(note);
    id
}

fn sample() -> DataBaseStorage {
    let mut s = DataBaseStorage::new("notes".to_string(), "index.json".to_string());
    add(&mut s, "alpha body", "beta", "work", &["rust"], "high", 3 * DAY);
    add(&mut s, "gamma body", "alpha", "home", &[], "low", 1 * DAY);
    add(&mut s, "delta body", "gamma", "work", &["rust", "cli"], "urgent", 2 * DAY);
    add(&mut s, "eps body", "delta", "work", &["cli"], "normal", 5 * DAY);
    s
}

fn ids(v: &[notecli::model::NoteIndexModel]) -> Vec<u32> {
    v.iter().map(|n| n.id).collect()
}

#[test]
fn list_sorts_by_creation_by_default_and_pins_first() {
    let mut s = sample();
    let today = EPOCH_DAY + 10;
    let all = list_at(&None, &None, &None, &None, &None, &None, &None, false, false, &s, today);
    assert_eq!(ids(&all), vec![2, 3, 1, 4]);
    s.pin_note(4);
    let all = list_at(&None, &None, &None, &None, &None, &None, &None, false, false, &s, today);
    assert_eq!(ids(&all), vec![4, 2, 3, 1]);
    let by_title = list_at(&Some("title".to_string()), &None, &None, &None, &None, &None, &None, false, false, &s, today);
    assert_eq!(ids(&by_title), vec![4, 2, 1, 3]);
    let by_pri = list_at(&Some("priority".to_string()), &None, &None, &None, &None, &None, &None, false, false, &s, today);
    assert_eq!(ids(&by_pri), vec![4, 2, 1, 3]);
}

#[test]
fn list_filters_and_pages() {
    let mut s = sample();
    let today = EPOCH_DAY + 10;
    s.archive_note(1);
    let v = list_at(&None, &None, &None, &Some("work".to_string()), &None, &None, &None, false, false, &s, today);
    assert_eq!(ids(&v), vec![3, 4]);
    let v = list_at(&None, &None, &None, &None, &Some(vec!["rust".to_string(), "cli".to_string()]), &None, &None, false, false, &s, today);
    assert_eq!(ids(&v), vec![3]);
    let v = list_at(&None, &None, &None, &None, &None, &Some("URGENT".to_string()), &None, false, false, &s, today);
    assert_eq!(ids(&v), vec![3]);
    let v = list_at(&None, &None, &None, &None, &None, &None, &None, false, true, &s, today);
    assert_eq!(ids(&v), vec![2]);
    let v = list_at(&None, &None, &None, &None, &None, &None, &None, true, false, &s, today);
    assert_eq!(ids(&v), vec![3, 4]);
    let v = list_at(&None, &Some(1), &Some(1), &None, &None, &None, &None, false, false, &s, today);
    assert_eq!(ids(&v), vec![3]);
    let v = list_at(&None, &None, &Some(9), &None, &None, &None, &None, false, false, &s, today);
    assert!(v.is_empty());
}

#[test]
fn list_date_expressions() {
    let s = sample();
    let today = EPOCH_DAY + 5;
    let d = |e: &str| ids(&list_at(&None, &None, &None, &None, &None, &None, &Some(e.to_string()), false, false, &s, today));
    assert_eq!(d("today"), vec![4]);
    assert_eq!(d("yesterday"), Vec::<u32>::new());
    assert_eq!(d("1970-01-03"), vec![3]);
    assert_eq!(d("1970-01"), vec![2, 3, 1, 4]);
    assert_eq!(d("last-3d"), vec![3, 1, 4]);
    assert_eq!(d("last-2"), vec![1, 4]);
    assert_eq!(d("whenever"), Vec::<u32>::new());
    assert!(handle_checked_at(&None, &None, &None, &None, &None, &None, &Some("today".to_string()), false, false, &s, 200_000_000).is_none());
    assert!(handle_checked_at(&None, &None, &None, &None, &None, &None, &Some("last-9999999999d".to_string()), false, false, &s, today).is_none());
}

#[test]
fn list_rows_show_status_and_tags() {
    let mut s = sample();
    s.pin_note(3);
    s.done_note(3);
    s.done_note(1);
    let all = list_at(&None, &None, &None, &None, &None, &None, &None, false, false, &s, EPOCH_DAY);
    let r = rows(&all, &s);
    assert_eq!(r[0].id, 3);
    assert_eq!(r[0].status, "* [DONE]");
    assert_eq!(r[0].tags, "rust, cli");
    assert_eq!(r[0].priority, "urgent");
    assert_eq!(r[0].created, "1970-01-03 00:00");
    assert_eq!(r[1].tags, "-");
    assert_eq!(r[1].status, "");
    assert_eq!(status_of(&s, 1), "[DONE]");
    assert_eq!(tags_cell(&Vec::new()), "-");
}

#[test]
fn search_modes() {
    assert!(search_plain("Hello World", "world", false));
    assert!(!search_plain("Hello World", "world", true));
    assert!(search_fuzzy("Hello World", "hwd", false));
    assert!(!search_fuzzy("Hello World", "dwh", false));
    assert!(!search_fuzzy("Hello World", "HWD", true));
    assert!(search_fuzzy("Hello World", "HWd", true));
    assert_eq!(search_regex("error: timeout here", "error.*timeout", true), (true, false));
    assert_eq!(search_regex("ERROR x TIMEOUT", "error.*timeout", false), (true, false));
    assert_eq!(search_regex("a (b", "(b", false), (true, true));
    assert_eq!(search_regex("a b", "(c", false), (false, true));
}

#[test]
fn search_finds_notes_by_all_fields() {
    let s = sample();
    let files: Vec<Option<String>> = vec![
        Some("---\n{}\n---\nalpha body".to_string()),
        Some("---\n{}\n---\ngamma body".to_string()),
        None,
        Some("---\n{}\n---\neps body".to_string()),
    ];
    let r = search("rust", &None, false, &s, &files, 50);
    assert_eq!(r.rows.iter().map(|x| x.id).collect::<Vec<_>>(), vec![1, 3]);
    assert!(!r.pattern_refused);
    let r = search("body", &None, false, &s, &files, 2);
    assert_eq!(r.rows.iter().map(|x| x.id).collect::<Vec<_>>(), vec![1, 2]);
    let r = search("[", &Some("regex".to_string()), false, &s, &files, 50);
    assert!(r.pattern_refused);
    assert!(r.rows.is_empty());
    let r = search("HOME", &None, true, &s, &files, 50);
    assert!(r.rows.is_empty());
    let r = search("gmb", &Some("fuzzy".to_string()), false, &s, &files, 50);
    assert_eq!(r.rows.iter().map(|x| x.id).collect::<Vec<_>>(), vec![2]);
    assert_eq!(r.rows[0].context, "gamma body");
    assert_eq!(r.rows[0].modified, "1970-01-02 00:00");
}

#[test]
fn highlight_snippets() {
    assert_eq!(highlight_match("", "x", SearchMode::Plain, false), "-");
    assert_eq!(highlight_match("\nsecond", "x", SearchMode::Plain, false), "-");
    assert_eq!(highlight_match("short line\r\nmore", "line", SearchMode::Plain, false), "short line");
    let long = "0123456789012345678901234567890123456789ABCDEFGH";
    assert_eq!(highlight_match(long, "zzz", SearchMode::Plain, false), "0123456789012345678901234567890123456789…");
    let text = "aaaaaaaaaaaaaaaaaaaa KEYWORD bbbbbbbbbbbbbbbbbbbbbbbbbbbbbbb";
    assert_eq!(highlight_match(text, "keyword", SearchMode::Plain, false), format!("…aaaa KEYWORD {}…", "b".repeat(19)));
    assert_eq!(highlight_match(text, "k.y", SearchMode::Regex, true), format!("…aaaa KEYWORD {}…", "b".repeat(15)));
    assert_eq!(highlight_match(text, "kxx", SearchMode::Fuzzy, false), format!("…aaaa KEYWORD {}…", "b".repeat(15)));
}

#[test]
fn import_format_and_sections() {
    assert_eq!(detect_format("  [1,2]"), ImportFormat::Json);
    assert_eq!(detect_format("{\"a\":1}"), ImportFormat::Json);
    assert_eq!(detect_format("# Title\ntext"), ImportFormat::Markdown);
    assert_eq!(detect_format("intro\n# Title"), ImportFormat::Markdown);
    assert_eq!(detect_format("plain\ntext"), ImportFormat::PlainText);
    assert_eq!(sections("a\n---\nb\n---\nc", ImportFormat::PlainText), vec!["a", "b", "c"]);
    assert_eq!(sections("## One\nx\n## Two\ny", ImportFormat::Markdown), vec!["## One\nx", "Two\ny"]);
    assert_eq!(sections("# Only\nbody", ImportFormat::Markdown), vec!["# Only\nbody"]);
}

#[test]
fn import_title_and_content() {
    assert_eq!(extract_title_and_content("## Head \n  body text  ", 0, 2, "f"), ("Head".to_string(), "body text".to_string()));
    assert_eq!(extract_title_and_content("just one line", 0, 1, "file"), ("file".to_string(), "just one line".to_string()));
    assert_eq!(extract_title_and_content("just one line", 1, 3, "file"), ("just one line".to_string(), String::new()));
}

#[test]
fn import_section_and_json_notes() {
    let mut s = DataBaseStorage::new("n".to_string(), "i".to_string());
    assert!(section_note_at("  \n ", 0, 2, "f", &None, &None, &mut s, at(0)).is_none());
    let n = section_note_at("# Title\nBody", 0, 2, "f", &None, &Some(vec!["t".to_string()]), &mut s, at(7)).unwrap();
    assert_eq!(n.index.title, "Title");
    assert_eq!(n.content, "Body");
    assert_eq!(n.index.category.name, "default");
    assert_eq!(n.index.priority, Priority::Normal);
    assert_eq!(n.index.tags[0].name, "t");
    s.add_note(n);
    let entry = ImportEntry { title: Some("Title".to_string()), content: None, category: None, priority: Some("High".to_string()), tags: vec![] };
    let n = json_entry_note_at(&entry, &Some("imported".to_string()), &Some(vec!["d".to_string()]), &mut s, at(8));
    assert_eq!(n.index.id, 2);
    assert_eq!(n.index.title, "Title_1");
    assert_eq!(n.content, "");
    assert_eq!(n.index.category.name, "imported");
    assert_eq!(n.index.priority, Priority::High);
    assert_eq!(n.index.tags[0].name, "d");
    let entry = ImportEntry { title: None, content: Some("c".to_string()), category: Some("x".to_string()), priority: None, tags: vec!["own".to_string()] };
    let n = json_entry_note_at(&entry, &None, &Some(vec!["d".to_string()]), &mut s, at(8));
    assert_eq!(n.index.title, "未命名");
    assert_eq!(n.index.category.name, "x");
    assert_eq!(n.index.tags[0].name, "own");
}

#[test]
fn export_filters_dates_by_modification_day() {
    let mut s = sample();
    if let Some(n) = s.get_note_index_mut(2) {
        n.modified = at(7 * DAY);
    }
    let files: Vec<Option<String>> = vec![Some("---\n{}\n---\nx".to_string()); 4];
    let today = EPOCH_DAY + 7;
    let by = |expr: &str| {
        collect_notes_at(&None, &None, &None, &None, &Some(expr.to_string()), &s, &files, today)
            .notes
            .iter()
            .map(|n| n.index.id)
            .collect::<Vec<_>>()
    };
    assert_eq!(by("today"), vec![2]);
    assert_eq!(by("1970-01-02"), Vec::<u32>::new());
    assert_eq!(by("1970-01-04"), vec![1]);
    assert_eq!(by("last-3d"), vec![2, 4]);
    assert_eq!(by("1970-01"), Vec::<u32>::new());
}

#[test]
fn json_export_reads_back_on_import() {
    let s = sample();
    let files: Vec<Option<String>> = vec![Some("---\n{}\n---\nthe body".to_string()); 4];
    let c = collect_notes_at(&Some(vec!["3".to_string()]), &None, &None, &None, &None, &s, &files, EPOCH_DAY);
    let j = json_note(&c.notes[0]);
    let entry = ImportEntry {
        title: Some(j.title.clone()),
        content: Some(j.content.clone()),
        category: Some(j.category.clone()),
        priority: Some(j.priority.clone()),
        tags: j.tags.clone(),
    };
    let mut fresh = DataBaseStorage::new("notes".to_string(), "index.json".to_string());
    let n = json_entry_note_at(&entry, &None, &None, &mut fresh, at(9 * DAY));
    assert_eq!(n.index.title, "gamma");
    assert_eq!(n.content, "the body");
    assert_eq!(n.index.category.name, "work");
    assert_eq!(n.index.tags.iter().map(|t| t.name.clone()).collect::<Vec<_>>(), vec!["rust", "cli"]);
    assert_eq!(n.index.priority, Priority::Urgent);
}

#[test]
fn export_collects_and_formats() {
    let s = sample();
    let files: Vec<Option<String>> = vec![
        Some("---\n{}\n---\nalpha body".to_string()),
        Some("---\n{}\n---\ngamma body".to_string()),
        None,
        Some("---\n{}\n---\neps \"q\"\nline2".to_string()),
    ];
    let c = collect_notes_at(&None, &None, &Some("work".to_string()), &None, &None, &s, &files, EPOCH_DAY);
    assert_eq!(c.notes.iter().map(|n| n.index.id).collect::<Vec<_>>(), vec![1, 4]);
    assert_eq!(c.skipped, vec![3]);
    let c = collect_notes_at(&Some(vec!["2".to_string(), "4".to_string()]), &None, &None, &None, &None, &s, &files, EPOCH_DAY);
    assert_eq!(c.notes.iter().map(|n| n.index.id).collect::<Vec<_>>(), vec![2, 4]);
    let c = collect_notes_at(&Some(vec!["2".to_string()]), &Some(vec![1]), &None, &None, &None, &s, &files, EPOCH_DAY);
    assert_eq!(c.notes.iter().map(|n| n.index.id).collect::<Vec<_>>(), vec![1]);
    let c4 = collect_notes_at(&Some(vec!["4".to_string()]), &None, &None, &None, &None, &s, &files, EPOCH_DAY);
    let csv = export_csv_text(&c4.notes);
    assert_eq!(
        csv,
        "ID,标题,分类,标签,优先级,创建时间,修改时间,内容\n4,\"delta\",\"work\",\"cli\",normal,1970-01-06 00:00,1970-01-06 00:00,\"eps \"\"q\"\"\\nline2\"\n"
    );
    let note: &ExportNote = &c4.notes[0];
    assert_eq!(
        export_markdown_text(note),
        "# delta\n\n> ID: 4 | 分类: work | 优先级: normal\n> 创建: 1970-01-06 00:00 | 修改: 1970-01-06 00:00\n\n标签: `cli`\n\neps \"q\"\nline2\n"
    );
    let j = json_note(note);
    assert_eq!((j.id, j.title.as_str(), j.category.as_str(), j.priority.as_str()), (4, "delta", "work", "normal"));
    assert_eq!(j.tags, vec!["cli"]);
    assert_eq!(txt_file_name("a:b?"), "a_b_.txt");
    assert_eq!(replace_char_str("a\"b", '"', "\"\""), "a\"\"b");
}

#[test]
fn show_and_raw_lines() {
    let s = sample();
    assert!(matches!(show(&None, Some("x"), &s), Err(ShowError::MissingId)));
    assert!(matches!(show(&Some(9), Some("x"), &s), Err(ShowError::NotFound)));
    assert!(matches!(show(&Some(1), None, &s), Err(ShowError::NotFound)));
    let n = show(&Some(3), Some("---\n{}\n---\n\n delta body \n"), &s).unwrap();
    assert_eq!(n.content, "delta body");
    assert_eq!(
        raw_lines(&n),
        vec!["标题: gamma", "ID: 3", "分类: work", "优先级: Urgent", "创建: 1970-01-03 00:00", "修改: 1970-01-03 00:00", "标签: rust, cli", "---", "delta body"]
    );
}

#[test]
fn stats_counts() {
    let mut s = sample();
    assert!(stats(&DataBaseStorage::new(String::new(), String::new())).is_none());
    s.pin_note(1);
    s.archive_note(2);
    s.archive_note(77);
    let st = stats(&s).unwrap();
    assert_eq!((st.total, st.pinned, st.archived), (4, 1, 2));
    assert_eq!((st.low, st.normal, st.high, st.urgent), (1, 1, 1, 1));
    assert_eq!((st.categories, st.tags), (2, 2));
    assert_eq!(st.by_category.iter().map(|r| (r.name.clone(), r.count)).collect::<Vec<_>>(), vec![("work".to_string(), 3), ("home".to_string(), 1)]);
    assert_eq!(st.by_tag.iter().map(|r| (r.name.clone(), r.count)).collect::<Vec<_>>(), vec![("rust".to_string(), 2), ("cli".to_string(), 2)]);
}

#[test]
fn timeline_by_day_and_week() {
    let s = sample();
    // 1970-01-05 was a Monday; day 5 after the epoch is 1970-01-06.
    let today = EPOCH_DAY + 5;
    let v = log_at(false, &None, &s, today).unwrap();
    assert_eq!(ids(&v), vec![4]);
    let v = log_at(true, &None, &s, today).unwrap();
    assert_eq!(ids(&v), vec![4]);
    let v = log_at(true, &None, &s, EPOCH_DAY + 4).unwrap();
    assert_eq!(ids(&v), vec![4]);
    let v = log_at(false, &Some("1970-01-02".to_string()), &s, today).unwrap();
    assert_eq!(ids(&v), vec![2]);
    assert!(matches!(log_at(false, &Some("bad".to_string()), &s, today), Err(LogError::BadDate)));
}

#[test]
fn category_and_tag_commands() {
    let mut s = sample();
    let rows = category::list(&s);
    assert_eq!(rows.iter().map(|r| (r.id, r.name.clone(), r.count)).collect::<Vec<_>>(), vec![(1, "work".to_string(), 3), (2, "home".to_string(), 1)]);
    assert!(matches!(category::rename_at(&None, &None, &mut s, at(0)), Err(CatalogError::MissingOldName)));
    assert!(matches!(category::rename_at(&Some("a".to_string()), &None, &mut s, at(0)), Err(CatalogError::MissingNewName)));
    assert!(matches!(category::rename_at(&Some("nope".to_string()), &Some("b".to_string()), &mut s, at(0)), Err(CatalogError::NotFound)));
    assert_eq!(category::rename_at(&Some("home".to_string()), &Some("house".to_string()), &mut s, at(0)).unwrap(), vec![2]);
    match category::delete_at("work", false, true, &mut s, at(0)) {
        Ok(CategoryDeletion::Confirm { count, keep }) => assert_eq!((count, keep), (3, true)),
        _ => panic!("expected a confirmation"),
    }
    match category::delete_at("work", true, false, &mut s, at(0)) {
        Ok(CategoryDeletion::Deleted { count, ids }) => assert_eq!((count, ids), (3, vec![1, 3, 4])),
        _ => panic!("expected a deletion"),
    }
    assert!(matches!(category::delete_at("work", true, false, &mut s, at(0)), Err(CatalogError::NotFound)));
    let trows = tag::list(&s);
    assert_eq!(trows.iter().map(|r| (r.name.clone(), r.count)).collect::<Vec<_>>(), vec![("rust".to_string(), 2), ("cli".to_string(), 2)]);
    assert_eq!(tag::rename_at(&Some("cli".to_string()), &Some("shell".to_string()), &mut s, at(0)).unwrap(), vec![3, 4]);
    assert!(matches!(tag::delete("rust", false, &mut s), Ok(TagDeletion::Confirm { count: 2 })));
    assert!(matches!(tag::delete("rust", true, &mut s), Ok(TagDeletion::Deleted)));
    assert!(matches!(tag::delete("rust", true, &mut s), Err(CatalogError::NotFound)));
}

#[test]
fn sections_join_back_to_the_file() {
    let raw = "first\n---\nsecond\n---\n\n---\nlast";
    let parts = sections(raw, ImportFormat::PlainText);
    assert_eq!(parts.len(), 4);
    assert_eq!(parts.join("\n---\n"), raw);
    let md = "## A\nx\n## B\ny";
    assert_eq!(sections(md, ImportFormat::Markdown).join("\n## "), md);
}

#[test]
fn batch_delete_selects_by_tag_and_category() {
    let mut s = sample();
    s.archive_note(3);
    let t = |v: &[&str]| Some(v.iter().map(|x| x.to_string()).collect::<Vec<_>>());
    let (ids, held) = notecli::handle::delete::batch_targets(&t(&["rust"]), &None, &s);
    assert_eq!((ids, held), (vec![1], vec![3]));
    let (ids, held) = notecli::handle::delete::batch_targets(&None, &Some("work".to_string()), &s);
    assert_eq!((ids, held), (vec![1, 4], vec![3]));
    let (ids, _) = notecli::handle::delete::batch_targets(&t(&["cli"]), &Some("work".to_string()), &s);
    assert_eq!(ids, vec![4]);
    let (ids, held) = notecli::handle::delete::batch_targets(&None, &None, &s);
    assert!(ids.is_empty() && held.is_empty());
}
