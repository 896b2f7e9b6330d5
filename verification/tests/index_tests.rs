use notecli::config::default_general;
use notecli::handle::add::{handle_at as add_at, resolve_duplicate_title, AddError};
use notecli::handle::archive::{archive, unarchive};
use notecli::handle::delete::{handle as delete_plan, DeleteError, DeletePlan};
use notecli::handle::done::handle as mark_done;
use notecli::handle::edit::{handle_at as edit_at, EditError};
use notecli::handle::pin::{pin, unpin, Outcome};
use notecli::model::{NoteIndexModel, Priority};
use notecli::storage::DataBaseStorage;
use notecli::time::Timestamp;

fn at(secs: i64) -> Timestamp {
    Timestamp { secs, nanos: 0, offset: 0 }
}

fn empty() -> DataBaseStorage {
    DataBaseStorage::new("notes".to_string(), "index.json".to_string())
}

fn add(s: &mut DataBaseStorage, content: &str, title: Option<&str>, category: Option<&str>, tags: &[&str], secs: i64) -> u32 {
    let tags = if tags.is_empty() { None } else { Some(tags.iter().map(|t| t.to_string()).collect()) };
    let note = add_at(
        content,
        &title.map(|t| t.to_string()),
        &category.map(|c| c.to_string()),
        &tags,
        &None,
        &default_general(),
        s,
        at(secs),
    )
    .unwrap();
    let id = note.index.id;
    s.add_note(note);
    id
}

fn titles(s: &DataBaseStorage) -> Vec<String> {
    s.list_notes().iter().map(|n| n.title.clone()).collect()
}

#[test]
fn add_gives_increasing_ids_and_default_fields() {
    let mut s = empty();
    let a = add(&mut s, "first note", None, None, &[], 100);
    let b = add(&mut s, "second note", None, Some("work"), &["x", "y"], 200);
    assert_eq!((a, b), (1, 2));
    let n = s.get_note_index(2).unwrap();
    assert_eq!(n.title, "second note");
    assert_eq!(n.category.name, "work");
    assert_eq!(n.priority, Priority::Normal);
    assert_eq!(n.created, n.modified);
    assert_eq!(n.tags.iter().map(|t| t.name.as_str()).collect::<Vec<_>>(), vec!["x", "y"]);
    let first = s.get_note_index(1).unwrap();
    assert_eq!(first.category.name, "default");
}

#[test]
fn add_refuses_blank_content() {
    let mut s = empty();
    let r = add_at("  \n\t ", &None, &None, &None, &None, &default_general(), &mut s, at(0));
    assert!(matches!(r, Err(AddError::EmptyContent)));
    assert_eq!(s.note_count(), 0);
    assert!(s.list_categories().is_empty());
}

#[test]
fn add_title_is_first_twenty_characters() {
    let mut s = empty();
    add(&mut s, "一二三四五六七八九十abcdefghijKLMN", None, None, &[], 0);
    assert_eq!(titles(&s), vec!["一二三四五六七八九十abcdefghij"]);
}

#[test]
fn add_priority_parses_any_case() {
    let mut s = empty();
    let n = add_at("c", &None, &None, &None, &Some("URGENT".to_string()), &default_general(), &mut s, at(0)).unwrap();
    assert_eq!(n.index.priority, Priority::Urgent);
    let n = add_at("c", &None, &None, &None, &Some("bogus".to_string()), &default_general(), &mut s, at(0)).unwrap();
    assert_eq!(n.index.priority, Priority::Normal);
}

#[test]
fn duplicate_titles_get_numbered_suffixes() {
    let mut s = empty();
    add(&mut s, "a", Some("plan"), None, &[], 0);
    add(&mut s, "b", Some("plan"), None, &[], 0);
    add(&mut s, "c", Some("plan"), None, &[], 0);
    add(&mut s, "d", Some("plan_1"), None, &[], 0);
    assert_eq!(titles(&s), vec!["plan", "plan_1", "plan_2", "plan_1_1"]);
    assert_eq!(resolve_duplicate_title("plan", &s), "plan_3");
    assert_eq!(resolve_duplicate_title("fresh", &s), "fresh");
}

#[test]
fn categories_and_tags_are_made_once() {
    let mut s = empty();
    add(&mut s, "a", None, Some("work"), &["t1", "t2"], 0);
    add(&mut s, "b", None, Some("work"), &["t2", "t3"], 0);
    let cats: Vec<(u32, String)> = s.list_categories().iter().map(|c| (c.id, c.name.clone())).collect();
    assert_eq!(cats, vec![(1, "work".to_string())]);
    let tags: Vec<(u32, String)> = s.list_tags().iter().map(|t| (t.id, t.name.clone())).collect();
    assert_eq!(tags, vec![(1, "t1".to_string()), (2, "t2".to_string()), (3, "t3".to_string())]);
    let c = s.resolve_category("work");
    assert_eq!(c.id, 1);
    assert_eq!(s.list_categories().len(), 1);
}

#[test]
fn next_id_follows_the_largest_id() {
    let mut s = empty();
    assert_eq!(s.next_note_id(), 1);
    add(&mut s, "a", None, None, &[], 0);
    add(&mut s, "b", None, None, &[], 0);
    add(&mut s, "c", None, None, &[], 0);
    s.delete_note(2).unwrap();
    assert_eq!(s.next_note_id(), 4);
    assert!(!s.id_exists(4));
}

#[test]
fn pin_twice_pins_once_and_unpin_undoes_it() {
    let mut s = empty();
    add(&mut s, "a", None, None, &[], 0);
    assert_eq!(pin(1, &mut s), Outcome::Changed);
    assert_eq!(pin(1, &mut s), Outcome::Unchanged);
    assert_eq!(s.note_status_ref().pinned_notes_id, vec![1]);
    assert_eq!(unpin(1, &mut s), Outcome::Changed);
    assert_eq!(unpin(1, &mut s), Outcome::Unchanged);
    assert!(!s.is_pinned(1));
    assert_eq!(pin(9, &mut s), Outcome::NotFound);
}

#[test]
fn archive_and_unarchive() {
    let mut s = empty();
    add(&mut s, "a", None, None, &[], 0);
    assert_eq!(archive(1, &mut s), Outcome::Changed);
    assert_eq!(archive(1, &mut s), Outcome::Unchanged);
    assert!(s.is_archived(1));
    assert_eq!(unarchive(1, &mut s), Outcome::Changed);
    assert!(!s.is_archived(1));
    assert_eq!(unarchive(2, &mut s), Outcome::NotFound);
}

#[test]
fn done_marks_once() {
    let mut s = empty();
    add(&mut s, "a", None, None, &[], 0);
    assert_eq!(mark_done(1, &mut s), Outcome::Changed);
    assert_eq!(mark_done(1, &mut s), Outcome::Changed);
    assert_eq!(s.note_status_ref().done_notes, vec![1]);
    assert_eq!(mark_done(3, &mut s), Outcome::NotFound);
}

#[test]
fn delete_is_refused_for_archived_and_asks_without_force() {
    let mut s = empty();
    add(&mut s, "a", Some("a/b"), None, &[], 0);
    assert!(matches!(delete_plan(1, false, &s), Ok(DeletePlan::Confirm)));
    match delete_plan(1, true, &s) {
        Ok(DeletePlan::Remove { file }) => assert_eq!(file, "a_b.md"),
        _ => panic!("expected a file to remove"),
    }
    assert!(matches!(delete_plan(7, true, &s), Err(DeleteError::NotFound)));
    archive(1, &mut s);
    assert!(matches!(delete_plan(1, true, &s), Err(DeleteError::Archived)));
}

#[test]
fn delete_note_forgets_the_id_everywhere() {
    let mut s = empty();
    add(&mut s, "a", None, None, &[], 0);
    add(&mut s, "b", None, None, &[], 0);
    s.pin_note(1);
    s.archive_note(1);
    s.done_note(1);
    s.delete_note(1).unwrap();
    assert!(!s.id_exists(1));
    assert!(!s.is_pinned(1) && !s.is_archived(1) && !s.is_done(1));
    assert!(s.id_exists(2));
    s.archive_note(7);
    assert!(s.delete_note(7).is_err());
    assert!(s.is_archived(7));
    assert!(s.id_exists(2));
}

#[test]
fn edit_replaces_fields_and_appends() {
    let mut s = empty();
    add(&mut s, "body", Some("old"), None, &[], 10);
    add(&mut s, "x", Some("taken"), None, &[], 10);
    let raw = "---\n{}\n---\nbody";
    let n = edit_at(
        1,
        &Some("taken".to_string()),
        &Some("new cat".to_string()),
        &Some(vec!["k".to_string()]),
        &Some("high".to_string()),
        &None,
        &Some("more".to_string()),
        Some(raw),
        &mut s,
        at(99),
    )
    .unwrap();
    assert_eq!(n.index.title, "taken_1");
    assert_eq!(n.index.category.name, "new cat");
    assert_eq!(n.index.tags[0].name, "k");
    assert_eq!(n.index.priority, Priority::High);
    assert_eq!(n.content, "body\nmore");
    assert_eq!(n.index.modified, at(99));
    assert_eq!(n.index.created, at(10));
    assert_eq!(n.index.id, 1);
}

#[test]
fn edit_keeps_an_unchanged_title_and_replaces_content() {
    let mut s = empty();
    add(&mut s, "body", Some("same"), None, &[], 10);
    let n = edit_at(1, &Some("same".to_string()), &None, &None, &None, &Some("new".to_string()), &Some("ignored".to_string()), Some("---\n{}\n---\n"), &mut s, at(20)).unwrap();
    assert_eq!(n.index.title, "same");
    assert_eq!(n.content, "new");
    let n = edit_at(1, &None, &None, &None, &None, &None, &Some("first".to_string()), Some("---\n{}\n---\n"), &mut s, at(20)).unwrap();
    assert_eq!(n.content, "first");
}

#[test]
fn edit_errors() {
    let mut s = empty();
    add(&mut s, "body", None, None, &[], 10);
    let r = edit_at(2, &None, &None, &None, &None, &None, &None, Some("x"), &mut s, at(0));
    assert!(matches!(r, Err(EditError::NotFound)));
    let r = edit_at(1, &None, &None, &None, &None, &None, &None, None, &mut s, at(0));
    assert!(matches!(r, Err(EditError::NotFound)));
    s.archive_note(1);
    let r = edit_at(1, &None, &None, &None, &None, &None, &None, Some("x"), &mut s, at(0));
    assert!(matches!(r, Err(EditError::Archived)));
}

#[test]
fn update_plan_and_update_note() {
    let mut s = empty();
    add(&mut s, "body", Some("old: title"), None, &[], 10);
    let mut note = s.get_note(1, "---\n{}\n---\nbody").unwrap();
    assert_eq!(s.update_plan(&note).unwrap(), None);
    note.index.title = "old? title".to_string();
    assert_eq!(s.update_plan(&note).unwrap(), None);
    note.index.title = "new".to_string();
    assert_eq!(s.update_plan(&note).unwrap(), Some("old_ title.md".to_string()));
    s.update_note(note.index).unwrap();
    assert_eq!(titles(&s), vec!["new"]);
    let ghost = NoteIndexModel { id: 5, ..s.get_note_index(1).unwrap().clone() };
    assert!(s.update_note(ghost).is_err());
}

#[test]
fn rename_and_delete_categories() {
    let mut s = empty();
    add(&mut s, "a", None, Some("work"), &[], 0);
    add(&mut s, "b", None, Some("home"), &[], 0);
    let ids = s.rename_category("work", "job", at(50));
    assert_eq!(ids, vec![1]);
    assert_eq!(s.get_note_index(1).unwrap().category.name, "job");
    assert_eq!(s.get_note_index(1).unwrap().modified, at(50));
    assert_eq!(s.get_note_index(2).unwrap().modified, at(0));
    assert!(s.has_category("job") && !s.has_category("work"));
    let kept = s.delete_category_keep_notes("job", at(60));
    assert_eq!(kept, vec![1]);
    let n = s.get_note_index(1).unwrap();
    assert_eq!((n.category.id, n.category.name.as_str(), n.category.parentid), (0, "default", 0));
    let gone = s.delete_category_with_notes("home");
    assert_eq!(gone, vec![2]);
    assert!(!s.has_category("home"));
}

#[test]
fn rename_and_delete_tags() {
    let mut s = empty();
    add(&mut s, "a", None, None, &["x", "y"], 0);
    add(&mut s, "b", None, None, &["y"], 0);
    let ids = s.rename_tag("y", "z", at(9));
    assert_eq!(ids, vec![1, 2]);
    assert_eq!(s.notes_with_tag("y"), Vec::<u32>::new());
    assert_eq!(s.notes_with_tag("z"), vec![1, 2]);
    s.delete_tag("z");
    assert!(!s.has_tag("z"));
    assert_eq!(s.get_note_index(1).unwrap().tags.len(), 1);
    assert_eq!(s.get_note_index(2).unwrap().tags.len(), 0);
}

fn disk_note(id: u32, title: &str, cat: (u32, &str), tags: &[(u32, &str)]) -> NoteIndexModel {
    NoteIndexModel {
        id,
        title: title.to_string(),
        category: notecli::model::CategoryModel { id: cat.0, name: cat.1.to_string(), parentid: 0 },
        tags: tags.iter().map(|t| notecli::model::TagModel { id: t.0, name: t.1.to_string() }).collect(),
        priority: Priority::Low,
        created: at(1),
        modified: at(1),
    }
}

#[test]
fn sync_adds_drops_and_rebuilds() {
    let mut s = empty();
    add(&mut s, "a", Some("kept"), Some("work"), &["x"], 0);
    add(&mut s, "b", Some("lost"), Some("home"), &[], 0);
    s.pin_note(1);
    s.pin_note(2);
    let disk = vec![
        disk_note(1, "kept", (1, "work"), &[(1, "x")]),
        disk_note(7, "found", (5, "misc"), &[(4, "q"), (1, "x")]),
    ];
    let changed = s.sync_notes(&disk);
    assert!(changed);
    let ids: Vec<u32> = s.list_notes().iter().map(|n| n.id).collect();
    assert_eq!(ids, vec![1, 7]);
    assert_eq!(s.note_status_ref().pinned_notes_id, vec![1]);
    let cats: Vec<(u32, String)> = s.list_categories().iter().map(|c| (c.id, c.name.clone())).collect();
    assert_eq!(cats, vec![(1, "work".to_string()), (5, "misc".to_string())]);
    let tags: Vec<(u32, String)> = s.list_tags().iter().map(|t| (t.id, t.name.clone())).collect();
    assert_eq!(tags, vec![(1, "x".to_string()), (4, "q".to_string())]);
    assert!(!s.sync_notes(&disk));
}

#[test]
fn index_entry_can_be_changed_in_place() {
    let mut s = empty();
    add(&mut s, "a", Some("one"), None, &[], 0);
    if let Some(n) = s.get_note_index_mut(1) {
        n.title = "renamed".to_string();
    }
    assert_eq!(titles(&s), vec!["renamed"]);
    assert!(s.get_note_index_mut(8).is_none());
}

#[test]
fn room_checks_follow_the_largest_ids() {
    let mut s = empty();
    assert!(notecli::handle::add::has_room_for_note(&s, (u32::MAX - 1) as usize));
    assert!(!notecli::handle::add::has_room_for_note(&s, u32::MAX as usize));
    add(&mut s, "a", None, Some("work"), &["x", "y"], 0);
    assert!(notecli::handle::add::has_room_for_note(&s, (u32::MAX - 3) as usize));
    assert!(!notecli::handle::add::has_room_for_note(&s, (u32::MAX - 2) as usize));
    let (n, _, t) = s.max_ids();
    assert_eq!((n, t), (1, 2));
    assert!(notecli::handle::edit::has_room_for_edit(&s, &Some("c".to_string()), &Some(vec!["t".to_string()])));
    assert!(notecli::handle::edit::has_room_for_edit(&s, &None, &None));
}
