use chrono::{Datelike, TimeZone};
use notecli::input::{category_answer, delete_target, priority_answer, tags_answer, DeleteTarget};
use notecli::config::{default_config_path, Config};
use notecli::handle::config::{get, load_or_default};
use notecli::input::{category_choice_list, category_default_position, edit_prompt, note_label, priority_position, selectable_notes, tag_defaults};
use notecli::model::{parse_priority, priority_name, NoteIndexModel, Priority};
use notecli::notefile::{extract_body, extract_frontmatter, note_file_name, note_file_text, sanitize_filename};
use notecli::numeric::{dec_string, parse_bool_str, parse_i64, parse_usize};
use notecli::output::{Output, TableColor};
use notecli::storage::DataBaseStorage;
use notecli::text::{find_str, join_strings, split_str, trim_str};
use notecli::theme::{Color, Style, Theme};
use notecli::time::{date_expr_ok, local_day_of, match_date, match_date_checked, parse_last_days, parse_ymd, format_minutes, Timestamp};

fn ts(secs: i64, offset: i32) -> Timestamp {
    Timestamp { secs, nanos: 0, offset }
}

#[test]
fn text_basics() {
    assert_eq!(trim_str(" \u{3000}x y\n"), "x y");
    assert_eq!(find_str("abcabc", "ca"), Some(2));
    assert_eq!(find_str("abc", "x"), None);
    assert_eq!(split_str("a,b,,c", ","), vec!["a", "b", "", "c"]);
    assert_eq!(join_strings(&vec!["a".to_string(), "b".to_string()], ", "), "a, b");
    assert_eq!(join_strings(&Vec::new(), ", "), "");
}

#[test]
fn numbers() {
    assert_eq!(dec_string(0), "0");
    assert_eq!(dec_string(4294967295), "4294967295");
    assert_eq!(parse_usize("42"), Some(42));
    assert_eq!(parse_usize("+7"), Some(7));
    assert_eq!(parse_usize("x1"), None);
    assert_eq!(parse_i64("-12"), Some(-12));
    assert_eq!(parse_i64("9223372036854775808"), None);
    assert_eq!(parse_bool_str("true"), Some(true));
    assert_eq!(parse_bool_str("True"), None);
}

#[test]
fn priorities() {
    assert_eq!(parse_priority("HIGH"), Priority::High);
    assert_eq!(parse_priority("Low"), Priority::Low);
    assert_eq!(parse_priority("whatever"), Priority::Normal);
    assert_eq!(priority_name(Priority::Urgent), "urgent");
    assert_eq!(priority_position(Priority::High), 2);
}

#[test]
fn file_names_are_sanitized() {
    assert_eq!(sanitize_filename("a/b\\c:d*e?f\"g<h>i|j"), "a_b_c_d_e_f_g_h_i_j");
    assert_eq!(sanitize_filename(" ..title.. "), "title");
    assert_eq!(sanitize_filename(" . . "), "untitled");
    assert_eq!(sanitize_filename(&sanitize_filename("x?.")), sanitize_filename("x?."));
    assert_eq!(note_file_name("plan: v2"), "plan_ v2.md");
}

#[test]
fn note_file_round_trip() {
    let front = "{\"id\":1,\"title\":\"t\"}";
    let text = note_file_text(front, "  body\nline  ");
    assert_eq!(text, "---\n{\"id\":1,\"title\":\"t\"}\n---\n  body\nline  ");
    assert_eq!(extract_frontmatter(&text), Some(front.to_string()));
    assert_eq!(extract_body(&text), "body\nline");
    assert_eq!(extract_body("no front matter"), "no front matter");
    assert_eq!(extract_body("---\nunclosed"), "");
    assert_eq!(extract_frontmatter("---\n---\nx"), Some(String::new()));
    assert_eq!(extract_frontmatter("plain"), None);
}

#[test]
fn local_days_agree_with_chrono() {
    for &(secs, offset) in &[(0i64, 0i32), (1_700_000_000, 8 * 3600), (1_700_000_000, -11 * 3600), (-1, 0), (-86_401, 3600), (253_402_300_799, 0)] {
        let d = chrono::FixedOffset::east_opt(offset).unwrap().timestamp_opt(secs, 0).unwrap().date_naive();
        assert_eq!(local_day_of(&ts(secs, offset)), d.num_days_from_ce() as i64);
    }
    assert_eq!(chrono::NaiveDate::from_num_days_from_ce_opt(1).unwrap().weekday(), chrono::Weekday::Mon);
}

#[test]
fn date_range_matches_chrono() {
    let min = chrono::NaiveDate::MIN.num_days_from_ce() as i64;
    let max = chrono::NaiveDate::MAX.num_days_from_ce() as i64;
    assert!(date_expr_ok("today", min));
    assert!(!date_expr_ok("today", min - 1));
    assert!(date_expr_ok("today", max));
    assert!(!date_expr_ok("today", max + 1));
    assert!(!date_expr_ok("yesterday", min));
    assert!(date_expr_ok("last-5d", min + 5));
    assert!(!date_expr_ok("last-5d", min + 4));
    assert!(date_expr_ok("nonsense", 700_000));
}

#[test]
fn dates() {
    assert_eq!(parse_ymd("1970-01-02"), Some(719_164));
    assert_eq!(parse_ymd("1970-13-02"), None);
    assert_eq!(parse_last_days("last-30d"), Some(30));
    assert_eq!(parse_last_days("last-7dd"), Some(7));
    assert_eq!(parse_last_days("past-7d"), None);
    let today = 738_000;
    assert!(match_date(today, "today", today));
    assert!(match_date(today - 1, "yesterday", today));
    assert!(!match_date(today, "yesterday", today));
    assert!(match_date(today - 7, "last-7d", today));
    assert!(!match_date(today - 8, "last-7d", today));
    assert!(!match_date(today + 1, "last-7d", today));
    let jan15 = chrono::NaiveDate::from_ymd_opt(2024, 1, 15).unwrap().num_days_from_ce() as i64;
    assert!(match_date(jan15, "2024-01-15", today));
    assert!(match_date(jan15 + 16, "2024-01", today));
    assert!(!match_date(jan15 + 17, "2024-01", today));
    assert_eq!(match_date_checked(0, "today", i64::MAX), None);
    assert_eq!(match_date_checked(5, "today", 5), Some(true));
}

#[test]
fn times_are_formatted_in_their_zone() {
    assert_eq!(format_minutes(&ts(0, 0)), "1970-01-01 00:00");
    assert_eq!(format_minutes(&ts(1_705_329_000, 8 * 3600)), "2024-01-15 22:30");
}

#[test]
fn config_get_and_set() {
    let mut cfg = Config::default();
    assert_eq!(default_config_path(), "./.notecli/config.toml");
    assert_eq!(get("general.default_priority", &cfg), Ok("general.default_priority = normal".to_string()));
    assert_eq!(get("display.title_max_width", &cfg), Ok("display.title_max_width = 50".to_string()));
    assert_eq!(
        get("general", &cfg),
        Err("未知的配置项 'general', 格式为 'section.field'（如 general.default_editor）".to_string())
    );
    assert_eq!(notecli::handle::config::set("general.default_priority", "high", &mut cfg), Ok("general.default_priority = high".to_string()));
    assert_eq!(cfg.get_value("general.default_priority"), Some("high".to_string()));
    assert_eq!(notecli::handle::config::set("general.default_priority", "top", &mut cfg), Err("'top' 不是有效值，可选: low, normal, high, urgent".to_string()));
    assert_eq!(notecli::handle::config::set("display.color", "yes", &mut cfg), Err("'yes' 不是有效的布尔值".to_string()));
    assert_eq!(notecli::handle::config::set("search.max_results", "0", &mut cfg), Err("'0' 不是有效的正整数".to_string()));
    assert_eq!(notecli::handle::config::set("display.table_style", "fancy", &mut cfg), Err("'fancy' 不是有效值，可选: compact, expanded, markdown".to_string()));
    assert_eq!(notecli::handle::config::set("nope.x", "1", &mut cfg), Err("未知的配置段 'nope'".to_string()));
    assert_eq!(notecli::handle::config::set("theme.nope", "1", &mut cfg), Err("未知的配置项 'theme.nope'".to_string()));
    assert_eq!(notecli::handle::config::set("a.b.c", "1", &mut cfg), Err("无效的配置键 'a.b.c', 格式应为 'section.field'".to_string()));
    assert!(notecli::handle::config::set("search.max_results", "7", &mut cfg).is_ok());
    assert_eq!(cfg.search.max_results, 7);
    let entries = cfg.all_entries();
    assert_eq!(entries[0], ("general.default_editor", "vim".to_string()));
    assert!(entries.iter().all(|(k, v)| cfg.get_value(k) == Some(v.clone())));
    let loaded = load_or_default(None);
    assert_eq!(loaded.general.default_priority, "normal");
    assert_eq!(load_or_default(Some(cfg)).search.max_results, 7);
}

#[test]
fn styles_and_output() {
    assert_eq!(Style::parse("cyan bold"), Style { fg: Some(Color::Cyan), bold: true, underline: false });
    assert_eq!(Style::parse(" red   dark_gray underline sparkle"), Style { fg: Some(Color::BrightBlack), bold: false, underline: true });
    assert_eq!(Style::parse(""), Style::default());
    let theme = Theme::from_config(&notecli::config::default_theme(), false);
    assert_eq!(theme.priority_high, Style { fg: Some(Color::Yellow), bold: true, underline: false });
    let out = Output::new(theme.clone());
    assert_eq!(*out.priority_style("urgent"), Style { fg: Some(Color::Red), bold: true, underline: false });
    assert_eq!(*out.priority_style("other"), out.theme().priority_normal);
    assert_eq!(out.style_color(&out.theme().date), TableColor::DarkGrey);
    let plain = Output::new(Theme::from_config(&notecli::config::default_theme(), true));
    assert_eq!(plain.style_color(&plain.theme().date), TableColor::Reset);
    assert_eq!(plain.styled(&plain.theme().title), Style::default());
}

#[test]
fn prompt_helpers() {
    let mut s = DataBaseStorage::new(String::new(), String::new());
    let g = notecli::config::default_general();
    for (c, t) in [("a", "work"), ("b", "home")] {
        let n = notecli::handle::add::handle_at(c, &Some(c.to_uppercase()), &Some(t.to_string()), &Some(vec!["x".to_string()]), &None, &g, &mut s, ts(0, 0)).unwrap();
        s.add_note(n);
    }
    s.archive_note(1);
    let sel = selectable_notes(&s);
    assert_eq!(sel, vec![(2, "[2] B (home)".to_string())]);
    let n: &NoteIndexModel = s.get_note_index(1).unwrap();
    assert_eq!(note_label(n), "[1] A (work)");
    assert_eq!(edit_prompt(n), "选择要编辑的字段 (当前: A / work / x / Normal)");
    let choices = category_choice_list(&s);
    assert_eq!(choices, vec!["work", "home", "+ 新建分类"]);
    assert_eq!(category_default_position(&choices, "home"), 1);
    assert_eq!(category_default_position(&choices, "nowhere"), 0);
    assert_eq!(tag_defaults(s.list_tags(), n), vec![true]);
}

#[test]
fn clock_commands_run() {
    let mut s = DataBaseStorage::new(String::new(), String::new());
    let g = notecli::config::default_general();
    let n = notecli::handle::add::handle("from the clock", &None, &None, &None, &None, &g, &mut s).unwrap();
    assert_eq!(n.index.created, n.index.modified);
    let now = chrono::Local::now().timestamp();
    assert!((n.index.created.secs - now).abs() < 600);
    s.add_note(n);
    let listed = notecli::handle::list::handle(&None, &None, &None, &None, &None, &None, &Some("today".to_string()), false, false, &s).unwrap();
    assert_eq!(listed.len(), 1);
    assert_eq!(notecli::handle::log::handle(false, &None, &s).unwrap().len(), 1);
}

#[test]
fn config_set_leaves_other_keys() {
    let mut cfg = Config::default();
    let before = cfg.all_entries();
    assert!(notecli::handle::config::set("general.default_priority", "high", &mut cfg).is_ok());
    for (k, v) in before.iter() {
        if *k != "general.default_priority" {
            assert_eq!(cfg.get_value(k), Some(v.clone()));
        }
    }
    assert_eq!(cfg.get_value("general.nope"), None);
    assert_eq!(cfg.get_value("theme.title.x"), None);
    assert_eq!(cfg.get_value("default_priority"), None);
}

#[test]
fn styles_compose_over_a_blank() {
    let a = "red bold";
    let b = "underline blue";
    assert_eq!(
        Style::parse(&format!("{} {}", a, b)),
        Style { fg: Some(Color::Blue), bold: true, underline: true }
    );
    assert_eq!(Style::parse(&format!("{} {}", "green", "bold")), Style { fg: Some(Color::Green), bold: true, underline: false });
    assert_eq!(Style::parse(&format!("{} {}", "cyan", "")), Style::parse("cyan"));
}

#[test]
fn day_expressions_have_no_month_form() {
    let jan15 = chrono::NaiveDate::from_ymd_opt(2024, 1, 15).unwrap().num_days_from_ce() as i64;
    assert!(notecli::time::match_day(jan15, "2024-01-15", jan15));
    assert!(!notecli::time::match_day(jan15, "2024-01", jan15));
    assert!(notecli::time::match_day(jan15 - 2, "last-2d", jan15));
    assert!(notecli::time::day_expr_ok("2024-01", jan15));
    assert!(parse_priority("normal") == Priority::Normal && parse_priority("urgent") == Priority::Urgent);
}

#[test]
fn prompt_answers_map_to_fields() {
    let tags = vec!["rust".to_string(), "cli".to_string()];
    let cats = vec!["work".to_string()];
    assert!(matches!(delete_target(0, Some(4), &tags, &cats, None), DeleteTarget::ById(4)));
    assert!(matches!(delete_target(0, None, &tags, &cats, None), DeleteTarget::Cancelled));
    match delete_target(1, None, &tags, &cats, Some(1)) {
        DeleteTarget::ByTag(v) => assert_eq!(v, vec!["cli".to_string()]),
        _ => panic!("expected a tag target"),
    }
    match delete_target(2, None, &tags, &cats, Some(0)) {
        DeleteTarget::ByCategory(c) => assert_eq!(c, "work"),
        _ => panic!("expected a category target"),
    }
    assert!(matches!(delete_target(2, None, &tags, &cats, Some(3)), DeleteTarget::Cancelled));
    assert!(matches!(delete_target(7, None, &tags, &cats, Some(0)), DeleteTarget::Cancelled));
    let choices = vec!["work".to_string(), "home".to_string(), "+ 新建分类".to_string()];
    assert_eq!(category_answer(&choices, 1, None), Some("home".to_string()));
    assert_eq!(category_answer(&choices, 2, Some("ideas".to_string())), Some("ideas".to_string()));
    assert_eq!(tags_answer(&tags, &vec![1, 0], Some("  ".to_string())), vec!["cli", "rust"]);
    assert_eq!(tags_answer(&tags, &vec![0], Some("new".to_string())), vec!["rust", "new"]);
    assert_eq!(priority_answer(2), "high");
}
