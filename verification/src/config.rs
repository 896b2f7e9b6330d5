//! The configuration: its sections, their defaults, and reading and writing
//! single values by a `section.field` key.
use vstd::prelude::*;
use crate::numeric::{bool_text, dec, parse_bool, parse_unsigned};
use crate::text::{find, join, lemma_find, lemma_find_from_unique, occurs_at, push_str, split, split_str, str_eq};

verus! {

/// The default place of the configuration file.
pub fn default_config_path() -> (s: String)
    ensures
        s@ == "./.notecli/config.toml"@,
{
    let mut s = String::new();
    push_str(&mut s, "./.notecli/config.toml");
    s
}

/// The whole configuration.
#[derive(Debug)]
pub struct Config {
    pub general: GeneralConfig,
    pub display: DisplayConfig,
    pub storage: StorageConfig,
    pub search: SearchConfig,
    pub theme: ThemeConfig,
}

/// The `[general]` section.
#[derive(Debug)]
pub struct GeneralConfig {
    pub default_editor: String,
    pub default_priority: String,
    pub default_category: String,
    pub language: String,
    pub pager: String,
}

/// The `[display]` section.
#[derive(Debug)]
pub struct DisplayConfig {
    pub color: bool,
    pub date_format: String,
    pub table_style: String,
    pub title_max_width: usize,
}

/// The `[storage]` section; the paths are kept as text.
#[derive(Debug)]
pub struct StorageConfig {
    pub notes_dir: String,
    pub index_file: String,
}

/// The `[search]` section.
#[derive(Debug)]
pub struct SearchConfig {
    pub default_mode: String,
    pub case_sensitive: bool,
    pub max_results: usize,
}

/// The `[theme]` section: one style text per element.
#[derive(Debug)]
pub struct ThemeConfig {
    pub title: String,
    pub id: String,
    pub tag: String,
    pub category: String,
    pub priority_low: String,
    pub priority_normal: String,
    pub priority_high: String,
    pub priority_urgent: String,
    pub separator: String,
    pub date: String,
}

/// A text made of one literal.
fn text(s: &str) -> (r: String)
    ensures
        r@ == s@,
{
    let mut r = String::new();
    push_str(&mut r, s);
    r
}

/// The default of `general.default_editor`.
pub fn default_editor() -> (s: String)
    ensures
        s@ == "vim"@,
{
    text("vim")
}

/// The default of `general.default_priority`.
pub fn default_priority() -> (s: String)
    ensures
        s@ == "normal"@,
{
    text("normal")
}

/// The default of `general.default_category`.
pub fn default_category() -> (s: String)
    ensures
        s@ == "default"@,
{
    text("default")
}

/// The default of `general.language`.
pub fn default_language() -> (s: String)
    ensures
        s@ == "zh-CN"@,
{
    text("zh-CN")
}

/// The default of `general.pager`.
pub fn default_pager() -> (s: String)
    ensures
        s@ == "less"@,
{
    text("less")
}

/// The default of `theme.title`.
pub fn default_theme_title() -> (s: String)
    ensures
        s@ == "cyan bold"@,
{
    text("cyan bold")
}

/// The default of `theme.id`.
pub fn default_theme_id() -> (s: String)
    ensures
        s@ == "yellow"@,
{
    text("yellow")
}

/// The default of `theme.tag`.
pub fn default_theme_tag() -> (s: String)
    ensures
        s@ == "green"@,
{
    text("green")
}

/// The default of `theme.category`.
pub fn default_theme_category() -> (s: String)
    ensures
        s@ == "blue"@,
{
    text("blue")
}

/// The default of `theme.priority_low`.
pub fn default_theme_priority_low() -> (s: String)
    ensures
        s@ == "white"@,
{
    text("white")
}

/// The default of `theme.priority_normal`.
pub fn default_theme_priority_normal() -> (s: String)
    ensures
        s@ == "green"@,
{
    text("green")
}

/// The default of `theme.priority_high`.
pub fn default_theme_priority_high() -> (s: String)
    ensures
        s@ == "yellow bold"@,
{
    text("yellow bold")
}

/// The default of `theme.priority_urgent`.
pub fn default_theme_priority_urgent() -> (s: String)
    ensures
        s@ == "red bold"@,
{
    text("red bold")
}

/// The default of `theme.separator`.
pub fn default_theme_separator() -> (s: String)
    ensures
        s@ == "dark_gray"@,
{
    text("dark_gray")
}

/// The default of `theme.date`.
pub fn default_theme_date() -> (s: String)
    ensures
        s@ == "dark_gray"@,
{
    text("dark_gray")
}

/// The default of `display.date_format`.
pub fn default_date_format() -> (s: String)
    ensures
        s@ == "%Y-%m-%d %H:%M"@,
{
    text("%Y-%m-%d %H:%M")
}

/// The default of `display.table_style`.
pub fn default_table_style() -> (s: String)
    ensures
        s@ == "compact"@,
{
    text("compact")
}

/// The default of `storage.notes_dir`.
pub fn default_notes_dir() -> (s: String)
    ensures
        s@ == "./.notecli/notes"@,
{
    text("./.notecli/notes")
}

/// The default of `storage.index_file`.
pub fn default_index_file() -> (s: String)
    ensures
        s@ == "./.notecli/index.json"@,
{
    text("./.notecli/index.json")
}

/// The default of `search.default_mode`.
pub fn default_search_mode() -> (s: String)
    ensures
        s@ == "plain"@,
{
    text("plain")
}

/// The default of `display.color`.
pub fn default_color() -> (b: bool)
    ensures
        b,
{
    true
}

/// The default of `display.title_max_width`.
pub fn default_title_max_width() -> (n: usize)
    ensures
        n == 50,
{
    50
}

/// The default of `search.case_sensitive`.
pub fn default_case_sensitive() -> (b: bool)
    ensures
        !b,
{
    false
}

/// The default of `search.max_results`.
pub fn default_max_results() -> (n: usize)
    ensures
        n == 50,
{
    50
}

/// Whether `c` holds the default of every `[general]` field.
pub open spec fn is_default_general(c: GeneralConfig) -> bool {
    c.default_editor@ == "vim"@
    && c.default_priority@ == "normal"@
    && c.default_category@ == "default"@
    && c.language@ == "zh-CN"@
    && c.pager@ == "less"@
}

/// Whether `c` holds the default of every `[display]` field.
pub open spec fn is_default_display(c: DisplayConfig) -> bool {
    c.color && c.date_format@ == "%Y-%m-%d %H:%M"@ && c.table_style@ == "compact"@ && c.title_max_width == 50
}

/// Whether `c` holds the default of every `[storage]` field.
pub open spec fn is_default_storage(c: StorageConfig) -> bool {
    c.notes_dir@ == "./.notecli/notes"@ && c.index_file@ == "./.notecli/index.json"@
}

/// Whether `c` holds the default of every `[search]` field.
pub open spec fn is_default_search(c: SearchConfig) -> bool {
    c.default_mode@ == "plain"@ && !c.case_sensitive && c.max_results == 50
}

/// Whether `c` holds the default of every `[theme]` field.
pub open spec fn is_default_theme(c: ThemeConfig) -> bool {
    c.title@ == "cyan bold"@
    && c.id@ == "yellow"@
    && c.tag@ == "green"@
    && c.category@ == "blue"@
    && c.priority_low@ == "white"@
    && c.priority_normal@ == "green"@
    && c.priority_high@ == "yellow bold"@
    && c.priority_urgent@ == "red bold"@
    && c.separator@ == "dark_gray"@
    && c.date@ == "dark_gray"@
}

/// The default `[general]` section.
pub fn default_general() -> (c: GeneralConfig)
    ensures
        is_default_general(c),
{
    GeneralConfig {
        default_editor: default_editor(),
        default_priority: default_priority(),
        default_category: default_category(),
        language: default_language(),
        pager: default_pager(),
    }
}

/// The default `[display]` section.
pub fn default_display() -> (c: DisplayConfig)
    ensures
        is_default_display(c),
{
    DisplayConfig {
        color: default_color(),
        date_format: default_date_format(),
        table_style: default_table_style(),
        title_max_width: default_title_max_width(),
    }
}

/// The default `[storage]` section.
pub fn default_storage() -> (c: StorageConfig)
    ensures
        is_default_storage(c),
{
    StorageConfig { notes_dir: default_notes_dir(), index_file: default_index_file() }
}

/// The default `[search]` section.
pub fn default_search() -> (c: SearchConfig)
    ensures
        is_default_search(c),
{
    SearchConfig {
        default_mode: default_search_mode(),
        case_sensitive: default_case_sensitive(),
        max_results: default_max_results(),
    }
}

/// The default `[theme]` section.
pub fn default_theme() -> (c: ThemeConfig)
    ensures
        is_default_theme(c),
{
    ThemeConfig {
        title: default_theme_title(),
        id: default_theme_id(),
        tag: default_theme_tag(),
        category: default_theme_category(),
        priority_low: default_theme_priority_low(),
        priority_normal: default_theme_priority_normal(),
        priority_high: default_theme_priority_high(),
        priority_urgent: default_theme_priority_urgent(),
        separator: default_theme_separator(),
        date: default_theme_date(),
    }
}

/// Whether every field of `c` holds its default.
pub open spec fn is_default_config(c: Config) -> bool {
    is_default_general(c.general) && is_default_display(c.display) && is_default_storage(c.storage)
        && is_default_search(c.search) && is_default_theme(c.theme)
}

impl Default for Config {
    fn default() -> (c: Self)
        ensures
            is_default_config(c),
    {
        Config {
            general: default_general(),
            display: default_display(),
            storage: default_storage(),
            search: default_search(),
            theme: default_theme(),
        }
    }
}

/// The values that a choice field admits.
#[derive(Clone, Copy, PartialEq, Eq, Debug)]
pub enum Choices {
    Priority,
    SearchMode,
    TableStyle,
}

/// How a field's text is read and written.
#[derive(Clone, Copy, PartialEq, Eq, Debug)]
pub enum FieldKind {
    /// Any text.
    Text,
    /// `true` or `false`.
    Flag,
    /// A positive whole number.
    Count,
    /// One of a fixed list of words.
    Choice(Choices),
}

/// The words a choice admits.
pub open spec fn choice_words(c: Choices) -> Seq<Seq<char>> {
    match c {
        Choices::Priority => seq!["low"@, "normal"@, "high"@, "urgent"@],
        Choices::SearchMode => seq!["plain"@, "regex"@, "fuzzy"@],
        Choices::TableStyle => seq!["compact"@, "expanded"@, "markdown"@],
    }
}

/// The words a choice admits, joined by `, `.
pub open spec fn choice_list(c: Choices) -> Seq<char> {
    match c {
        Choices::Priority => "low, normal, high, urgent"@,
        Choices::SearchMode => "plain, regex, fuzzy"@,
        Choices::TableStyle => "compact, expanded, markdown"@,
    }
}

/// The kind of the field `section.field`, or `None` for an unknown field.
pub open spec fn field_kind(section: Seq<char>, field: Seq<char>) -> Option<FieldKind> {
    if section == "general"@ {
        if field == "default_editor"@ {
            Some(FieldKind::Text)
        } else if field == "default_priority"@ {
            Some(FieldKind::Choice(Choices::Priority))
        } else if field == "default_category"@ {
            Some(FieldKind::Text)
        } else if field == "language"@ {
            Some(FieldKind::Text)
        } else if field == "pager"@ {
            Some(FieldKind::Text)
        } else {
            None
        }
    } else if section == "display"@ {
        if field == "color"@ {
            Some(FieldKind::Flag)
        } else if field == "date_format"@ {
            Some(FieldKind::Text)
        } else if field == "table_style"@ {
            Some(FieldKind::Choice(Choices::TableStyle))
        } else if field == "title_max_width"@ {
            Some(FieldKind::Count)
        } else {
            None
        }
    } else if section == "storage"@ {
        if field == "notes_dir"@ {
            Some(FieldKind::Text)
        } else if field == "index_file"@ {
            Some(FieldKind::Text)
        } else {
            None
        }
    } else if section == "search"@ {
        if field == "default_mode"@ {
            Some(FieldKind::Choice(Choices::SearchMode))
        } else if field == "case_sensitive"@ {
            Some(FieldKind::Flag)
        } else if field == "max_results"@ {
            Some(FieldKind::Count)
        } else {
            None
        }
    } else if section == "theme"@ {
        if field == "title"@ {
            Some(FieldKind::Text)
        } else if field == "id"@ {
            Some(FieldKind::Text)
        } else if field == "tag"@ {
            Some(FieldKind::Text)
        } else if field == "category"@ {
            Some(FieldKind::Text)
        } else if field == "priority_low"@ {
            Some(FieldKind::Text)
        } else if field == "priority_normal"@ {
            Some(FieldKind::Text)
        } else if field == "priority_high"@ {
            Some(FieldKind::Text)
        } else if field == "priority_urgent"@ {
            Some(FieldKind::Text)
        } else if field == "separator"@ {
            Some(FieldKind::Text)
        } else if field == "date"@ {
            Some(FieldKind::Text)
        } else {
            None
        }
    } else {
        None
    }
}

/// The text that `get_value` reports for `section.field`.
pub open spec fn field_value(c: Config, section: Seq<char>, field: Seq<char>) -> Option<Seq<char>> {
    if section == "general"@ {
        if field == "default_editor"@ {
            Some(c.general.default_editor@)
        } else if field == "default_priority"@ {
            Some(c.general.default_priority@)
        } else if field == "default_category"@ {
            Some(c.general.default_category@)
        } else if field == "language"@ {
            Some(c.general.language@)
        } else if field == "pager"@ {
            Some(c.general.pager@)
        } else {
            None
        }
    } else if section == "display"@ {
        if field == "color"@ {
            Some(bool_text(c.display.color))
        } else if field == "date_format"@ {
            Some(c.display.date_format@)
        } else if field == "table_style"@ {
            Some(c.display.table_style@)
        } else if field == "title_max_width"@ {
            Some(dec(c.display.title_max_width as nat))
        } else {
            None
        }
    } else if section == "storage"@ {
        if field == "notes_dir"@ {
            Some(c.storage.notes_dir@)
        } else if field == "index_file"@ {
            Some(c.storage.index_file@)
        } else {
            None
        }
    } else if section == "search"@ {
        if field == "default_mode"@ {
            Some(c.search.default_mode@)
        } else if field == "case_sensitive"@ {
            Some(bool_text(c.search.case_sensitive))
        } else if field == "max_results"@ {
            Some(dec(c.search.max_results as nat))
        } else {
            None
        }
    } else if section == "theme"@ {
        if field == "title"@ {
            Some(c.theme.title@)
        } else if field == "id"@ {
            Some(c.theme.id@)
        } else if field == "tag"@ {
            Some(c.theme.tag@)
        } else if field == "category"@ {
            Some(c.theme.category@)
        } else if field == "priority_low"@ {
            Some(c.theme.priority_low@)
        } else if field == "priority_normal"@ {
            Some(c.theme.priority_normal@)
        } else if field == "priority_high"@ {
            Some(c.theme.priority_high@)
        } else if field == "priority_urgent"@ {
            Some(c.theme.priority_urgent@)
        } else if field == "separator"@ {
            Some(c.theme.separator@)
        } else if field == "date"@ {
            Some(c.theme.date@)
        } else {
            None
        }
    } else {
        None
    }
}

/// The pieces of a key around its dots.
pub open spec fn key_parts(key: Seq<char>) -> Seq<Seq<char>> {
    split(key, seq!['.'])
}

/// What `get_value` returns for `key`.
pub open spec fn lookup(c: Config, key: Seq<char>) -> Option<Seq<char>> {
    let parts = key_parts(key);
    if parts.len() == 2 {
        field_value(c, parts[0], parts[1])
    } else {
        None
    }
}

/// Whether `v` is a value the field kind admits.
pub open spec fn value_ok(kind: FieldKind, v: Seq<char>) -> bool {
    match kind {
        FieldKind::Text => true,
        FieldKind::Flag => parse_bool(v) is Some,
        FieldKind::Count => match parse_unsigned(v, usize::MAX as nat) {
            Some(n) => n > 0,
            None => false,
        },
        FieldKind::Choice(c) => choice_words(c).contains(v),
    }
}

/// The text a field reports after it was set to `v`.
pub open spec fn stored_text(kind: FieldKind, v: Seq<char>) -> Seq<char> {
    match kind {
        FieldKind::Flag => bool_text(parse_bool(v)->0),
        FieldKind::Count => dec(parse_unsigned(v, usize::MAX as nat)->0),
        _ => v,
    }
}

/// Whether two keys name the same field.
pub open spec fn same_field(s1: Seq<char>, f1: Seq<char>, s2: Seq<char>, f2: Seq<char>) -> bool {
    s1 == s2 && f1 == f2
}

/// The message `set_value` gives when it refuses `key = value`, or `None`
/// when it accepts it.
pub open spec fn set_refusal(key: Seq<char>, value: Seq<char>) -> Option<Seq<char>> {
    let parts = key_parts(key);
    if parts.len() != 2 {
        Some("无效的配置键 '"@ + key + "', 格式应为 'section.field'"@)
    } else {
        let (section, field) = (parts[0], parts[1]);
        if !(section == "general"@ || section == "display"@ || section == "storage"@ || section
            == "search"@ || section == "theme"@) {
            Some("未知的配置段 '"@ + section + "'"@)
        } else {
            match field_kind(section, field) {
                None => Some("未知的配置项 '"@ + section + "."@ + field + "'"@),
                Some(kind) => if value_ok(kind, value) {
                    None
                } else {
                    Some(
                        match kind {
                            FieldKind::Flag => "'"@ + value + "' 不是有效的布尔值"@,
                            FieldKind::Count => "'"@ + value + "' 不是有效的正整数"@,
                            FieldKind::Choice(c) => "'"@ + value + "' 不是有效值，可选: "@
                                + choice_list(c),
                            FieldKind::Text => Seq::empty(),
                        },
                    )
                },
            }
        }
    }
}

impl Config {
    /// The value of the field that the key `section.field` names, as text.
    pub fn get_value(&self, key: &str) -> (r: Option<String>)
        ensures
            match r {
                Some(v) => lookup(*self, key@) == Some(v@),
                None => lookup(*self, key@) is None,
            },
    {
        proof {
            reveal_strlit(".");
            assert("."@ =~= seq!['.']);
        }
        let parts = split_str(key, ".");
        if parts.len() != 2 {
            return None;
        }
        let section = parts[0].as_str();
        let field = parts[1].as_str();
        assert(section@ == key_parts(key@)[0] && field@ == key_parts(key@)[1]);
        self.field_text(section, field)
    }

    /// The value of `section.field` as text.
    fn field_text(&self, section: &str, field: &str) -> (r: Option<String>)
        ensures
            match r {
                Some(v) => field_value(*self, section@, field@) == Some(v@),
                None => field_value(*self, section@, field@) is None,
            },
    {
        if str_eq(section, "general") {
            if str_eq(field, "default_editor") {
                Some(self.general.default_editor.clone())
            } else if str_eq(field, "default_priority") {
                Some(self.general.default_priority.clone())
            } else if str_eq(field, "default_category") {
                Some(self.general.default_category.clone())
            } else if str_eq(field, "language") {
                Some(self.general.language.clone())
            } else if str_eq(field, "pager") {
                Some(self.general.pager.clone())
            } else {
                None
            }
        } else if str_eq(section, "display") {
            if str_eq(field, "color") {
                Some(crate::numeric::bool_string(self.display.color))
            } else if str_eq(field, "date_format") {
                Some(self.display.date_format.clone())
            } else if str_eq(field, "table_style") {
                Some(self.display.table_style.clone())
            } else if str_eq(field, "title_max_width") {
                Some(crate::numeric::dec_string(self.display.title_max_width as u64))
            } else {
                None
            }
        } else if str_eq(section, "storage") {
            if str_eq(field, "notes_dir") {
                Some(self.storage.notes_dir.clone())
            } else if str_eq(field, "index_file") {
                Some(self.storage.index_file.clone())
            } else {
                None
            }
        } else if str_eq(section, "search") {
            if str_eq(field, "default_mode") {
                Some(self.search.default_mode.clone())
            } else if str_eq(field, "case_sensitive") {
                Some(crate::numeric::bool_string(self.search.case_sensitive))
            } else if str_eq(field, "max_results") {
                Some(crate::numeric::dec_string(self.search.max_results as u64))
            } else {
                None
            }
        } else if str_eq(section, "theme") {
            if str_eq(field, "title") {
                Some(self.theme.title.clone())
            } else if str_eq(field, "id") {
                Some(self.theme.id.clone())
            } else if str_eq(field, "tag") {
                Some(self.theme.tag.clone())
            } else if str_eq(field, "category") {
                Some(self.theme.category.clone())
            } else if str_eq(field, "priority_low") {
                Some(self.theme.priority_low.clone())
            } else if str_eq(field, "priority_normal") {
                Some(self.theme.priority_normal.clone())
            } else if str_eq(field, "priority_high") {
                Some(self.theme.priority_high.clone())
            } else if str_eq(field, "priority_urgent") {
                Some(self.theme.priority_urgent.clone())
            } else if str_eq(field, "separator") {
                Some(self.theme.separator.clone())
            } else if str_eq(field, "date") {
                Some(self.theme.date.clone())
            } else {
                None
            }
        } else {
            None
        }
    }

    /// Sets the field that `key` names to `value`; a refused key or value leaves
    /// the configuration as it was and gives the reason.
    pub fn set_value(&mut self, key: &str, value: &str) -> (r: Result<(), String>)
        ensures
            match r {
                Ok(()) => {
                    let parts = key_parts(key@);
                    &&& set_refusal(key@, value@) is None
                    &&& parts.len() == 2
                    &&& field_kind(parts[0], parts[1]) is Some
                    &&& field_value(*final(self), parts[0], parts[1]) == Some(
                        stored_text(field_kind(parts[0], parts[1])->0, value@),
                    )
                    &&& lookup(*final(self), key@) == Some(
                        stored_text(field_kind(parts[0], parts[1])->0, value@),
                    )
                    &&& forall|s: Seq<char>, f: Seq<char>|
                        !same_field(s, f, parts[0], parts[1]) ==> #[trigger] field_value(
                            *final(self),
                            s,
                            f,
                        ) == field_value(*old(self), s, f)
                },
                Err(m) => set_refusal(key@, value@) == Some(m@) && *final(self) == *old(self),
            },
    {
        proof {
            reveal_strlit(".");
            assert("."@ =~= seq!['.']);
        }
        let parts = split_str(key, ".");
        if parts.len() != 2 {
            let mut m = String::new();
            push_str(&mut m, "无效的配置键 '");
            push_str(&mut m, key);
            push_str(&mut m, "', 格式应为 'section.field'");
            return Err(m);
        }
        let section = parts[0].as_str();
        let field = parts[1].as_str();
        assert(section@ == key_parts(key@)[0] && field@ == key_parts(key@)[1]);
        if str_eq(section, "general") {
            self.set_general(field, value)
        } else if str_eq(section, "display") {
            self.set_display(field, value)
        } else if str_eq(section, "storage") {
            self.set_storage(field, value)
        } else if str_eq(section, "search") {
            self.set_search(field, value)
        } else if str_eq(section, "theme") {
            self.set_theme(field, value)
        } else {
            let mut m = String::new();
            push_str(&mut m, "未知的配置段 '");
            push_str(&mut m, section);
            push_str(&mut m, "'");
            Err(m)
        }
    }

    fn set_general(&mut self, field: &str, value: &str) -> (r: Result<(), String>)
        ensures
            match r {
                Ok(()) => {
                    &&& field_kind("general"@, field@) matches Some(kind)
                    &&& value_ok(kind, value@)
                    &&& field_value(*final(self), "general"@, field@) == Some(stored_text(kind, value@))
                    &&& forall|s: Seq<char>, f: Seq<char>|
                        !same_field(s, f, "general"@, field@) ==> #[trigger] field_value(
                            *final(self),
                            s,
                            f,
                        ) == field_value(*old(self), s, f)
                },
                Err(m) => {
                    &&& *final(self) == *old(self)
                    &&& match field_kind("general"@, field@) {
                        None => m@ == "未知的配置项 '"@ + "general"@ + "."@ + field@ + "'"@,
                        Some(kind) => !value_ok(kind, value@) && m@ == match kind {
                            FieldKind::Flag => "'"@ + value@ + "' 不是有效的布尔值"@,
                            FieldKind::Count => "'"@ + value@ + "' 不是有效的正整数"@,
                            FieldKind::Choice(c) => "'"@ + value@ + "' 不是有效值，可选: "@
                                + choice_list(c),
                            FieldKind::Text => Seq::empty(),
                        },
                    }
                },
            },
    {
        proof {
            lemma_names_distinct();
        }
        if str_eq(field, "default_editor") {
            self.general.default_editor = text(value);
            Ok(())
        } else if str_eq(field, "default_priority") {
            match validate_priority(value) {
                Ok(()) => {
                    self.general.default_priority = text(value);
                    Ok(())
                },
                Err(m) => Err(m),
            }
        } else if str_eq(field, "default_category") {
            self.general.default_category = text(value);
            Ok(())
        } else if str_eq(field, "language") {
            self.general.language = text(value);
            Ok(())
        } else if str_eq(field, "pager") {
            self.general.pager = text(value);
            Ok(())
        } else {
            let mut m = String::new();
            push_str(&mut m, "未知的配置项 '");
            push_str(&mut m, "general");
            push_str(&mut m, ".");
            push_str(&mut m, field);
            push_str(&mut m, "'");
            Err(m)
        }
    }

    fn set_display(&mut self, field: &str, value: &str) -> (r: Result<(), String>)
        ensures
            match r {
                Ok(()) => {
                    &&& field_kind("display"@, field@) matches Some(kind)
                    &&& value_ok(kind, value@)
                    &&& field_value(*final(self), "display"@, field@) == Some(stored_text(kind, value@))
                    &&& forall|s: Seq<char>, f: Seq<char>|
                        !same_field(s, f, "display"@, field@) ==> #[trigger] field_value(
                            *final(self),
                            s,
                            f,
                        ) == field_value(*old(self), s, f)
                },
                Err(m) => {
                    &&& *final(self) == *old(self)
                    &&& match field_kind("display"@, field@) {
                        None => m@ == "未知的配置项 '"@ + "display"@ + "."@ + field@ + "'"@,
                        Some(kind) => !value_ok(kind, value@) && m@ == match kind {
                            FieldKind::Flag => "'"@ + value@ + "' 不是有效的布尔值"@,
                            FieldKind::Count => "'"@ + value@ + "' 不是有效的正整数"@,
                            FieldKind::Choice(c) => "'"@ + value@ + "' 不是有效值，可选: "@
                                + choice_list(c),
                            FieldKind::Text => Seq::empty(),
                        },
                    }
                },
            },
    {
        proof {
            lemma_names_distinct();
        }
        if str_eq(field, "color") {
            match crate::numeric::parse_bool_str(value) {
                Some(b) => {
                    self.display.color = b;
                    Ok(())
                },
                None => Err(invalid_value(value, "' 不是有效的布尔值")),
            }
        } else if str_eq(field, "date_format") {
            self.display.date_format = text(value);
            Ok(())
        } else if str_eq(field, "table_style") {
            match validate_choice(value, Choices::TableStyle) {
                Ok(()) => {
                    self.display.table_style = text(value);
                    Ok(())
                },
                Err(m) => Err(m),
            }
        } else if str_eq(field, "title_max_width") {
            match crate::numeric::parse_usize(value) {
                Some(n) => if n > 0 {
                    self.display.title_max_width = n;
                    Ok(())
                } else {
                    Err(invalid_value(value, "' 不是有效的正整数"))
                },
                None => Err(invalid_value(value, "' 不是有效的正整数")),
            }
        } else {
            let mut m = String::new();
            push_str(&mut m, "未知的配置项 '");
            push_str(&mut m, "display");
            push_str(&mut m, ".");
            push_str(&mut m, field);
            push_str(&mut m, "'");
            Err(m)
        }
    }

    fn set_storage(&mut self, field: &str, value: &str) -> (r: Result<(), String>)
        ensures
            match r {
                Ok(()) => {
                    &&& field_kind("storage"@, field@) matches Some(kind)
                    &&& value_ok(kind, value@)
                    &&& field_value(*final(self), "storage"@, field@) == Some(stored_text(kind, value@))
                    &&& forall|s: Seq<char>, f: Seq<char>|
                        !same_field(s, f, "storage"@, field@) ==> #[trigger] field_value(
                            *final(self),
                            s,
                            f,
                        ) == field_value(*old(self), s, f)
                },
                Err(m) => {
                    &&& *final(self) == *old(self)
                    &&& match field_kind("storage"@, field@) {
                        None => m@ == "未知的配置项 '"@ + "storage"@ + "."@ + field@ + "'"@,
                        Some(kind) => !value_ok(kind, value@) && m@ == match kind {
                            FieldKind::Flag => "'"@ + value@ + "' 不是有效的布尔值"@,
                            FieldKind::Count => "'"@ + value@ + "' 不是有效的正整数"@,
                            FieldKind::Choice(c) => "'"@ + value@ + "' 不是有效值，可选: "@
                                + choice_list(c),
                            FieldKind::Text => Seq::empty(),
                        },
                    }
                },
            },
    {
        proof {
            lemma_names_distinct();
        }
        if str_eq(field, "notes_dir") {
            self.storage.notes_dir = text(value);
            Ok(())
        } else if str_eq(field, "index_file") {
            self.storage.index_file = text(value);
            Ok(())
        } else {
            let mut m = String::new();
            push_str(&mut m, "未知的配置项 '");
            push_str(&mut m, "storage");
            push_str(&mut m, ".");
            push_str(&mut m, field);
            push_str(&mut m, "'");
            Err(m)
        }
    }

    fn set_search(&mut self, field: &str, value: &str) -> (r: Result<(), String>)
        ensures
            match r {
                Ok(()) => {
                    &&& field_kind("search"@, field@) matches Some(kind)
                    &&& value_ok(kind, value@)
                    &&& field_value(*final(self), "search"@, field@) == Some(stored_text(kind, value@))
                    &&& forall|s: Seq<char>, f: Seq<char>|
                        !same_field(s, f, "search"@, field@) ==> #[trigger] field_value(
                            *final(self),
                            s,
                            f,
                        ) == field_value(*old(self), s, f)
                },
                Err(m) => {
                    &&& *final(self) == *old(self)
                    &&& match field_kind("search"@, field@) {
                        None => m@ == "未知的配置项 '"@ + "search"@ + "."@ + field@ + "'"@,
                        Some(kind) => !value_ok(kind, value@) && m@ == match kind {
                            FieldKind::Flag => "'"@ + value@ + "' 不是有效的布尔值"@,
                            FieldKind::Count => "'"@ + value@ + "' 不是有效的正整数"@,
                            FieldKind::Choice(c) => "'"@ + value@ + "' 不是有效值，可选: "@
                                + choice_list(c),
                            FieldKind::Text => Seq::empty(),
                        },
                    }
                },
            },
    {
        proof {
            lemma_names_distinct();
        }
        if str_eq(field, "default_mode") {
            match validate_choice(value, Choices::SearchMode) {
                Ok(()) => {
                    self.search.default_mode = text(value);
                    Ok(())
                },
                Err(m) => Err(m),
            }
        } else if str_eq(field, "case_sensitive") {
            match crate::numeric::parse_bool_str(value) {
                Some(b) => {
                    self.search.case_sensitive = b;
                    Ok(())
                },
                None => Err(invalid_value(value, "' 不是有效的布尔值")),
            }
        } else if str_eq(field, "max_results") {
            match crate::numeric::parse_usize(value) {
                Some(n) => if n > 0 {
                    self.search.max_results = n;
                    Ok(())
                } else {
                    Err(invalid_value(value, "' 不是有效的正整数"))
                },
                None => Err(invalid_value(value, "' 不是有效的正整数")),
            }
        } else {
            let mut m = String::new();
            push_str(&mut m, "未知的配置项 '");
            push_str(&mut m, "search");
            push_str(&mut m, ".");
            push_str(&mut m, field);
            push_str(&mut m, "'");
            Err(m)
        }
    }

    fn set_theme(&mut self, field: &str, value: &str) -> (r: Result<(), String>)
        ensures
            match r {
                Ok(()) => {
                    &&& field_kind("theme"@, field@) matches Some(kind)
                    &&& value_ok(kind, value@)
                    &&& field_value(*final(self), "theme"@, field@) == Some(stored_text(kind, value@))
                    &&& forall|s: Seq<char>, f: Seq<char>|
                        !same_field(s, f, "theme"@, field@) ==> #[trigger] field_value(
                            *final(self),
                            s,
                            f,
                        ) == field_value(*old(self), s, f)
                },
                Err(m) => {
                    &&& *final(self) == *old(self)
                    &&& match field_kind("theme"@, field@) {
                        None => m@ == "未知的配置项 '"@ + "theme"@ + "."@ + field@ + "'"@,
                        Some(kind) => !value_ok(kind, value@) && m@ == match kind {
                            FieldKind::Flag => "'"@ + value@ + "' 不是有效的布尔值"@,
                            FieldKind::Count => "'"@ + value@ + "' 不是有效的正整数"@,
                            FieldKind::Choice(c) => "'"@ + value@ + "' 不是有效值，可选: "@
                                + choice_list(c),
                            FieldKind::Text => Seq::empty(),
                        },
                    }
                },
            },
    {
        proof {
            lemma_names_distinct();
        }
        if str_eq(field, "title") {
            self.theme.title = text(value);
            Ok(())
        } else if str_eq(field, "id") {
            self.theme.id = text(value);
            Ok(())
        } else if str_eq(field, "tag") {
            self.theme.tag = text(value);
            Ok(())
        } else if str_eq(field, "category") {
            self.theme.category = text(value);
            Ok(())
        } else if str_eq(field, "priority_low") {
            self.theme.priority_low = text(value);
            Ok(())
        } else if str_eq(field, "priority_normal") {
            self.theme.priority_normal = text(value);
            Ok(())
        } else if str_eq(field, "priority_high") {
            self.theme.priority_high = text(value);
            Ok(())
        } else if str_eq(field, "priority_urgent") {
            self.theme.priority_urgent = text(value);
            Ok(())
        } else if str_eq(field, "separator") {
            self.theme.separator = text(value);
            Ok(())
        } else if str_eq(field, "date") {
            self.theme.date = text(value);
            Ok(())
        } else {
            let mut m = String::new();
            push_str(&mut m, "未知的配置项 '");
            push_str(&mut m, "theme");
            push_str(&mut m, ".");
            push_str(&mut m, field);
            push_str(&mut m, "'");
            Err(m)
        }
    }

    /// Every key with the value it holds, in the order of the sections.
    pub fn all_entries(&self) -> (r: Vec<(&'static str, String)>)
        ensures
            r@.map_values(|e: (&'static str, String)| (e.0@, e.1@)) == config_entries(*self),
    {
        let mut entries: Vec<(&'static str, String)> = Vec::new();
        entries.push(("general.default_editor", self.general.default_editor.clone()));
        entries.push(("general.default_priority", self.general.default_priority.clone()));
        entries.push(("general.default_category", self.general.default_category.clone()));
        entries.push(("general.language", self.general.language.clone()));
        entries.push(("general.pager", self.general.pager.clone()));
        entries.push(("display.color", crate::numeric::bool_string(self.display.color)));
        entries.push(("display.date_format", self.display.date_format.clone()));
        entries.push(("display.table_style", self.display.table_style.clone()));
        entries.push(("display.title_max_width", crate::numeric::dec_string(self.display.title_max_width as u64)));
        entries.push(("storage.notes_dir", self.storage.notes_dir.clone()));
        entries.push(("storage.index_file", self.storage.index_file.clone()));
        entries.push(("search.default_mode", self.search.default_mode.clone()));
        entries.push(("search.case_sensitive", crate::numeric::bool_string(self.search.case_sensitive)));
        entries.push(("search.max_results", crate::numeric::dec_string(self.search.max_results as u64)));
        entries.push(("theme.title", self.theme.title.clone()));
        entries.push(("theme.id", self.theme.id.clone()));
        entries.push(("theme.tag", self.theme.tag.clone()));
        entries.push(("theme.category", self.theme.category.clone()));
        entries.push(("theme.priority_low", self.theme.priority_low.clone()));
        entries.push(("theme.priority_normal", self.theme.priority_normal.clone()));
        entries.push(("theme.priority_high", self.theme.priority_high.clone()));
        entries.push(("theme.priority_urgent", self.theme.priority_urgent.clone()));
        entries.push(("theme.separator", self.theme.separator.clone()));
        entries.push(("theme.date", self.theme.date.clone()));
        assert(entries@.map_values(|e: (&'static str, String)| (e.0@, e.1@)) =~= config_entries(*self));
        entries
    }
}

/// Every key, written `section.field`, with the text of its value.
pub open spec fn config_entries(c: Config) -> Seq<(Seq<char>, Seq<char>)> {
    seq![
        ("general.default_editor"@, c.general.default_editor@),
        ("general.default_priority"@, c.general.default_priority@),
        ("general.default_category"@, c.general.default_category@),
        ("general.language"@, c.general.language@),
        ("general.pager"@, c.general.pager@),
        ("display.color"@, bool_text(c.display.color)),
        ("display.date_format"@, c.display.date_format@),
        ("display.table_style"@, c.display.table_style@),
        ("display.title_max_width"@, dec(c.display.title_max_width as nat)),
        ("storage.notes_dir"@, c.storage.notes_dir@),
        ("storage.index_file"@, c.storage.index_file@),
        ("search.default_mode"@, c.search.default_mode@),
        ("search.case_sensitive"@, bool_text(c.search.case_sensitive)),
        ("search.max_results"@, dec(c.search.max_results as nat)),
        ("theme.title"@, c.theme.title@),
        ("theme.id"@, c.theme.id@),
        ("theme.tag"@, c.theme.tag@),
        ("theme.category"@, c.theme.category@),
        ("theme.priority_low"@, c.theme.priority_low@),
        ("theme.priority_normal"@, c.theme.priority_normal@),
        ("theme.priority_high"@, c.theme.priority_high@),
        ("theme.priority_urgent"@, c.theme.priority_urgent@),
        ("theme.separator"@, c.theme.separator@),
        ("theme.date"@, c.theme.date@),
    ]
}

/// A key made of a section and a field without dots splits into the two.
proof fn lemma_split_key(section: Seq<char>, field: Seq<char>)
    requires
        !section.contains('.'),
        !field.contains('.'),
    ensures
        key_parts(section + seq!['.'] + field) == seq![section, field],
{
    let key = section + seq!['.'] + field;
    let dot = seq!['.'];
    assert(occurs_at(key, dot, section.len() as int)) by {
        assert(key.subrange(section.len() as int, section.len() as int + 1) =~= dot);
    }
    assert forall|k: int| 0 <= k < section.len() implies !occurs_at(key, dot, k) by {
        if occurs_at(key, dot, k) {
            assert(key.subrange(k, k + 1)[0] == key[k]);
            assert(section[k] == '.');
        }
    }
    lemma_find_from_unique(key, dot, 0, section.len() as int);
    assert(key.take(section.len() as int) =~= section);
    assert(key.skip(section.len() as int + 1) =~= field);
    lemma_find(field, dot);
    if let Some(j) = find(field, dot) {
        assert(field.subrange(j, j + 1)[0] == field[j]);
        assert(field.contains(field[j]));
    }
    assert(key_parts(key) =~= seq![section] + split(field, dot));
}

/// Every key that `all_entries` lists reads back, through `get_value`, as the
/// value listed beside it.
pub proof fn lemma_entries_agree_with_lookup(c: Config)
    ensures
        forall|i: int|
            0 <= i < config_entries(c).len() ==> lookup(c, #[trigger] config_entries(c)[i].0) == Some(
                config_entries(c)[i].1,
            ),
{
    reveal_strlit("case_sensitive");
    reveal_strlit("category");
    reveal_strlit("color");
    reveal_strlit("date");
    reveal_strlit("date_format");
    reveal_strlit("default_category");
    reveal_strlit("default_editor");
    reveal_strlit("default_mode");
    reveal_strlit("default_priority");
    reveal_strlit("display");
    reveal_strlit("display.color");
    reveal_strlit("display.date_format");
    reveal_strlit("display.table_style");
    reveal_strlit("display.title_max_width");
    reveal_strlit("general");
    reveal_strlit("general.default_category");
    reveal_strlit("general.default_editor");
    reveal_strlit("general.default_priority");
    reveal_strlit("general.language");
    reveal_strlit("general.pager");
    reveal_strlit("id");
    reveal_strlit("index_file");
    reveal_strlit("language");
    reveal_strlit("max_results");
    reveal_strlit("notes_dir");
    reveal_strlit("pager");
    reveal_strlit("priority_high");
    reveal_strlit("priority_low");
    reveal_strlit("priority_normal");
    reveal_strlit("priority_urgent");
    reveal_strlit("search");
    reveal_strlit("search.case_sensitive");
    reveal_strlit("search.default_mode");
    reveal_strlit("search.max_results");
    reveal_strlit("separator");
    reveal_strlit("storage");
    reveal_strlit("storage.index_file");
    reveal_strlit("storage.notes_dir");
    reveal_strlit("table_style");
    reveal_strlit("tag");
    reveal_strlit("theme");
    reveal_strlit("theme.category");
    reveal_strlit("theme.date");
    reveal_strlit("theme.id");
    reveal_strlit("theme.priority_high");
    reveal_strlit("theme.priority_low");
    reveal_strlit("theme.priority_normal");
    reveal_strlit("theme.priority_urgent");
    reveal_strlit("theme.separator");
    reveal_strlit("theme.tag");
    reveal_strlit("theme.title");
    reveal_strlit("title");
    reveal_strlit("title_max_width");
    lemma_names_distinct();
    assert forall|i: int| 0 <= i < config_entries(c).len() implies lookup(c, #[trigger] config_entries(c)[i].0) == Some(config_entries(c)[i].1) by {
        if i == 0 {
            assert("general.default_editor"@ =~= "general"@ + seq!['.'] + "default_editor"@);
            lemma_split_key("general"@, "default_editor"@);
        } else if i == 1 {
            assert("general.default_priority"@ =~= "general"@ + seq!['.'] + "default_priority"@);
            lemma_split_key("general"@, "default_priority"@);
        } else if i == 2 {
            assert("general.default_category"@ =~= "general"@ + seq!['.'] + "default_category"@);
            lemma_split_key("general"@, "default_category"@);
        } else if i == 3 {
            assert("general.language"@ =~= "general"@ + seq!['.'] + "language"@);
            lemma_split_key("general"@, "language"@);
        } else if i == 4 {
            assert("general.pager"@ =~= "general"@ + seq!['.'] + "pager"@);
            lemma_split_key("general"@, "pager"@);
        } else if i == 5 {
            assert("display.color"@ =~= "display"@ + seq!['.'] + "color"@);
            lemma_split_key("display"@, "color"@);
        } else if i == 6 {
            assert("display.date_format"@ =~= "display"@ + seq!['.'] + "date_format"@);
            lemma_split_key("display"@, "date_format"@);
        } else if i == 7 {
            assert("display.table_style"@ =~= "display"@ + seq!['.'] + "table_style"@);
            lemma_split_key("display"@, "table_style"@);
        } else if i == 8 {
            assert("display.title_max_width"@ =~= "display"@ + seq!['.'] + "title_max_width"@);
            lemma_split_key("display"@, "title_max_width"@);
        } else if i == 9 {
            assert("storage.notes_dir"@ =~= "storage"@ + seq!['.'] + "notes_dir"@);
            lemma_split_key("storage"@, "notes_dir"@);
        } else if i == 10 {
            assert("storage.index_file"@ =~= "storage"@ + seq!['.'] + "index_file"@);
            lemma_split_key("storage"@, "index_file"@);
        } else if i == 11 {
            assert("search.default_mode"@ =~= "search"@ + seq!['.'] + "default_mode"@);
            lemma_split_key("search"@, "default_mode"@);
        } else if i == 12 {
            assert("search.case_sensitive"@ =~= "search"@ + seq!['.'] + "case_sensitive"@);
            lemma_split_key("search"@, "case_sensitive"@);
        } else if i == 13 {
            assert("search.max_results"@ =~= "search"@ + seq!['.'] + "max_results"@);
            lemma_split_key("search"@, "max_results"@);
        } else if i == 14 {
            assert("theme.title"@ =~= "theme"@ + seq!['.'] + "title"@);
            lemma_split_key("theme"@, "title"@);
        } else if i == 15 {
            assert("theme.id"@ =~= "theme"@ + seq!['.'] + "id"@);
            lemma_split_key("theme"@, "id"@);
        } else if i == 16 {
            assert("theme.tag"@ =~= "theme"@ + seq!['.'] + "tag"@);
            lemma_split_key("theme"@, "tag"@);
        } else if i == 17 {
            assert("theme.category"@ =~= "theme"@ + seq!['.'] + "category"@);
            lemma_split_key("theme"@, "category"@);
        } else if i == 18 {
            assert("theme.priority_low"@ =~= "theme"@ + seq!['.'] + "priority_low"@);
            lemma_split_key("theme"@, "priority_low"@);
        } else if i == 19 {
            assert("theme.priority_normal"@ =~= "theme"@ + seq!['.'] + "priority_normal"@);
            lemma_split_key("theme"@, "priority_normal"@);
        } else if i == 20 {
            assert("theme.priority_high"@ =~= "theme"@ + seq!['.'] + "priority_high"@);
            lemma_split_key("theme"@, "priority_high"@);
        } else if i == 21 {
            assert("theme.priority_urgent"@ =~= "theme"@ + seq!['.'] + "priority_urgent"@);
            lemma_split_key("theme"@, "priority_urgent"@);
        } else if i == 22 {
            assert("theme.separator"@ =~= "theme"@ + seq!['.'] + "separator"@);
            lemma_split_key("theme"@, "separator"@);
        } else if i == 23 {
            assert("theme.date"@ =~= "theme"@ + seq!['.'] + "date"@);
            lemma_split_key("theme"@, "date"@);
        }
    }
}

/// Only the keys that `all_entries` lists have a value: `get_value` gives
/// `None` for every other key.
pub proof fn lemma_lookup_only_listed(c: Config)
    ensures
        forall|k: Seq<char>|
            (forall|i: int| 0 <= i < config_entries(c).len() ==> config_entries(c)[i].0 != k) ==> #[trigger] lookup(
                c,
                k,
            ) is None,
{
    reveal_strlit("case_sensitive");
    reveal_strlit("category");
    reveal_strlit("color");
    reveal_strlit("date");
    reveal_strlit("date_format");
    reveal_strlit("default_category");
    reveal_strlit("default_editor");
    reveal_strlit("default_mode");
    reveal_strlit("default_priority");
    reveal_strlit("display");
    reveal_strlit("display.color");
    reveal_strlit("display.date_format");
    reveal_strlit("display.table_style");
    reveal_strlit("display.title_max_width");
    reveal_strlit("general");
    reveal_strlit("general.default_category");
    reveal_strlit("general.default_editor");
    reveal_strlit("general.default_priority");
    reveal_strlit("general.language");
    reveal_strlit("general.pager");
    reveal_strlit("id");
    reveal_strlit("index_file");
    reveal_strlit("language");
    reveal_strlit("max_results");
    reveal_strlit("notes_dir");
    reveal_strlit("pager");
    reveal_strlit("priority_high");
    reveal_strlit("priority_low");
    reveal_strlit("priority_normal");
    reveal_strlit("priority_urgent");
    reveal_strlit("search");
    reveal_strlit("search.case_sensitive");
    reveal_strlit("search.default_mode");
    reveal_strlit("search.max_results");
    reveal_strlit("separator");
    reveal_strlit("storage");
    reveal_strlit("storage.index_file");
    reveal_strlit("storage.notes_dir");
    reveal_strlit("table_style");
    reveal_strlit("tag");
    reveal_strlit("theme");
    reveal_strlit("theme.category");
    reveal_strlit("theme.date");
    reveal_strlit("theme.id");
    reveal_strlit("theme.priority_high");
    reveal_strlit("theme.priority_low");
    reveal_strlit("theme.priority_normal");
    reveal_strlit("theme.priority_urgent");
    reveal_strlit("theme.separator");
    reveal_strlit("theme.tag");
    reveal_strlit("theme.title");
    reveal_strlit("title");
    reveal_strlit("title_max_width");
    assert forall|k: Seq<char>|
        (forall|i: int| 0 <= i < config_entries(c).len() ==> config_entries(c)[i].0 != k) implies #[trigger] lookup(
            c,
            k,
        ) is None by {
        let p = key_parts(k);
        if lookup(c, k) is Some {
            crate::laws::law_sections_rejoin(k, seq!['.']);
            assert(p.len() == 2);
            assert(p.drop_last() =~= seq![p[0]]);
            assert(join(p.drop_last(), seq!['.']) == p[0]);
            assert(p.last() == p[1]);
            assert(join(p, seq!['.']) == join(p.drop_last(), seq!['.']) + seq!['.'] + p.last());
            assert(k == p[0] + seq!['.'] + p[1]);
            if p[0] == "general"@ && p[1] == "default_editor"@ {
                assert(config_entries(c)[0].0 =~= k);
            } else if p[0] == "general"@ && p[1] == "default_priority"@ {
                assert(config_entries(c)[1].0 =~= k);
            } else if p[0] == "general"@ && p[1] == "default_category"@ {
                assert(config_entries(c)[2].0 =~= k);
            } else if p[0] == "general"@ && p[1] == "language"@ {
                assert(config_entries(c)[3].0 =~= k);
            } else if p[0] == "general"@ && p[1] == "pager"@ {
                assert(config_entries(c)[4].0 =~= k);
            } else if p[0] == "display"@ && p[1] == "color"@ {
                assert(config_entries(c)[5].0 =~= k);
            } else if p[0] == "display"@ && p[1] == "date_format"@ {
                assert(config_entries(c)[6].0 =~= k);
            } else if p[0] == "display"@ && p[1] == "table_style"@ {
                assert(config_entries(c)[7].0 =~= k);
            } else if p[0] == "display"@ && p[1] == "title_max_width"@ {
                assert(config_entries(c)[8].0 =~= k);
            } else if p[0] == "storage"@ && p[1] == "notes_dir"@ {
                assert(config_entries(c)[9].0 =~= k);
            } else if p[0] == "storage"@ && p[1] == "index_file"@ {
                assert(config_entries(c)[10].0 =~= k);
            } else if p[0] == "search"@ && p[1] == "default_mode"@ {
                assert(config_entries(c)[11].0 =~= k);
            } else if p[0] == "search"@ && p[1] == "case_sensitive"@ {
                assert(config_entries(c)[12].0 =~= k);
            } else if p[0] == "search"@ && p[1] == "max_results"@ {
                assert(config_entries(c)[13].0 =~= k);
            } else if p[0] == "theme"@ && p[1] == "title"@ {
                assert(config_entries(c)[14].0 =~= k);
            } else if p[0] == "theme"@ && p[1] == "id"@ {
                assert(config_entries(c)[15].0 =~= k);
            } else if p[0] == "theme"@ && p[1] == "tag"@ {
                assert(config_entries(c)[16].0 =~= k);
            } else if p[0] == "theme"@ && p[1] == "category"@ {
                assert(config_entries(c)[17].0 =~= k);
            } else if p[0] == "theme"@ && p[1] == "priority_low"@ {
                assert(config_entries(c)[18].0 =~= k);
            } else if p[0] == "theme"@ && p[1] == "priority_normal"@ {
                assert(config_entries(c)[19].0 =~= k);
            } else if p[0] == "theme"@ && p[1] == "priority_high"@ {
                assert(config_entries(c)[20].0 =~= k);
            } else if p[0] == "theme"@ && p[1] == "priority_urgent"@ {
                assert(config_entries(c)[21].0 =~= k);
            } else if p[0] == "theme"@ && p[1] == "separator"@ {
                assert(config_entries(c)[22].0 =~= k);
            } else if p[0] == "theme"@ && p[1] == "date"@ {
                assert(config_entries(c)[23].0 =~= k);
            }
        }
    }
}

/// The section names differ from each other, and so do the field names of
/// each section.
proof fn lemma_names_distinct()
    ensures
        "general"@ != "display"@,
        "general"@ != "storage"@,
        "general"@ != "search"@,
        "general"@ != "theme"@,
        "display"@ != "storage"@,
        "display"@ != "search"@,
        "display"@ != "theme"@,
        "storage"@ != "search"@,
        "storage"@ != "theme"@,
        "search"@ != "theme"@,
        "default_editor"@ != "default_priority"@,
        "default_editor"@ != "default_category"@,
        "default_editor"@ != "language"@,
        "default_editor"@ != "pager"@,
        "default_priority"@ != "default_category"@,
        "default_priority"@ != "language"@,
        "default_priority"@ != "pager"@,
        "default_category"@ != "language"@,
        "default_category"@ != "pager"@,
        "language"@ != "pager"@,
        "color"@ != "date_format"@,
        "color"@ != "table_style"@,
        "color"@ != "title_max_width"@,
        "date_format"@ != "table_style"@,
        "date_format"@ != "title_max_width"@,
        "table_style"@ != "title_max_width"@,
        "notes_dir"@ != "index_file"@,
        "default_mode"@ != "case_sensitive"@,
        "default_mode"@ != "max_results"@,
        "case_sensitive"@ != "max_results"@,
        "title"@ != "id"@,
        "title"@ != "tag"@,
        "title"@ != "category"@,
        "title"@ != "priority_low"@,
        "title"@ != "priority_normal"@,
        "title"@ != "priority_high"@,
        "title"@ != "priority_urgent"@,
        "title"@ != "separator"@,
        "title"@ != "date"@,
        "id"@ != "tag"@,
        "id"@ != "category"@,
        "id"@ != "priority_low"@,
        "id"@ != "priority_normal"@,
        "id"@ != "priority_high"@,
        "id"@ != "priority_urgent"@,
        "id"@ != "separator"@,
        "id"@ != "date"@,
        "tag"@ != "category"@,
        "tag"@ != "priority_low"@,
        "tag"@ != "priority_normal"@,
        "tag"@ != "priority_high"@,
        "tag"@ != "priority_urgent"@,
        "tag"@ != "separator"@,
        "tag"@ != "date"@,
        "category"@ != "priority_low"@,
        "category"@ != "priority_normal"@,
        "category"@ != "priority_high"@,
        "category"@ != "priority_urgent"@,
        "category"@ != "separator"@,
        "category"@ != "date"@,
        "priority_low"@ != "priority_normal"@,
        "priority_low"@ != "priority_high"@,
        "priority_low"@ != "priority_urgent"@,
        "priority_low"@ != "separator"@,
        "priority_low"@ != "date"@,
        "priority_normal"@ != "priority_high"@,
        "priority_normal"@ != "priority_urgent"@,
        "priority_normal"@ != "separator"@,
        "priority_normal"@ != "date"@,
        "priority_high"@ != "priority_urgent"@,
        "priority_high"@ != "separator"@,
        "priority_high"@ != "date"@,
        "priority_urgent"@ != "separator"@,
        "priority_urgent"@ != "date"@,
        "separator"@ != "date"@,
{
    reveal_strlit("case_sensitive");
    reveal_strlit("category");
    reveal_strlit("color");
    reveal_strlit("date");
    reveal_strlit("date_format");
    reveal_strlit("default_category");
    reveal_strlit("default_editor");
    reveal_strlit("default_mode");
    reveal_strlit("default_priority");
    reveal_strlit("display");
    reveal_strlit("general");
    reveal_strlit("id");
    reveal_strlit("index_file");
    reveal_strlit("language");
    reveal_strlit("max_results");
    reveal_strlit("notes_dir");
    reveal_strlit("pager");
    reveal_strlit("priority_high");
    reveal_strlit("priority_low");
    reveal_strlit("priority_normal");
    reveal_strlit("priority_urgent");
    reveal_strlit("search");
    reveal_strlit("separator");
    reveal_strlit("storage");
    reveal_strlit("table_style");
    reveal_strlit("tag");
    reveal_strlit("theme");
    reveal_strlit("title");
    reveal_strlit("title_max_width");
    assert("general"@[0] != "display"@[0]);
    assert("general"@[0] != "storage"@[0]);
    assert("general"@.len() != "search"@.len());
    assert("general"@.len() != "theme"@.len());
    assert("display"@[0] != "storage"@[0]);
    assert("display"@.len() != "search"@.len());
    assert("display"@.len() != "theme"@.len());
    assert("storage"@.len() != "search"@.len());
    assert("storage"@.len() != "theme"@.len());
    assert("search"@.len() != "theme"@.len());
    assert("default_editor"@.len() != "default_priority"@.len());
    assert("default_editor"@.len() != "default_category"@.len());
    assert("default_editor"@.len() != "language"@.len());
    assert("default_editor"@.len() != "pager"@.len());
    assert("default_priority"@[8] != "default_category"@[8]);
    assert("default_priority"@.len() != "language"@.len());
    assert("default_priority"@.len() != "pager"@.len());
    assert("default_category"@.len() != "language"@.len());
    assert("default_category"@.len() != "pager"@.len());
    assert("language"@.len() != "pager"@.len());
    assert("color"@.len() != "date_format"@.len());
    assert("color"@.len() != "table_style"@.len());
    assert("color"@.len() != "title_max_width"@.len());
    assert("date_format"@[0] != "table_style"@[0]);
    assert("date_format"@.len() != "title_max_width"@.len());
    assert("table_style"@.len() != "title_max_width"@.len());
    assert("notes_dir"@.len() != "index_file"@.len());
    assert("default_mode"@.len() != "case_sensitive"@.len());
    assert("default_mode"@.len() != "max_results"@.len());
    assert("case_sensitive"@.len() != "max_results"@.len());
    assert("title"@.len() != "id"@.len());
    assert("title"@.len() != "tag"@.len());
    assert("title"@.len() != "category"@.len());
    assert("title"@.len() != "priority_low"@.len());
    assert("title"@.len() != "priority_normal"@.len());
    assert("title"@.len() != "priority_high"@.len());
    assert("title"@.len() != "priority_urgent"@.len());
    assert("title"@.len() != "separator"@.len());
    assert("title"@.len() != "date"@.len());
    assert("id"@.len() != "tag"@.len());
    assert("id"@.len() != "category"@.len());
    assert("id"@.len() != "priority_low"@.len());
    assert("id"@.len() != "priority_normal"@.len());
    assert("id"@.len() != "priority_high"@.len());
    assert("id"@.len() != "priority_urgent"@.len());
    assert("id"@.len() != "separator"@.len());
    assert("id"@.len() != "date"@.len());
    assert("tag"@.len() != "category"@.len());
    assert("tag"@.len() != "priority_low"@.len());
    assert("tag"@.len() != "priority_normal"@.len());
    assert("tag"@.len() != "priority_high"@.len());
    assert("tag"@.len() != "priority_urgent"@.len());
    assert("tag"@.len() != "separator"@.len());
    assert("tag"@.len() != "date"@.len());
    assert("category"@.len() != "priority_low"@.len());
    assert("category"@.len() != "priority_normal"@.len());
    assert("category"@.len() != "priority_high"@.len());
    assert("category"@.len() != "priority_urgent"@.len());
    assert("category"@.len() != "separator"@.len());
    assert("category"@.len() != "date"@.len());
    assert("priority_low"@.len() != "priority_normal"@.len());
    assert("priority_low"@.len() != "priority_high"@.len());
    assert("priority_low"@.len() != "priority_urgent"@.len());
    assert("priority_low"@.len() != "separator"@.len());
    assert("priority_low"@.len() != "date"@.len());
    assert("priority_normal"@.len() != "priority_high"@.len());
    assert("priority_normal"@[9] != "priority_urgent"@[9]);
    assert("priority_normal"@.len() != "separator"@.len());
    assert("priority_normal"@.len() != "date"@.len());
    assert("priority_high"@.len() != "priority_urgent"@.len());
    assert("priority_high"@.len() != "separator"@.len());
    assert("priority_high"@.len() != "date"@.len());
    assert("priority_urgent"@.len() != "separator"@.len());
    assert("priority_urgent"@.len() != "date"@.len());
    assert("separator"@.len() != "date"@.len());
}

/// `'value'` followed by a reason.
fn invalid_value(value: &str, reason: &str) -> (m: String)
    ensures
        m@ == "'"@ + value@ + reason@,
{
    let mut m = String::new();
    push_str(&mut m, "'");
    push_str(&mut m, value);
    push_str(&mut m, reason);
    m
}

/// Accepts `value` when it names a priority (`low`, `normal`, `high`, `urgent`).
fn validate_priority(value: &str) -> (r: Result<(), String>)
    ensures
        match r {
            Ok(()) => choice_words(Choices::Priority).contains(value@),
            Err(m) => !choice_words(Choices::Priority).contains(value@) && m@ == "'"@ + value@
                + "' 不是有效值，可选: "@ + choice_list(Choices::Priority),
        },
{
    validate_choice(value, Choices::Priority)
}

/// Accepts `value` when it is one of the words of `choices`.
fn validate_choice(value: &str, choices: Choices) -> (r: Result<(), String>)
    ensures
        match r {
            Ok(()) => choice_words(choices).contains(value@),
            Err(m) => !choice_words(choices).contains(value@) && m@ == "'"@ + value@
                + "' 不是有效值，可选: "@ + choice_list(choices),
        },
{
    let (words, list): (Vec<&'static str>, &'static str) = match choices {
        Choices::Priority => (vec!["low", "normal", "high", "urgent"], "low, normal, high, urgent"),
        Choices::SearchMode => (vec!["plain", "regex", "fuzzy"], "plain, regex, fuzzy"),
        Choices::TableStyle => (vec!["compact", "expanded", "markdown"], "compact, expanded, markdown"),
    };
    assert(words@.map_values(|w: &'static str| w@) =~= choice_words(choices));
    let mut i: usize = 0;
    while i < words.len()
        invariant
            i <= words.len(),
            words@.map_values(|w: &'static str| w@) == choice_words(choices),
            forall|k: int| 0 <= k < i ==> words@[k]@ != value@,
        decreases words.len() - i,
    {
        if str_eq(words[i], value) {
            assert(choice_words(choices)[i as int] == value@);
            return Ok(());
        }
        i += 1;
    }
    let mut m = String::new();
    push_str(&mut m, "'");
    push_str(&mut m, value);
    push_str(&mut m, "' 不是有效值，可选: ");
    push_str(&mut m, list);
    proof {
        if choice_words(choices).contains(value@) {
            let k = choose|k: int| 0 <= k < choice_words(choices).len() && choice_words(choices)[k] == value@;
            assert(words@[k]@ == value@);
        }
        assert("'"@ + value@ + "' 不是有效值，可选: "@ + list@ =~= "'"@ + value@ + "' 不是有效值，可选: "@ + choice_list(choices));
    }
    Err(m)
}

} // verus!
