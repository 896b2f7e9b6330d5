//! Text styles: a foreground colour with bold and underline, read from
//! words such as `"cyan bold"`, and the theme that gives each element one.
use vstd::prelude::*;
use crate::text::{is_ws, trim_start, chars_of, is_whitespace, string_of_range, str_eq};

verus! {

/// A terminal colour.
#[derive(Debug, Clone, Copy, PartialEq, Eq, Structural)]
pub enum Color {
    Black,
    Red,
    Green,
    Yellow,
    Blue,
    Magenta,
    Cyan,
    White,
    BrightBlack,
    BrightRed,
    BrightGreen,
    BrightYellow,
    BrightBlue,
    BrightMagenta,
    BrightCyan,
    BrightWhite,
}

/// A text style.
#[derive(Debug, Clone, Copy, PartialEq, Eq, Structural)]
pub struct Style {
    pub fg: Option<Color>,
    pub bold: bool,
    pub underline: bool,
}

/// The plain style: no colour, neither bold nor underlined.
pub open spec fn plain_style() -> Style {
    Style { fg: None, bold: false, underline: false }
}

impl Default for Style {
    fn default() -> (s: Self)
        ensures
            s == plain_style(),
    {
        Style { fg: None, bold: false, underline: false }
    }
}

/// The index of the first white-space character of `s`, or its length.
pub open spec fn first_ws(s: Seq<char>) -> nat
    decreases s.len(),
{
    if s.len() == 0 {
        0
    } else if is_ws(s[0]) {
        0
    } else {
        1 + first_ws(s.drop_first())
    }
}

pub proof fn lemma_trim_start_len(s: Seq<char>)
    ensures
        trim_start(s).len() <= s.len(),
        trim_start(s).len() > 0 ==> !is_ws(trim_start(s)[0]),
        trim_start(s).len() > 0 ==> trim_start(s) == s.skip(s.len() - trim_start(s).len()),
    decreases s.len(),
{
    if s.len() > 0 && is_ws(s[0]) {
        lemma_trim_start_len(s.drop_first());
        assert(s.drop_first().skip(s.drop_first().len() - trim_start(s.drop_first()).len())
            =~= s.skip(s.len() - trim_start(s).len()));
    } else {
        assert(s.skip(0) =~= s);
    }
}

pub proof fn lemma_first_ws(s: Seq<char>)
    ensures
        first_ws(s) <= s.len(),
        first_ws(s) < s.len() ==> is_ws(s[first_ws(s) as int]),
        forall|k: int| 0 <= k < first_ws(s) ==> !is_ws(#[trigger] s[k]),
    decreases s.len(),
{
    if s.len() > 0 && !is_ws(s[0]) {
        lemma_first_ws(s.drop_first());
        assert forall|k: int| 0 <= k < first_ws(s) implies !is_ws(#[trigger] s[k]) by {
            if k > 0 {
                assert(s[k] == s.drop_first()[k - 1]);
            }
        }
    }
}

/// The white-space separated words of `s` (`str::split_whitespace`).
pub open spec fn words(s: Seq<char>) -> Seq<Seq<char>>
    decreases s.len(),
{
    let t = trim_start(s);
    if t.len() == 0 || t.len() > s.len() {
        seq![]
    } else {
        let e = first_ws(t);
        if 0 < e <= t.len() {
            seq![t.take(e as int)] + words(t.skip(e as int))
        } else {
            seq![]
        }
    }
}

/// The white-space separated words of `s`.
pub fn split_words(s: &str) -> (r: Vec<String>)
    ensures
        r@.map_values(|w: String| w@) == words(s@),
{
    let v = chars_of(s);
    let mut r: Vec<String> = Vec::new();
    let mut i: usize = 0;
    proof {
        assert(v@.skip(0) =~= v@);
    }
    while i < v.len()
        invariant
            v@ == s@,
            i <= v.len(),
            words(s@) == r@.map_values(|w: String| w@) + words(v@.skip(i as int)),
        decreases v.len() - i,
    {
        let ghost rest = v@.skip(i as int);
        let a = crate::text::skip_front(&v, i, v.len(), crate::text::CharClass::Space);
        proof {
            assert(v@.subrange(i as int, v@.len() as int) =~= rest);
            assert(v@.subrange(a as int, v@.len() as int) =~= v@.skip(a as int));
            lemma_trim_start_len(rest);
        }
        if a == v.len() {
            proof {
                assert(trim_start(rest).len() == 0);
                assert(words(rest) =~= Seq::<Seq<char>>::empty());
                assert(words(v@.skip(v@.len() as int)) =~= Seq::<Seq<char>>::empty());
            }
            i = a;
        } else {
            let mut b = a;
            let ghost t = v@.skip(a as int);
            proof {
                lemma_first_ws(t);
            }
            while b < v.len() && !is_whitespace(v[b])
                invariant
                    a <= b <= v.len(),
                    t == v@.skip(a as int),
                    forall|k: int| a <= k < b ==> !is_ws(#[trigger] v@[k]),
                    first_ws(t) >= b - a,
                decreases v.len() - b,
            {
                proof {
                    lemma_first_ws(t);
                    if first_ws(t) == b - a {
                        assert(t[b - a] == v@[b as int]);
                    }
                }
                b += 1;
            }
            proof {
                if b < v.len() {
                    assert(t[b - a] == v@[b as int]);
                }
                assert(first_ws(t) == b - a);
                assert(t.take(b - a) =~= v@.subrange(a as int, b as int));
                assert(t.skip(b - a) =~= v@.skip(b as int));
            }
            let word = string_of_range(&v, a, b);
            let ghost old_r = r@;
            r.push(word);
            proof {
                assert(r@.map_values(|w: String| w@) =~= old_r.map_values(|w: String| w@).push(word@));
            }
            i = b;
        }
    }
    proof {
        assert(words(v@.skip(i as int)) =~= Seq::<Seq<char>>::empty()) by {
            assert(v@.skip(i as int).len() == 0);
        }
    }
    r
}

/// The style after reading one more word: `bold`, `underline` or a colour
/// name; any other word changes nothing.
pub open spec fn apply_word(s: Style, w: Seq<char>) -> Style {
    if w == "bold"@ {
        Style { bold: true, ..s }
    } else if w == "underline"@ {
        Style { underline: true, ..s }
    } else if w == "black"@ {
        Style { fg: Some(Color::Black), ..s }
    } else if w == "red"@ {
        Style { fg: Some(Color::Red), ..s }
    } else if w == "green"@ {
        Style { fg: Some(Color::Green), ..s }
    } else if w == "yellow"@ {
        Style { fg: Some(Color::Yellow), ..s }
    } else if w == "blue"@ {
        Style { fg: Some(Color::Blue), ..s }
    } else if w == "magenta"@ {
        Style { fg: Some(Color::Magenta), ..s }
    } else if w == "cyan"@ {
        Style { fg: Some(Color::Cyan), ..s }
    } else if w == "white"@ {
        Style { fg: Some(Color::White), ..s }
    } else if w == "bright_black"@ {
        Style { fg: Some(Color::BrightBlack), ..s }
    } else if w == "gray"@ {
        Style { fg: Some(Color::BrightBlack), ..s }
    } else if w == "dark_gray"@ {
        Style { fg: Some(Color::BrightBlack), ..s }
    } else if w == "bright_red"@ {
        Style { fg: Some(Color::BrightRed), ..s }
    } else if w == "bright_green"@ {
        Style { fg: Some(Color::BrightGreen), ..s }
    } else if w == "bright_yellow"@ {
        Style { fg: Some(Color::BrightYellow), ..s }
    } else if w == "bright_blue"@ {
        Style { fg: Some(Color::BrightBlue), ..s }
    } else if w == "bright_magenta"@ {
        Style { fg: Some(Color::BrightMagenta), ..s }
    } else if w == "bright_cyan"@ {
        Style { fg: Some(Color::BrightCyan), ..s }
    } else if w == "bright_white"@ {
        Style { fg: Some(Color::BrightWhite), ..s }
    } else {
        s
    }
}

/// The style that the words of `s` describe, read left to right.
pub open spec fn parse_style(s: Seq<char>) -> Style {
    words(s).fold_left(plain_style(), style_step())
}

/// One step of reading a style: applying the next word.
pub open spec fn style_step() -> spec_fn(Style, Seq<char>) -> Style {
    |acc: Style, w: Seq<char>| apply_word(acc, w)
}

/// `t` read after `s`: the colour of `t` where it has one, else that of `s`;
/// bold and underline where either has them.
pub open spec fn combine_styles(s: Style, t: Style) -> Style {
    Style {
        fg: match t.fg {
            Some(c) => Some(c),
            None => s.fg,
        },
        bold: s.bold || t.bold,
        underline: s.underline || t.underline,
    }
}

/// Trimming the front of a concatenation.
proof fn lemma_trim_start_concat(x: Seq<char>, y: Seq<char>)
    ensures
        trim_start(x).len() == 0 ==> trim_start(x + y) == trim_start(y),
        trim_start(x).len() > 0 ==> trim_start(x + y) == trim_start(x) + y,
    decreases x.len(),
{
    if x.len() == 0 {
        assert(x + y =~= y);
    } else if is_ws(x[0]) {
        assert((x + y).drop_first() =~= x.drop_first() + y);
        lemma_trim_start_concat(x.drop_first(), y);
    } else {
        assert((x + y)[0] == x[0]);
    }
}

/// The first white space of a concatenation.
proof fn lemma_first_ws_concat(x: Seq<char>, y: Seq<char>)
    ensures
        first_ws(x + y) == if first_ws(x) < x.len() {
            first_ws(x)
        } else {
            x.len() + first_ws(y)
        },
    decreases x.len(),
{
    lemma_first_ws(x);
    if x.len() == 0 {
        assert(x + y =~= y);
    } else {
        assert((x + y)[0] == x[0]);
        if !is_ws(x[0]) {
            assert((x + y).drop_first() =~= x.drop_first() + y);
            lemma_first_ws_concat(x.drop_first(), y);
        }
    }
}

/// The words of two texts joined by a white-space character are the words
/// of the first followed by those of the second.
pub proof fn lemma_words_join(a: Seq<char>, c: char, b: Seq<char>)
    requires
        is_ws(c),
    ensures
        words(a + seq![c] + b) == words(a) + words(b),
    decreases a.len(),
{
    let s = a + seq![c] + b;
    let cb = seq![c] + b;
    let ta = trim_start(a);
    assert(s =~= a + cb);
    lemma_trim_start_concat(a, cb);
    lemma_trim_start_len(a);
    lemma_trim_start_len(b);
    assert(cb.drop_first() =~= b);
    assert(trim_start(cb) == trim_start(b));
    if ta.len() == 0 {
        assert(words(a) =~= Seq::<Seq<char>>::empty());
        assert(words(s) == words(b));
        assert(words(a) + words(b) =~= words(b));
    } else {
        let t = trim_start(s);
        assert(t =~= ta + cb);
        lemma_first_ws_concat(ta, cb);
        lemma_first_ws(ta);
        let e = first_ws(ta);
        assert(first_ws(cb) == 0);
        assert(first_ws(t) == e);
        assert(e > 0);
        assert(t.take(e as int) =~= ta.take(e as int));
        let rest = ta.skip(e as int);
        assert(t.skip(e as int) =~= rest + seq![c] + b);
        lemma_words_join(rest, c, b);
        assert(words(s) == seq![ta.take(e as int)] + words(rest + seq![c] + b));
        assert(words(a) == seq![ta.take(e as int)] + words(rest));
        assert(words(s) =~= words(a) + words(b));
    }
}

/// Reading words after a style `s` gives `s` combined with what the words
/// give on their own.
proof fn lemma_fold_from(ws: Seq<Seq<char>>, s: Style)
    ensures
        ws.fold_left(s, style_step()) == combine_styles(s, ws.fold_left(plain_style(), style_step())),
    decreases ws.len(),
{
    if ws.len() > 0 {
        lemma_fold_from(ws.drop_last(), s);
    }
}

/// Reading `a`, a blank and `b` gives the style of `b` read after that of
/// `a`: the colour of `b` where it names one, else that of `a`; bold and
/// underline where either asks for them.
pub proof fn law_parse_style_joins(a: Seq<char>, b: Seq<char>)
    ensures
        parse_style(a + seq![' '] + b) == combine_styles(parse_style(a), parse_style(b)),
{
    lemma_words_join(a, ' ', b);
    let w = words(a) + words(b);
    let k = words(a).len() as int;
    w.lemma_fold_left_split(plain_style(), style_step(), k);
    assert(w.subrange(0, k) =~= words(a));
    assert(w.subrange(k, w.len() as int) =~= words(b));
    lemma_fold_from(words(b), parse_style(a));
}

fn apply_word_exec(s: Style, w: &str) -> (r: Style)
    ensures
        r == apply_word(s, w@),
{
    if str_eq(w, "bold") {
        Style { bold: true, ..s }
    } else if str_eq(w, "underline") {
        Style { underline: true, ..s }
    } else if str_eq(w, "black") {
        Style { fg: Some(Color::Black), ..s }
    } else if str_eq(w, "red") {
        Style { fg: Some(Color::Red), ..s }
    } else if str_eq(w, "green") {
        Style { fg: Some(Color::Green), ..s }
    } else if str_eq(w, "yellow") {
        Style { fg: Some(Color::Yellow), ..s }
    } else if str_eq(w, "blue") {
        Style { fg: Some(Color::Blue), ..s }
    } else if str_eq(w, "magenta") {
        Style { fg: Some(Color::Magenta), ..s }
    } else if str_eq(w, "cyan") {
        Style { fg: Some(Color::Cyan), ..s }
    } else if str_eq(w, "white") {
        Style { fg: Some(Color::White), ..s }
    } else if str_eq(w, "bright_black") {
        Style { fg: Some(Color::BrightBlack), ..s }
    } else if str_eq(w, "gray") {
        Style { fg: Some(Color::BrightBlack), ..s }
    } else if str_eq(w, "dark_gray") {
        Style { fg: Some(Color::BrightBlack), ..s }
    } else if str_eq(w, "bright_red") {
        Style { fg: Some(Color::BrightRed), ..s }
    } else if str_eq(w, "bright_green") {
        Style { fg: Some(Color::BrightGreen), ..s }
    } else if str_eq(w, "bright_yellow") {
        Style { fg: Some(Color::BrightYellow), ..s }
    } else if str_eq(w, "bright_blue") {
        Style { fg: Some(Color::BrightBlue), ..s }
    } else if str_eq(w, "bright_magenta") {
        Style { fg: Some(Color::BrightMagenta), ..s }
    } else if str_eq(w, "bright_cyan") {
        Style { fg: Some(Color::BrightCyan), ..s }
    } else if str_eq(w, "bright_white") {
        Style { fg: Some(Color::BrightWhite), ..s }
    } else {
        s
    }
}

impl Style {
    /// The style that the white-space separated words of `s` describe; later
    /// words override earlier ones.
    pub fn parse(s: &str) -> (r: Self)
        ensures
            r == parse_style(s@),
    {
        let ws = split_words(s);
        let ghost ww = ws@.map_values(|w: String| w@);
        let mut style = Style::default();
        let mut i: usize = 0;
        while i < ws.len()
            invariant
                i <= ws.len(),
                ww == ws@.map_values(|w: String| w@),
                ww == words(s@),
                style == ww.take(i as int).fold_left(plain_style(), style_step()),
            decreases ws.len() - i,
        {
            proof {
                assert(ww.take(i + 1).drop_last() =~= ww.take(i as int));
            }
            style = apply_word_exec(style, ws[i].as_str());
            i += 1;
        }
        proof {
            assert(ww.take(ws.len() as int) =~= ww);
        }
        style
    }
}

/// The style of each displayed element, and whether colours are off.
#[derive(Debug)]
pub struct Theme {
    pub title: Style,
    pub id: Style,
    pub tag: Style,
    pub category: Style,
    pub priority_low: Style,
    pub priority_normal: Style,
    pub priority_high: Style,
    pub priority_urgent: Style,
    pub separator: Style,
    pub date: Style,
    pub no_color: bool,
}

impl Default for Theme {
    fn default() -> (t: Self)
        ensures
            t.title == parse_style("cyan bold"@),
            t.id == parse_style("yellow"@),
            t.tag == parse_style("green"@),
            t.category == parse_style("blue"@),
            t.priority_low == parse_style("white"@),
            t.priority_normal == parse_style("green"@),
            t.priority_high == parse_style("yellow bold"@),
            t.priority_urgent == parse_style("red bold"@),
            t.separator == parse_style("dark_gray"@),
            t.date == parse_style("dark_gray"@),
            !t.no_color,
    {
        Theme {
            title: Style::parse("cyan bold"),
            id: Style::parse("yellow"),
            tag: Style::parse("green"),
            category: Style::parse("blue"),
            priority_low: Style::parse("white"),
            priority_normal: Style::parse("green"),
            priority_high: Style::parse("yellow bold"),
            priority_urgent: Style::parse("red bold"),
            separator: Style::parse("dark_gray"),
            date: Style::parse("dark_gray"),
            no_color: false,
        }
    }
}

impl Theme {
    /// The theme that the `[theme]` section describes.
    pub fn from_config(cfg: &crate::config::ThemeConfig, no_color: bool) -> (t: Self)
        ensures
            t.title == parse_style(cfg.title@),
            t.id == parse_style(cfg.id@),
            t.tag == parse_style(cfg.tag@),
            t.category == parse_style(cfg.category@),
            t.priority_low == parse_style(cfg.priority_low@),
            t.priority_normal == parse_style(cfg.priority_normal@),
            t.priority_high == parse_style(cfg.priority_high@),
            t.priority_urgent == parse_style(cfg.priority_urgent@),
            t.separator == parse_style(cfg.separator@),
            t.date == parse_style(cfg.date@),
            t.no_color == no_color,
    {
        Theme {
            title: Style::parse(cfg.title.as_str()),
            id: Style::parse(cfg.id.as_str()),
            tag: Style::parse(cfg.tag.as_str()),
            category: Style::parse(cfg.category.as_str()),
            priority_low: Style::parse(cfg.priority_low.as_str()),
            priority_normal: Style::parse(cfg.priority_normal.as_str()),
            priority_high: Style::parse(cfg.priority_high.as_str()),
            priority_urgent: Style::parse(cfg.priority_urgent.as_str()),
            separator: Style::parse(cfg.separator.as_str()),
            date: Style::parse(cfg.date.as_str()),
            no_color,
        }
    }
}

impl Clone for Theme {
    fn clone(&self) -> (t: Self)
        ensures
            t == *self,
    {
        Theme {
            title: self.title,
            id: self.id,
            tag: self.tag,
            category: self.category,
            priority_low: self.priority_low,
            priority_normal: self.priority_normal,
            priority_high: self.priority_high,
            priority_urgent: self.priority_urgent,
            separator: self.separator,
            date: self.date,
            no_color: self.no_color,
        }
    }
}

} // verus!
