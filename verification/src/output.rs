//! The decisions behind the terminal output: which style and which table
//! colour each element gets under the theme.
use vstd::prelude::*;
use crate::text::str_eq;
use crate::theme::{Color, Style, Theme};

verus! {

/// The colours a table cell can be drawn in.
#[derive(Debug, Clone, Copy, PartialEq, Eq, Structural)]
pub enum TableColor {
    Reset,
    Black,
    Red,
    Green,
    Yellow,
    Blue,
    Magenta,
    Cyan,
    White,
    DarkGrey,
    Grey,
}

/// The table colour of a style: its foreground, the bright variants drawn in
/// their base colour except bright black (dark grey) and bright white (grey).
pub open spec fn table_color_of(style: Style) -> TableColor {
    match style.fg {
        None => TableColor::Reset,
        Some(c) => match c {
            Color::Black => TableColor::Black,
            Color::Red => TableColor::Red,
            Color::Green => TableColor::Green,
            Color::Yellow => TableColor::Yellow,
            Color::Blue => TableColor::Blue,
            Color::Magenta => TableColor::Magenta,
            Color::Cyan => TableColor::Cyan,
            Color::White => TableColor::White,
            Color::BrightBlack => TableColor::DarkGrey,
            Color::BrightRed => TableColor::Red,
            Color::BrightGreen => TableColor::Green,
            Color::BrightYellow => TableColor::Yellow,
            Color::BrightBlue => TableColor::Blue,
            Color::BrightMagenta => TableColor::Magenta,
            Color::BrightCyan => TableColor::Cyan,
            Color::BrightWhite => TableColor::Grey,
        },
    }
}

/// Writes messages, tables and styled text under a theme.
#[derive(Debug)]
pub struct Output {
    theme: Theme,
}

impl Output {
    pub closed spec fn theme_spec(&self) -> Theme {
        self.theme
    }

    pub fn new(theme: Theme) -> (o: Self)
        ensures
            o.theme_spec() == theme,
    {
        Self { theme }
    }

    pub fn theme(&self) -> (t: &Theme)
        ensures
            *t == self.theme_spec(),
    {
        &self.theme
    }

    /// The table colour of a style.
    pub fn to_tcolor(style: &Style) -> (c: TableColor)
        ensures
            c == table_color_of(*style),
    {
        match style.fg {
            None => TableColor::Reset,
            Some(c) => match c {
                Color::Black => TableColor::Black,
                Color::Red => TableColor::Red,
                Color::Green => TableColor::Green,
                Color::Yellow => TableColor::Yellow,
                Color::Blue => TableColor::Blue,
                Color::Magenta => TableColor::Magenta,
                Color::Cyan => TableColor::Cyan,
                Color::White => TableColor::White,
                Color::BrightBlack => TableColor::DarkGrey,
                Color::BrightRed => TableColor::Red,
                Color::BrightGreen => TableColor::Green,
                Color::BrightYellow => TableColor::Yellow,
                Color::BrightBlue => TableColor::Blue,
                Color::BrightMagenta => TableColor::Magenta,
                Color::BrightCyan => TableColor::Cyan,
                Color::BrightWhite => TableColor::Grey,
            },
        }
    }

    /// The table colour of a style, or no colour when colours are off.
    pub fn style_color(&self, style: &Style) -> (c: TableColor)
        ensures
            c == (if self.theme_spec().no_color {
                TableColor::Reset
            } else {
                table_color_of(*style)
            }),
    {
        if self.theme.no_color {
            TableColor::Reset
        } else {
            Self::to_tcolor(style)
        }
    }

    /// The style text is written in: the given one, or the plain style when
    /// colours are off.
    pub fn styled(&self, style: &Style) -> (s: Style)
        ensures
            s == (if self.theme_spec().no_color {
                crate::theme::plain_style()
            } else {
                *style
            }),
    {
        if self.theme.no_color {
            Style::default()
        } else {
            *style
        }
    }

    /// The style of a priority named `pri`: `low`, `high` and `urgent` have
    /// their own, anything else the normal one.
    pub fn priority_style(&self, pri: &str) -> (s: &Style)
        ensures
            *s == (if pri@ == "low"@ {
                self.theme_spec().priority_low
            } else if pri@ == "high"@ {
                self.theme_spec().priority_high
            } else if pri@ == "urgent"@ {
                self.theme_spec().priority_urgent
            } else {
                self.theme_spec().priority_normal
            }),
    {
        if str_eq(pri, "low") {
            &self.theme.priority_low
        } else if str_eq(pri, "high") {
            &self.theme.priority_high
        } else if str_eq(pri, "urgent") {
            &self.theme.priority_urgent
        } else {
            &self.theme.priority_normal
        }
    }
}

/// The three priority names that `priority_style` tells apart are distinct,
/// and each is the name of its priority.
pub proof fn lemma_priority_names_differ()
    ensures
        "low"@ != "high"@,
        "low"@ != "urgent"@,
        "high"@ != "urgent"@,
        "low"@ == crate::model::priority_text(crate::model::Priority::Low),
        "high"@ == crate::model::priority_text(crate::model::Priority::High),
        "urgent"@ == crate::model::priority_text(crate::model::Priority::Urgent),
{
    reveal_strlit("low");
    reveal_strlit("high");
    reveal_strlit("urgent");
    assert("low"@.len() != "high"@.len());
    assert("low"@.len() != "urgent"@.len());
    assert("high"@.len() != "urgent"@.len());
    assert("low"@ =~= crate::model::priority_text(crate::model::Priority::Low));
    assert("high"@ =~= crate::model::priority_text(crate::model::Priority::High));
    assert("urgent"@ =~= crate::model::priority_text(crate::model::Priority::Urgent));
}

} // verus!
