//! Points in time and calendar days, and the date expressions that select notes.
use vstd::prelude::*;
use crate::text::{chars_of, find_str, push_str, starts_with_str, string_of_range, CharClass};

verus! {

/// A point in time: seconds and nanoseconds since the Unix epoch, with the
/// offset from UTC (in seconds) of the zone it was taken in.
#[derive(Debug, Clone, Copy, PartialEq, Eq, Structural, Hash)]
pub struct Timestamp {
    pub secs: i64,
    pub nanos: u32,
    pub offset: i32,
}

/// The ranges that chrono guarantees for these fields (a leap second may
/// carry up to two billion nanoseconds).
pub open spec fn ts_valid(t: Timestamp) -> bool {
    t.nanos < 2_000_000_000 && -86_400 < t.offset < 86_400
}

/// The days-from-the-common-era number of 1970-01-01.
pub open spec fn epoch_day() -> int {
    719_163
}

/// The local calendar day of `t`, counted from the common era
/// (`NaiveDate::num_days_from_ce` of the date in the zone of `t`).
pub open spec fn local_day(t: Timestamp) -> int {
    (t.secs + t.offset) / 86_400 + epoch_day()
}

/// The earliest and latest day that a chrono date can hold.
pub open spec fn min_day() -> int {
    -95_746_129
}

pub open spec fn max_day() -> int {
    95_745_399
}

/// The local calendar day of `t`.
pub fn local_day_of(t: &Timestamp) -> (d: i64)
    ensures
        d == local_day(*t),
{
    let shift: i128 = 86_400 * 0x8000_0000_0000i128;
    let x: i128 = t.secs as i128 + t.offset as i128 + shift;
    assert(x >= 0);
    let q: i128 = ((x as u128) / 86_400u128) as i128;
    proof {
        let y = t.secs + t.offset;
        assert(x == y + 86_400 * 0x8000_0000_0000int);
        assert((y + 86_400 * 0x8000_0000_0000int) / 86_400 == y / 86_400 + 0x8000_0000_0000int) by {
            vstd::arithmetic::div_mod::lemma_hoist_over_denominator(y, 0x8000_0000_0000int, 86_400);
        }
    }
    (q - 0x8000_0000_0000i128 + 719_163i128) as i64
}

/// The current local time. Claimed: the fields are in the ranges that
/// chrono guarantees; nothing is stated of which instant it is.
#[verifier::external_body]
pub(crate) fn local_now() -> (t: Timestamp)
    ensures
        ts_valid(t),
{
    let now = chrono::Local::now();
    Timestamp {
        secs: now.timestamp(),
        nanos: now.timestamp_subsec_nanos(),
        offset: chrono::Offset::fix(now.offset()).local_minus_utc(),
    }
}

/// The day (counted from the common era) that `NaiveDate::parse_from_str`
/// reads from `s` with the format `fmt`, or `None` where it fails.
pub uninterp spec fn parsed_date(s: Seq<char>, fmt: Seq<char>) -> Option<i32>;

/// `chrono::NaiveDate::parse_from_str`, the date given as its day number.
/// Claimed: the result is `parsed_date` of the arguments.
#[verifier::external_body]
fn parse_date(s: &str, fmt: &str) -> (r: Option<i32>)
    ensures
        r == parsed_date(s@, fmt@),
{
    chrono::NaiveDate::parse_from_str(s, fmt).ok().map(|d| chrono::Datelike::num_days_from_ce(&d))
}

/// The year and month of the day `day` (counted from the common era), or
/// `None` where chrono holds no such date.
pub uninterp spec fn calendar_month(day: i32) -> Option<(i32, u32)>;

/// `chrono::NaiveDate::from_num_days_from_ce_opt`, read back as year and month.
/// Claimed: the result is `calendar_month` of the argument.
#[verifier::external_body]
fn year_month(day: i32) -> (r: Option<(i32, u32)>)
    ensures
        r == calendar_month(day),
{
    chrono::NaiveDate::from_num_days_from_ce_opt(day).map(
        |d| (chrono::Datelike::year(&d), chrono::Datelike::month(&d)),
    )
}

/// The text that chrono's `format` gives for the instant `(secs, nanos)` in
/// the zone `offset`, with the format `fmt`.
pub uninterp spec fn formatted_time(secs: i64, nanos: u32, offset: i32, fmt: Seq<char>) -> Seq<char>;

/// `DateTime::format`, for the date-and-minute format that notes display.
/// Claimed: the result is `formatted_time` of the fields and the format.
#[verifier::external_body]
fn format_time(t: &Timestamp, fmt: &str) -> (s: String)
    requires
        fmt@ == date_minute_format(),
    ensures
        s@ == formatted_time(t.secs, t.nanos, t.offset, fmt@),
{
    chrono::FixedOffset::east_opt(t.offset).and_then(
        |o| chrono::TimeZone::timestamp_opt(&o, t.secs, t.nanos).single(),
    ).map(|d| d.format(fmt).to_string()).unwrap_or_default()
}

/// `%Y-%m-%d %H:%M`.
pub open spec fn date_minute_format() -> Seq<char> {
    seq!['%', 'Y', '-', '%', 'm', '-', '%', 'd', ' ', '%', 'H', ':', '%', 'M']
}

/// `%Y-%m-%d`.
pub open spec fn date_format() -> Seq<char> {
    seq!['%', 'Y', '-', '%', 'm', '-', '%', 'd']
}

/// `t` shown as `YYYY-MM-DD hh:mm`, the way notes display their times.
pub fn format_minutes(t: &Timestamp) -> (s: String)
    ensures
        s@ == formatted_time(t.secs, t.nanos, t.offset, date_minute_format()),
{
    proof {
        reveal_strlit("%Y-%m-%d %H:%M");
        assert("%Y-%m-%d %H:%M"@ =~= date_minute_format());
    }
    format_time(t, "%Y-%m-%d %H:%M")
}

/// The day that `s` names in the form `YYYY-MM-DD`.
pub fn parse_ymd(s: &str) -> (r: Option<i32>)
    ensures
        r == parsed_date(s@, date_format()),
{
    proof {
        reveal_strlit("%Y-%m-%d");
        assert("%Y-%m-%d"@ =~= date_format());
    }
    parse_date(s, "%Y-%m-%d")
}

pub open spec fn today_text() -> Seq<char> {
    seq!['t', 'o', 'd', 'a', 'y']
}

pub open spec fn yesterday_text() -> Seq<char> {
    seq!['y', 'e', 's', 't', 'e', 'r', 'd', 'a', 'y']
}

pub open spec fn last_prefix() -> Seq<char> {
    seq!['l', 'a', 's', 't', '-']
}

/// The number of days in an expression `last-<N>d` (the trailing `d`s removed,
/// the rest read as an `i64`).
pub open spec fn last_days(expr: Seq<char>) -> Option<int> {
    if crate::text::starts_with(expr, last_prefix()) {
        crate::numeric::parse_signed(
            crate::text::trim_back(expr.skip(5), CharClass::Letter('d')),
        )
    } else {
        None
    }
}

/// The year and month that an expression `YYYY-MM` names.
pub open spec fn expr_month(expr: Seq<char>) -> Option<(i32, u32)> {
    match parsed_date(expr + seq!['-', '0', '1'], date_format()) {
        Some(d) => calendar_month(d),
        None => None,
    }
}

/// Whether the day `day` is selected by the date expression `expr`, today
/// being `today`: `today`, `yesterday`, a date `YYYY-MM-DD`, or `last-<N>d`
/// (the last N days up to today); any other text selects no day.
pub open spec fn day_matches(day: int, expr: Seq<char>, today: int) -> bool {
    if expr == today_text() {
        day == today
    } else if expr == yesterday_text() {
        day == today - 1
    } else {
        match parsed_date(expr, date_format()) {
            Some(d) => day == d,
            None => match last_days(expr) {
                Some(n) => today - n <= day <= today,
                None => false,
            },
        }
    }
}

/// The month `expr` names where it is no day expression of `day_matches`
/// but has the form `YYYY-MM`.
pub open spec fn month_form(expr: Seq<char>) -> Option<(i32, u32)> {
    if expr == today_text() || expr == yesterday_text() || parsed_date(expr, date_format()) is Some {
        None
    } else {
        expr_month(expr)
    }
}

/// `day_matches` with one more form: a month `YYYY-MM` selects the days of
/// that month.
pub open spec fn date_matches(day: int, expr: Seq<char>, today: int) -> bool {
    match month_form(expr) {
        Some(ym) => day == day as i32 && calendar_month(day as i32) == Some(ym),
        None => day_matches(day, expr, today),
    }
}

/// The inputs on which chrono's date arithmetic for the day expression
/// `expr` stays in range: `today` is a date chrono holds, and the day it
/// subtracts from it is one too (chrono panics otherwise).
pub open spec fn day_expr_defined(expr: Seq<char>, today: int) -> bool {
    &&& min_day() <= today <= max_day()
    &&& expr == yesterday_text() ==> min_day() <= today - 1
    &&& expr != today_text() && expr != yesterday_text() && parsed_date(expr, date_format()) is None
        ==> match last_days(expr) {
        Some(n) => min_day() <= today - n <= max_day(),
        None => true,
    }
}

/// `day_expr_defined` for the expressions of `date_matches`.
pub open spec fn date_expr_defined(expr: Seq<char>, today: int) -> bool {
    match month_form(expr) {
        Some(_) => min_day() <= today <= max_day(),
        None => day_expr_defined(expr, today),
    }
}

/// The days `last-<N>d` names, if `expr` has that form.
pub fn parse_last_days(expr: &str) -> (r: Option<i64>)
    ensures
        match r {
            Some(n) => last_days(expr@) == Some(n as int),
            None => last_days(expr@) is None,
        },
{
    proof {
        reveal_strlit("last-");
        assert("last-"@ =~= last_prefix());
    }
    if !starts_with_str(expr, "last-") {
        return None;
    }
    let v = chars_of(expr);
    let b = crate::text::skip_back(&v, 5, v.len(), CharClass::Letter('d'));
    let digits = string_of_range(&v, 5, b);
    proof {
        assert(v@.subrange(5, v@.len() as int) == expr@.skip(5));
    }
    crate::numeric::parse_i64(digits.as_str())
}

/// The year and month an expression `YYYY-MM` names (see `expr_month`).
fn month_of_expr(expr: &str) -> (r: Option<(i32, u32)>)
    ensures
        r == expr_month(expr@),
{
    let mut s = String::new();
    push_str(&mut s, expr);
    push_str(&mut s, "-01");
    proof {
        reveal_strlit("-01");
        assert(s@ =~= expr@ + seq!['-', '0', '1']);
    }
    match parse_ymd(s.as_str()) {
        Some(d) => year_month(d),
        None => None,
    }
}

/// The month `expr` names in the form `YYYY-MM`, where it is no other
/// date expression.
fn month_form_of(expr: &str) -> (r: Option<(i32, u32)>)
    ensures
        r == month_form(expr@),
{
    proof {
        reveal_strlit("today");
        reveal_strlit("yesterday");
        assert("today"@ =~= today_text());
        assert("yesterday"@ =~= yesterday_text());
    }
    if crate::text::str_eq(expr, "today") || crate::text::str_eq(expr, "yesterday") || parse_ymd(expr).is_some() {
        return None;
    }
    month_of_expr(expr)
}

/// Whether the day expression `expr` selects the day `day`, today being
/// `today` (see `day_matches`).
pub fn match_day(day: i64, expr: &str, today: i64) -> (r: bool)
    requires
        day_expr_defined(expr@, today as int),
    ensures
        r == day_matches(day as int, expr@, today as int),
{
    proof {
        reveal_strlit("today");
        reveal_strlit("yesterday");
        assert("today"@ =~= today_text());
        assert("yesterday"@ =~= yesterday_text());
    }
    if crate::text::str_eq(expr, "today") {
        return day == today;
    }
    if crate::text::str_eq(expr, "yesterday") {
        return day == today - 1;
    }
    if let Some(d) = parse_ymd(expr) {
        return day == d as i64;
    }
    match parse_last_days(expr) {
        Some(n) => today - n <= day && day <= today,
        None => false,
    }
}

/// Whether the date expression `expr` selects the day `day`, today being
/// `today` (see `date_matches`).
pub fn match_date(day: i64, expr: &str, today: i64) -> (r: bool)
    requires
        date_expr_defined(expr@, today as int),
    ensures
        r == date_matches(day as int, expr@, today as int),
{
    if let Some(ym) = month_form_of(expr) {
        if day < i32::MIN as i64 || day > i32::MAX as i64 {
            return false;
        }
        return match year_month(day as i32) {
            Some(m) => m.0 == ym.0 && m.1 == ym.1,
            None => false,
        };
    }
    match_day(day, expr, today)
}

/// Whether chrono's date arithmetic for the day expression `expr` stays in
/// range with today being `today` (see `day_expr_defined`).
pub fn day_expr_ok(expr: &str, today: i64) -> (r: bool)
    ensures
        r == day_expr_defined(expr@, today as int),
{
    proof {
        reveal_strlit("today");
        reveal_strlit("yesterday");
        assert("today"@ =~= today_text());
        assert("yesterday"@ =~= yesterday_text());
    }
    if today < -95_746_129 || today > 95_745_399 {
        return false;
    }
    if crate::text::str_eq(expr, "today") {
        return true;
    }
    if crate::text::str_eq(expr, "yesterday") {
        return today - 1 >= -95_746_129;
    }
    if parse_ymd(expr).is_some() {
        return true;
    }
    match parse_last_days(expr) {
        Some(n) => {
            let start: i128 = today as i128 - n as i128;
            -95_746_129 <= start && start <= 95_745_399
        },
        None => true,
    }
}

/// Whether chrono's date arithmetic for `expr` stays in range with today
/// being `today` (see `date_expr_defined`).
pub fn date_expr_ok(expr: &str, today: i64) -> (r: bool)
    ensures
        r == date_expr_defined(expr@, today as int),
{
    if month_form_of(expr).is_some() {
        return -95_746_129 <= today && today <= 95_745_399;
    }
    day_expr_ok(expr, today)
}

/// `match_date` where chrono's arithmetic stays in range, `None` elsewhere
/// (where chrono panics).
pub fn match_date_checked(day: i64, expr: &str, today: i64) -> (r: Option<bool>)
    ensures
        match r {
            Some(b) => date_expr_defined(expr@, today as int) && b == date_matches(day as int, expr@, today as int),
            None => !date_expr_defined(expr@, today as int),
        },
{
    if date_expr_ok(expr, today) {
        Some(match_date(day, expr, today))
    } else {
        None
    }
}

} // verus!
