//! The timeline: notes modified today, this week or on a given day.
use vstd::prelude::*;
use crate::model::{notes_view, NoteIndexModel, NoteView};
use crate::storage::DataBaseStorage;
use crate::time::{date_format, local_day, local_day_of, max_day, min_day, parse_ymd, parsed_date};

verus! {

/// Why the timeline is not shown.
#[derive(Debug, Clone, Copy, PartialEq, Eq, Structural)]
pub enum LogError {
    /// The date is not of the form `YYYY-MM-DD`.
    BadDate,
    /// Today's week starts before the earliest date chrono holds.
    OutOfRange,
}

/// Days since the Monday of the week of `day` (day 1, 0001-01-01, was a
/// Monday).
pub open spec fn days_since_monday(day: int) -> int {
    (day - 1) % 7
}

/// The property of a note of having been modified on a day in `[lo, hi]`.
pub open spec fn modified_within(lo: int, hi: int) -> spec_fn(NoteView) -> bool {
    |n: NoteView| lo <= local_day(n.modified) <= hi
}

/// The notes the timeline shows, today being `today`: with `week` those
/// modified since the Monday of this week, with a date those modified that
/// day, else those modified today.
pub fn handle_at(week: bool, date: &Option<String>, storage: &DataBaseStorage, today: i64) -> (r: Result<Vec<NoteIndexModel>, LogError>)
    requires
        min_day() <= today <= max_day(),
        week ==> min_day() <= today - days_since_monday(today as int),
    ensures
        week ==> (r matches Ok(v) && notes_view(v@) == storage.notes().filter(
            modified_within(today - days_since_monday(today as int), i64::MAX as int),
        )),
        !week && date is None ==> (r matches Ok(v) && notes_view(v@) == storage.notes().filter(
            modified_within(today as int, today as int),
        )),
        !week && date is Some ==> match parsed_date(date->Some_0@, date_format()) {
            Some(d) => r matches Ok(v) && notes_view(v@) == storage.notes().filter(
                modified_within(d as int, d as int),
            ),
            None => r == Err::<Vec<NoteIndexModel>, LogError>(LogError::BadDate),
        },
{
    let (lo, hi): (i64, i64) = if week {
        let back: i64 = (today - 1) % 7;
        let back: i64 = if back < 0 {
            back + 7
        } else {
            back
        };
        assert(back == days_since_monday(today as int));
        (today - back, i64::MAX)
    } else {
        match date {
            Some(d) => match parse_ymd(d.as_str()) {
                Some(x) => (x as i64, x as i64),
                None => return Err(LogError::BadDate),
            },
            None => (today, today),
        }
    };
    let ghost p = modified_within(lo as int, hi as int);
    let all = storage.list_notes();
    let ghost src = storage.notes();
    let mut kept: Vec<NoteIndexModel> = Vec::new();
    let mut i: usize = 0;
    while i < all.len()
        invariant
            i <= all@.len(),
            all@.len() == src.len(),
            src == storage.notes(),
            forall|k: int| 0 <= k < all@.len() ==> (#[trigger] all@[k])@ == src[k],
            p == modified_within(lo as int, hi as int),
            notes_view(kept@) == src.take(i as int).filter(p),
        decreases all.len() - i,
    {
        assert(src.take(i + 1).drop_last() =~= src.take(i as int));
        reveal_with_fuel(Seq::<_>::filter, 1);
        let day = local_day_of(&all[i].modified);
        if lo <= day && day <= hi {
            let ghost before = kept@;
            kept.push(all[i].clone());
            assert(notes_view(kept@) =~= notes_view(before).push(src[i as int]));
        }
        i += 1;
    }
    assert(src.take(i as int) =~= src);
    Ok(kept)
}

/// The timeline on the day the clock gives (see `handle_at`); refused
/// where chrono could not step back to this week's Monday.
pub fn handle(week: bool, date: &Option<String>, storage: &DataBaseStorage) -> (r: Result<Vec<NoteIndexModel>, LogError>)
    ensures
        exists|now: crate::time::Timestamp|
            crate::time::ts_valid(now) && ({
                let today = local_day(now);
                if !(min_day() <= today <= max_day()) || (week && today - days_since_monday(today) < min_day()) {
                    r == Err::<Vec<NoteIndexModel>, LogError>(LogError::OutOfRange)
                } else if week {
                    r matches Ok(v) && notes_view(v@) == storage.notes().filter(
                        modified_within(today - days_since_monday(today), i64::MAX as int),
                    )
                } else if date is None {
                    r matches Ok(v) && notes_view(v@) == storage.notes().filter(modified_within(today, today))
                } else {
                    match parsed_date(date->Some_0@, date_format()) {
                        Some(d) => r matches Ok(v) && notes_view(v@) == storage.notes().filter(
                            modified_within(d as int, d as int),
                        ),
                        None => r == Err::<Vec<NoteIndexModel>, LogError>(LogError::BadDate),
                    }
                }
            }),
{
    let now = crate::time::local_now();
    let today = local_day_of(&now);
    if today < -95_746_129 || today > 95_745_399 {
        return Err(LogError::OutOfRange);
    }
    let back: i64 = (today - 1) % 7;
    let back: i64 = if back < 0 {
        back + 7
    } else {
        back
    };
    assert(back == days_since_monday(today as int));
    if week && today - back < -95_746_129 {
        return Err(LogError::OutOfRange);
    }
    handle_at(week, date, storage, today)
}

} // verus!
