//! The days that a request for daily bars covers.

use vstd::prelude::*;

verus! {

/// How many calendar days of bars are asked for: enough for half a year of
/// trading days.
pub const WINDOW_DAYS: i32 = 200;

/// The first day of the calendar, January 1 of the year -262143, counted with
/// January 1 of the year 1 as day 1.
pub const FIRST_DAY: i32 = -95_746_129;

/// The last day of the calendar, December 31 of the year 262142.
pub const LAST_DAY: i32 = 95_745_399;

/// The text that `chrono` writes for a day of the calendar: `YYYY-MM-DD`, with a sign
/// before a year that has more than four digits or is negative.
pub uninterp spec fn date_text(day: i32) -> Seq<char>;

/// `chrono::NaiveDate::from_num_days_from_ce_opt`, and the text of the date that
/// it gives: there is one exactly for the days of the calendar.
#[verifier::external_body]
fn format_day(day: i32) -> (r: Option<String>)
    ensures
        r is Some <==> FIRST_DAY <= day <= LAST_DAY,
        r matches Some(text) ==> text@ == date_text(day),
{
    match chrono::NaiveDate::from_num_days_from_ce_opt(day) {
        Some(date) => Some(date.to_string()),
        None => None,
    }
}

/// The first and the last day of a request for bars.
#[derive(Debug)]
pub struct Window {
    pub start: String,
    pub end: String,
}

/// What a window holds.
pub struct WindowView {
    pub start: Seq<char>,
    pub end: Seq<char>,
}

impl View for Window {
    type V = WindowView;

    open spec fn view(&self) -> WindowView {
        WindowView { start: self.start@, end: self.end@ }
    }
}

/// Whether a day and the day at the start of its window are in the calendar.
pub open spec fn has_window(today: i32) -> bool {
    FIRST_DAY + WINDOW_DAYS <= today <= LAST_DAY
}

/// The window that ends today.
pub open spec fn window_of(today: i32) -> WindowView {
    WindowView { start: date_text((today - WINDOW_DAYS) as i32), end: date_text(today) }
}

/// The window that ends today, given as a day number with January 1 of the year 1
/// as day 1.
pub fn bars_window(today: i32) -> (r: Option<Window>)
    ensures
        r is Some <==> has_window(today),
        r matches Some(window) ==> window@ == window_of(today),
{
    if today < FIRST_DAY + WINDOW_DAYS {
        return None;
    }
    match (format_day(today - WINDOW_DAYS), format_day(today)) {
        (Some(start), Some(end)) => Some(Window { start, end }),
        _ => None,
    }
}

/// A window ends on its own day and starts where the window of 200 days earlier ends,
/// so two windows 200 days apart meet in one day.
pub proof fn windows_meet_in_a_day(today: i32, later: i32)
    requires
        later == today + 200,
    ensures
        window_of(today).end == date_text(today),
        window_of(later).end == date_text(later),
        window_of(later).start == window_of(today).end,
{
}

/// A day has a window exactly where it and the day 200 days before it are in the
/// calendar; so between two days that have one, every day has one.
pub proof fn windows_lie_in_the_calendar(today: i32, other: i32, between: i32)
    ensures
        has_window(today) <==> -95_746_129 <= today - 200 && today <= 95_745_399,
        has_window(today) && has_window(other) && today <= between <= other ==> has_window(between),
{
}

/// A window stands for its own days.
pub proof fn windows_stand_for_their_days(window: Window)
    ensures
        window@.start == window.start@,
        window@.end == window.end@,
{
}

} // verus!
