//! The Calendar tile kind.
use vstd::prelude::*;
use chrono::Datelike;
use super::{definition_of, field, OptionRule, TileDefinition};

verus! {

/// The built-in definition of this kind.
pub open spec fn is_definition(d: TileDefinition) -> bool {
    &&& d.kind@ == "calendar"@
    &&& d.name@ == "Calendar"@
    &&& d.default_refresh_ms == 60000
    &&& d.sources@.len() == 0
    &&& d.rule == OptionRule::WeekStart
    &&& d.minimum_size == (25u16, 10u16)
    &&& d.fields@.len() == 1
    &&& d.fields@[0].key@ == "week_start"@
    &&& d.fields@[0].label@ == "Week starts (monday / sunday)"@
    &&& d.fields@[0].default@ == "monday"@
}

pub fn definition() -> (d: TileDefinition)
    ensures
        is_definition(d),
{
    definition_of("calendar", "Calendar", 60000, Vec::new(), vec![field("week_start", "Week starts (monday / sunday)", "monday")], OptionRule::WeekStart, (25, 10))
}

/// Whether `year` is a leap year of the proleptic Gregorian calendar.
pub open spec fn leap_year(year: int) -> bool {
    year % 4 == 0 && (year % 100 != 0 || year % 400 == 0)
}

/// The days of month `month` (1 to 12) of `year`.
pub open spec fn month_length(year: int, month: int) -> int {
    if month == 2 {
        if leap_year(year) { 29 } else { 28 }
    } else if month == 4 || month == 6 || month == 9 || month == 11 {
        30
    } else {
        31
    }
}

/// The days from 1 January of year 1 to 1 January of `year` (negative before it).
pub open spec fn days_before_year(year: int) -> int {
    let y = year - 1;
    365 * y + y / 4 - y / 100 + y / 400
}

/// The days from 1 January to the first of month `month` of `year`.
pub open spec fn days_before_month(year: int, month: int) -> int
    decreases month,
{
    if month <= 1 { 0 } else { days_before_month(year, month - 1) + month_length(year, month - 1) }
}

/// The weekday of the first of month `month` of `year`, counted from Monday (0 to 6);
/// 1 January of year 1 was a Monday.
pub open spec fn first_weekday(year: int, month: int) -> int {
    (days_before_year(year) + days_before_month(year, month)) % 7
}

/// The weekday of the first of the month and the month's length, for the months that
/// chrono's dates cover (years -262143 to 262142); none for another month or year.
pub open spec fn month_shape(year: i32, month: u32) -> Option<(u32, u32)> {
    if 1 <= month <= 12 && -262143 <= year <= 262142 {
        Some((first_weekday(year as int, month as int) as u32, month_length(year as int, month as int) as u32))
    } else {
        None
    }
}

/// chrono's `NaiveDate::from_ymd_opt(year, month, 1)`, then the date's
/// `weekday().num_days_from_monday()` and `num_days_in_month()`: the proleptic Gregorian
/// weekday and month length of [`month_shape`], for chrono's range of years.
#[verifier::external_body]
fn first_of_month(year: i32, month: u32) -> (r: Option<(u32, u32)>)
    ensures
        r == month_shape(year, month),
{
    match chrono::NaiveDate::from_ymd_opt(year, month, 1) {
        Some(first) => Some((first.weekday().num_days_from_monday(), u32::from(first.num_days_in_month()))),
        None => None,
    }
}

/// How many cells of the first week come before day 1, for a month starting on
/// `weekday` (counted from Monday) in a week that starts on Sunday or Monday.
pub open spec fn lead_cells(weekday: u32, sunday_first: bool) -> int {
    if sunday_first { (weekday + 1) % 7 } else { weekday as int }
}

/// The day shown in cell `k` (row-major, seven to a week) of a month of `days` days that
/// starts after `lead` empty cells; none outside the month.
pub open spec fn cell_day(k: int, lead: int, days: u32) -> Option<u32> {
    let d = k - lead + 1;
    if 1 <= d <= days { Some(d as u32) } else { None }
}

/// The six weeks of a month as 42 cells: a month of `days` days starting on `weekday`
/// (counted from Monday), in weeks that start on Sunday or Monday.
pub fn month_grid(weekday: u32, days: u32, sunday_first: bool) -> (r: Vec<Option<u32>>)
    requires
        weekday < 7,
        days <= 31,
    ensures
        r@.len() == 42,
        forall|k: int| 0 <= k < 42 ==> #[trigger] r@[k] == cell_day(k, lead_cells(weekday, sunday_first), days),
{
    let lead: u32 = if sunday_first { (weekday + 1) % 7 } else { weekday };
    let mut cells: Vec<Option<u32>> = Vec::new();
    let mut k: u32 = 0;
    while k < 42
        invariant
            k <= 42,
            lead as int == lead_cells(weekday, sunday_first),
            lead < 7,
            days <= 31,
            cells@.len() == k,
            forall|i: int| 0 <= i < k ==> #[trigger] cells@[i] == cell_day(i, lead as int, days),
        decreases 42 - k,
    {
        let day = if k + 1 >= lead && k + 1 - lead >= 1 && k + 1 - lead <= days { Some(k + 1 - lead) } else { None };
        cells.push(day);
        k += 1;
    }
    cells
}

/// The calendar of month `month` of `year`: its 42 cells (see [`month_grid`]), or none
/// when chrono has no such month.
pub fn month_cells(year: i32, month: u32, sunday_first: bool) -> (r: Option<Vec<Option<u32>>>)
    ensures
        r is Some <==> month_shape(year, month) is Some,
        r matches Some(cells) ==> {
            let (weekday, days) = month_shape(year, month)->0;
            &&& cells@.len() == 42
            &&& forall|k: int| 0 <= k < 42 ==> #[trigger] cells@[k] == cell_day(k, lead_cells(weekday, sunday_first), days)
        },
{
    match first_of_month(year, month) {
        Some((weekday, days)) => Some(month_grid(weekday, days, sunday_first)),
        None => None,
    }
}

} // verus!
