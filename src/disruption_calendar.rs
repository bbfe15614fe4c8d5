//! An iCalendar calendar with one event per disruption, built with the icalendar crate.

use crate::disruption_time::DisruptionDate;
use crate::zone::CivilDate;
use chrono::NaiveDate;
use icalendar::{Calendar, Component, Event, EventLike};
use vstd::prelude::*;

verus! {

#[verifier::external_type_specification]
#[verifier::external_body]
pub struct ExCalendar(icalendar::Calendar);

// `Calendar` dereferences to a slice of these, so Verus needs the type declared.
#[verifier::external_type_specification]
#[verifier::external_body]
pub struct ExCalendarComponent(icalendar::CalendarComponent);

pub const CALENDAR_NAME: &'static str = "Timezone chaos meeting";

pub const CHAOS_SUMMARY: &'static str = "Meeting chaos period";

pub const CHAOS_DESCRIPTION: &'static str =
    "Beware, meeting conflicts may happen and move around, fasten your seat belt";

pub const PERMANENT_SUMMARY: &'static str = "Permament TZ change";

pub const PERMANENT_DESCRIPTION: &'static str =
    "The TZ is permanently changing in DST/not DST time (or there is a bug)";

/// Earliest and latest years of chrono's `NaiveDate`.
pub const MIN_DATE_YEAR: i32 = -262143;

pub const MAX_DATE_YEAR: i32 = 262142;

/// A date of the calendar was out of chrono's range or does not exist.
#[derive(Clone, Copy, Debug, PartialEq, Eq, Structural)]
pub struct InvalidDate;

/// An event as the calendar holds it: its start date (DTSTART), its end date (DTEND), its
/// summary and its description. An all-day event starts and ends on the same date.
pub type EventRecord = (CivilDate, CivilDate, Seq<char>, Seq<char>);

/// The events of a calendar, in order.
pub uninterp spec fn calendar_events(c: Calendar) -> Seq<EventRecord>;

/// The name that a calendar is given.
pub uninterp spec fn calendar_name(c: Calendar) -> Seq<char>;

pub open spec fn is_leap_year(year: int) -> bool {
    year % 4 == 0 && (year % 100 != 0 || year % 400 == 0)
}

pub open spec fn days_in_month(year: int, month: int) -> int {
    if month == 2 {
        if is_leap_year(year) {
            29
        } else {
            28
        }
    } else if month == 4 || month == 6 || month == 9 || month == 11 {
        30
    } else {
        31
    }
}

/// A date that chrono's `NaiveDate` can hold.
pub open spec fn is_valid_date(d: CivilDate) -> bool {
    &&& MIN_DATE_YEAR <= d.year <= MAX_DATE_YEAR
    &&& 1 <= d.month <= 12
    &&& 1 <= d.day <= days_in_month(d.year as int, d.month as int)
}

pub open spec fn disruption_dates_valid(d: DisruptionDate) -> bool {
    match d {
        DisruptionDate::DSTChaosPeriod(s, e) => is_valid_date(s) && is_valid_date(e),
        DisruptionDate::DSTPermanentChange(c) => is_valid_date(c),
    }
}

/// The event that stands for a disruption.
pub open spec fn event_of(d: DisruptionDate) -> EventRecord {
    match d {
        DisruptionDate::DSTChaosPeriod(s, e) => (s, e, CHAOS_SUMMARY@, CHAOS_DESCRIPTION@),
        DisruptionDate::DSTPermanentChange(c) => (c, c, PERMANENT_SUMMARY@, PERMANENT_DESCRIPTION@),
    }
}

pub fn is_valid_date_exec(d: CivilDate) -> (r: bool)
    ensures
        r == is_valid_date(d),
{
    if d.year < MIN_DATE_YEAR || d.year > MAX_DATE_YEAR || d.month < 1 || d.month > 12 {
        return false;
    }
    let leap = d.year % 4 == 0 && (d.year % 100 != 0 || d.year % 400 == 0);
    let days: u32 = if d.month == 2 {
        if leap {
            29
        } else {
            28
        }
    } else if d.month == 4 || d.month == 6 || d.month == 9 || d.month == 11 {
        30
    } else {
        31
    };
    1 <= d.day && d.day <= days
}

/// A calendar with one event per disruption, in order: a chaos period is an event from its
/// start to its end, a permanent change an all-day event on its date.
pub fn generate_ical(dates: &Vec<DisruptionDate>) -> (r: Result<Calendar, InvalidDate>)
    ensures
        match r {
            Ok(c) => {
                &&& forall|i: int| 0 <= i < dates@.len() ==> disruption_dates_valid(#[trigger] dates@[i])
                &&& calendar_events(c) == dates@.map_values(|d: DisruptionDate| event_of(d))
                &&& calendar_name(c) == CALENDAR_NAME@
            },
            Err(_) => exists|i: int|
                0 <= i < dates@.len() && !disruption_dates_valid(#[trigger] dates@[i]),
        },
{
    let mut cal = new_calendar(CALENDAR_NAME);
    let mut i: usize = 0;
    while i < dates.len()
        invariant
            i <= dates.len(),
            forall|j: int| 0 <= j < i ==> disruption_dates_valid(#[trigger] dates@[j]),
            calendar_events(cal) == dates@.subrange(0, i as int).map_values(
                |d: DisruptionDate| event_of(d),
            ),
            calendar_name(cal) == CALENDAR_NAME@,
        decreases dates.len() - i,
    {
        let d = dates[i];
        match d {
            DisruptionDate::DSTChaosPeriod(s, e) => {
                if !(is_valid_date_exec(s) && is_valid_date_exec(e)) {
                    return Err(InvalidDate);
                }
                push_period_event(&mut cal, s, e, CHAOS_SUMMARY, CHAOS_DESCRIPTION);
            },
            DisruptionDate::DSTPermanentChange(c) => {
                if !is_valid_date_exec(c) {
                    return Err(InvalidDate);
                }
                push_all_day_event(&mut cal, c, PERMANENT_SUMMARY, PERMANENT_DESCRIPTION);
            },
        }
        assert(dates@.subrange(0, i + 1).map_values(|d: DisruptionDate| event_of(d))
            =~= dates@.subrange(0, i as int).map_values(|d: DisruptionDate| event_of(d)).push(
            event_of(d),
        ));
        i = i + 1;
    }
    assert(dates@.subrange(0, dates.len() as int) =~= dates@);
    Ok(cal)
}

/// Relies on icalendar's `Calendar::new`, `Calendar::name` and `Calendar::done`: a calendar
/// with the given name and no components.
#[verifier::external_body]
fn new_calendar(name: &str) -> (r: Calendar)
    ensures
        calendar_events(r) == Seq::<EventRecord>::empty(),
        calendar_name(r) == name@,
{
    Calendar::new().name(name).done()
}

/// Relies on icalendar's `Event` builder (`starts`, `ends`, `summary`, `description`) and on
/// `Calendar::push`, which appends the event; chrono's `NaiveDate::from_ymd_opt` gives a
/// date for every valid one.
#[verifier::external_body]
fn push_period_event(
    cal: &mut Calendar,
    start: CivilDate,
    end: CivilDate,
    summary: &str,
    description: &str,
)
    requires
        is_valid_date(start),
        is_valid_date(end),
    ensures
        calendar_events(*final(cal)) == calendar_events(*old(cal)).push(
            (start, end, summary@, description@),
        ),
        calendar_name(*final(cal)) == calendar_name(*old(cal)),
{
    let s = NaiveDate::from_ymd_opt(start.year, start.month, start.day).unwrap_or_default();
    let e = NaiveDate::from_ymd_opt(end.year, end.month, end.day).unwrap_or_default();
    cal.push(Event::new().starts(s).ends(e).summary(summary).description(description).done());
}

/// Relies on icalendar's `Event` builder (`all_day`, `summary`, `description`) and on
/// `Calendar::push`, which appends the event; chrono's `NaiveDate::from_ymd_opt` gives a
/// date for every valid one.
#[verifier::external_body]
fn push_all_day_event(cal: &mut Calendar, day: CivilDate, summary: &str, description: &str)
    requires
        is_valid_date(day),
    ensures
        calendar_events(*final(cal)) == calendar_events(*old(cal)).push(
            (day, day, summary@, description@),
        ),
        calendar_name(*final(cal)) == calendar_name(*old(cal)),
{
    let d = NaiveDate::from_ymd_opt(day.year, day.month, day.day).unwrap_or_default();
    cal.push(Event::new().all_day(d).summary(summary).description(description).done());
}

} // verus!
