//! Zone identifiers and civil readings of zone clocks, over chrono and chrono-tz.

use chrono::{Datelike, MappedLocalTime, TimeZone, Timelike};
use chrono_tz::Tz;
use vstd::prelude::*;

verus! {

#[verifier::external_type_specification]
#[verifier::external_body]
pub struct ExTz(chrono_tz::Tz);

/// Whether chrono-tz's zone table holds `name`, exactly as written.
pub uninterp spec fn is_zone_name(name: Seq<char>) -> bool;

/// Unix timestamp of the instant at which the clock of the zone `zone` reads the given civil
/// date and time, where there is exactly one such instant.
pub uninterp spec fn local_instant(
    zone: Seq<char>,
    year: int,
    month: int,
    day: int,
    hour: int,
    minute: int,
    second: int,
) -> Option<i64>;

/// What the clock of the zone `zone` reads at the Unix timestamp `instant`, where that
/// instant lies in the representable range.
pub uninterp spec fn local_time_of(zone: Seq<char>, instant: int) -> Option<LocalTime>;

/// A calendar date, proleptic Gregorian.
#[derive(Clone, Copy, Debug, PartialEq, Eq, Structural)]
pub struct CivilDate {
    pub year: i32,
    pub month: u32,
    pub day: u32,
}

impl CivilDate {
    pub fn from_ymd(year: i32, month: u32, day: u32) -> (r: CivilDate)
        ensures
            r == (CivilDate { year, month, day }),
    {
        CivilDate { year, month, day }
    }
}

/// A reading of a zone's clock: its date and its time of day to the minute.
#[derive(Clone, Copy, Debug, PartialEq, Eq, Structural)]
pub struct LocalTime {
    pub date: CivilDate,
    pub hour: u32,
    pub minute: u32,
}

/// The name is not that of a zone in chrono-tz's table.
#[derive(Clone, Copy, Debug, PartialEq, Eq, Structural)]
pub struct InvalidTimezoneName;

/// A time zone of chrono-tz's table, known by its name.
///
/// Values are made only by `ZoneId::resolve`, so `tz` is always the zone that `name`
/// resolves to.
#[derive(Debug)]
pub struct ZoneId {
    name: String,
    tz: Tz,
}

impl View for ZoneId {
    type V = Seq<char>;

    open spec fn view(&self) -> Seq<char> {
        self.spec_name()
    }
}

impl PartialEq for ZoneId {
    fn eq(&self, other: &ZoneId) -> (r: bool)
        ensures
            r == (self@ == other@),
    {
        self.name == other.name
    }
}

impl vstd::std_specs::cmp::PartialEqSpecImpl for ZoneId {
    open spec fn obeys_eq_spec() -> bool {
        true
    }

    open spec fn eq_spec(&self, other: &ZoneId) -> bool {
        self@ == other@
    }
}

impl ZoneId {
    pub closed spec fn spec_name(&self) -> Seq<char> {
        self.name@
    }

    /// The zone whose name is exactly `name`; matching is case-sensitive.
    pub fn resolve(name: &str) -> (r: Result<ZoneId, InvalidTimezoneName>)
        ensures
            r is Ok <==> is_zone_name(name@),
            r matches Ok(z) ==> z@ == name@,
    {
        match lookup_zone(name) {
            Some(tz) => Ok(ZoneId { name: name.to_owned(), tz }),
            None => Err(InvalidTimezoneName),
        }
    }

    pub fn name(&self) -> (r: &str)
        ensures
            r@ == self@,
    {
        self.name.as_str()
    }

    pub fn tz(&self) -> Tz {
        self.tz
    }
}

/// Relies on chrono-tz's `FromStr for Tz`, a case-sensitive lookup of the whole string in
/// its compiled zone table.
#[verifier::external_body]
fn lookup_zone(name: &str) -> (r: Option<Tz>)
    ensures
        r is Some <==> is_zone_name(name@),
{
    name.parse::<Tz>().ok()
}

/// Relies on chrono's `TimeZone::with_ymd_and_hms`, `MappedLocalTime::single` and
/// `DateTime::timestamp` for chrono-tz's `Tz`: the zone's table alone decides the instant.
#[verifier::external_body]
pub(crate) fn local_instant_in(
    zone: &ZoneId,
    year: i32,
    month: u32,
    day: u32,
    hour: u32,
    minute: u32,
    second: u32,
) -> (r: Option<i64>)
    ensures
        r == local_instant(
            zone@,
            year as int,
            month as int,
            day as int,
            hour as int,
            minute as int,
            second as int,
        ),
{
    zone.tz.with_ymd_and_hms(year, month, day, hour, minute, second).single().map(|dt| dt.timestamp())
}

/// Relies on chrono's `TimeZone::timestamp_opt` for chrono-tz's `Tz`, and on chrono's
/// `Datelike` and `Timelike` readers, whose hour is below 24 and minute below 60.
#[verifier::external_body]
pub(crate) fn local_time_in(zone: &ZoneId, instant: i64) -> (r: Option<LocalTime>)
    ensures
        r == local_time_of(zone@, instant as int),
        r matches Some(t) ==> t.hour < 24 && t.minute < 60,
{
    match zone.tz.timestamp_opt(instant, 0) {
        MappedLocalTime::Single(dt) => Some(LocalTime {
            date: CivilDate { year: dt.year(), month: dt.month(), day: dt.day() },
            hour: dt.hour(),
            minute: dt.minute(),
        }),
        MappedLocalTime::Ambiguous(_, _) => None,
        MappedLocalTime::None => None,
    }
}

} // verus!
