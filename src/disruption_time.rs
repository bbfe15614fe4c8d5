//! Day-by-day scan of two zone clocks for changes of their mutual offset.

use crate::zone::{
    local_instant, local_instant_in, local_time_in, local_time_of, CivilDate, LocalTime, ZoneId,
};
use vstd::prelude::*;

verus! {

/// Seconds in one step of the scan: a day of elapsed time, not a calendar day.
pub const DAY_SECONDS: i64 = 86400;

/// A civil year spans at most this many days, which bounds the number of steps.
pub const MAX_SCAN_DAYS: u32 = 366;

/// A scan reads each clock first at noon on January 1.
pub const ANCHOR_MONTH: u32 = 1;

pub const ANCHOR_DAY: u32 = 1;

pub const ANCHOR_HOUR: u32 = 12;

/// Minutes in a day: offsets are compared modulo this.
pub const MINUTES_PER_DAY: u64 = 1440;

/// A change of the offset between two zones, dated by the first zone's calendar.
#[derive(Clone, Copy, Debug, PartialEq, Eq, Structural)]
pub enum DisruptionDate {
    /// The offset left its value of January 1 on the first date and came back on the second.
    DSTChaosPeriod(CivilDate, CivilDate),
    /// The offset left its value of January 1 on this date and had not come back by year end.
    DSTPermanentChange(CivilDate),
}

/// The two zones' clocks read at one step of the scan.
#[derive(Clone, Copy, Debug, PartialEq, Eq, Structural)]
pub struct Sample {
    pub primary: LocalTime,
    pub secondary: LocalTime,
}

/// The anchor instant of a scan could not be had from the zone database.
#[derive(Clone, Copy, Debug, PartialEq, Eq, Structural)]
pub struct ZoneTimeResolutionError;

pub open spec fn minute_of_day(t: LocalTime) -> int {
    t.hour * 60 + t.minute
}

/// Offset between the two clocks of a sample, in minutes, modulo a day.
pub open spec fn sample_offset(s: Sample) -> int {
    (minute_of_day(s.primary) - minute_of_day(s.secondary)) % (MINUTES_PER_DAY as int)
}

/// Events emitted so far, and the date on which the current divergence began, if any.
pub type ScanState = (Seq<DisruptionDate>, Option<CivilDate>);

/// One step of the scan: a divergence opens on the first sample off the baseline, and
/// closes into a chaos period on the first sample back on it.
pub open spec fn scan_step(baseline: int, st: ScanState, s: Sample) -> ScanState {
    if sample_offset(s) != baseline {
        if st.1 is None {
            (st.0, Some(s.primary.date))
        } else {
            st
        }
    } else {
        match st.1 {
            Some(d) => (st.0.push(DisruptionDate::DSTChaosPeriod(d, s.primary.date)), None),
            None => st,
        }
    }
}

pub open spec fn fold_samples(baseline: int, samples: Seq<Sample>) -> ScanState
    decreases samples.len(),
{
    if samples.len() == 0 {
        (Seq::empty(), None)
    } else {
        scan_step(baseline, fold_samples(baseline, samples.drop_last()), samples.last())
    }
}

/// The events of a scan whose first reading is `start` and whose later readings are
/// `samples`, in order; a divergence still open at the end is a permanent change.
pub open spec fn disruptions(start: Sample, samples: Seq<Sample>) -> Seq<DisruptionDate> {
    let st = fold_samples(sample_offset(start), samples);
    match st.1 {
        Some(d) => st.0.push(DisruptionDate::DSTPermanentChange(d)),
        None => st.0,
    }
}

/// What the zone's clock reads `k` days after the instant `anchor`; nothing where that
/// instant falls outside the 64-bit range.
pub open spec fn reading_at(zone: Seq<char>, anchor: int, k: int) -> Option<LocalTime> {
    let t = anchor + k * DAY_SECONDS;
    if i64::MIN <= t <= i64::MAX {
        local_time_of(zone, t)
    } else {
        None
    }
}

/// The samples taken after step `k`, whose primary reading is `cur`: the scan goes on while
/// that reading is still in `year`, for at most `MAX_SCAN_DAYS` steps.
pub open spec fn samples_from(
    z1: Seq<char>,
    z2: Seq<char>,
    a1: int,
    a2: int,
    year: int,
    k: nat,
    cur: LocalTime,
) -> Option<Seq<Sample>>
    decreases MAX_SCAN_DAYS - k,
{
    if k < MAX_SCAN_DAYS && cur.date.year <= year {
        match (reading_at(z1, a1, k + 1 as int), reading_at(z2, a2, k + 1 as int)) {
            (Some(p), Some(s)) => match samples_from(z1, z2, a1, a2, year, (k + 1) as nat, p) {
                Some(rest) => Some(seq![Sample { primary: p, secondary: s }] + rest),
                None => None,
            },
            _ => None,
        }
    } else {
        Some(Seq::empty())
    }
}

/// The outcome of a scan of `year` whose zones' clocks are first read at `a1` and `a2`.
pub open spec fn scan_from_anchors(
    z1: Seq<char>,
    z2: Seq<char>,
    a1: int,
    a2: int,
    year: int,
) -> Option<Seq<DisruptionDate>> {
    match (reading_at(z1, a1, 0), reading_at(z2, a2, 0)) {
        (Some(p), Some(s)) => match samples_from(z1, z2, a1, a2, year, 0, p) {
            Some(samples) => Some(disruptions(Sample { primary: p, secondary: s }, samples)),
            None => None,
        },
        _ => None,
    }
}

/// The offset of a sample as `sample_offset` defines it.
pub fn clock_offset(s: &Sample) -> (r: u64)
    ensures
        r == sample_offset(*s),
{
    let a: u64 = (s.primary.hour as u64 * 60 + s.primary.minute as u64) % MINUTES_PER_DAY;
    let b: u64 = (s.secondary.hour as u64 * 60 + s.secondary.minute as u64) % MINUTES_PER_DAY;
    proof {
        vstd::arithmetic::div_mod::lemma_sub_mod_noop(
            minute_of_day(s.primary),
            minute_of_day(s.secondary),
            1440,
        );
    }
    if a >= b {
        a - b
    } else {
        proof {
            vstd::arithmetic::div_mod::lemma_mod_add_multiples_vanish(a - b, 1440);
        }
        a + MINUTES_PER_DAY - b
    }
}

/// The events of a scan whose first reading is `start` and whose later readings are `samples`.
pub fn disruptions_from_samples(start: &Sample, samples: &Vec<Sample>) -> (r: Vec<DisruptionDate>)
    ensures
        r@ == disruptions(*start, samples@),
{
    let baseline = clock_offset(start);
    let mut res: Vec<DisruptionDate> = Vec::new();
    let mut change_date: Option<CivilDate> = None;
    let mut i: usize = 0;
    while i < samples.len()
        invariant
            i <= samples.len(),
            baseline == sample_offset(*start),
            (res@, change_date) == fold_samples(baseline as int, samples@.subrange(0, i as int)),
        decreases samples.len() - i,
    {
        let s = samples[i];
        let offset = clock_offset(&s);
        if offset != baseline {
            if change_date.is_none() {
                change_date = Some(s.primary.date);
            }
        } else {
            match change_date {
                Some(d) => {
                    res.push(DisruptionDate::DSTChaosPeriod(d, s.primary.date));
                    change_date = None;
                },
                None => {},
            }
        }
        assert(samples@.subrange(0, i + 1).drop_last() =~= samples@.subrange(0, i as int));
        i = i + 1;
    }
    assert(samples@.subrange(0, samples.len() as int) =~= samples@);
    match change_date {
        Some(d) => res.push(DisruptionDate::DSTPermanentChange(d)),
        None => {},
    }
    res
}

/// The instant at which the clock of `zone` reads noon on January 1 of `year`.
pub open spec fn new_year_noon(zone: Seq<char>, year: int) -> Option<i64> {
    local_instant(zone, year, ANCHOR_MONTH as int, ANCHOR_DAY as int, ANCHOR_HOUR as int, 0, 0)
}

/// The instant at which the clock of `zone` reads noon on January 1 of `year`.
pub(crate) fn new_year_noon_in(zone: &ZoneId, year: i32) -> (r: Option<i64>)
    ensures
        r == new_year_noon(zone@, year as int),
{
    local_instant_in(zone, year, ANCHOR_MONTH, ANCHOR_DAY, ANCHOR_HOUR, 0, 0)
}

/// The outcome of a scan of `year` in which each zone's clock is first read at noon on
/// January 1 of its own calendar.
pub open spec fn scan_spec(z1: Seq<char>, z2: Seq<char>, year: int) -> Option<Seq<DisruptionDate>> {
    match (new_year_noon(z1, year), new_year_noon(z2, year)) {
        (Some(a1), Some(a2)) => scan_from_anchors(z1, z2, a1 as int, a2 as int, year),
        _ => None,
    }
}

/// Samples both clocks once a day from the anchors `a1` and `a2` while the primary clock is
/// still in `year`, and reports the offset changes.
pub(crate) fn scan_from(
    primary: &ZoneId,
    secondary: &ZoneId,
    a1: i64,
    a2: i64,
    year: i32,
) -> (r: Option<Vec<DisruptionDate>>)
    ensures
        match r {
            Some(v) => scan_from_anchors(primary@, secondary@, a1 as int, a2 as int, year as int)
                == Some(v@),
            None => scan_from_anchors(primary@, secondary@, a1 as int, a2 as int, year as int)
                is None,
        },
{
    let ghost z1 = primary@;
    let ghost z2 = secondary@;
    let first_p = match local_time_in(primary, a1) {
        Some(t) => t,
        None => return None,
    };
    let first_s = match local_time_in(secondary, a2) {
        Some(t) => t,
        None => return None,
    };
    assert(reading_at(z1, a1 as int, 0) == Some(first_p));
    assert(reading_at(z2, a2 as int, 0) == Some(first_s));
    let ghost all = samples_from(z1, z2, a1 as int, a2 as int, year as int, 0, first_p);
    let mut samples: Vec<Sample> = Vec::new();
    let mut t1: i64 = a1;
    let mut t2: i64 = a2;
    let mut cur: LocalTime = first_p;
    let mut k: u32 = 0;
    while k < MAX_SCAN_DAYS && cur.date.year <= year
        invariant
            k <= MAX_SCAN_DAYS,
            z1 == primary@,
            z2 == secondary@,
            reading_at(z1, a1 as int, 0) == Some(first_p),
            reading_at(z2, a2 as int, 0) == Some(first_s),
            t1 == a1 + k * DAY_SECONDS,
            t2 == a2 + k * DAY_SECONDS,
            all == samples_from(z1, z2, a1 as int, a2 as int, year as int, 0, first_p),
            all == match samples_from(z1, z2, a1 as int, a2 as int, year as int, k as nat, cur) {
                Some(rest) => Some(samples@ + rest),
                None => None::<Seq<Sample>>,
            },
        decreases MAX_SCAN_DAYS - k,
    {
        let ghost k1: int = k + 1;
        let ghost here = samples_from(z1, z2, a1 as int, a2 as int, year as int, k as nat, cur);
        t1 = match t1.checked_add(DAY_SECONDS) {
            Some(t) => t,
            None => {
                assert(reading_at(z1, a1 as int, k1) is None);
                assert(here is None);
                return None;
            },
        };
        let p = match local_time_in(primary, t1) {
            Some(t) => t,
            None => {
                assert(reading_at(z1, a1 as int, k1) is None);
                assert(here is None);
                return None;
            },
        };
        t2 = match t2.checked_add(DAY_SECONDS) {
            Some(t) => t,
            None => {
                assert(reading_at(z2, a2 as int, k1) is None);
                assert(here is None);
                return None;
            },
        };
        let s = match local_time_in(secondary, t2) {
            Some(t) => t,
            None => {
                assert(reading_at(z2, a2 as int, k1) is None);
                assert(here is None);
                return None;
            },
        };
        assert(reading_at(z1, a1 as int, k1) == Some(p));
        assert(reading_at(z2, a2 as int, k1) == Some(s));
        let ghost old_samples = samples@;
        let sample = Sample { primary: p, secondary: s };
        samples.push(sample);
        proof {
            match samples_from(z1, z2, a1 as int, a2 as int, year as int, k1 as nat, p) {
                Some(rest) => {
                    assert(old_samples + (seq![sample] + rest) =~= samples@ + rest);
                },
                None => {},
            }
        }
        cur = p;
        k = k + 1;
    }
    assert(samples_from(z1, z2, a1 as int, a2 as int, year as int, k as nat, cur) == Some(
        Seq::<Sample>::empty(),
    ));
    assert(samples@ + Seq::<Sample>::empty() =~= samples@);
    let start = Sample { primary: first_p, secondary: first_s };
    Some(disruptions_from_samples(&start, &samples))
}

/// Scans `year` for changes of the offset between `tz_1` and `tz_2`, reading each zone's
/// clock from noon on January 1 of its own calendar, and stepping both by whole days of
/// elapsed time while `tz_1`'s calendar is still in `year`.
pub fn get_disruption_dates(year: i32, tz_1: &ZoneId, tz_2: &ZoneId) -> (r: Result<
    Vec<DisruptionDate>,
    ZoneTimeResolutionError,
>)
    ensures
        match r {
            Ok(v) => scan_spec(tz_1@, tz_2@, year as int) == Some(v@),
            Err(_) => scan_spec(tz_1@, tz_2@, year as int) is None,
        },
{
    let a1 = match new_year_noon_in(tz_1, year) {
        Some(a) => a,
        None => return Err(ZoneTimeResolutionError),
    };
    let a2 = match new_year_noon_in(tz_2, year) {
        Some(a) => a,
        None => return Err(ZoneTimeResolutionError),
    };
    match scan_from(tz_1, tz_2, a1, a2, year) {
        Some(v) => Ok(v),
        None => Err(ZoneTimeResolutionError),
    }
}

proof fn lemma_fold_only_chaos(baseline: int, samples: Seq<Sample>)
    ensures
        forall|i: int|
            0 <= i < fold_samples(baseline, samples).0.len() ==> (#[trigger] fold_samples(
                baseline,
                samples,
            ).0[i]) is DSTChaosPeriod,
    decreases samples.len(),
{
    if samples.len() > 0 {
        lemma_fold_only_chaos(baseline, samples.drop_last());
    }
}

/// At most one divergence is still open when a scan ends: every event but the last is a
/// chaos period, and a permanent change can only come last.
pub proof fn lemma_permanent_change_is_last(start: Sample, samples: Seq<Sample>)
    ensures
        forall|i: int|
            0 <= i < disruptions(start, samples).len() - 1 ==> (#[trigger] disruptions(
                start,
                samples,
            )[i]) is DSTChaosPeriod,
        fold_samples(sample_offset(start), samples).1 is None ==> forall|i: int|
            0 <= i < disruptions(start, samples).len() ==> (#[trigger] disruptions(
                start,
                samples,
            )[i]) is DSTChaosPeriod,
{
    lemma_fold_only_chaos(sample_offset(start), samples);
}

/// When every later reading shows the offset of the first one, there is nothing to report.
pub proof fn lemma_steady_offset_no_events(start: Sample, samples: Seq<Sample>)
    requires
        forall|i: int| 0 <= i < samples.len() ==> sample_offset(#[trigger] samples[i])
            == sample_offset(start),
    ensures
        disruptions(start, samples) == Seq::<DisruptionDate>::empty(),
    decreases samples.len(),
{
    if samples.len() > 0 {
        let prefix = samples.drop_last();
        assert forall|i: int| 0 <= i < prefix.len() implies sample_offset(#[trigger] prefix[i])
            == sample_offset(start) by {
            assert(prefix[i] == samples[i]);
        }
        lemma_steady_offset_no_events(start, prefix);
    }
}

} // verus!
