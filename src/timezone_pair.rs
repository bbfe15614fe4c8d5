//! Parsing an ordered pair of zones out of slash-separated segments, and scanning it.

pub use crate::disruption_time::DisruptionDate;
use crate::disruption_time::{
    new_year_noon, new_year_noon_in, scan_from, scan_from_anchors, ZoneTimeResolutionError,
};
use crate::zone::{is_zone_name, ZoneId};
use chrono_tz::Tz;
use vstd::prelude::*;

verus! {

/// Two zone names of at most three segments each: longer inputs are refused outright.
pub const MAX_SEGMENTS: usize = 6;

/// Relies on `String::push_str`, which appends the string slice.
pub assume_specification[ String::push_str ](s: &mut String, string: &str)
    ensures
        final(s)@ == old(s)@ + string@,
;

/// Relies on `String::push`, which appends the character.
pub assume_specification[ String::push ](s: &mut String, ch: char)
    ensures
        final(s)@ == old(s)@.push(ch),
;

/// The pieces of `s` between slashes, as `str::split('/')` gives them: always at least one,
/// empty pieces included.
pub open spec fn split_spec(s: Seq<char>) -> Seq<Seq<char>>
    decreases s.len(),
{
    if s.len() == 0 {
        seq![Seq::empty()]
    } else {
        let rest = split_spec(s.drop_last());
        if s.last() == '/' {
            rest.push(Seq::empty())
        } else {
            rest.update(rest.len() - 1, rest.last().push(s.last()))
        }
    }
}

/// The segments joined with slashes.
pub open spec fn join_segments(segs: Seq<Seq<char>>) -> Seq<char>
    decreases segs.len(),
{
    if segs.len() == 0 {
        Seq::empty()
    } else if segs.len() == 1 {
        segs[0]
    } else {
        join_segments(segs.drop_last()) + seq!['/'] + segs.last()
    }
}

/// The characters of each string slice.
pub open spec fn str_views(paths: Seq<&str>) -> Seq<Seq<char>> {
    paths.map_values(|p: &str| p@)
}

/// The greedy parse after the segments `segs`: the zone names resolved so far, and the
/// unresolved run of segments, each followed by a slash.
pub open spec fn parse_fold(segs: Seq<Seq<char>>) -> (Seq<Seq<char>>, Seq<char>)
    decreases segs.len(),
{
    if segs.len() == 0 {
        (Seq::empty(), Seq::empty())
    } else {
        let (names, acc) = parse_fold(segs.drop_last());
        let candidate = acc + segs.last();
        if is_zone_name(candidate) {
            (names.push(candidate), Seq::empty())
        } else {
            (names, candidate.push('/'))
        }
    }
}

/// The pair that the segments parse to: exactly two names resolved and nothing left over,
/// from at most `MAX_SEGMENTS` segments.
pub open spec fn parse_spec(segs: Seq<Seq<char>>) -> Option<(Seq<char>, Seq<char>)> {
    if segs.len() > MAX_SEGMENTS {
        None
    } else {
        let (names, acc) = parse_fold(segs);
        if names.len() == 2 && acc.len() == 0 {
            Some((names[0], names[1]))
        } else {
            None
        }
    }
}

/// The segments did not parse to exactly two zones.
#[derive(Clone, Copy, Debug, PartialEq, Eq, Structural)]
pub struct InvalidTimezonePair;

/// An ordered pair of zones; the primary zone's calendar drives the scan.
#[derive(Debug)]
pub struct TimezonePair {
    primary: ZoneId,
    secondary: ZoneId,
}

impl View for TimezonePair {
    type V = (Seq<char>, Seq<char>);

    open spec fn view(&self) -> (Seq<char>, Seq<char>) {
        (self.spec_primary()@, self.spec_secondary()@)
    }
}

impl PartialEq for TimezonePair {
    fn eq(&self, other: &TimezonePair) -> (r: bool)
        ensures
            r == (self@ == other@),
    {
        self.primary == other.primary && self.secondary == other.secondary
    }
}

impl vstd::std_specs::cmp::PartialEqSpecImpl for TimezonePair {
    open spec fn obeys_eq_spec() -> bool {
        true
    }

    open spec fn eq_spec(&self, other: &TimezonePair) -> bool {
        self@ == other@
    }
}

/// The outcome of a scan of `year` in which both clocks are first read at the instant at
/// which the primary zone's clock reads noon on January 1.
pub open spec fn pair_scan_spec(z1: Seq<char>, z2: Seq<char>, year: int) -> Option<
    Seq<DisruptionDate>,
> {
    match new_year_noon(z1, year) {
        Some(a) => scan_from_anchors(z1, z2, a as int, a as int, year),
        None => None,
    }
}

/// The events of the scans of the `count` years from `first`, one year after the other;
/// nothing where any of those scans fails.
pub open spec fn years_scan_spec(z1: Seq<char>, z2: Seq<char>, first: int, count: nat) -> Option<
    Seq<DisruptionDate>,
>
    decreases count,
{
    if count == 0 {
        Some(Seq::empty())
    } else {
        match (
            years_scan_spec(z1, z2, first, (count - 1) as nat),
            pair_scan_spec(z1, z2, first + count - 1),
        ) {
            (Some(earlier), Some(last)) => Some(earlier + last),
            _ => None,
        }
    }
}

impl TimezonePair {
    pub closed spec fn spec_primary(&self) -> ZoneId {
        self.primary
    }

    pub closed spec fn spec_secondary(&self) -> ZoneId {
        self.secondary
    }

    pub fn new(tz1: ZoneId, tz2: ZoneId) -> (r: TimezonePair)
        ensures
            r@ == (tz1@, tz2@),
    {
        TimezonePair { primary: tz1, secondary: tz2 }
    }

    pub fn primary(&self) -> (r: &ZoneId)
        ensures
            r@ == self@.0,
    {
        &self.primary
    }

    pub fn secondary(&self) -> (r: &ZoneId)
        ensures
            r@ == self@.1,
    {
        &self.secondary
    }

    /// The two zones, primary first.
    pub fn tzs(&self) -> [Tz; 2] {
        [self.primary.tz(), self.secondary.tz()]
    }

    /// Scans `year` for changes of the offset between the two zones: both clocks are read
    /// from the instant at which the primary clock reads noon on January 1, and stepped by
    /// whole days of elapsed time while the primary calendar is still in `year`.
    ///
    /// Dates are those of the primary calendar, so for zones more than twelve hours apart
    /// swapping the two zones can move a change to a neighbouring day.
    pub fn get_disruption_dates(&self, year: i32) -> (r: Result<
        Vec<DisruptionDate>,
        ZoneTimeResolutionError,
    >)
        ensures
            match r {
                Ok(v) => pair_scan_spec(self@.0, self@.1, year as int) == Some(v@),
                Err(_) => pair_scan_spec(self@.0, self@.1, year as int) is None,
            },
    {
        let anchor = match new_year_noon_in(&self.primary, year) {
            Some(a) => a,
            None => return Err(ZoneTimeResolutionError),
        };
        match scan_from(&self.primary, &self.secondary, anchor, anchor, year) {
            Some(v) => Ok(v),
            None => Err(ZoneTimeResolutionError),
        }
    }

    /// The disruptions of the `count` years from `first`, in year order.
    pub fn disruptions_for_years(&self, first: i32, count: u32) -> (r: Result<
        Vec<DisruptionDate>,
        ZoneTimeResolutionError,
    >)
        requires
            first + count <= i32::MAX + 1,
        ensures
            match r {
                Ok(v) => years_scan_spec(self@.0, self@.1, first as int, count as nat) == Some(v@),
                Err(_) => years_scan_spec(self@.0, self@.1, first as int, count as nat) is None,
            },
    {
        let mut res: Vec<DisruptionDate> = Vec::new();
        let mut k: u32 = 0;
        while k < count
            invariant
                k <= count,
                first + count <= i32::MAX + 1,
                years_scan_spec(self@.0, self@.1, first as int, k as nat) == Some(res@),
            decreases count - k,
        {
            let year: i32 = (first as i64 + k as i64) as i32;
            match self.get_disruption_dates(year) {
                Ok(mut v) => {
                    res.append(&mut v);
                },
                Err(e) => {
                    assert(years_scan_spec(self@.0, self@.1, first as int, (k + 1) as nat) is None);
                    proof {
                        lemma_years_scan_fails_after(self@.0, self@.1, first as int, (k + 1) as nat, count as nat);
                    }
                    return Err(e);
                },
            }
            k = k + 1;
        }
        Ok(res)
    }

    /// Parses `value`, split on slashes, into a pair of zones.
    pub fn parse(value: &str) -> (r: Result<TimezonePair, InvalidTimezonePair>)
        ensures
            match r {
                Ok(p) => parse_spec(split_spec(value@)) == Some(p@),
                Err(_) => parse_spec(split_spec(value@)) is None,
            },
    {
        match parse_tz(split_on_slash(value)) {
            Some(p) => Ok(p),
            None => Err(InvalidTimezonePair),
        }
    }
}

/// Relies on `str::split` with a `char` pattern: the pieces between the separators, in order.
#[verifier::external_body]
fn split_on_slash(s: &str) -> (r: Vec<&str>)
    ensures
        str_views(r@) == split_spec(s@),
{
    s.split('/').collect()
}

/// Resolves the segments, left to right, into exactly two zones: segments accumulate until
/// they spell a zone name, and the first zone found is the primary one.
pub fn parse_tz(paths: Vec<&str>) -> (r: Option<TimezonePair>)
    ensures
        match r {
            Some(p) => parse_spec(str_views(paths@)) == Some(p@),
            None => parse_spec(str_views(paths@)) is None,
        },
{
    let ghost segs = str_views(paths@);
    if paths.len() > MAX_SEGMENTS {
        return None;
    }
    let mut prefix = String::new();
    let mut res: Vec<ZoneId> = Vec::new();
    let mut i: usize = 0;
    while i < paths.len()
        invariant
            i <= paths.len(),
            segs == str_views(paths@),
            res@.map_values(|z: ZoneId| z@) == parse_fold(segs.subrange(0, i as int)).0,
            prefix@ == parse_fold(segs.subrange(0, i as int)).1,
        decreases paths.len() - i,
    {
        assert(segs.subrange(0, i + 1).drop_last() =~= segs.subrange(0, i as int));
        assert(segs.subrange(0, i + 1).last() == paths@[i as int]@);
        prefix.push_str(paths[i]);
        match ZoneId::resolve(prefix.as_str()) {
            Ok(z) => {
                res.push(z);
                prefix = String::new();
                assert(res@.map_values(|z: ZoneId| z@) =~= parse_fold(
                    segs.subrange(0, i + 1),
                ).0);
            },
            Err(_) => {
                prefix.push('/');
            },
        }
        i = i + 1;
    }
    assert(segs.subrange(0, paths.len() as int) =~= segs);
    if res.len() == 2 && prefix.as_str().is_empty() {
        assert(res@.map_values(|z: ZoneId| z@)[0] == res@[0]@);
        assert(res@.map_values(|z: ZoneId| z@)[1] == res@[1]@);
        let second = res.pop();
        let first = res.pop();
        match (first, second) {
            (Some(tz1), Some(tz2)) => Some(TimezonePair::new(tz1, tz2)),
            _ => None,
        }
    } else {
        None
    }
}

impl<'a> TryFrom<&'a str> for TimezonePair {
    type Error = InvalidTimezonePair;

    fn try_from(value: &'a str) -> (r: Result<TimezonePair, InvalidTimezonePair>)
        ensures
            match r {
                Ok(p) => parse_spec(split_spec(value@)) == Some(p@),
                Err(_) => parse_spec(split_spec(value@)) is None,
            },
    {
        TimezonePair::parse(value)
    }
}

impl TryFrom<String> for TimezonePair {
    type Error = InvalidTimezonePair;

    fn try_from(value: String) -> (r: Result<TimezonePair, InvalidTimezonePair>)
        ensures
            match r {
                Ok(p) => parse_spec(split_spec(value@)) == Some(p@),
                Err(_) => parse_spec(split_spec(value@)) is None,
            },
    {
        TimezonePair::parse(value.as_str())
    }
}

impl<'a> vstd::std_specs::convert::TryFromSpecImpl<&'a str> for TimezonePair {
    open spec fn obeys_try_from_spec() -> bool {
        false
    }

    open spec fn try_from_spec(v: &'a str) -> Result<TimezonePair, InvalidTimezonePair> {
        Err(InvalidTimezonePair)
    }
}

impl vstd::std_specs::convert::TryFromSpecImpl<String> for TimezonePair {
    open spec fn obeys_try_from_spec() -> bool {
        false
    }

    open spec fn try_from_spec(v: String) -> Result<TimezonePair, InvalidTimezonePair> {
        Err(InvalidTimezonePair)
    }
}

/// No leading run of `z`'s segments, shorter than all of them, is itself a zone name.
pub open spec fn no_zone_prefix(z: Seq<char>) -> bool {
    forall|j: int|
        1 <= j < split_spec(z).len() ==> !is_zone_name(
            #[trigger] join_segments(split_spec(z).subrange(0, j)),
        )
}

proof fn lemma_split_nonempty(s: Seq<char>)
    ensures
        split_spec(s).len() >= 1,
    decreases s.len(),
{
    if s.len() > 0 {
        lemma_split_nonempty(s.drop_last());
    }
}

/// Splitting at a slash splits the two sides apart.
proof fn lemma_split_concat(x: Seq<char>, y: Seq<char>)
    ensures
        split_spec(x + seq!['/'] + y) == split_spec(x) + split_spec(y),
    decreases y.len(),
{
    let s = x + seq!['/'] + y;
    lemma_split_nonempty(x);
    if y.len() == 0 {
        assert(s.drop_last() =~= x);
        assert(split_spec(x).push(Seq::empty()) =~= split_spec(x) + split_spec(y));
    } else {
        assert(s.drop_last() =~= x + seq!['/'] + y.drop_last());
        lemma_split_concat(x, y.drop_last());
        lemma_split_nonempty(y.drop_last());
        let l = split_spec(x);
        let r = split_spec(y.drop_last());
        if y.last() == '/' {
            assert((l + r).push(Seq::empty()) =~= l + r.push(Seq::empty()));
        } else {
            let lr = l + r;
            assert(lr.update(lr.len() - 1, lr.last().push(y.last())) =~= l + r.update(
                r.len() - 1,
                r.last().push(y.last()),
            ));
        }
    }
}

proof fn lemma_join_push_last(segs: Seq<Seq<char>>, c: char)
    requires
        segs.len() >= 1,
    ensures
        join_segments(segs.update(segs.len() - 1, segs.last().push(c))) == join_segments(
            segs,
        ).push(c),
{
    let u = segs.update(segs.len() - 1, segs.last().push(c));
    if segs.len() >= 2 {
        assert(u.drop_last() =~= segs.drop_last());
        assert(join_segments(u) =~= join_segments(segs).push(c));
    }
}

/// Joining the pieces of a split gives the string back.
proof fn lemma_join_split(s: Seq<char>)
    ensures
        join_segments(split_spec(s)) == s,
    decreases s.len(),
{
    if s.len() == 0 {
    } else {
        lemma_join_split(s.drop_last());
        lemma_split_nonempty(s.drop_last());
        let rest = split_spec(s.drop_last());
        if s.last() == '/' {
            assert(rest.push(Seq::empty()).drop_last() =~= rest);
            assert(join_segments(rest.push(Seq::empty())) =~= s);
        } else {
            lemma_join_push_last(rest, s.last());
            assert(s.drop_last().push(s.last()) =~= s);
        }
    }
}

/// From a state with nothing pending, the greedy parse takes the segments of a zone name that
/// has no shorter zone name among its leading runs, and resolves it at its last segment.
proof fn lemma_fold_one_zone(pre: Seq<Seq<char>>, z: Seq<char>, j: int)
    requires
        parse_fold(pre).1.len() == 0,
        is_zone_name(z),
        no_zone_prefix(z),
        1 <= j <= split_spec(z).len(),
    ensures
        j < split_spec(z).len() ==> parse_fold(pre + split_spec(z).subrange(0, j)) == (
            parse_fold(pre).0,
            join_segments(split_spec(z).subrange(0, j)).push('/'),
        ),
        j == split_spec(z).len() ==> parse_fold(pre + split_spec(z)) == (
            parse_fold(pre).0.push(z),
            Seq::<char>::empty(),
        ),
    decreases j,
{
    let segs = split_spec(z);
    let cur = pre + segs.subrange(0, j);
    assert(cur.drop_last() =~= pre + segs.subrange(0, j - 1));
    assert(cur.last() == segs[j - 1]);
    let sub = segs.subrange(0, j);
    if j == 1 {
        assert(pre + segs.subrange(0, 0) =~= pre);
        assert(join_segments(sub) == segs[0]);
        assert(parse_fold(pre).1 + segs[0] =~= segs[0]);
    } else {
        lemma_fold_one_zone(pre, z, j - 1);
        assert(sub.drop_last() =~= segs.subrange(0, j - 1));
        assert(join_segments(sub) =~= join_segments(segs.subrange(0, j - 1)).push('/') + segs[j
            - 1]);
    }
    if j == segs.len() {
        assert(sub =~= segs);
        lemma_join_split(z);
        assert(cur =~= pre + segs);
    } else {
        assert(!is_zone_name(join_segments(sub)));
    }
}

/// Two zone names written one after the other with a slash between them parse back to the
/// same ordered pair, provided that neither name has a shorter zone name as a leading run of
/// its segments, and that together they have no more than `MAX_SEGMENTS` segments.
pub proof fn lemma_parse_round_trip(z1: Seq<char>, z2: Seq<char>)
    requires
        is_zone_name(z1),
        is_zone_name(z2),
        no_zone_prefix(z1),
        no_zone_prefix(z2),
        split_spec(z1).len() + split_spec(z2).len() <= MAX_SEGMENTS,
    ensures
        parse_spec(split_spec(z1 + seq!['/'] + z2)) == Some((z1, z2)),
{
    lemma_split_concat(z1, z2);
    lemma_split_nonempty(z1);
    lemma_split_nonempty(z2);
    let s1 = split_spec(z1);
    let s2 = split_spec(z2);
    let empty = Seq::<Seq<char>>::empty();
    assert(parse_fold(empty) == (Seq::<Seq<char>>::empty(), Seq::<char>::empty()));
    lemma_fold_one_zone(empty, z1, s1.len() as int);
    assert(empty + s1 =~= s1);
    lemma_fold_one_zone(s1, z2, s2.len() as int);
    let names = Seq::<Seq<char>>::empty().push(z1).push(z2);
    assert(names[0] == z1);
    assert(names[1] == z2);
}

/// Once the scan of one year fails, every longer run of years fails too.
proof fn lemma_years_scan_fails_after(z1: Seq<char>, z2: Seq<char>, first: int, k: nat, n: nat)
    requires
        k <= n,
        years_scan_spec(z1, z2, first, k) is None,
    ensures
        years_scan_spec(z1, z2, first, n) is None,
    decreases n - k,
{
    if k < n {
        lemma_years_scan_fails_after(z1, z2, first, (k + 1) as nat, n);
    }
}

/// More than `MAX_SEGMENTS` segments never parse, whatever they hold.
pub proof fn lemma_too_many_segments(segs: Seq<Seq<char>>)
    requires
        segs.len() > MAX_SEGMENTS,
    ensures
        parse_spec(segs) is None,
{
}

/// A scan depends on nothing but the two zones and the year: pairs of the same zones in the
/// same order give the same outcome.
pub proof fn lemma_scan_deterministic(p: TimezonePair, q: TimezonePair, year: int)
    requires
        p@ == q@,
    ensures
        pair_scan_spec(p@.0, p@.1, year) == pair_scan_spec(q@.0, q@.1, year),
{
}

} // verus!
