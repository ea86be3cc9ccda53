//! Gap detection for backfills: which (day, zone) pairs of a range hold fewer than
//! 24 hourly prices in UTC-day terms, given the per-day counts the store reports.

use vstd::prelude::*;
use vstd::string::*;
use crate::text::same_text;

verus! {

/// Hourly prices a complete UTC day holds.
pub const EXPECTED_HOURS_PER_DAY: i64 = 24;

/// Rows the store holds for one zone on one UTC day (a day number).
#[derive(Debug, Clone)]
pub struct DayCount {
    pub day: i32,
    pub zone_code: String,
    pub count: i64,
}

/// A (day, zone) pair short of a full day.
#[derive(Debug, Clone)]
pub struct Gap {
    pub day: i32,
    pub zone_code: String,
    pub existing: i64,
    pub missing_hours: i64,
}

impl Gap {
    pub open spec fn view(&self) -> (int, Seq<char>, int, int) {
        (self.day as int, self.zone_code@, self.existing as int, self.missing_hours as int)
    }
}

/// The gaps of a range and how many days it covers.
#[derive(Debug, Clone)]
pub struct GapReport {
    pub dates_checked: u64,
    /// Distinct days with at least one gap.
    pub dates_with_gaps: u64,
    /// By day, then in the order the zones were given.
    pub gaps: Vec<Gap>,
}

/// Rows stored for a zone on a day: the last matching count, else none.
pub open spec fn count_for(counts: Seq<DayCount>, day: int, zone: Seq<char>) -> int
    decreases counts.len(),
{
    if counts.len() == 0 {
        0
    } else if counts.last().day == day && counts.last().zone_code@ == zone {
        counts.last().count as int
    } else {
        count_for(counts.drop_last(), day, zone)
    }
}

/// The gaps of one day over the zones, in the zones' order.
pub open spec fn day_gaps(day: int, zones: Seq<Seq<char>>, counts: Seq<DayCount>) -> Seq<(int, Seq<char>, int, int)>
    decreases zones.len(),
{
    if zones.len() == 0 {
        Seq::empty()
    } else {
        let rest = day_gaps(day, zones.drop_last(), counts);
        let c = count_for(counts, day, zones.last());
        if c < EXPECTED_HOURS_PER_DAY {
            rest.push((day, zones.last(), c, EXPECTED_HOURS_PER_DAY - c))
        } else {
            rest
        }
    }
}

/// The gaps of the days `start..=end`, day by day.
pub open spec fn range_gaps(start: int, end: int, zones: Seq<Seq<char>>, counts: Seq<DayCount>) -> Seq<(int, Seq<char>, int, int)>
    decreases end - start + 1,
{
    if end < start {
        Seq::empty()
    } else {
        range_gaps(start, end - 1, zones, counts) + day_gaps(end, zones, counts)
    }
}

/// Days of `start..=end` with at least one gap.
pub open spec fn days_with_gaps(start: int, end: int, zones: Seq<Seq<char>>, counts: Seq<DayCount>) -> int
    decreases end - start + 1,
{
    if end < start {
        0
    } else {
        days_with_gaps(start, end - 1, zones, counts) + if day_gaps(end, zones, counts).len() > 0 {
            1int
        } else {
            0int
        }
    }
}

pub open spec fn zone_views(zones: Seq<String>) -> Seq<Seq<char>> {
    zones.map_values(|z: String| z@)
}

fn stored_count(counts: &Vec<DayCount>, day: i32, zone: &str) -> (r: i64)
    requires
        forall|i: int| 0 <= i < counts@.len() ==> #[trigger] counts@[i].count >= 0,
    ensures
        r >= 0,
        r == count_for(counts@, day as int, zone@),
{
    let mut i: usize = counts.len();
    proof {
        assert(counts@.subrange(0, counts@.len() as int) == counts@);
    }
    while i > 0
        invariant
            i <= counts@.len(),
            count_for(counts@, day as int, zone@) == count_for(counts@.subrange(0, i as int), day as int, zone@),
            forall|j: int| 0 <= j < counts@.len() ==> #[trigger] counts@[j].count >= 0,
        decreases i,
    {
        let c = &counts[i - 1];
        proof {
            assert(counts@.subrange(0, i as int).drop_last() == counts@.subrange(0, i - 1));
            assert(counts@.subrange(0, i as int).last() == counts@[i - 1]);
        }
        if c.day == day && same_text(c.zone_code.as_str(), zone) {
            return c.count;
        }
        i = i - 1;
    }
    0
}

/// Lists the (day, zone) pairs of `start_day..=end_day` × zones with fewer than 24
/// stored rows, each with the rows it has and the hours it misses.
pub fn find_gaps(start_day: i32, end_day: i32, zone_codes: &Vec<String>, counts: &Vec<DayCount>) -> (r: GapReport)
    requires
        forall|i: int| 0 <= i < counts@.len() ==> #[trigger] counts@[i].count >= 0,
    ensures
        r.gaps@.map_values(|g: Gap| g.view()) == range_gaps(
            start_day as int,
            end_day as int,
            zone_views(zone_codes@),
            counts@,
        ),
        r.dates_checked == if end_day < start_day {
            0
        } else {
            end_day - start_day + 1
        },
        r.dates_with_gaps == days_with_gaps(start_day as int, end_day as int, zone_views(zone_codes@), counts@),
{
    let ghost zs = zone_views(zone_codes@);
    let mut gaps: Vec<Gap> = Vec::new();
    let mut with_gaps: u64 = 0;
    if end_day < start_day {
        return GapReport { dates_checked: 0, dates_with_gaps: 0, gaps };
    }
    let mut d: i64 = start_day as i64;
    while d <= end_day as i64
        invariant
            start_day <= end_day,
            start_day <= d <= end_day as i64 + 1,
            zs == zone_views(zone_codes@),
            gaps@.map_values(|g: Gap| g.view()) == range_gaps(start_day as int, d - 1, zs, counts@),
            with_gaps == days_with_gaps(start_day as int, d - 1, zs, counts@),
            with_gaps <= d - start_day,
            forall|i: int| 0 <= i < counts@.len() ==> #[trigger] counts@[i].count >= 0,
        decreases end_day as i64 + 1 - d,
    {
        let day = d as i32;
        let ghost before = gaps@.map_values(|g: Gap| g.view());
        let mut found = false;
        let mut k: usize = 0;
        while k < zone_codes.len()
            invariant
                k <= zone_codes@.len(),
                zs == zone_views(zone_codes@),
                day == d,
                forall|i: int| 0 <= i < counts@.len() ==> #[trigger] counts@[i].count >= 0,
                gaps@.map_values(|g: Gap| g.view()) == before + day_gaps(day as int, zs.subrange(0, k as int), counts@),
                found == (day_gaps(day as int, zs.subrange(0, k as int), counts@).len() > 0),
            decreases zone_codes@.len() - k,
        {
            let c = stored_count(counts, day, zone_codes[k].as_str());
            proof {
                assert(zs.subrange(0, k + 1).drop_last() == zs.subrange(0, k as int));
                assert(zs.subrange(0, k + 1).last() == zone_codes@[k as int]@);
            }
            if c < EXPECTED_HOURS_PER_DAY {
                let g = Gap {
                    day,
                    zone_code: zone_codes[k].clone(),
                    existing: c,
                    missing_hours: EXPECTED_HOURS_PER_DAY - c,
                };
                let ghost old_gaps = gaps@;
                gaps.push(g);
                proof {
                    assert(gaps@.map_values(|g: Gap| g.view()) == old_gaps.map_values(|g: Gap| g.view()).push(g.view()));
                }
                found = true;
            }
            k = k + 1;
        }
        proof {
            assert(zs.subrange(0, zone_codes@.len() as int) == zs);
        }
        if found {
            with_gaps = with_gaps + 1;
        }
        d = d + 1;
    }
    GapReport { dates_checked: (end_day as i64 - start_day as i64 + 1) as u64, dates_with_gaps: with_gaps, gaps }
}

/// What a day's gap list holds: exactly the zones short of 24 rows.
pub proof fn lemma_day_gaps(day: int, zones: Seq<Seq<char>>, counts: Seq<DayCount>)
    ensures
        forall|k: int|
            0 <= k < zones.len() && count_for(counts, day, #[trigger] zones[k]) < EXPECTED_HOURS_PER_DAY
                ==> day_gaps(day, zones, counts).contains(
                (day, zones[k], count_for(counts, day, zones[k]), EXPECTED_HOURS_PER_DAY - count_for(counts, day, zones[k])),
            ),
        forall|x: (int, Seq<char>, int, int)|
            #[trigger] day_gaps(day, zones, counts).contains(x) ==> x.0 == day && x.2 == count_for(counts, day, x.1)
                && x.2 < EXPECTED_HOURS_PER_DAY && x.3 == EXPECTED_HOURS_PER_DAY - x.2,
    decreases zones.len(),
{
    if zones.len() > 0 {
        let init = zones.drop_last();
        lemma_day_gaps(day, init, counts);
        let rest = day_gaps(day, init, counts);
        let c = count_for(counts, day, zones.last());
        assert forall|k: int|
            0 <= k < zones.len() && count_for(counts, day, #[trigger] zones[k]) < EXPECTED_HOURS_PER_DAY
                implies day_gaps(day, zones, counts).contains(
                (day, zones[k], count_for(counts, day, zones[k]), EXPECTED_HOURS_PER_DAY - count_for(counts, day, zones[k])),
            ) by {
            if k < zones.len() - 1 {
                assert(init[k] == zones[k]);
                let x = (day, zones[k], count_for(counts, day, zones[k]), EXPECTED_HOURS_PER_DAY - count_for(counts, day, zones[k]));
                assert(rest.contains(x));
                let w = choose|w: int| 0 <= w < rest.len() && rest[w] == x;
                if c < EXPECTED_HOURS_PER_DAY {
                    assert(day_gaps(day, zones, counts)[w] == x);
                }
            } else {
                assert(zones[k] == zones.last());
                let x = (day, zones.last(), c, EXPECTED_HOURS_PER_DAY - c);
                assert(day_gaps(day, zones, counts)[rest.len() as int] == x);
            }
        }
        assert forall|x: (int, Seq<char>, int, int)|
            #[trigger] day_gaps(day, zones, counts).contains(x) implies x.0 == day && x.2 == count_for(counts, day, x.1)
                && x.2 < EXPECTED_HOURS_PER_DAY && x.3 == EXPECTED_HOURS_PER_DAY - x.2 by {
            let w = choose|w: int| 0 <= w < day_gaps(day, zones, counts).len() && day_gaps(day, zones, counts)[w] == x;
            if w < rest.len() {
                assert(rest[w] == x);
                assert(rest.contains(x));
            }
        }
    }
}

/// What a range's gap list holds: the gaps of its days.
pub proof fn lemma_range_gaps(start: int, end: int, zones: Seq<Seq<char>>, counts: Seq<DayCount>)
    ensures
        forall|d: int, x: (int, Seq<char>, int, int)|
            start <= d <= end && #[trigger] day_gaps(d, zones, counts).contains(x) ==> #[trigger] range_gaps(start, end, zones, counts).contains(x),
        forall|x: (int, Seq<char>, int, int)|
            #[trigger] range_gaps(start, end, zones, counts).contains(x) ==> start <= x.0 <= end && day_gaps(x.0, zones, counts).contains(x),
    decreases end - start + 1,
{
    if end >= start {
        lemma_range_gaps(start, end - 1, zones, counts);
        lemma_day_gaps(end, zones, counts);
        let a = range_gaps(start, end - 1, zones, counts);
        let b = day_gaps(end, zones, counts);
        assert(range_gaps(start, end, zones, counts) == a + b);
        assert forall|d: int, x: (int, Seq<char>, int, int)|
            start <= d <= end && #[trigger] day_gaps(d, zones, counts).contains(x) implies #[trigger] range_gaps(start, end, zones, counts).contains(x) by {
            if d < end {
                assert(a.contains(x));
                let w = choose|w: int| 0 <= w < a.len() && a[w] == x;
                assert((a + b)[w] == x);
            } else {
                let w = choose|w: int| 0 <= w < b.len() && b[w] == x;
                assert((a + b)[a.len() + w] == x);
            }
        }
        assert forall|x: (int, Seq<char>, int, int)|
            #[trigger] range_gaps(start, end, zones, counts).contains(x) implies start <= x.0 <= end && day_gaps(x.0, zones, counts).contains(x) by {
            let w = choose|w: int| 0 <= w < (a + b).len() && (a + b)[w] == x;
            if w < a.len() {
                assert(a[w] == x);
                assert(a.contains(x));
            } else {
                assert(b[w - a.len()] == x);
                assert(b.contains(x));
            }
        }
    }
}

/// Gap definition: a (day, zone) pair of the range is listed, with the rows it
/// holds and the 24 − rows it misses, if and only if it holds fewer than 24 rows.
pub proof fn law_gap_definition(start: int, end: int, zones: Seq<Seq<char>>, counts: Seq<DayCount>, day: int, k: int)
    requires
        start <= day <= end,
        0 <= k < zones.len(),
    ensures
        ({
            let c = count_for(counts, day, zones[k]);
            &&& c < EXPECTED_HOURS_PER_DAY ==> range_gaps(start, end, zones, counts).contains(
                (day, zones[k], c, EXPECTED_HOURS_PER_DAY - c),
            )
            &&& c >= EXPECTED_HOURS_PER_DAY ==> forall|x: (int, Seq<char>, int, int)|
                #[trigger] range_gaps(start, end, zones, counts).contains(x) ==> !(x.0 == day && x.1 == zones[k])
        }),
{
    lemma_range_gaps(start, end, zones, counts);
    lemma_day_gaps(day, zones, counts);
    let c = count_for(counts, day, zones[k]);
    if c < EXPECTED_HOURS_PER_DAY {
        assert(day_gaps(day, zones, counts).contains((day, zones[k], c, EXPECTED_HOURS_PER_DAY - c)));
    } else {
        assert forall|x: (int, Seq<char>, int, int)|
            #[trigger] range_gaps(start, end, zones, counts).contains(x) implies !(x.0 == day && x.1 == zones[k]) by {
            if x.0 == day && x.1 == zones[k] {
                lemma_day_gaps(x.0, zones, counts);
                assert(day_gaps(x.0, zones, counts).contains(x));
            }
        }
    }
}

} // verus!
