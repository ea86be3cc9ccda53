//! Normalisation of one period: expected point count, forward-fill of missing
//! positions, and aggregation of sub-hourly prices into hourly means.

use vstd::prelude::*;
use vstd::string::*;
use crate::document::{parse_resolution, resolution_seconds, Period, Point};
use crate::error::EntsoeError;
use crate::models::{eur, Price};
use crate::money::{decimal_quotient, kwh_of_text, Amount};
use crate::text::same_text;
use crate::time::{hour_floor, hour_start, parse_timestamp, timestamp_of, valid_instant};

verus! {

/// `⌊(end − start) / resolution⌋` for a positive span, else zero.
pub open spec fn period_count(start: int, end: int, step: int) -> int {
    if end <= start {
        0
    } else {
        (end - start) / step
    }
}

/// Number of points a period from `start` to `end` (seconds) holds at a resolution
/// in seconds.
pub fn expected_period_count(start: i64, end: i64, resolution_seconds: i64) -> (r: u64)
    requires
        0 < resolution_seconds,
    ensures
        r as int == period_count(start as int, end as int, resolution_seconds as int),
{
    if end <= start {
        return 0;
    }
    let span: i128 = end as i128 - start as i128;
    let step: i128 = resolution_seconds as i128;
    proof {
        assert(span / step <= span) by (nonlinear_arith)
            requires
                span > 0,
                step >= 1,
        ;
        assert(span / step >= 0) by (nonlinear_arith)
            requires
                span > 0,
                step >= 1,
        ;
    }
    (span / step) as u64
}

/// The amount text of the last of the first `len` points that stands at `position`.
pub open spec fn amount_at(points: Seq<Point>, len: int, position: int) -> Option<Seq<char>>
    decreases len,
{
    if len <= 0 {
        None
    } else if points[len - 1].position == position {
        Some(points[len - 1].price_amount@)
    } else {
        amount_at(points, len - 1, position)
    }
}

pub open spec fn own_amount(points: Seq<Point>, position: int) -> Option<Seq<char>> {
    amount_at(points, points.len() as int, position)
}

/// The amount a position receives: its own, else the one the position before received.
pub open spec fn carried(points: Seq<Point>, position: int) -> Option<Seq<char>>
    decreases position,
{
    if position < 1 {
        None
    } else {
        match own_amount(points, position) {
            Some(a) => Some(a),
            None => carried(points, position - 1),
        }
    }
}

/// How many of the positions `1..=k` have no point of their own.
pub open spec fn gap_count(points: Seq<Point>, k: int) -> int
    decreases k,
{
    if k < 1 {
        0
    } else {
        gap_count(points, k - 1) + if own_amount(points, k) is None {
            1int
        } else {
            0int
        }
    }
}

/// The `i`-th price (0-based) that forward-fill emits for a period.
pub open spec fn is_filled(
    p: Price,
    points: Seq<Point>,
    zone: Seq<char>,
    resolution: Seq<char>,
    start: int,
    step: int,
    i: int,
    fetched_at: int,
) -> bool {
    &&& p.wf()
    &&& p.timestamp == start + step * i
    &&& p.bidding_zone@ == zone
    &&& carried(points, i + 1) is Some
    &&& p.price_kwh == kwh_of_text(carried(points, i + 1)->0)
    &&& p.currency@ == eur()
    &&& p.resolution@ == resolution
    &&& p.fetched_at == fetched_at
}

/// Start, end and resolution (all in seconds) that a period declares, where all
/// three can be read.
pub open spec fn period_frame(period: Period) -> Option<(int, int, int)> {
    match (
        timestamp_of(period.time_interval.start@),
        timestamp_of(period.time_interval.end@),
        resolution_seconds(period.resolution@),
    ) {
        (Some(s), Some(e), Some(m)) => Some((s, e, m)),
        _ => None,
    }
}

/// Index of the last point at `position`.
fn last_point_at(points: &Vec<Point>, position: u32) -> (r: Option<usize>)
    ensures
        match r {
            Some(j) => j < points@.len() && own_amount(points@, position as int) == Some(
                points@[j as int].price_amount@,
            ),
            None => own_amount(points@, position as int) is None,
        },
{
    let mut found: Option<usize> = None;
    let mut i: usize = 0;
    while i < points.len()
        invariant
            i <= points@.len(),
            match found {
                Some(j) => j < i && amount_at(points@, i as int, position as int) == Some(
                    points@[j as int].price_amount@,
                ),
                None => amount_at(points@, i as int, position as int) is None,
            },
        decreases points@.len() - i,
    {
        if points[i].position == position {
            found = Some(i);
        }
        i = i + 1;
    }
    found
}

/// Whether forward-fill of a period succeeds: its frame can be read, its points
/// can be addressed, and position 1 is present whenever any point is expected.
pub open spec fn fill_succeeds(period: Period) -> bool {
    period_frame(period) matches Some((s, e, m)) && period_count(s, e, m) <= u32::MAX && (
    period_count(s, e, m) >= 1 ==> own_amount(period.points@, 1) is Some)
}

/// `raw` is what forward-fill emits for the period.
pub open spec fn is_forward_fill(raw: Seq<Price>, period: Period, zone: Seq<char>, fetched_at: int) -> bool {
    period_frame(period) matches Some((s, e, m)) && {
        &&& raw.len() == period_count(s, e, m)
        &&& forall|i: int|
            0 <= i < raw.len() ==> #[trigger] is_filled(
                raw[i],
                period.points@,
                zone,
                period.resolution@,
                s,
                m,
                i,
                fetched_at,
            )
        &&& forall|i: int| 0 <= i < raw.len() ==> valid_instant(#[trigger] raw[i].timestamp as int)
    }
}

/// The error a period that cannot be filled gives.
pub open spec fn fill_error(period: Period, e: EntsoeError) -> bool {
    if timestamp_of(period.time_interval.start@) is None {
        e is TimestampParseError
    } else if timestamp_of(period.time_interval.end@) is None {
        e is TimestampParseError
    } else if resolution_seconds(period.resolution@) is None {
        e is InvalidResolution
    } else {
        let (s, e2, m) = period_frame(period)->0;
        {
            let n = period_count(s, e2, m);
            ||| (n > u32::MAX && e is PeriodCountMismatch)
            ||| (n <= u32::MAX && n >= 1 && own_amount(period.points@, 1) is None
                && e is MissingFirstPeriod)
        }
    }
}

/// Prices for every expected position of a period, with missing positions
/// carried forward from the one before, and how many were carried.
pub fn forward_fill(period: &Period, bidding_zone: &str, fetched_at: i64) -> (r: Result<
    (Vec<Price>, u64),
    EntsoeError,
>)
    ensures
        r is Ok <==> fill_succeeds(*period),
        r matches Ok((prices, gaps)) ==> is_forward_fill(prices@, *period, bidding_zone@, fetched_at as int)
            && gaps == gap_count(period.points@, prices@.len() as int),
        r matches Err(e) ==> fill_error(*period, e),
{
    let start = parse_timestamp(period.time_interval.start.as_str())?;
    let end = parse_timestamp(period.time_interval.end.as_str())?;
    let step = parse_resolution(period.resolution.as_str())?;
    let n = expected_period_count(start, end, step);
    let ghost points = period.points@;
    assert(period_frame(*period) == Some((start as int, end as int, step as int)));
    if n == 0 {
        return Ok((Vec::new(), 0));
    }
    if n > u32::MAX as u64 {
        return Err(EntsoeError::PeriodCountMismatch { expected: n, limit: u32::MAX as u64 });
    }
    proof {
        let span = end - start;
        assert(n * step <= span) by (nonlinear_arith)
            requires
                n == span / (step as int),
                step >= 1,
                span > 0,
        ;
    }
    let mut prices: Vec<Price> = Vec::new();
    let mut prev: Option<usize> = None;
    let mut gaps: u64 = 0;
    let mut i: u64 = 0;
    while i < n
        invariant
            1 <= n <= u32::MAX,
            n * step <= end - start,
            start < end,
            period_frame(*period) == Some((start as int, end as int, step as int)),
            n == period_count(start as int, end as int, step as int),
            step >= 1,
            period.points@ == points,
            prices@.len() == i,
            i <= n,
            gaps == gap_count(points, i as int),
            gaps <= i,
            i == 0 <==> prev is None,
            prev matches Some(j) ==> j < points.len() && carried(points, i as int) == Some(
                points[j as int].price_amount@,
            ),
            i >= 1 ==> own_amount(points, 1) is Some,
            valid_instant(start as int),
            valid_instant(end as int),
            forall|k: int| 0 <= k < i ==> valid_instant(#[trigger] prices@[k].timestamp as int),
            forall|k: int|
                0 <= k < i ==> #[trigger] is_filled(
                    prices@[k],
                    points,
                    bidding_zone@,
                    period.resolution@,
                    start as int,
                    step as int,
                    k,
                    fetched_at as int,
                ),
        decreases n - i,
    {
        let position = (i + 1) as u32;
        let chosen: usize = match last_point_at(&period.points, position) {
            Some(j) => {
                prev = Some(j);
                j
            },
            None => match prev {
                Some(j) => {
                    gaps = gaps + 1;
                    j
                },
                None => {
                    return Err(EntsoeError::MissingFirstPeriod);
                },
            },
        };
        proof {
            assert(step * (i as int) <= n * step) by (nonlinear_arith)
                requires
                    i < n,
                    step >= 1,
            ;
            assert(step * (i as int) >= 0) by (nonlinear_arith)
                requires
                    i >= 0,
                    step >= 1,
            ;
        }
        let ts: i64 = (start as i128 + step as i128 * i as i128) as i64;
        assert(valid_instant(ts as int));
        let price = Price::from_mwh(
            ts,
            String::from_str(bidding_zone),
            period.points[chosen].price_amount.as_str(),
            period.resolution.clone(),
            fetched_at,
        );
        prices.push(price);
        proof {
            assert(prices@[i as int] == price);
        }
        i = i + 1;
    }
    Ok((prices, gaps))
}


pub open spec fn pt60m() -> Seq<char> {
    seq!['P', 'T', '6', '0', 'M']
}

/// Resolutions of an hour or longer, which aggregation leaves as they are.
pub open spec fn is_hourly_or_longer(res: Seq<char>) -> bool {
    res == pt60m() || res == seq!['P', '1', 'D'] || res == seq!['P', '7', 'D'] || res == seq![
        'P',
        '1',
        'Y',
    ]
}

/// The prices of `s` that fall in the UTC hour starting at `h`, in order.
pub open spec fn group_of(s: Seq<Price>, h: int) -> Seq<Price>
    decreases s.len(),
{
    if s.len() == 0 {
        Seq::empty()
    } else {
        let g = group_of(s.drop_last(), h);
        if hour_floor(s.last().timestamp as int) == h {
            g.push(s.last())
        } else {
            g
        }
    }
}

/// Decimal sum of the prices by rust_decimal's addition, where no partial sum overflows.
pub open spec fn sum_of(s: Seq<Price>) -> Option<Amount>
    decreases s.len(),
{
    if s.len() == 0 {
        Some(Amount { mantissa: 0, scale: 0 })
    } else {
        match sum_of(s.drop_last()) {
            Some(a) => a.sum_spec(s.last().price_kwh),
            None => None,
        }
    }
}

/// Mean price of a group: its decimal sum divided by the count with rust_decimal's
/// division; zero where the sum overflows or the division fails.
pub open spec fn mean_of(g: Seq<Price>) -> Amount {
    match sum_of(g) {
        Some(t) => match decimal_quotient(t.mantissa as int, t.scale as int, g.len() as int) {
            Some(q) => Amount { mantissa: q.0 as i128, scale: q.1 as u32 },
            None => Amount { mantissa: 0, scale: 0 },
        },
        None => Amount { mantissa: 0, scale: 0 },
    }
}

/// The hourly record for the hour starting at `h`.
pub open spec fn is_hour_record(p: Price, s: Seq<Price>, h: int, zone: Seq<char>) -> bool {
    let g = group_of(s, h);
    &&& g.len() > 0
    &&& p.wf()
    &&& p.timestamp == h
    &&& p.bidding_zone@ == zone
    &&& p.price_kwh == mean_of(g)
    &&& p.currency@ == g[0].currency@
    &&& p.resolution@ == pt60m()
    &&& p.fetched_at == g[0].fetched_at
}

/// One record per UTC hour that the prices touch, in ascending order of hour.
pub open spec fn is_hourly_aggregate(r: Seq<Price>, s: Seq<Price>, zone: Seq<char>) -> bool {
    &&& forall|j: int| 0 <= j < r.len() ==> #[trigger] is_hour_record(r[j], s, r[j].timestamp as int, zone)
    &&& forall|a: int, b: int| 0 <= a < b < r.len() ==> r[a].timestamp < r[b].timestamp
    &&& forall|h: int| #![trigger group_of(s, h)] group_of(s, h).len() > 0 ==> exists|j: int|
        0 <= j < r.len() && r[j].timestamp == h
}

pub proof fn lemma_group_push(s: Seq<Price>, x: Price, h: int)
    ensures
        group_of(s.push(x), h) == if hour_floor(x.timestamp as int) == h {
            group_of(s, h).push(x)
        } else {
            group_of(s, h)
        },
{
    assert(s.push(x).drop_last() == s);
}

/// Every member of a group is a member of the whole list with the group's hour.
pub proof fn lemma_group_wf(s: Seq<Price>, h: int)
    requires
        forall|k: int| 0 <= k < s.len() ==> #[trigger] s[k].wf(),
    ensures
        forall|k: int| 0 <= k < group_of(s, h).len() ==> #[trigger] group_of(s, h)[k].wf(),
    decreases s.len(),
{
    if s.len() > 0 {
        assert forall|k: int| 0 <= k < s.drop_last().len() implies #[trigger] s.drop_last()[k].wf() by {
            assert(s.drop_last()[k] == s[k]);
        }
        lemma_group_wf(s.drop_last(), h);
        assert(s.last() == s[s.len() - 1]);
        let g = group_of(s.drop_last(), h);
        assert forall|k: int| 0 <= k < group_of(s, h).len() implies #[trigger] group_of(s, h)[k].wf() by {
            if k < g.len() {
                assert(group_of(s, h)[k] == g[k]);
            }
        }
    }
}

pub proof fn lemma_group_len(s: Seq<Price>, h: int)
    ensures
        group_of(s, h).len() <= s.len(),
    decreases s.len(),
{
    if s.len() > 0 {
        lemma_group_len(s.drop_last(), h);
    }
}

/// Index of the first hour that is not below `h`.
fn find_hour(hours: &Vec<i64>, h: i64) -> (r: usize)
    requires
        forall|a: int, b: int| 0 <= a < b < hours@.len() ==> hours@[a] < hours@[b],
    ensures
        r <= hours@.len(),
        forall|a: int| 0 <= a < r ==> hours@[a] < h,
        r < hours@.len() ==> hours@[r as int] >= h,
{
    let mut j: usize = 0;
    while j < hours.len() && hours[j] < h
        invariant
            j <= hours@.len(),
            forall|a: int| 0 <= a < j ==> hours@[a] < h,
        decreases hours@.len() - j,
    {
        j = j + 1;
    }
    j
}

/// Groups sub-hourly prices by UTC hour and replaces each group by one `PT60M`
/// record holding its mean price; the first price of a group gives its currency
/// and fetch time. Prices of an hour or longer (judged by the first price's
/// resolution), and an empty list, are returned unchanged.
pub fn aggregate_to_hourly(prices: Vec<Price>, bidding_zone: &str) -> (r: Vec<Price>)
    requires
        forall|i: int|
            0 <= i < prices@.len() ==> #[trigger] prices@[i].wf() && valid_instant(
                prices@[i].timestamp as int,
            ),
    ensures
        prices@.len() == 0 || is_hourly_or_longer(prices@[0].resolution@) ==> r@ == prices@,
        prices@.len() > 0 && !is_hourly_or_longer(prices@[0].resolution@) ==> is_hourly_aggregate(
            r@,
            prices@,
            bidding_zone@,
        ),
{
    if prices.len() == 0 {
        return prices;
    }
    proof {
        reveal_strlit("PT60M");
        reveal_strlit("P1D");
        reveal_strlit("P7D");
        reveal_strlit("P1Y");
        assert("PT60M"@ =~= pt60m());
        assert("P1D"@ =~= seq!['P', '1', 'D']);
        assert("P7D"@ =~= seq!['P', '7', 'D']);
        assert("P1Y"@ =~= seq!['P', '1', 'Y']);
    }
    let first_res = prices[0].resolution.as_str();
    if same_text(first_res, "PT60M") || same_text(first_res, "P1D") || same_text(first_res, "P7D")
        || same_text(first_res, "P1Y") {
        return prices;
    }
    let ghost s = prices@;
    let mut hours: Vec<i64> = Vec::new();
    let mut sums: Vec<Option<Amount>> = Vec::new();
    let mut counts: Vec<u64> = Vec::new();
    let mut firsts: Vec<usize> = Vec::new();
    let mut i: usize = 0;
    while i < prices.len()
        invariant
            s == prices@,
            i <= s.len(),
            forall|k: int| 0 <= k < s.len() ==> #[trigger] s[k].wf() && valid_instant(s[k].timestamp as int),
            hours@.len() == sums@.len() == counts@.len() == firsts@.len(),
            forall|a: int, b: int| 0 <= a < b < hours@.len() ==> hours@[a] < hours@[b],
            forall|h: int|
                #![trigger group_of(s.subrange(0, i as int), h)]
                group_of(s.subrange(0, i as int), h).len() > 0 ==> exists|j: int|
                    0 <= j < hours@.len() && hours@[j] == h,
            forall|j: int|
                #![trigger hours@[j]]
                0 <= j < hours@.len() ==> {
                    let g = group_of(s.subrange(0, i as int), hours@[j] as int);
                    &&& counts@[j] == g.len()
                    &&& sums@[j] == sum_of(g)
                    &&& (sums@[j] matches Some(t) ==> t.wf())
                    &&& firsts@[j] < i
                    &&& g.len() > 0
                    &&& g[0] == s[firsts@[j] as int]
                },
        decreases s.len() - i,
    {
        let ts = prices[i].timestamp;
        proof {
            assert(s[i as int].wf() && valid_instant(s[i as int].timestamp as int));
        }
        let h: i64 = hour_start(ts);
        let ghost pre = s.subrange(0, i as int);
        let ghost x = s[i as int];
        proof {
            assert(s.subrange(0, i + 1) == pre.push(x));
            assert forall|h2: int| #[trigger] group_of(s.subrange(0, i + 1), h2) == if hour_floor(
                x.timestamp as int,
            ) == h2 {
                group_of(pre, h2).push(x)
            } else {
                group_of(pre, h2)
            } by {
                lemma_group_push(pre, x, h2);
            }
        }
        let j = find_hour(&hours, h);
        let ghost old_hours = hours@;
        proof {
            lemma_group_len(pre, h as int);
        }
        if j < hours.len() && hours[j] == h {
            let old_sum = sums[j];
            proof {
                let g = group_of(pre, h as int);
                assert(g.push(x).drop_last() == g);
                assert(s[i as int].wf());
                assert forall|k: int| 0 <= k < pre.len() implies #[trigger] pre[k].wf() by {
                    assert(pre[k] == s[k]);
                }
                lemma_group_wf(pre, h as int);
            }
            let new_sum = match old_sum {
                Some(t) => t.checked_add(prices[i].price_kwh),
                None => None,
            };
            sums.set(j, new_sum);
            let c = counts[j];
            counts.set(j, c + 1);
            proof {
                assert forall|h2: int| #[trigger] group_of(s.subrange(0, i + 1), h2).len() > 0 implies exists|w: int|
                    0 <= w < hours@.len() && hours@[w] == h2 by {
                    if h2 != h {
                        assert(group_of(pre, h2).len() > 0);
                    } else {
                        assert(hours@[j as int] == h2);
                    }
                }
            }
        } else {
            proof {
                let g0 = group_of(pre, h as int);
                assert(g0.len() == 0) by {
                    if g0.len() > 0 {
                        let w = choose|w: int| 0 <= w < hours@.len() && hours@[w] == h;
                        if w < j {
                        } else {
                        }
                    }
                }
                assert(g0.push(x).drop_last() == g0);
                assert(Seq::<Price>::empty().push(x).drop_last() =~= Seq::<Price>::empty());
                reveal_with_fuel(sum_of, 2);
                assert(s[i as int].wf());
            }
            let first_sum = Amount::zero().checked_add(prices[i].price_kwh);
            hours.insert(j, h);
            sums.insert(j, first_sum);
            counts.insert(j, 1);
            firsts.insert(j, i);
            proof {
                assert forall|h2: int| #[trigger] group_of(s.subrange(0, i + 1), h2).len() > 0 implies exists|w: int|
                    0 <= w < hours@.len() && hours@[w] == h2 by {
                    if h2 != h {
                        assert(group_of(pre, h2).len() > 0);
                        let w = choose|w: int| 0 <= w < old_hours.len() && old_hours[w] == h2;
                        if w < j {
                            assert(hours@[w] == h2);
                        } else {
                            assert(hours@[w + 1] == h2);
                        }
                    } else {
                        assert(hours@[j as int] == h2);
                    }
                }
            }
        }
        i = i + 1;
    }
    proof {
        assert(s.subrange(0, s.len() as int) == s);
    }
    let mut out: Vec<Price> = Vec::new();
    let mut j: usize = 0;
    while j < hours.len()
        invariant
            s == prices@,
            j <= hours@.len(),
            hours@.len() == sums@.len() == counts@.len() == firsts@.len(),
            forall|a: int, b: int| 0 <= a < b < hours@.len() ==> hours@[a] < hours@[b],
            forall|k: int| 0 <= k < s.len() ==> #[trigger] s[k].wf(),
            forall|jj: int|
                #![trigger hours@[jj]]
                0 <= jj < hours@.len() ==> {
                    let g = group_of(s, hours@[jj] as int);
                    &&& counts@[jj] == g.len()
                    &&& sums@[jj] == sum_of(g)
                    &&& (sums@[jj] matches Some(t) ==> t.wf())
                    &&& firsts@[jj] < s.len()
                    &&& g.len() > 0
                    &&& g[0] == s[firsts@[jj] as int]
                },
            out@.len() == j,
            forall|a: int| 0 <= a < j ==> #[trigger] out@[a].timestamp == hours@[a],
            forall|a: int|
                0 <= a < j ==> #[trigger] is_hour_record(out@[a], s, out@[a].timestamp as int, bidding_zone@),
        decreases hours@.len() - j,
    {
        let ghost g = group_of(s, hours@[j as int] as int);
        let mean = match sums[j] {
            Some(t) => {
                match t.divide(counts[j]) {
                    Some(q) => q,
                    None => Amount::zero(),
                }
            },
            None => Amount::zero(),
        };
        let k = firsts[j];
        let record = Price {
            timestamp: hours[j],
            bidding_zone: String::from_str(bidding_zone),
            price_kwh: mean,
            currency: prices[k].currency.clone(),
            resolution: String::from_str("PT60M"),
            fetched_at: prices[k].fetched_at,
        };
        proof {
            reveal_strlit("PT60M");
            assert("PT60M"@ =~= pt60m());
            assert(record.timestamp == hours@[j as int]);
            assert(record.price_kwh == mean_of(g));
            assert(is_hour_record(record, s, record.timestamp as int, bidding_zone@));
        }
        out.push(record);
        proof {
            assert(out@[j as int] == record);
        }
        j = j + 1;
    }
    proof {
        assert forall|h: int| #![trigger group_of(s, h)] group_of(s, h).len() > 0 implies exists|a: int|
            0 <= a < out@.len() && out@[a].timestamp == h by {
            let a = choose|a: int| 0 <= a < hours@.len() && hours@[a] == h;
            assert(out@[a].timestamp == h);
        }
    }
    out
}

/// `out` is what normalising the period yields: its forward-fill, aggregated to
/// hourly means where the resolution is below an hour.
pub open spec fn is_normalized(out: Seq<Price>, period: Period, zone: Seq<char>, fetched_at: int) -> bool {
    exists|raw: Seq<Price>|
        is_forward_fill(raw, period, zone, fetched_at) && (raw.len() == 0 || is_hourly_or_longer(
            period.resolution@,
        ) ==> out == raw) && (raw.len() > 0 && !is_hourly_or_longer(period.resolution@)
            ==> is_hourly_aggregate(out, raw, zone))
}

/// A period's prices: forward-filled, then aggregated to hourly means where the
/// resolution is below an hour.
pub fn validate_and_fill_period(period: &Period, bidding_zone: &str, fetched_at: i64) -> (r: Result<
    Vec<Price>,
    EntsoeError,
>)
    ensures
        r is Ok <==> fill_succeeds(*period),
        r matches Ok(out) ==> exists|raw: Seq<Price>|
            is_forward_fill(raw, *period, bidding_zone@, fetched_at as int) && (raw.len() == 0
                || is_hourly_or_longer(period.resolution@) ==> out@ == raw) && (raw.len() > 0
                && !is_hourly_or_longer(period.resolution@) ==> is_hourly_aggregate(
                out@,
                raw,
                bidding_zone@,
            )),
        r matches Err(e) ==> fill_error(*period, e),
{
    let (raw, _gaps) = normalize_period(period, bidding_zone, fetched_at)?;
    Ok(raw)
}

/// What normalising one period yields: its prices, how many positions were
/// carried forward, and how many points there were before aggregation.
pub fn normalize_period(period: &Period, bidding_zone: &str, fetched_at: i64) -> (r: Result<
    (Vec<Price>, u64),
    EntsoeError,
>)
    ensures
        r is Ok <==> fill_succeeds(*period),
        r matches Ok((out, gaps)) ==> exists|raw: Seq<Price>|
            is_forward_fill(raw, *period, bidding_zone@, fetched_at as int) && gaps == gap_count(
                period.points@,
                raw.len() as int,
            ) && (raw.len() == 0 || is_hourly_or_longer(period.resolution@) ==> out@ == raw) && (
            raw.len() > 0 && !is_hourly_or_longer(period.resolution@) ==> is_hourly_aggregate(
                out@,
                raw,
                bidding_zone@,
            )),
        r matches Err(e) ==> fill_error(*period, e),
{
    let (raw, gaps) = forward_fill(period, bidding_zone, fetched_at)?;
    let ghost raw_view = raw@;
    proof {
        if raw_view.len() > 0 {
            let (fs, fe, fm) = period_frame(*period)->0;
            assert(is_filled(raw_view[0], period.points@, bidding_zone@, period.resolution@, fs, fm,
                0, fetched_at as int));
            assert forall|i: int| 0 <= i < raw_view.len() implies #[trigger] raw_view[i].wf()
                && valid_instant(raw_view[i].timestamp as int) by {
                assert(is_filled(raw_view[i], period.points@, bidding_zone@, period.resolution@, fs, fm,
                    i, fetched_at as int));
            }
        }
    }
    let out = aggregate_to_hourly(raw, bidding_zone);
    Ok((out, gaps))
}

/// When every price falls in the hour `h`, the group of `h` is the whole list and
/// every other hour's group is empty.
pub proof fn lemma_single_hour_groups(s: Seq<Price>, h: int)
    requires
        forall|i: int| 0 <= i < s.len() ==> hour_floor(#[trigger] s[i].timestamp as int) == h,
    ensures
        group_of(s, h) == s,
        forall|h2: int| h2 != h ==> #[trigger] group_of(s, h2).len() == 0,
    decreases s.len(),
{
    if s.len() > 0 {
        assert forall|i: int| 0 <= i < s.drop_last().len() implies hour_floor(
            #[trigger] s.drop_last()[i].timestamp as int,
        ) == h by {
            assert(s.drop_last()[i] == s[i]);
        }
        lemma_single_hour_groups(s.drop_last(), h);
        assert(s.last() == s[s.len() - 1]);
        assert(s.drop_last().push(s.last()) == s);
        assert forall|h2: int| h2 != h implies #[trigger] group_of(s, h2).len() == 0 by {
            assert(group_of(s.drop_last(), h2).len() == 0);
        }
    }
}

/// Aggregation mean: prices that all fall within one UTC hour become one record at
/// that hour, with resolution PT60M, whose price is the mean of the prices: their
/// decimal sum divided by their count.
pub proof fn law_aggregation_mean(r: Seq<Price>, s: Seq<Price>, zone: Seq<char>, h: int)
    requires
        is_hourly_aggregate(r, s, zone),
        s.len() > 0,
        forall|i: int| 0 <= i < s.len() ==> #[trigger] s[i].wf(),
        forall|i: int| 0 <= i < s.len() ==> hour_floor(#[trigger] s[i].timestamp as int) == h,
    ensures
        r.len() == 1,
        r[0].timestamp == h,
        r[0].price_kwh == mean_of(s),
        r[0].resolution@ == pt60m(),
{
    lemma_single_hour_groups(s, h);
    assert(group_of(s, h).len() > 0);
    let j = choose|j: int| 0 <= j < r.len() && r[j].timestamp == h;
    assert forall|a: int| 0 <= a < r.len() implies r[a].timestamp == h by {
        assert(is_hour_record(r[a], s, r[a].timestamp as int, zone));
        if r[a].timestamp != h {
            assert(group_of(s, r[a].timestamp as int).len() == 0);
        }
    }
    if r.len() > 1 {
        assert(r[0].timestamp < r[1].timestamp);
    }
    assert(is_hour_record(r[0], s, r[0].timestamp as int, zone));
}

/// Resolution canonicalisation: every record that aggregation emits has resolution
/// PT60M and stands at an hour that some input price falls in.
pub proof fn law_resolution_canonical(r: Seq<Price>, s: Seq<Price>, zone: Seq<char>)
    requires
        is_hourly_aggregate(r, s, zone),
    ensures
        forall|j: int| 0 <= j < r.len() ==> (#[trigger] r[j]).resolution@ == pt60m(),
        forall|j: int| 0 <= j < r.len() ==> group_of(s, (#[trigger] r[j]).timestamp as int).len() > 0,
{
    assert forall|j: int| 0 <= j < r.len() implies (#[trigger] r[j]).resolution@ == pt60m() && group_of(s, r[j].timestamp as int).len() > 0 by {
        assert(is_hour_record(r[j], s, r[j].timestamp as int, zone));
    }
}

} // verus!
