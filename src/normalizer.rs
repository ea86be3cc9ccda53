//! From a decoded response body to the sorted prices of one zone.

use vstd::prelude::*;
use vstd::string::*;
use crate::document::{Period, PublicationMarketDocument, TimeSeries};
use crate::error::EntsoeError;
use crate::models::Price;
use crate::validation::{fill_error, fill_succeeds, is_normalized, normalize_period};

verus! {

/// All periods of all series, in document order.
pub open spec fn series_periods(series: Seq<TimeSeries>) -> Seq<Period>
    decreases series.len(),
{
    if series.len() == 0 {
        Seq::empty()
    } else {
        series_periods(series.drop_last()) + series.last().periods@
    }
}

pub open spec fn sorted_by_time(s: Seq<Price>) -> bool {
    forall|a: int, b: int| 0 <= a < b < s.len() ==> s[a].timestamp <= s[b].timestamp
}

/// The prices of a publication: every period normalised, concatenated, and ordered
/// by timestamp.
pub open spec fn is_extraction(out: Seq<Price>, periods: Seq<Period>, zone: Seq<char>, fetched_at: int) -> bool {
    &&& sorted_by_time(out)
    &&& exists|parts: Seq<Seq<Price>>|
        parts.len() == periods.len() && (forall|k: int|
            0 <= k < parts.len() ==> #[trigger] is_normalized(parts[k], periods[k], zone, fetched_at))
            && out.to_multiset() == parts.flatten().to_multiset()
}

/// Inserts `x` after every price not later than it.
fn insert_sorted(out: &mut Vec<Price>, x: Price)
    requires
        sorted_by_time(old(out)@),
    ensures
        sorted_by_time(final(out)@),
        final(out)@.to_multiset() == old(out)@.to_multiset().insert(x),
{
    let mut p: usize = out.len();
    while p > 0 && out[p - 1].timestamp > x.timestamp
        invariant
            p <= out@.len(),
            forall|a: int| p <= a < out@.len() ==> out@[a].timestamp > x.timestamp,
        decreases p,
    {
        p = p - 1;
    }
    proof {
        vstd::seq_lib::to_multiset_insert(out@, p as int, x);
    }
    out.insert(p, x);
}

/// The periods of the first `a` series come first among all periods.
pub proof fn lemma_series_prefix(series: Seq<TimeSeries>, a: int)
    requires
        0 <= a <= series.len(),
    ensures
        series_periods(series.subrange(0, a)).len() <= series_periods(series).len(),
        forall|k: int|
            0 <= k < series_periods(series.subrange(0, a)).len() ==> #[trigger] series_periods(
                series.subrange(0, a),
            )[k] == series_periods(series)[k],
    decreases series.len() - a,
{
    if a < series.len() {
        lemma_series_prefix(series, a + 1);
        assert(series.subrange(0, a + 1).drop_last() == series.subrange(0, a));
        let p = series_periods(series.subrange(0, a));
        let q = series_periods(series.subrange(0, a + 1));
        assert(q == p + series.subrange(0, a + 1).last().periods@);
        assert forall|k: int| 0 <= k < p.len() implies #[trigger] p[k] == series_periods(series)[k] by {
            assert(q[k] == p[k]);
        }
    } else {
        assert(series.subrange(0, a) == series);
    }
}

impl PublicationMarketDocument {
    /// Normalises every period of every series and returns the prices ordered by
    /// timestamp (prices of equal timestamp keep document order), with the number of
    /// positions carried forward. The first period that cannot be normalised
    /// decides the error.
    pub fn extract_prices(&self, bidding_zone: &str, fetched_at: i64) -> (r: Result<(Vec<Price>, u64), EntsoeError>)
        ensures
            r is Ok <==> forall|k: int|
                0 <= k < series_periods(self.time_series@).len() ==> #[trigger] fill_succeeds(
                    series_periods(self.time_series@)[k],
                ),
            r matches Ok((out, _)) ==> is_extraction(
                out@,
                series_periods(self.time_series@),
                bidding_zone@,
                fetched_at as int,
            ),
            r matches Err(e) ==> exists|k: int|
                0 <= k < series_periods(self.time_series@).len() && fill_error(
                    series_periods(self.time_series@)[k],
                    e,
                ),
    {
        let ghost all = series_periods(self.time_series@);
        let mut out: Vec<Price> = Vec::new();
        let mut gaps: u64 = 0;
        let ghost mut parts: Seq<Seq<Price>> = Seq::empty();
        let ghost mut done: Seq<Period> = Seq::empty();
        let mut a: usize = 0;
        while a < self.time_series.len()
            invariant
                a <= self.time_series@.len(),
                all == series_periods(self.time_series@),
                done == series_periods(self.time_series@.subrange(0, a as int)),
                parts.len() == done.len(),
                forall|k: int| 0 <= k < parts.len() ==> #[trigger] is_normalized(parts[k], done[k], bidding_zone@, fetched_at as int),
                forall|k: int| 0 <= k < done.len() ==> #[trigger] fill_succeeds(done[k]),
                sorted_by_time(out@),
                out@.to_multiset() == parts.flatten().to_multiset(),
            decreases self.time_series@.len() - a,
        {
            let series = &self.time_series[a];
            let ghost before = done;
            let mut b: usize = 0;
            while b < series.periods.len()
                invariant
                    a < self.time_series@.len(),
                    all == series_periods(self.time_series@),
                    *series == self.time_series@[a as int],
                    b <= series.periods@.len(),
                    before == series_periods(self.time_series@.subrange(0, a as int)),
                    done == before + series.periods@.subrange(0, b as int),
                    parts.len() == done.len(),
                    forall|k: int| 0 <= k < parts.len() ==> #[trigger] is_normalized(parts[k], done[k], bidding_zone@, fetched_at as int),
                    forall|k: int| 0 <= k < done.len() ==> #[trigger] fill_succeeds(done[k]),
                    sorted_by_time(out@),
                    out@.to_multiset() == parts.flatten().to_multiset(),
                decreases series.periods@.len() - b,
            {
                let period = &series.periods[b];
                let (mut part, part_gaps) = match normalize_period(period, bidding_zone, fetched_at) {
                    Ok(v) => v,
                    Err(e) => {
                        proof {
                            let k = done.len() as int;
                            assert(self.time_series@.subrange(0, a + 1).drop_last() == self.time_series@.subrange(0, a as int));
                            assert(series_periods(self.time_series@.subrange(0, a + 1)) == before + series.periods@);
                            assert(self.time_series@.subrange(0, a + 1).last() == *series);
                            lemma_series_prefix(self.time_series@, a as int + 1);
                            let q = series_periods(self.time_series@.subrange(0, a + 1));
                            assert(q[k] == series.periods@[b as int]);
                            assert(k < q.len());
                            assert(q.len() <= all.len());
                            assert(series_periods(self.time_series@.subrange(0, a as int + 1))[k] == all[k]);
                            assert(all[k] == series.periods@[b as int]);
                            assert(!fill_succeeds(all[k]));
                        }
                        return Err(e);
                    },
                };
                gaps = gaps.saturating_add(part_gaps);
                let ghost flat_before = parts.flatten();
                let ghost whole = part@;
                while part.len() > 0
                    invariant
                        part@.len() <= whole.len(),
                        part@ == whole.subrange(whole.len() - part@.len(), whole.len() as int),
                        sorted_by_time(out@),
                        out@.to_multiset() == (flat_before + whole.subrange(
                            0,
                            whole.len() - part@.len(),
                        )).to_multiset(),
                    decreases part@.len(),
                {
                    let ghost k = whole.len() - part@.len();
                    let x = part.remove(0);
                    proof {
                        assert(x == whole[k]);
                        assert(whole.subrange(0, k + 1) == whole.subrange(0, k).push(x));
                        assert(flat_before + whole.subrange(0, k + 1) == (flat_before + whole.subrange(0, k)).push(x));
                        vstd::seq_lib::to_multiset_build(flat_before + whole.subrange(0, k), x);
                        assert(part@ == whole.subrange(k + 1, whole.len() as int));
                    }
                    insert_sorted(&mut out, x);
                }
                proof {
                    assert(whole.subrange(0, whole.len() as int) == whole);
                    parts.lemma_flatten_push(whole);
                }
                proof {
                    parts = parts.push(whole);
                    done = done.push(*period);
                    assert(series.periods@.subrange(0, b + 1) == series.periods@.subrange(0, b as int).push(*period));
                    assert(done == before + series.periods@.subrange(0, b + 1));
                }
                b = b + 1;
            }
            proof {
                assert(series.periods@.subrange(0, series.periods@.len() as int) == series.periods@);
                assert(self.time_series@.subrange(0, a + 1).drop_last() == self.time_series@.subrange(0, a as int));
                assert(self.time_series@.subrange(0, a + 1).last() == *series);
            }
            a = a + 1;
        }
        proof {
            assert(self.time_series@.subrange(0, self.time_series@.len() as int) == self.time_series@);
        }
        Ok((out, gaps))
    }
}

} // verus!
