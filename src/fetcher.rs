//! Decisions of the fetch orchestrator: how per-zone results are tallied into a
//! summary and one batch of prices, which status closes the fetch log, and which
//! zones still lack tomorrow's prices. The caller runs the fan-out and the store.

use vstd::prelude::*;
use vstd::string::*;
use crate::error::EntsoeError;
use crate::models::{BiddingZone, FetchLog, FetchStatus, Price};
use crate::time::{day_floor, day_start, valid_instant, SECONDS_PER_DAY};

verus! {

/// Tally of one fetch run.
#[derive(Debug, Clone)]
pub struct FetchSummary {
    pub succeeded: usize,
    pub failed: usize,
    pub no_data: usize,
    pub total_prices_stored: usize,
    pub errors: Vec<String>,
}

impl FetchSummary {
    /// An empty summary.
    pub fn new() -> (r: FetchSummary)
        ensures
            r.succeeded == 0 && r.failed == 0 && r.no_data == 0 && r.total_prices_stored == 0,
            r.errors@.len() == 0,
    {
        FetchSummary { succeeded: 0, failed: 0, no_data: 0, total_prices_stored: 0, errors: Vec::new() }
    }

    /// Adds the counts of `other` and appends its errors.
    pub fn merge(&mut self, other: FetchSummary)
        requires
            old(self).succeeded + other.succeeded <= usize::MAX,
            old(self).failed + other.failed <= usize::MAX,
            old(self).no_data + other.no_data <= usize::MAX,
            old(self).total_prices_stored + other.total_prices_stored <= usize::MAX,
        ensures
            final(self).succeeded == old(self).succeeded + other.succeeded,
            final(self).failed == old(self).failed + other.failed,
            final(self).no_data == old(self).no_data + other.no_data,
            final(self).total_prices_stored == old(self).total_prices_stored + other.total_prices_stored,
            final(self).errors@ == old(self).errors@ + other.errors@,
    {
        self.succeeded = self.succeeded + other.succeeded;
        self.failed = self.failed + other.failed;
        self.no_data = self.no_data + other.no_data;
        self.total_prices_stored = self.total_prices_stored + other.total_prices_stored;
        let mut more = other.errors;
        self.errors.append(&mut more);
    }
}

impl Default for FetchSummary {
    fn default() -> (r: FetchSummary)
        ensures
            r.succeeded == 0 && r.failed == 0 && r.no_data == 0 && r.total_prices_stored == 0,
            r.errors@.len() == 0,
    {
        FetchSummary::new()
    }
}

/// How one zone's fetch ended.
pub open spec fn is_no_data(r: Result<Vec<Price>, EntsoeError>) -> bool {
    match r {
        Ok(v) => v@.len() == 0,
        Err(e) => e is NoData,
    }
}

pub open spec fn is_success(r: Result<Vec<Price>, EntsoeError>) -> bool {
    r matches Ok(v) && v@.len() > 0
}

pub open spec fn is_failure(r: Result<Vec<Price>, EntsoeError>) -> bool {
    r matches Err(e) && !(e is NoData)
}

pub open spec fn count_where(
    results: Seq<(String, Result<Vec<Price>, EntsoeError>)>,
    p: spec_fn(Result<Vec<Price>, EntsoeError>) -> bool,
) -> nat
    decreases results.len(),
{
    if results.len() == 0 {
        0
    } else {
        count_where(results.drop_last(), p) + if p(results.last().1) {
            1nat
        } else {
            0nat
        }
    }
}

/// The prices of the successful zones, in the order of the results.
pub open spec fn batch_of(results: Seq<(String, Result<Vec<Price>, EntsoeError>)>) -> Seq<Price>
    decreases results.len(),
{
    if results.len() == 0 {
        Seq::empty()
    } else {
        batch_of(results.drop_last()) + match results.last().1 {
            Ok(v) => v@,
            Err(_) => Seq::empty(),
        }
    }
}

/// One line per failed zone: its code, ": ", and the error's description.
pub open spec fn failure_lines(results: Seq<(String, Result<Vec<Price>, EntsoeError>)>) -> Seq<Seq<char>>
    decreases results.len(),
{
    if results.len() == 0 {
        Seq::empty()
    } else {
        let rest = failure_lines(results.drop_last());
        match results.last().1 {
            Err(e) => if e is NoData {
                rest
            } else {
                rest.push(results.last().0@ + ": "@ + e.text())
            },
            Ok(_) => rest,
        }
    }
}

/// Tallies per-zone results (zone code, outcome) into a summary and the single
/// batch of prices to store: a zone with prices succeeded, one with none or with
/// `NoData` had no data, any other error failed and is described in `errors`.
pub fn summarize_zone_results(results: Vec<(String, Result<Vec<Price>, EntsoeError>)>) -> (r: (
    FetchSummary,
    Vec<Price>,
))
    ensures
        r.0.succeeded == count_where(results@, |x| is_success(x)),
        r.0.no_data == count_where(results@, |x| is_no_data(x)),
        r.0.failed == count_where(results@, |x| is_failure(x)),
        r.0.errors@.len() == r.0.failed,
        r.0.errors@.map_values(|e: String| e@) == failure_lines(results@),
        r.0.total_prices_stored == 0,
        r.1@ == batch_of(results@),
{
    let ghost all = results@;
    let mut summary = FetchSummary::new();
    let mut batch: Vec<Price> = Vec::new();
    let mut rest = results;
    let ghost mut done: Seq<(String, Result<Vec<Price>, EntsoeError>)> = Seq::empty();
    let mut i: usize = 0;
    let n = rest.len();
    proof {
        assert(all.subrange(0, 0) == done);
    }
    while i < n
        invariant
            n == all.len(),
            i <= n,
            rest@ == all.subrange(i as int, n as int),
            done == all.subrange(0, i as int),
            summary.succeeded == count_where(done, |x| is_success(x)),
            summary.no_data == count_where(done, |x| is_no_data(x)),
            summary.failed == count_where(done, |x| is_failure(x)),
            summary.succeeded + summary.no_data + summary.failed == i,
            summary.errors@.len() == summary.failed,
            summary.errors@.map_values(|e: String| e@) == failure_lines(done),
            summary.total_prices_stored == 0,
            batch@ == batch_of(done),
        decreases n - i,
    {
        let item = rest.remove(0);
        proof {
            assert(item == all[i as int]);
            assert(all.subrange(0, i + 1) == done.push(item));
            assert(done.push(item).drop_last() == done);
            assert(rest@ == all.subrange(i + 1, n as int));
        }
        let (zone_code, outcome) = item;
        match outcome {
            Ok(prices) => {
                if prices.len() == 0 {
                    summary.no_data = summary.no_data + 1;
                } else {
                    summary.succeeded = summary.succeeded + 1;
                }
                let mut p = prices;
                batch.append(&mut p);
            },
            Err(e) => {
                match e {
                    EntsoeError::NoData => {
                        summary.no_data = summary.no_data + 1;
                    },
                    _ => {
                        summary.failed = summary.failed + 1;
                        let mut line = zone_code;
                        line.append(": ");
                        line.append(e.message().as_str());
                        let ghost before = summary.errors@;
                        let ghost line_view = line@;
                        summary.errors.push(line);
                        proof {
                            assert(summary.errors@.map_values(|e: String| e@) =~= before.map_values(
                                |e: String| e@,
                            ).push(line_view));
                        }
                    },
                }
            },
        }
        proof {
            done = done.push(item);
        }
        i = i + 1;
    }
    (summary, batch)
}

pub open spec fn status_spec(failed: int, succeeded: int, no_data: int) -> FetchStatus {
    if failed > 0 {
        FetchStatus::Error
    } else if succeeded == 0 {
        FetchStatus::NoData
    } else {
        FetchStatus::Success
    }
}

/// The status that closes the fetch log: `Error` if any zone failed, else
/// `NoData` if nothing succeeded, else `Success`.
pub fn final_status(summary: &FetchSummary) -> (r: FetchStatus)
    ensures
        r == status_spec(summary.failed as int, summary.succeeded as int, summary.no_data as int),
{
    if summary.failed > 0 {
        FetchStatus::Error
    } else if summary.succeeded == 0 {
        FetchStatus::NoData
    } else {
        FetchStatus::Success
    }
}

/// The error lines joined with "; ".
pub open spec fn joined(lines: Seq<Seq<char>>) -> Seq<char>
    decreases lines.len(),
{
    if lines.len() == 0 {
        Seq::empty()
    } else if lines.len() == 1 {
        lines[0]
    } else {
        joined(lines.drop_last()) + "; "@ + lines.last()
    }
}

/// The message stored with the fetch log: none without errors, else all error lines.
pub fn error_message(errors: &Vec<String>) -> (r: Option<String>)
    ensures
        errors@.len() == 0 ==> r is None,
        errors@.len() > 0 ==> (r matches Some(m) && m@ == joined(errors@.map_values(|e: String| e@))),
{
    if errors.len() == 0 {
        return None;
    }
    let ghost views = errors@.map_values(|e: String| e@);
    let mut m = errors[0].clone();
    let mut i: usize = 1;
    proof {
        assert(views.subrange(0, 1).len() == 1);
    }
    while i < errors.len()
        invariant
            1 <= i <= errors@.len(),
            views == errors@.map_values(|e: String| e@),
            m@ == joined(views.subrange(0, i as int)),
        decreases errors@.len() - i,
    {
        m.append("; ");
        m.append(errors[i].as_str());
        proof {
            assert(views.subrange(0, i + 1).drop_last() == views.subrange(0, i as int));
        }
        i = i + 1;
    }
    proof {
        assert(views.subrange(0, errors@.len() as int) == views);
    }
    Some(m)
}

/// Closes the fetch log of a run: the status follows the summary's counts, the
/// records are the prices stored (capped at `i32::MAX`), and the message joins
/// the error lines. A log that is no longer pending is left as it is.
pub fn complete_fetch_log(log: &mut FetchLog, summary: &FetchSummary, duration_ms: i32, completed_at: i64) -> (r: bool)
    requires
        old(log).wf(),
    ensures
        final(log).wf(),
        r == (old(log).status == FetchStatus::Pending),
        r ==> final(log).status == status_spec(summary.failed as int, summary.succeeded as int, summary.no_data as int)
            && final(log).records_inserted == Some(
            if summary.total_prices_stored > i32::MAX {
                i32::MAX
            } else {
                summary.total_prices_stored as i32
            },
        ) && final(log).duration_ms == Some(duration_ms) && final(log).fetch_completed_at == Some(completed_at)
            && (summary.errors@.len() == 0 <==> final(log).error_message is None)
            && (summary.errors@.len() > 0 ==> (final(log).error_message matches Some(m) && m@ == joined(
            summary.errors@.map_values(|e: String| e@),
        ))),
        !r ==> *final(log) == *old(log),
{
    let status = final_status(summary);
    let records: i32 = if summary.total_prices_stored > i32::MAX as usize {
        i32::MAX
    } else {
        summary.total_prices_stored as i32
    };
    let message = error_message(&summary.errors);
    log.complete(status, records, message, None, duration_ms, completed_at)
}

/// The zones whose flag is false, in order.
pub open spec fn missing_of(zones: Seq<BiddingZone>, has_data: Seq<bool>) -> Seq<BiddingZone>
    decreases zones.len(),
{
    if zones.len() == 0 || has_data.len() == 0 {
        Seq::empty()
    } else {
        let rest = missing_of(zones.drop_last(), has_data.drop_last());
        if has_data.last() {
            rest
        } else {
            rest.push(zones.last())
        }
    }
}

/// Whether some zone still lacks tomorrow's prices.
pub fn should_fetch_tomorrow(has_data: &Vec<bool>) -> (r: bool)
    ensures
        r == exists|i: int| 0 <= i < has_data@.len() && !has_data@[i],
{
    let mut i: usize = 0;
    while i < has_data.len()
        invariant
            i <= has_data@.len(),
            forall|k: int| 0 <= k < i ==> has_data@[k],
        decreases has_data@.len() - i,
    {
        if !has_data[i] {
            return true;
        }
        i = i + 1;
    }
    false
}

/// Start and end (seconds) of the UTC day after the one holding `now`.
pub fn tomorrow_window(now: i64) -> (r: (i64, i64))
    requires
        valid_instant(now as int),
    ensures
        r.0 == day_floor(now as int) + SECONDS_PER_DAY,
        r.1 == r.0 + SECONDS_PER_DAY,
{
    let start = day_start(now);
    (start + SECONDS_PER_DAY, start + 2 * SECONDS_PER_DAY)
}

/// The zones that still lack tomorrow's prices, given for each zone whether the
/// store already has some, in the zones' order.
pub fn zones_missing_data(zones: Vec<BiddingZone>, has_data: &Vec<bool>) -> (r: Vec<BiddingZone>)
    requires
        zones@.len() == has_data@.len(),
    ensures
        r@ == missing_of(zones@, has_data@),
{
    let ghost all = zones@;
    let mut out: Vec<BiddingZone> = Vec::new();
    let mut rest = zones;
    let mut i: usize = 0;
    let n = has_data.len();
    while i < n
        invariant
            n == all.len() == has_data@.len(),
            i <= n,
            rest@ == all.subrange(i as int, n as int),
            out@ == missing_of(all.subrange(0, i as int), has_data@.subrange(0, i as int)),
        decreases n - i,
    {
        let z = rest.remove(0);
        proof {
            assert(z == all[i as int]);
            assert(all.subrange(0, i + 1).drop_last() == all.subrange(0, i as int));
            assert(has_data@.subrange(0, i + 1).drop_last() == has_data@.subrange(0, i as int));
            assert(rest@ == all.subrange(i + 1, n as int));
        }
        if !has_data[i] {
            out.push(z);
        }
        i = i + 1;
    }
    proof {
        assert(all.subrange(0, n as int) == all);
        assert(has_data@.subrange(0, n as int) == has_data@);
    }
    out
}

} // verus!
