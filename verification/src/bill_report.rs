//! Bills of contracts, and what was billed hour by hour.

use vstd::prelude::*;
use std::collections::BTreeMap;

verus! {

/// Amount of seconds in an hour.
pub const SECONDS_IN_HOUR: i64 = 3600;

/// A contract bill report on the grid.
#[derive(Clone, Copy, Debug, PartialEq, Eq)]
pub struct ContractBillReport {
    pub amount_billed: u64,
    pub contract_id: u64,
    pub timestamp: i64,
    pub discount_received: DiscountLevel,
}

/// Level of discount applied for a contract bill.
#[derive(Clone, Copy, Debug, PartialEq, Eq)]
pub enum DiscountLevel {
    /// No discount.
    Undiscounted,
    Default,
    Bronze,
    Silver,
    Gold,
}

/// The amount that the reports bill, taken together.
pub open spec fn billed_sum(reports: Seq<ContractBillReport>) -> nat
    decreases reports.len(),
{
    if reports.len() == 0 {
        0
    } else {
        billed_sum(reports.drop_last()) + reports.last().amount_billed as nat
    }
}

/// The hour in which a moment lies. Hours are counted from the epoch, and
/// the hours before it toward it: the hour 0 begins 3599 seconds before the
/// epoch and ends 3599 seconds after it.
pub open spec fn hour_of(timestamp: i64) -> int {
    if timestamp >= 0 {
        (timestamp as int) / (SECONDS_IN_HOUR as int)
    } else {
        -((-(timestamp as int)) / (SECONDS_IN_HOUR as int))
    }
}

/// The hours in which a report lies.
pub open spec fn billed_hours(reports: Seq<ContractBillReport>) -> Set<i64> {
    Set::new(
        |hour: i64|
            exists|i: int| 0 <= i < reports.len() && hour_of(#[trigger] reports[i].timestamp) == hour,
    )
}

/// The amount that the reports of one hour bill, taken together.
pub open spec fn billed_in_hour(reports: Seq<ContractBillReport>, hour: int) -> nat
    decreases reports.len(),
{
    if reports.len() == 0 {
        0
    } else if hour_of(reports.last().timestamp) == hour {
        billed_in_hour(reports.drop_last(), hour) + reports.last().amount_billed as nat
    } else {
        billed_in_hour(reports.drop_last(), hour)
    }
}

/// The number of reports that lie in one hour.
pub open spec fn reports_in_hour(reports: Seq<ContractBillReport>, hour: int) -> nat
    decreases reports.len(),
{
    if reports.len() == 0 {
        0
    } else if hour_of(reports.last().timestamp) == hour {
        reports_in_hour(reports.drop_last(), hour) + 1
    } else {
        reports_in_hour(reports.drop_last(), hour)
    }
}

proof fn lemma_billed_sum_grows(reports: Seq<ContractBillReport>, n: int)
    requires
        0 <= n <= reports.len(),
    ensures
        billed_sum(reports.take(n)) <= billed_sum(reports),
    decreases reports.len() - n,
{
    if n < reports.len() {
        lemma_billed_sum_grows(reports, n + 1);
        assert(reports.take(n + 1).drop_last() == reports.take(n));
    } else {
        assert(reports.take(n) == reports);
    }
}

proof fn lemma_billed_in_hour_grows(reports: Seq<ContractBillReport>, n: int, hour: int)
    requires
        0 <= n <= reports.len(),
    ensures
        billed_in_hour(reports.take(n), hour) <= billed_in_hour(reports, hour),
    decreases reports.len() - n,
{
    if n < reports.len() {
        lemma_billed_in_hour_grows(reports, n + 1, hour);
        assert(reports.take(n + 1).drop_last() == reports.take(n));
    } else {
        assert(reports.take(n) == reports);
    }
}

proof fn lemma_hour_without_reports(reports: Seq<ContractBillReport>, hour: i64)
    requires
        !billed_hours(reports).contains(hour),
    ensures
        billed_in_hour(reports, hour as int) == 0,
        reports_in_hour(reports, hour as int) == 0,
    decreases reports.len(),
{
    if reports.len() > 0 {
        let rest = reports.drop_last();
        assert(hour_of(reports[reports.len() - 1].timestamp) != hour);
        assert forall|i: int| 0 <= i < rest.len() implies hour_of(#[trigger] rest[i].timestamp)
            != hour by {
            assert(rest[i] == reports[i]);
        }
        lemma_hour_without_reports(rest, hour);
    }
}

proof fn lemma_reports_in_hour_bounded(reports: Seq<ContractBillReport>, hour: int)
    ensures
        reports_in_hour(reports, hour) <= reports.len(),
    decreases reports.len(),
{
    if reports.len() > 0 {
        lemma_reports_in_hour_bounded(reports.drop_last(), hour);
    }
}

proof fn lemma_billed_hours_of_next(reports: Seq<ContractBillReport>, n: int)
    requires
        0 <= n < reports.len(),
    ensures
        billed_hours(reports.take(n + 1)) == billed_hours(reports.take(n)).insert(
            hour_of(reports[n].timestamp) as i64,
        ),
{
    let next = reports.take(n + 1);
    let so_far = reports.take(n);
    let hour = hour_of(reports[n].timestamp) as i64;
    assert forall|h: i64| billed_hours(next).contains(h) <==> billed_hours(so_far).insert(
        hour,
    ).contains(h) by {
        if billed_hours(next).contains(h) {
            let i = choose|i: int|
                0 <= i < next.len() && hour_of(#[trigger] next[i].timestamp) == h;
            if i < n {
                assert(so_far[i] == next[i]);
            }
        }
        if billed_hours(so_far).contains(h) {
            let i = choose|i: int|
                0 <= i < so_far.len() && hour_of(#[trigger] so_far[i].timestamp) == h;
            assert(next[i] == so_far[i]);
        }
        if h == hour {
            assert(next[n] == reports[n]);
        }
    }
}

/// The hour in which a moment lies.
pub fn hour(timestamp: i64) -> (hour: i64)
    ensures
        hour == hour_of(timestamp),
{
    timestamp / SECONDS_IN_HOUR
}

/// The total of the amounts that the reports bill, or `None` where it is
/// more than a `u64` holds.
pub fn total_billed(reports: &[ContractBillReport]) -> (total: Option<u64>)
    ensures
        match total {
            Some(sum) => sum == billed_sum(reports@),
            None => billed_sum(reports@) > u64::MAX,
        },
{
    let n: usize = reports.len();
    let mut sum: u64 = 0;
    let mut i: usize = 0;
    while i < n
        invariant
            n == reports@.len(),
            i <= n,
            sum == billed_sum(reports@.take(i as int)),
        decreases n - i,
    {
        assert(reports@.take(i + 1).drop_last() == reports@.take(i as int));
        match sum.checked_add(reports[i].amount_billed) {
            Some(more) => {
                sum = more;
            },
            None => {
                proof {
                    lemma_billed_sum_grows(reports@, i + 1);
                }
                return None;
            },
        }
        i += 1;
    }
    assert(reports@.take(n as int) == reports@);
    Some(sum)
}

/// What was billed in each hour in which a report lies, or `None` where
/// the amount of an hour is more than a `u64` holds.
pub fn billed_per_hour(reports: &[ContractBillReport]) -> (totals: Option<BTreeMap<i64, u64>>)
    ensures
        match totals {
            Some(per_hour) => {
                &&& per_hour@.dom() == billed_hours(reports@)
                &&& forall|hour: i64| #[trigger]
                    per_hour@.contains_key(hour) ==> per_hour@[hour] == billed_in_hour(
                        reports@,
                        hour as int,
                    )
            },
            None => exists|hour: i64| #[trigger] billed_in_hour(reports@, hour as int) > u64::MAX,
        },
{
    let n: usize = reports.len();
    let mut per_hour: BTreeMap<i64, u64> = BTreeMap::new();
    let mut i: usize = 0;
    while i < n
        invariant
            n == reports@.len(),
            i <= n,
            per_hour@.dom() == billed_hours(reports@.take(i as int)),
            forall|hour: i64| #[trigger]
                per_hour@.contains_key(hour) ==> per_hour@[hour] == billed_in_hour(
                    reports@.take(i as int),
                    hour as int,
                ),
        decreases n - i,
    {
        let ghost so_far = reports@.take(i as int);
        let ghost next = reports@.take(i + 1);
        let ghost before = per_hour@;
        let amount: u64 = reports[i].amount_billed;
        let h: i64 = hour(reports[i].timestamp);
        let billed: u64 = match per_hour.get(&h) {
            Some(billed) => *billed,
            None => 0,
        };
        proof {
            assert(next.drop_last() == so_far);
            if !before.contains_key(h) {
                lemma_hour_without_reports(so_far, h);
            }
            assert(billed == billed_in_hour(so_far, h as int));
            lemma_billed_hours_of_next(reports@, i as int);
        }
        match billed.checked_add(amount) {
            Some(more) => {
                per_hour.insert(h, more);
            },
            None => {
                proof {
                    lemma_billed_in_hour_grows(reports@, i + 1, h as int);
                }
                return None;
            },
        }
        assert forall|hour: i64| #[trigger] per_hour@.contains_key(hour) implies per_hour@[hour]
            == billed_in_hour(next, hour as int) by {
            if hour != h {
                assert(before.contains_key(hour));
            }
        }
        i += 1;
    }
    assert(reports@.take(n as int) == reports@);
    Some(per_hour)
}

/// The number of reports in each hour in which a report lies.
pub fn reports_per_hour(reports: &[ContractBillReport]) -> (counts: BTreeMap<i64, usize>)
    ensures
        counts@.dom() == billed_hours(reports@),
        forall|hour: i64| #[trigger]
            counts@.contains_key(hour) ==> counts@[hour] == reports_in_hour(reports@, hour as int),
{
    let n: usize = reports.len();
    let mut counts: BTreeMap<i64, usize> = BTreeMap::new();
    let mut i: usize = 0;
    while i < n
        invariant
            n == reports@.len(),
            i <= n,
            counts@.dom() == billed_hours(reports@.take(i as int)),
            forall|hour: i64| #[trigger]
                counts@.contains_key(hour) ==> counts@[hour] == reports_in_hour(
                    reports@.take(i as int),
                    hour as int,
                ),
        decreases n - i,
    {
        let ghost so_far = reports@.take(i as int);
        let ghost next = reports@.take(i + 1);
        let ghost before = counts@;
        let h: i64 = hour(reports[i].timestamp);
        let count: usize = match counts.get(&h) {
            Some(count) => *count,
            None => 0,
        };
        proof {
            assert(next.drop_last() == so_far);
            if !before.contains_key(h) {
                lemma_hour_without_reports(so_far, h);
            }
            assert(count == reports_in_hour(so_far, h as int));
            lemma_reports_in_hour_bounded(so_far, h as int);
            lemma_billed_hours_of_next(reports@, i as int);
        }
        counts.insert(h, count + 1);
        assert forall|hour: i64| #[trigger] counts@.contains_key(hour) implies counts@[hour]
            == reports_in_hour(next, hour as int) by {
            if hour != h {
                assert(before.contains_key(hour));
            }
        }
        i += 1;
    }
    assert(reports@.take(n as int) == reports@);
    counts
}

/// The hour that ends at `end`, for `back == 0`, or an hour before it:
/// `back` counts the hours between the two. The hour is given by its first
/// and its last moment.
pub open spec fn hour_before(end: i64, back: int) -> (int, int) {
    (end - SECONDS_IN_HOUR * (back + 1), end - SECONDS_IN_HOUR * back)
}

/// The last `hours` hours before `end`, the latest first, each by its first
/// and its last moment: what to ask for in order to have the bills of that
/// time hour by hour.
pub fn hours_before(end: i64, hours: usize) -> (periods: Vec<(i64, i64)>)
    requires
        end - SECONDS_IN_HOUR * hours >= i64::MIN,
    ensures
        periods@.len() == hours,
        forall|i: int|
            0 <= i < hours ==> (#[trigger] periods@[i].0) as int == hour_before(end, i).0
                && periods@[i].1 as int == hour_before(end, i).1,
{
    let mut periods: Vec<(i64, i64)> = Vec::new();
    let mut i: usize = 0;
    while i < hours
        invariant
            end - SECONDS_IN_HOUR * hours >= i64::MIN,
            i <= hours,
            periods@.len() == i,
            forall|k: int|
                0 <= k < i ==> (#[trigger] periods@[k].0) as int == hour_before(end, k).0
                    && periods@[k].1 as int == hour_before(end, k).1,
        decreases hours - i,
    {
        let last: i128 = end as i128 - SECONDS_IN_HOUR as i128 * i as i128;
        let first: i128 = last - SECONDS_IN_HOUR as i128;
        periods.push((first as i64, last as i64));
        i += 1;
    }
    periods
}

} // verus!
