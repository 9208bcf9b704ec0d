//! Reports about the public network traffic of contracts.

use vstd::prelude::*;

verus! {

/// A report about nru consumption, also used to prove workload liveliness.
#[derive(Clone, Copy, Debug, PartialEq, Eq)]
pub struct NRUConsumption {
    pub contract_id: u64,
    pub window: u64,
    pub nru: u64,
    pub timestamp: i64,
}

/// The traffic that the reports tell of, taken together.
pub open spec fn nru_sum(reports: Seq<NRUConsumption>) -> nat
    decreases reports.len(),
{
    if reports.len() == 0 {
        0
    } else {
        nru_sum(reports.drop_last()) + reports.last().nru as nat
    }
}

proof fn lemma_nru_sum_grows(reports: Seq<NRUConsumption>, n: int)
    requires
        0 <= n <= reports.len(),
    ensures
        nru_sum(reports.take(n)) <= nru_sum(reports),
    decreases reports.len() - n,
{
    if n < reports.len() {
        lemma_nru_sum_grows(reports, n + 1);
        assert(reports.take(n + 1).drop_last() == reports.take(n));
    } else {
        assert(reports.take(n) == reports);
    }
}

/// The total of the traffic that the reports tell of, or `None` where it
/// is more than a `u64` holds.
pub fn total_nru(reports: &[NRUConsumption]) -> (total: Option<u64>)
    ensures
        match total {
            Some(sum) => sum == nru_sum(reports@),
            None => nru_sum(reports@) > u64::MAX,
        },
{
    let n: usize = reports.len();
    let mut sum: u64 = 0;
    let mut i: usize = 0;
    while i < n
        invariant
            n == reports@.len(),
            i <= n,
            sum == nru_sum(reports@.take(i as int)),
        decreases n - i,
    {
        assert(reports@.take(i + 1).drop_last() == reports@.take(i as int));
        match sum.checked_add(reports[i].nru) {
            Some(more) => {
                sum = more;
            },
            None => {
                proof {
                    lemma_nru_sum_grows(reports@, i + 1);
                }
                return None;
            },
        }
        i += 1;
    }
    assert(reports@.take(n as int) == reports@);
    Some(sum)
}

} // verus!
