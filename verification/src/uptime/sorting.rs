//! Sorting events by timestamp: a merge sort, and why there is one result
//! only that a sort which keeps the order of equal timestamps can have.

use vstd::prelude::*;
use super::{has_timestamp, is_stable_sort_of, sorted_by_timestamp, with_timestamp, UptimeEvent};

verus! {

proof fn lemma_none_with_timestamp(ues: Seq<UptimeEvent>, t: i64)
    requires
        forall|k: int| 0 <= k < ues.len() ==> (#[trigger] ues[k]).timestamp != t,
    ensures
        with_timestamp(ues, t) == Seq::<UptimeEvent>::empty(),
    decreases ues.len(),
{
    reveal(Seq::filter);
    if ues.len() > 0 {
        lemma_none_with_timestamp(ues.drop_last(), t);
    }
}

proof fn lemma_push_with_timestamp(ues: Seq<UptimeEvent>, e: UptimeEvent, t: i64)
    ensures
        with_timestamp(ues.push(e), t) == if e.timestamp == t {
            with_timestamp(ues, t).push(e)
        } else {
            with_timestamp(ues, t)
        },
{
    ues.lemma_filter_push(e, has_timestamp(t));
}

proof fn lemma_concat_with_timestamp(a: Seq<UptimeEvent>, b: Seq<UptimeEvent>, t: i64)
    ensures
        with_timestamp(a + b, t) == with_timestamp(a, t) + with_timestamp(b, t),
{
    Seq::filter_distributes_over_add(a, b, has_timestamp(t));
}

proof fn lemma_sorted_and_stable_is_unique(a: Seq<UptimeEvent>, b: Seq<UptimeEvent>)
    requires
        sorted_by_timestamp(a),
        sorted_by_timestamp(b),
        a.len() == b.len(),
        forall|t: i64|
            #![trigger with_timestamp(a, t)]
            with_timestamp(a, t) == with_timestamp(b, t),
    ensures
        a == b,
    decreases a.len(),
{
    if a.len() > 0 {
        let x = a.last();
        let y = b.last();
        let a0 = a.drop_last();
        let b0 = b.drop_last();
        assert(a == a0.push(x));
        assert(b == b0.push(y));
        lemma_push_with_timestamp(a0, x, x.timestamp);
        lemma_push_with_timestamp(b0, y, y.timestamp);
        // The last events have the same timestamp: were one of them later,
        // the other list would hold no event with its timestamp.
        if x.timestamp < y.timestamp {
            assert forall|k: int| 0 <= k < a.len() implies (#[trigger] a[k]).timestamp
                != y.timestamp by {
                assert(a[k].timestamp <= a[a.len() - 1].timestamp);
            }
            lemma_none_with_timestamp(a, y.timestamp);
            assert(with_timestamp(b, y.timestamp).len() > 0);
        }
        if y.timestamp < x.timestamp {
            assert forall|k: int| 0 <= k < b.len() implies (#[trigger] b[k]).timestamp
                != x.timestamp by {
                assert(b[k].timestamp <= b[b.len() - 1].timestamp);
            }
            lemma_none_with_timestamp(b, x.timestamp);
            assert(with_timestamp(a, x.timestamp).len() > 0);
        }
        // They are the last of the events with that timestamp, so they are
        // the same event.
        assert(with_timestamp(a, x.timestamp).last() == x);
        assert(with_timestamp(b, x.timestamp).last() == y);
        // What stands before them agrees by induction.
        assert forall|t: i64|
            #![trigger with_timestamp(a0, t)]
            with_timestamp(a0, t) == with_timestamp(b0, t) by {
            lemma_push_with_timestamp(a0, x, t);
            lemma_push_with_timestamp(b0, y, t);
            if x.timestamp == t {
                assert(with_timestamp(a0, t) == with_timestamp(a0, t).push(x).drop_last());
                assert(with_timestamp(b0, t) == with_timestamp(b0, t).push(x).drop_last());
            }
        }
        assert(sorted_by_timestamp(a0)) by {
            assert forall|i: int, j: int| 0 <= i <= j < a0.len() implies a0[i].timestamp
                <= a0[j].timestamp by {
                assert(a0[i] == a[i] && a0[j] == a[j]);
            }
        }
        assert(sorted_by_timestamp(b0)) by {
            assert forall|i: int, j: int| 0 <= i <= j < b0.len() implies b0[i].timestamp
                <= b0[j].timestamp by {
                assert(b0[i] == b[i] && b0[j] == b[j]);
            }
        }
        lemma_sorted_and_stable_is_unique(a0, b0);
    }
}

/// There is one way only to sort events by timestamp and keep the order of
/// those with the same timestamp.
pub proof fn lemma_stable_sort_is_unique(
    a: Seq<UptimeEvent>,
    b: Seq<UptimeEvent>,
    ues: Seq<UptimeEvent>,
)
    requires
        is_stable_sort_of(a, ues),
        is_stable_sort_of(b, ues),
    ensures
        a == b,
{
    vstd::seq_lib::to_multiset_len(a);
    vstd::seq_lib::to_multiset_len(b);
    vstd::seq_lib::to_multiset_len(ues);
    assert forall|t: i64| #![trigger with_timestamp(a, t)] with_timestamp(a, t) == with_timestamp(
        b,
        t,
    ) by {
        assert(with_timestamp(b, t) == with_timestamp(ues, t));
    }
    lemma_sorted_and_stable_is_unique(a, b);
}

/// Sorting leaves events as they are that are in ascending timestamp order.
pub proof fn lemma_sort_keeps_sorted_events(sorted: Seq<UptimeEvent>, ues: Seq<UptimeEvent>)
    requires
        sorted_by_timestamp(ues),
        is_stable_sort_of(sorted, ues),
    ensures
        sorted == ues,
{
    lemma_stable_sort_is_unique(sorted, ues, ues);
}

/// Merges two sorted runs of events into one. Of two events with the same
/// timestamp, one from `left` comes before one from `right`.
fn merge_runs(left: &Vec<UptimeEvent>, right: &Vec<UptimeEvent>) -> (merged: Vec<UptimeEvent>)
    requires
        sorted_by_timestamp(left@),
        sorted_by_timestamp(right@),
        left@.len() + right@.len() <= usize::MAX,
    ensures
        is_stable_sort_of(merged@, left@ + right@),
{
    let mut merged: Vec<UptimeEvent> = Vec::new();
    let mut i: usize = 0;
    let mut j: usize = 0;
    proof {
        assert(left@.take(0) == Seq::<UptimeEvent>::empty());
        assert(right@.take(0) == Seq::<UptimeEvent>::empty());
        assert(merged@.to_multiset() == merged@.to_multiset().add(merged@.to_multiset())) by {
            broadcast use vstd::multiset::group_multiset_axioms;

            vstd::seq_lib::to_multiset_len(merged@);
        }
        assert forall|t: i64|
            #![trigger with_timestamp(merged@, t)]
            with_timestamp(merged@, t) == with_timestamp(left@.take(0), t) + with_timestamp(
                right@.take(0),
                t,
            ) by {
            lemma_none_with_timestamp(merged@, t);
        }
    }
    while i < left.len() || j < right.len()
        invariant
            sorted_by_timestamp(left@),
            sorted_by_timestamp(right@),
            left@.len() + right@.len() <= usize::MAX,
            i <= left@.len(),
            j <= right@.len(),
            sorted_by_timestamp(merged@),
            forall|k: int|
                0 <= k < merged@.len() && i < left@.len() ==> (#[trigger] merged@[k]).timestamp
                    <= left@[i as int].timestamp,
            forall|k: int|
                0 <= k < merged@.len() && j < right@.len() ==> (#[trigger] merged@[k]).timestamp
                    <= right@[j as int].timestamp,
            forall|k: int|
                0 <= k < j && i < left@.len() ==> (#[trigger] right@[k]).timestamp
                    < left@[i as int].timestamp,
            merged@.to_multiset() == left@.take(i as int).to_multiset().add(
                right@.take(j as int).to_multiset(),
            ),
            forall|t: i64|
                #![trigger with_timestamp(merged@, t)]
                with_timestamp(merged@, t) == with_timestamp(left@.take(i as int), t)
                    + with_timestamp(right@.take(j as int), t),
        decreases left@.len() - i + right@.len() - j,
    {
        let ghost before = merged@;
        let ghost taken = left@.take(i as int);
        let ghost others = right@.take(j as int);
        if j >= right.len() || (i < left.len() && left[i].timestamp <= right[j].timestamp) {
            let e = left[i];
            merged.push(e);
            i += 1;
            proof {
                assert(left@.take(i as int) == taken.push(e));
                assert(merged@.to_multiset() == taken.push(e).to_multiset().add(
                    others.to_multiset(),
                )) by {
                    broadcast use vstd::multiset::group_multiset_axioms;

                    vstd::seq_lib::to_multiset_build(before, e);
                    vstd::seq_lib::to_multiset_build(taken, e);
                }
                assert forall|t: i64|
                    #![trigger with_timestamp(merged@, t)]
                    with_timestamp(merged@, t) == with_timestamp(taken.push(e), t) + with_timestamp(
                        others,
                        t,
                    ) by {
                    lemma_push_with_timestamp(before, e, t);
                    lemma_push_with_timestamp(taken, e, t);
                    if e.timestamp == t {
                        // What was taken from `right` is earlier than `e`.
                        assert forall|k: int| 0 <= k < others.len() implies (#[trigger] others[k]).timestamp
                            != t by {
                            assert(others[k] == right@[k]);
                        }
                        lemma_none_with_timestamp(others, t);
                    }
                }
            }
        } else {
            let e = right[j];
            merged.push(e);
            j += 1;
            proof {
                assert(right@.take(j as int) == others.push(e));
                assert(merged@.to_multiset() == taken.to_multiset().add(
                    others.push(e).to_multiset(),
                )) by {
                    broadcast use vstd::multiset::group_multiset_axioms;

                    vstd::seq_lib::to_multiset_build(before, e);
                    vstd::seq_lib::to_multiset_build(others, e);
                }
                assert forall|t: i64|
                    #![trigger with_timestamp(merged@, t)]
                    with_timestamp(merged@, t) == with_timestamp(taken, t) + with_timestamp(
                        others.push(e),
                        t,
                    ) by {
                    lemma_push_with_timestamp(before, e, t);
                    lemma_push_with_timestamp(others, e, t);
                }
            }
        }
    }
    proof {
        assert(left@.take(i as int) == left@);
        assert(right@.take(j as int) == right@);
        vstd::seq_lib::lemma_multiset_commutative(left@, right@);
        assert forall|t: i64|
            #![trigger with_timestamp(merged@, t)]
            with_timestamp(merged@, t) == with_timestamp(left@ + right@, t) by {
            lemma_concat_with_timestamp(left@, right@, t);
        }
    }
    merged
}

/// The events of `ues` from index `from` up to index `to`, sorted.
pub(super) fn sorted_run(ues: &[UptimeEvent], from: usize, to: usize) -> (run: Vec<UptimeEvent>)
    requires
        from <= to <= ues@.len(),
    ensures
        is_stable_sort_of(run@, ues@.subrange(from as int, to as int)),
    decreases to - from,
{
    if to - from <= 1 {
        let mut run: Vec<UptimeEvent> = Vec::new();
        if from < to {
            run.push(ues[from]);
        }
        assert(run@ == ues@.subrange(from as int, to as int));
        run
    } else {
        let mid: usize = from + (to - from) / 2;
        let left = sorted_run(ues, from, mid);
        let right = sorted_run(ues, mid, to);
        let ghost whole = ues@.subrange(from as int, to as int);
        let ghost first = ues@.subrange(from as int, mid as int);
        let ghost second = ues@.subrange(mid as int, to as int);
        proof {
            assert(whole == first + second);
            vstd::seq_lib::to_multiset_len(left@);
            vstd::seq_lib::to_multiset_len(right@);
            vstd::seq_lib::to_multiset_len(first);
            vstd::seq_lib::to_multiset_len(second);
            vstd::seq_lib::lemma_multiset_commutative(left@, right@);
            vstd::seq_lib::lemma_multiset_commutative(first, second);
        }
        let run = merge_runs(&left, &right);
        proof {
            assert forall|t: i64|
                #![trigger with_timestamp(run@, t)]
                with_timestamp(run@, t) == with_timestamp(whole, t) by {
                lemma_concat_with_timestamp(left@, right@, t);
                lemma_concat_with_timestamp(first, second, t);
            }
        }
        run
    }
}

} // verus!
