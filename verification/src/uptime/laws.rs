//! What holds of the state changes of a node, whatever the events and the
//! period.

use vstd::prelude::*;
use super::{
    detection_ordered, leading_changes, saturate, sorted_by_timestamp, state_changes, steady,
    walk_changes, NodeState, NodeStateChange, UptimeEvent,
};

verus! {

proof fn lemma_walk_len(ues: Seq<UptimeEvent>, end: i64)
    ensures
        walk_changes(ues, end).len() <= 2 * ues.len(),
        ues.len() > 0 ==> walk_changes(ues, end).len() <= 2 * (ues.len() - 1),
    decreases ues.len(),
{
    if ues.len() >= 2 && ues[0].timestamp <= end {
        lemma_walk_len(ues.drop_first(), end);
    }
}

proof fn lemma_walk_detection(ues: Seq<UptimeEvent>, end: i64)
    requires
        sorted_by_timestamp(ues),
    ensures
        detection_ordered(walk_changes(ues, end)),
        forall|k: int|
            0 <= k < walk_changes(ues, end).len() ==> ues[0].timestamp <= (#[trigger] walk_changes(
                ues,
                end,
            )[k]).timestamp <= ues.last().timestamp,
    decreases ues.len(),
{
    if ues.len() >= 2 && ues[0].timestamp <= end {
        let rest = ues.drop_first();
        assert forall|i: int, j: int| 0 <= i <= j < rest.len() implies rest[i].timestamp
            <= rest[j].timestamp by {
            assert(rest[i] == ues[i + 1] && rest[j] == ues[j + 1]);
        }
        lemma_walk_detection(rest, end);
        assert(rest[0] == ues[1]);
        assert(rest.last() == ues.last());
        assert(ues[0].timestamp <= ues[1].timestamp <= ues.last().timestamp);
    }
}

proof fn lemma_walk_known(ues: Seq<UptimeEvent>, end: i64)
    ensures
        forall|k: int|
            0 <= k < walk_changes(ues, end).len() ==> !((#[trigger] walk_changes(
                ues,
                end,
            )[k]).state is Unknown),
    decreases ues.len(),
{
    if ues.len() >= 2 && ues[0].timestamp <= end {
        lemma_walk_known(ues.drop_first(), end);
    }
}

proof fn lemma_walk_steady(ues: Seq<UptimeEvent>, end: i64)
    requires
        forall|i: int| 0 <= i < ues.len() - 1 ==> steady(#[trigger] ues[i], ues[i + 1]),
    ensures
        walk_changes(ues, end) == Seq::<NodeStateChange>::empty(),
    decreases ues.len(),
{
    if ues.len() >= 2 && ues[0].timestamp <= end {
        let rest = ues.drop_first();
        assert forall|i: int| 0 <= i < rest.len() - 1 implies steady(
            #[trigger] rest[i],
            rest[i + 1],
        ) by {
            assert(rest[i] == ues[i + 1] && rest[i + 1] == ues[i + 2]);
        }
        lemma_walk_steady(rest, end);
        assert(steady(ues[0], ues[1]));
    }
}

/// Without events there are no state changes, whatever the period.
pub proof fn lemma_no_events_no_changes(start: i64, end: i64)
    ensures
        state_changes(Seq::empty(), start, end) == Seq::<NodeStateChange>::empty(),
{
}

/// The state changes of events in ascending timestamp order are detected in
/// ascending order too.
pub proof fn lemma_detection_in_order(ues: Seq<UptimeEvent>, start: i64, end: i64)
    requires
        sorted_by_timestamp(ues),
    ensures
        detection_ordered(state_changes(ues, start, end)),
{
    if ues.len() > 0 && start <= end {
        lemma_walk_detection(ues, end);
    }
}

/// There are at most two state changes for each event, and one more.
pub proof fn lemma_changes_bounded(ues: Seq<UptimeEvent>, start: i64, end: i64)
    ensures
        state_changes(ues, start, end).len() <= 2 * ues.len() + 1,
{
    lemma_walk_len(ues, end);
}

/// A node that was up when the period started, whose consecutive events are
/// all [`steady`], and whose last event covers the end of the period, has a
/// single state change: the boot told by its first event. The boot time is
/// exact wherever an `i64` can hold it.
pub proof fn lemma_steady_node_only_boots(ues: Seq<UptimeEvent>, start: i64, end: i64)
    requires
        ues.len() > 0,
        start <= end,
        forall|i: int| 0 <= i < ues.len() - 1 ==> steady(#[trigger] ues[i], ues[i + 1]),
        ues[0].boot_time() <= start,
        ues.last().timestamp >= end,
    ensures
        state_changes(ues, start, end) == seq![
            NodeStateChange {
                timestamp: ues[0].timestamp,
                state: NodeState::Booted(saturate(ues[0].boot_time())),
            },
        ],
        ues[0].boot_time() >= i64::MIN ==> saturate(ues[0].boot_time()) == ues[0].boot_time(),
{
    lemma_walk_steady(ues, end);
}

/// The state changes follow from the events and the period alone: the same
/// events and the same period give the same state changes.
pub proof fn lemma_same_events_same_changes(
    ues: Seq<UptimeEvent>,
    others: Seq<UptimeEvent>,
    start: i64,
    end: i64,
)
    requires
        ues.len() == others.len(),
        forall|i: int| 0 <= i < ues.len() ==> ues[i] == others[i],
    ensures
        state_changes(ues, start, end) == state_changes(others, start, end),
{
    assert(ues =~= others);
}

/// In a period that does not end before it starts, a state change to
/// unknown occurs if and only if the last event lies before the end of the
/// period. It is then the last state change and the only one of its kind,
/// it is detected at the end of the period, and it holds the timestamp of
/// the last event.
pub proof fn lemma_unknown_only_at_end(ues: Seq<UptimeEvent>, start: i64, end: i64)
    requires
        ues.len() > 0,
        start <= end,
    ensures
        (exists|k: int|
            0 <= k < state_changes(ues, start, end).len() && (#[trigger] state_changes(
                ues,
                start,
                end,
            )[k]).state is Unknown) <==> ues.last().timestamp < end,
        ues.last().timestamp < end ==> state_changes(ues, start, end).len() > 0 && state_changes(
            ues,
            start,
            end,
        ).last() == (NodeStateChange {
            timestamp: end,
            state: NodeState::Unknown(ues.last().timestamp),
        }),
        forall|k: int|
            0 <= k < state_changes(ues, start, end).len() - 1 ==> !((#[trigger] state_changes(
                ues,
                start,
                end,
            )[k]).state is Unknown),
{
    let changes = state_changes(ues, start, end);
    let lead = leading_changes(ues[0], start);
    let walk = walk_changes(ues, end);
    lemma_walk_known(ues, end);
    assert forall|k: int| 0 <= k < lead.len() + walk.len() implies !((#[trigger] changes[k]).state
        is Unknown) by {
        if k < lead.len() {
            assert(changes[k] == lead[k]);
        } else {
            assert(changes[k] == walk[k - lead.len()]);
        }
    }
    if ues.last().timestamp < end {
        assert(changes.len() == lead.len() + walk.len() + 1);
        assert(changes[changes.len() - 1].state is Unknown);
    } else {
        assert(changes.len() == lead.len() + walk.len());
    }
}

/// In a period that does not end before it starts, the state changes begin
/// with what the first event tells, detected at that event: the boot of the
/// node, and before it, if and only if the boot lies after the start of the
/// period, that the node is offline since the start of the period.
pub proof fn lemma_offline_at_start(ues: Seq<UptimeEvent>, start: i64, end: i64)
    requires
        ues.len() > 0,
        start <= end,
    ensures
        state_changes(ues, start, end).len() > 0,
        state_changes(ues, start, end)[0].timestamp == ues[0].timestamp,
        state_changes(ues, start, end)[0].state == NodeState::Offline(start)
            <==> ues[0].boot_time() > start,
        ues[0].boot_time() > start ==> state_changes(ues, start, end).len() > 1 && state_changes(
            ues,
            start,
            end,
        )[1] == (NodeStateChange {
            timestamp: ues[0].timestamp,
            state: NodeState::Booted(saturate(ues[0].boot_time())),
        }),
        ues[0].boot_time() <= start ==> state_changes(ues, start, end)[0] == (NodeStateChange {
            timestamp: ues[0].timestamp,
            state: NodeState::Booted(saturate(ues[0].boot_time())),
        }),
{
    let lead = leading_changes(ues[0], start);
    assert(state_changes(ues, start, end)[0] == lead[0]);
    if ues[0].boot_time() > start {
        assert(state_changes(ues, start, end)[1] == lead[1]);
    }
}

} // verus!
