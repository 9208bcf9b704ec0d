//! Uptime reports of a node, and the state changes that follow from them.
//!
//! A node reports from time to time for how long it has been up. From a
//! series of such reports, [`calculate_node_state_changes`] derives when the
//! node was seen to boot, to go offline, or to report what cannot be, in a
//! given period. [`state_changes`] says what these changes are, and
//! [`laws`] holds what is true of them for all events and periods.

use vstd::prelude::*;
use self::laws::{lemma_changes_bounded, lemma_detection_in_order};
use self::sorting::sorted_run;

pub mod laws;
pub mod messages;
pub mod sorting;

verus! {

/// Allowed difference, in seconds, between the advancement in uptime and the
/// advancement in timestamp of two consecutive events: 5 minutes.
pub const ALLOWED_UPTIME_DRIFT: i64 = 300;

/// An uptime event on the grid: at `timestamp` (seconds since the epoch) a
/// node reported that it had been up for `uptime` seconds.
#[derive(Clone, Copy, Debug, PartialEq, Eq)]
pub struct UptimeEvent {
    pub timestamp: i64,
    pub uptime: u64,
}

/// The state of a node.
#[derive(Clone, Copy, Debug, PartialEq, Eq)]
pub enum NodeState {
    /// Node went offline, enclosed value indicates the timestamp at which point this happened.
    Offline(i64),
    /// Node came (back) online, enclosed value indicates the timestamp at which point this happened.
    Booted(i64),
    /// A reboot is reported which is not possible: it would have happened
    /// before an earlier report of the same node.
    ImpossibleReboot(i64),
    /// Uptime difference compared to timestamp difference is too large. Value is the additional
    /// uptime increase compared to the timestamp increase. A negative value means timestamp
    /// increased more than uptime.
    Drift(i64),
    /// State is unknown since the enclosed timestamp; the node is presumed
    /// down unless a later [`UptimeEvent`] proves otherwise.
    Unknown(i64),
}

/// A state change in a node.
#[derive(Clone, Copy, Debug, PartialEq, Eq)]
pub struct NodeStateChange {
    pub timestamp: i64,
    pub state: NodeState,
}

impl NodeStateChange {
    /// The timestamp at which the change was detected. Note that this is different than the
    /// timestamp at which the change actually occurred.
    pub fn timestamp(&self) -> (timestamp: i64)
        ensures
            timestamp == self.timestamp,
    {
        self.timestamp
    }

    /// The new state of the node.
    pub fn state(&self) -> (state: NodeState)
        ensures
            state == self.state,
    {
        self.state
    }
}

/// The nearest value to `x` that a signed 64-bit integer can hold.
pub open spec fn saturate(x: int) -> i64 {
    if x < i64::MIN {
        i64::MIN
    } else if x > i64::MAX {
        i64::MAX
    } else {
        x as i64
    }
}

impl UptimeEvent {
    /// The moment at which the node says it booted: the report's timestamp
    /// less the uptime it reports, as an exact integer.
    pub open spec fn boot_time(self) -> int {
        self.timestamp - self.uptime
    }

    /// The moment at which the report was recorded, in seconds since the epoch.
    pub fn timestamp(&self) -> (timestamp: i64)
        ensures
            timestamp == self.timestamp,
    {
        self.timestamp
    }

    /// The seconds for which the node says it has been up.
    pub fn uptime(&self) -> (uptime: u64)
        ensures
            uptime == self.uptime,
    {
        self.uptime
    }
}

/// What the first event tells: the node booted at the time the event
/// implies, and if that is after `start`, it was offline from `start` on.
/// Both changes are detected at the event's timestamp.
pub open spec fn leading_changes(first: UptimeEvent, start: i64) -> Seq<NodeStateChange> {
    let booted = NodeStateChange {
        timestamp: first.timestamp,
        state: NodeState::Booted(saturate(first.boot_time())),
    };
    if first.boot_time() > start {
        seq![NodeStateChange { timestamp: first.timestamp, state: NodeState::Offline(start) }, booted]
    } else {
        seq![booted]
    }
}

/// By how much the uptime advanced more than the timestamp from `prev` to
/// `next`. A negative value means the timestamp advanced more.
pub open spec fn drift_between(prev: UptimeEvent, next: UptimeEvent) -> int {
    (next.uptime - prev.uptime) - (next.timestamp - prev.timestamp)
}

/// What two consecutive events tell, detected at the timestamp of `next`.
///
/// - An uptime shorter than the time between the two events: the node went
///   offline after `prev` and booted again.
/// - Otherwise, an uptime below that of `prev`: a reboot that would lie
///   before `prev`, which is impossible.
/// - Otherwise, an uptime that advanced by over [`ALLOWED_UPTIME_DRIFT`]
///   more or less than the timestamp: drift, by the signed difference.
/// - Otherwise nothing.
pub open spec fn pair_changes(prev: UptimeEvent, next: UptimeEvent) -> Seq<NodeStateChange> {
    let ts_delta = next.timestamp - prev.timestamp;
    let drift = drift_between(prev, next);
    if next.uptime < ts_delta {
        seq![
            NodeStateChange { timestamp: next.timestamp, state: NodeState::Offline(prev.timestamp) },
            NodeStateChange {
                timestamp: next.timestamp,
                state: NodeState::Booted(saturate(next.boot_time())),
            },
        ]
    } else if next.uptime < prev.uptime {
        seq![
            NodeStateChange {
                timestamp: next.timestamp,
                state: NodeState::ImpossibleReboot(saturate(next.boot_time())),
            },
        ]
    } else if drift < -ALLOWED_UPTIME_DRIFT || drift > ALLOWED_UPTIME_DRIFT {
        seq![NodeStateChange { timestamp: next.timestamp, state: NodeState::Drift(saturate(drift)) }]
    } else {
        Seq::empty()
    }
}

/// The changes told by the consecutive pairs of `ues`, in order, up to the
/// first pair whose earlier event lies after `end`.
pub open spec fn walk_changes(ues: Seq<UptimeEvent>, end: i64) -> Seq<NodeStateChange>
    decreases ues.len(),
{
    if ues.len() < 2 || ues[0].timestamp > end {
        Seq::empty()
    } else {
        pair_changes(ues[0], ues[1]) + walk_changes(ues.drop_first(), end)
    }
}

/// What the last event tells about the end of the period: if it lies before
/// `end`, the state is unknown since then, which is detected at `end`.
pub open spec fn trailing_changes(last: UptimeEvent, end: i64) -> Seq<NodeStateChange> {
    if last.timestamp < end {
        seq![NodeStateChange { timestamp: end, state: NodeState::Unknown(last.timestamp) }]
    } else {
        Seq::empty()
    }
}

/// The state changes of a node in the period from `start` to `end`, as told
/// by the uptime events `ues`.
///
/// Without events, or for a period that ends before it starts, there are
/// none. Otherwise they are the changes told by the first event, by each
/// pair of consecutive events, and by the last event, in this order.
pub open spec fn state_changes(ues: Seq<UptimeEvent>, start: i64, end: i64) -> Seq<
    NodeStateChange,
> {
    if ues.len() == 0 || start > end {
        Seq::empty()
    } else {
        leading_changes(ues[0], start) + walk_changes(ues, end) + trailing_changes(ues.last(), end)
    }
}

/// The events are in ascending timestamp order.
pub open spec fn sorted_by_timestamp(ues: Seq<UptimeEvent>) -> bool {
    forall|i: int, j: int| 0 <= i <= j < ues.len() ==> ues[i].timestamp <= ues[j].timestamp
}

/// No change is detected before a change that stands earlier in the list.
pub open spec fn detection_ordered(changes: Seq<NodeStateChange>) -> bool {
    forall|i: int, j: int|
        0 <= i <= j < changes.len() ==> changes[i].timestamp <= changes[j].timestamp
}

/// Two consecutive events of a node that stayed online with a steady clock:
/// the uptime did not fall, it covers the time between the events, and it
/// advanced by what the timestamp advanced, give or take
/// [`ALLOWED_UPTIME_DRIFT`].
pub open spec fn steady(prev: UptimeEvent, next: UptimeEvent) -> bool {
    &&& next.uptime >= prev.uptime
    &&& next.uptime >= next.timestamp - prev.timestamp
    &&& -ALLOWED_UPTIME_DRIFT <= drift_between(prev, next) <= ALLOWED_UPTIME_DRIFT
}

/// Brings an integer into the range of `i64`.
fn saturating_i64(x: i128) -> (r: i64)
    ensures
        r == saturate(x as int),
{
    if x < i64::MIN as i128 {
        i64::MIN
    } else if x > i64::MAX as i128 {
        i64::MAX
    } else {
        x as i64
    }
}

/// Calculate the state changes in a node in a given period based on a series of [`UptimeEvent`]s.
/// It is the callers responsibility to make sure all events in the defined period are given.
///
/// ## Input ordering
///
/// The events are expected in ascending timestamp order: the oldest event
/// has index 0. [`sort_uptime_events`] brings them into this order.
///
/// ## Node state at period edge
///
/// The state at the start of the period follows from the event at index 0.
/// To know the state at the end of the period, an event which occurred
/// after the period ended needs to be provided.
///
/// ## Unusual input
///
/// A period that ends before it starts has no state changes. Differences
/// of timestamps and uptimes are exact, however large the values are; a
/// boot time or a drift that is beyond the range of `i64` is given as the
/// nearest value in the range.
pub fn calculate_node_state_changes(ues: &[UptimeEvent], start: i64, end: i64) -> (changes: Vec<
    NodeStateChange,
>)
    ensures
        changes@ == state_changes(ues@, start, end),
        changes@.len() <= 2 * ues@.len() + 1,
        ues@.len() == 0 ==> changes@.len() == 0,
        sorted_by_timestamp(ues@) ==> detection_ordered(changes@),
{
    proof {
        lemma_changes_bounded(ues@, start, end);
        if sorted_by_timestamp(ues@) {
            lemma_detection_in_order(ues@, start, end);
        }
    }
    let mut changes: Vec<NodeStateChange> = Vec::new();
    let n: usize = ues.len();
    if n == 0 || start > end {
        return changes;
    }
    // Starting state.
    let first_boot: i128 = ues[0].timestamp as i128 - ues[0].uptime as i128;
    if first_boot > start as i128 {
        changes.push(NodeStateChange { timestamp: ues[0].timestamp, state: NodeState::Offline(start) });
    }
    changes.push(
        NodeStateChange {
            timestamp: ues[0].timestamp,
            state: NodeState::Booted(saturating_i64(first_boot)),
        },
    );
    assert(ues@.subrange(0, n as int) == ues@);

    // One event is expected past the end of the period. As the events are
    // sorted, once the earlier event of a pair is past the end, so is every
    // event after it.
    let mut i: usize = 0;
    while i + 1 < n && ues[i].timestamp <= end
        invariant
            n == ues@.len(),
            i < n,
            changes@ + walk_changes(ues@.subrange(i as int, n as int), end) == leading_changes(
                ues@[0],
                start,
            ) + walk_changes(ues@, end),
        decreases n - i,
    {
        let prev = ues[i];
        let next = ues[i + 1];
        let ghost before = changes@;
        let ghost rest = ues@.subrange(i as int, n as int);
        assert(rest.drop_first() == ues@.subrange(i + 1, n as int));

        // Either the node was online all the time, and uptime and timestamp
        // advanced by about the same amount; or it rebooted, and its uptime
        // is below the time between the events; or what it reports cannot be.
        let ts_delta: i128 = next.timestamp as i128 - prev.timestamp as i128;
        let next_boot: i128 = next.timestamp as i128 - next.uptime as i128;
        if (next.uptime as i128) < ts_delta {
            changes.push(
                NodeStateChange { timestamp: next.timestamp, state: NodeState::Offline(prev.timestamp) },
            );
            changes.push(
                NodeStateChange {
                    timestamp: next.timestamp,
                    state: NodeState::Booted(saturating_i64(next_boot)),
                },
            );
        } else if next.uptime < prev.uptime {
            changes.push(
                NodeStateChange {
                    timestamp: next.timestamp,
                    state: NodeState::ImpossibleReboot(saturating_i64(next_boot)),
                },
            );
        } else {
            let drift: i128 = (next.uptime as i128 - prev.uptime as i128) - ts_delta;
            if drift < -(ALLOWED_UPTIME_DRIFT as i128) || drift > ALLOWED_UPTIME_DRIFT as i128 {
                changes.push(
                    NodeStateChange {
                        timestamp: next.timestamp,
                        state: NodeState::Drift(saturating_i64(drift)),
                    },
                );
            }
        }
        assert(changes@ == before + pair_changes(prev, next));
        i += 1;
    }

    // Is the state at the end of the period covered?
    let last_timestamp: i64 = ues[n - 1].timestamp;
    if last_timestamp < end {
        changes.push(NodeStateChange { timestamp: end, state: NodeState::Unknown(last_timestamp) });
    }
    changes
}

/// The test whether an event has the timestamp `t`.
pub open spec fn has_timestamp(t: i64) -> spec_fn(UptimeEvent) -> bool {
    |e: UptimeEvent| e.timestamp == t
}

/// The events of `ues` with the timestamp `t`, in the order they have in `ues`.
pub open spec fn with_timestamp(ues: Seq<UptimeEvent>, t: i64) -> Seq<UptimeEvent> {
    ues.filter(has_timestamp(t))
}

/// `sorted` holds the events of `ues` in ascending timestamp order, and
/// those with the same timestamp in the order they have in `ues`.
pub open spec fn is_stable_sort_of(sorted: Seq<UptimeEvent>, ues: Seq<UptimeEvent>) -> bool {
    &&& sorted_by_timestamp(sorted)
    &&& sorted.to_multiset() == ues.to_multiset()
    &&& forall|t: i64|
        #![trigger with_timestamp(sorted, t)]
        with_timestamp(sorted, t) == with_timestamp(ues, t)
}

/// Sorts a series of [`UptimeEvent`] in ascending timestamp order. Events
/// with the same timestamp keep the order they had.
///
/// By [`sorting::lemma_stable_sort_is_unique`], this says what each place
/// of `ue` holds afterwards.
pub fn sort_uptime_events(ue: &mut [UptimeEvent])
    ensures
        is_stable_sort_of(final(ue)@, old(ue)@),
{
    let n: usize = ue.len();
    let sorted = sorted_run(ue, 0, n);
    proof {
        assert(ue@.subrange(0, n as int) == ue@);
        vstd::seq_lib::to_multiset_len(sorted@);
        vstd::seq_lib::to_multiset_len(ue@);
    }
    let mut i: usize = 0;
    while i < n
        invariant
            n == ue@.len(),
            n == sorted@.len(),
            i <= n,
            forall|k: int| 0 <= k < i ==> ue@[k] == sorted@[k],
        decreases n - i,
    {
        ue[i] = sorted[i];
        i += 1;
    }
    assert(ue@ == sorted@);
}

/// How the clock of a node ran between two consecutive events.
#[derive(Clone, Copy, Debug, PartialEq, Eq)]
pub struct UptimeJitter {
    /// The timestamp of the later event.
    pub timestamp: i64,
    /// By how much the uptime advanced more than the timestamp.
    pub jitter: i64,
    /// The time between the two events.
    pub spacing: i64,
}

/// How the clock of a node ran from `prev` to `next`: where the uptime of
/// `next` is longer than the time between the two events, that time and
/// the [drift](drift_between), each brought into the range of `i64`. Where
/// it is not, the node was not up all the time, and both are 0.
pub open spec fn jitter_between(prev: UptimeEvent, next: UptimeEvent) -> UptimeJitter {
    let spacing = next.timestamp - prev.timestamp;
    if next.uptime > spacing {
        UptimeJitter {
            timestamp: next.timestamp,
            jitter: saturate(drift_between(prev, next)),
            spacing: saturate(spacing),
        }
    } else {
        UptimeJitter { timestamp: next.timestamp, jitter: 0, spacing: 0 }
    }
}

/// How the clock of a node ran between each two consecutive events.
pub open spec fn jitters(ues: Seq<UptimeEvent>) -> Seq<UptimeJitter> {
    Seq::new(
        if ues.len() > 0 {
            (ues.len() - 1) as nat
        } else {
            0
        },
        |i: int| jitter_between(ues[i], ues[i + 1]),
    )
}

/// How the clock of a node ran between each two consecutive events of
/// `ues`: one point for each event but the first.
pub fn uptime_jitter(ues: &[UptimeEvent]) -> (points: Vec<UptimeJitter>)
    ensures
        points@ == jitters(ues@),
{
    let n: usize = ues.len();
    let mut points: Vec<UptimeJitter> = Vec::new();
    if n == 0 {
        return points;
    }
    let mut i: usize = 0;
    while i + 1 < n
        invariant
            n == ues@.len(),
            i < n,
            points@.len() == i,
            forall|k: int| 0 <= k < i ==> points@[k] == jitter_between(ues@[k], ues@[k + 1]),
        decreases n - i,
    {
        let prev = ues[i];
        let next = ues[i + 1];
        let spacing: i128 = next.timestamp as i128 - prev.timestamp as i128;
        let point = if next.uptime as i128 > spacing {
            let drift: i128 = (next.uptime as i128 - prev.uptime as i128) - spacing;
            UptimeJitter {
                timestamp: next.timestamp,
                jitter: saturating_i64(drift),
                spacing: saturating_i64(spacing),
            }
        } else {
            UptimeJitter { timestamp: next.timestamp, jitter: 0, spacing: 0 }
        };
        points.push(point);
        i += 1;
    }
    points
}

} // verus!
