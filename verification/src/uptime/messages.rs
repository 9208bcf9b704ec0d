//! What to tell a reader about the state of a node.

use vstd::prelude::*;
use vstd::string::StringExecFns;
use super::NodeState;
use crate::decimal::{push_signed_decimal, signed_decimal_text};

verus! {

/// Emoji for node boot.
pub const UP_ARROW_EMOJI: char = '⬆';

/// Emoji for node going offline.
pub const DOWN_ARROW_EMOJI: char = '⬇';

/// Emoji for impossible reboot.
pub const BOOM_EMOJI: char = '☢';

/// Emoji for node uptime drift.
pub const CLOCK_EMOJI: char = '🕑';

/// Emoji for unknown state.
pub const QUESTION_MARK_EMOJI: char = '？';

impl NodeState {
    /// The moment that the state holds: every state holds one but a drift,
    /// which holds a number of seconds.
    pub open spec fn spec_moment(self) -> Option<i64> {
        match self {
            NodeState::Offline(ts) => Some(ts),
            NodeState::Booted(ts) => Some(ts),
            NodeState::ImpossibleReboot(ts) => Some(ts),
            NodeState::Drift(_) => None,
            NodeState::Unknown(ts) => Some(ts),
        }
    }

    /// The moment that the state holds, if it holds one.
    #[verifier::when_used_as_spec(spec_moment)]
    pub fn moment(self) -> (moment: Option<i64>)
        ensures
            moment == self.spec_moment(),
    {
        match self {
            NodeState::Offline(ts) => Some(ts),
            NodeState::Booted(ts) => Some(ts),
            NodeState::ImpossibleReboot(ts) => Some(ts),
            NodeState::Drift(_) => None,
            NodeState::Unknown(ts) => Some(ts),
        }
    }
}

/// The sign to show for a state.
pub open spec fn state_sign(state: NodeState) -> char {
    match state {
        NodeState::Offline(_) => DOWN_ARROW_EMOJI,
        NodeState::Booted(_) => UP_ARROW_EMOJI,
        NodeState::ImpossibleReboot(_) => BOOM_EMOJI,
        NodeState::Drift(_) => CLOCK_EMOJI,
        NodeState::Unknown(_) => QUESTION_MARK_EMOJI,
    }
}

/// The sentence to show for a state, where `time` is the text for the
/// moment that the state holds.
pub open spec fn state_sentence(state: NodeState, time: Seq<char>) -> Seq<char> {
    match state {
        NodeState::Offline(_) => "Node went down at "@ + time,
        NodeState::Booted(_) => "Node booted at "@ + time,
        NodeState::ImpossibleReboot(_) => "Supposed boot at "@ + time
            + " which conflicts with other info"@,
        NodeState::Drift(drift) => "Uptime drift of "@ + signed_decimal_text(drift as int)
            + " seconds detected"@,
        NodeState::Unknown(_) => "Node status is unknown since "@ + time + ", presumed down"@,
    }
}

/// The sign and the sentence to show for a state. `time` is the text for
/// the [moment](NodeState::moment) that the state holds; for a drift it
/// plays no part.
pub fn node_state_formatted(state: NodeState, time: &str) -> (formatted: (char, String))
    ensures
        formatted.0 == state_sign(state),
        formatted.1@ == state_sentence(state, time@),
{
    let mut sentence = String::new();
    match state {
        NodeState::Offline(_) => {
            sentence.append("Node went down at ");
            sentence.append(time);
            (DOWN_ARROW_EMOJI, sentence)
        },
        NodeState::Booted(_) => {
            sentence.append("Node booted at ");
            sentence.append(time);
            (UP_ARROW_EMOJI, sentence)
        },
        NodeState::ImpossibleReboot(_) => {
            sentence.append("Supposed boot at ");
            sentence.append(time);
            sentence.append(" which conflicts with other info");
            (BOOM_EMOJI, sentence)
        },
        NodeState::Drift(drift) => {
            sentence.append("Uptime drift of ");
            push_signed_decimal(&mut sentence, drift);
            sentence.append(" seconds detected");
            (CLOCK_EMOJI, sentence)
        },
        NodeState::Unknown(_) => {
            sentence.append("Node status is unknown since ");
            sentence.append(time);
            sentence.append(", presumed down");
            (QUESTION_MARK_EMOJI, sentence)
        },
    }
}

} // verus!
