use tfgrid_graphql::time::hour_label;
use tfgrid_graphql::uptime::messages::{
    node_state_formatted, BOOM_EMOJI, CLOCK_EMOJI, DOWN_ARROW_EMOJI, QUESTION_MARK_EMOJI,
    UP_ARROW_EMOJI,
};
use tfgrid_graphql::uptime::NodeState;

#[test]
fn sentences_for_states() {
    let time = "22/09/2022 14:37:42";
    assert_eq!(
        node_state_formatted(NodeState::Offline(1663850262), time),
        ('⬇', "Node went down at 22/09/2022 14:37:42".to_string())
    );
    assert_eq!(
        node_state_formatted(NodeState::Booted(1663850262), time),
        ('⬆', "Node booted at 22/09/2022 14:37:42".to_string())
    );
    assert_eq!(
        node_state_formatted(NodeState::ImpossibleReboot(1663850262), time),
        (
            '☢',
            "Supposed boot at 22/09/2022 14:37:42 which conflicts with other info".to_string()
        )
    );
    assert_eq!(
        node_state_formatted(NodeState::Unknown(1663850262), time),
        (
            '？',
            "Node status is unknown since 22/09/2022 14:37:42, presumed down".to_string()
        )
    );
}

#[test]
fn sentences_for_drift() {
    assert_eq!(
        node_state_formatted(NodeState::Drift(400), ""),
        ('🕑', "Uptime drift of 400 seconds detected".to_string())
    );
    assert_eq!(
        node_state_formatted(NodeState::Drift(-301), "ignored"),
        ('🕑', "Uptime drift of -301 seconds detected".to_string())
    );
    assert_eq!(
        node_state_formatted(NodeState::Drift(0), ""),
        ('🕑', "Uptime drift of 0 seconds detected".to_string())
    );
    for drift in [i64::MIN, i64::MIN + 1, -10, -9, -1, 1, 9, 10, 99, 100, i64::MAX] {
        assert_eq!(
            node_state_formatted(NodeState::Drift(drift), "").1,
            format!("Uptime drift of {drift} seconds detected")
        );
    }
}

#[test]
fn signs_for_states() {
    assert_eq!(UP_ARROW_EMOJI, '⬆');
    assert_eq!(DOWN_ARROW_EMOJI, '⬇');
    assert_eq!(BOOM_EMOJI, '☢');
    assert_eq!(CLOCK_EMOJI, '🕑');
    assert_eq!(QUESTION_MARK_EMOJI, '？');
}

#[test]
fn moments_of_states() {
    assert_eq!(NodeState::Offline(1).moment(), Some(1));
    assert_eq!(NodeState::Booted(-2).moment(), Some(-2));
    assert_eq!(NodeState::ImpossibleReboot(3).moment(), Some(3));
    assert_eq!(NodeState::Unknown(i64::MIN).moment(), Some(i64::MIN));
    assert_eq!(NodeState::Drift(5).moment(), None);
}

#[test]
fn labels_of_hours() {
    assert_eq!(hour_label(0), Some("1970-01-01 00:00:00 UTC".to_string()));
    assert_eq!(hour_label(1), Some("1970-01-01 01:00:00 UTC".to_string()));
    assert_eq!(hour_label(-1), Some("1969-12-31 23:00:00 UTC".to_string()));
    assert_eq!(hour_label(398680), Some("2015-06-25 16:00:00 UTC".to_string()));
    assert_eq!(hour_label(462180), Some("2022-09-22 12:00:00 UTC".to_string()));
}

#[test]
fn hours_beyond_the_years_have_no_label() {
    assert_eq!(hour_label(i64::MAX), None);
    assert_eq!(hour_label(i64::MIN), None);
    assert_eq!(hour_label(i64::MAX / 3600), None);
    assert_eq!(hour_label(i64::MIN / 3600), None);
    assert_eq!(hour_label(i64::MAX / 3600 + 1), None);
}
