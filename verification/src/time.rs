//! Moments as a reader sees them.

use vstd::prelude::*;
use chrono::{TimeZone, Utc};
use crate::bill_report::SECONDS_IN_HOUR;

verus! {

/// The text that `chrono` gives for a moment in universal time, where the
/// moment is `seconds` after the epoch: there is none for a moment beyond
/// the years that `chrono` counts.
pub uninterp spec fn utc_text(seconds: i64) -> Option<Seq<char>>;

/// Calls `TimeZone::timestamp_opt` of `chrono` on `Utc`, takes the moment
/// that it gives with `single`, and the text of the moment with
/// `to_string`. It is believed, not proved, that the text follows from the
/// number of seconds alone: [`utc_text`] is the name of that text, and
/// nothing else is said of it.
#[verifier::external_body]
fn utc_to_string(seconds: i64) -> (text: Option<String>)
    ensures
        text is Some <==> utc_text(seconds) is Some,
        text matches Some(t) ==> utc_text(seconds) == Some(t@),
{
    match Utc.timestamp_opt(seconds, 0).single() {
        Some(moment) => Some(moment.to_string()),
        None => None,
    }
}

/// The label of an hour: the text for the moment at which it begins, in
/// universal time. Hours are counted from the epoch.
pub open spec fn hour_label_text(hour: i64) -> Option<Seq<char>> {
    if i64::MIN <= hour * SECONDS_IN_HOUR <= i64::MAX {
        utc_text((hour * SECONDS_IN_HOUR) as i64)
    } else {
        None
    }
}

/// The label of an hour on the time axis of a chart, or `None` for an hour
/// beyond the years that can be told.
pub fn hour_label(hour: i64) -> (label: Option<String>)
    ensures
        label is Some <==> hour_label_text(hour) is Some,
        label matches Some(t) ==> hour_label_text(hour) == Some(t@),
{
    match hour.checked_mul(SECONDS_IN_HOUR) {
        Some(seconds) => utc_to_string(seconds),
        None => None,
    }
}

} // verus!
