//! Durations in whole seconds, rounded to hours and minutes for display.

use crate::text::{decimal, push_decimal};
use vstd::prelude::*;
use vstd::string::*;

verus! {

/// A duration as it is displayed: whole hours and the minutes beyond them.
#[derive(Debug, Clone, Copy, PartialEq, Eq, Structural)]
pub struct RoundedDuration {
    pub hours: u128,
    pub minutes: u8,
}

/// The whole hours in a duration.
pub open spec fn hours_of(total_seconds: nat) -> nat {
    total_seconds / 3600
}

/// The whole minutes beyond the whole hours.
pub open spec fn floor_minutes_of(total_seconds: nat) -> nat {
    (total_seconds / 60) % 60
}

/// Whether the seconds beyond the whole minutes make the minute round up:
/// they do when there are more than thirty of them.
pub open spec fn rounds_up(total_seconds: nat) -> bool {
    total_seconds % 60 > 30
}

/// The displayed minutes: the whole minutes beyond the whole hours, plus one
/// when the remaining seconds round up. Nothing is carried into the hours, so
/// the result is 60 for a duration within the last half minute of an hour.
pub open spec fn minutes_of(total_seconds: nat) -> nat {
    if rounds_up(total_seconds) {
        floor_minutes_of(total_seconds) + 1
    } else {
        floor_minutes_of(total_seconds)
    }
}

/// The displayed hours and minutes when a full hour of minutes is carried
/// into the hours: the duration rounded to the nearest minute, where exactly
/// thirty seconds round down.
pub open spec fn carried_minutes_total(total_seconds: nat) -> nat {
    if rounds_up(total_seconds) {
        total_seconds / 60 + 1
    } else {
        total_seconds / 60
    }
}

/// A duration of whole seconds as it is displayed, without carrying.
pub open spec fn rounded(total_seconds: nat) -> RoundedDuration {
    RoundedDuration {
        hours: hours_of(total_seconds) as u128,
        minutes: minutes_of(total_seconds) as u8,
    }
}

/// The sentence for a duration of the given hours and minutes.
pub open spec fn duration_text(hours: nat, minutes: nat) -> Seq<char> {
    "Total time: "@ + decimal(hours) + " hours and "@ + decimal(minutes) + " minutes"@
}

/// The sentence for a duration of the given seconds.
pub open spec fn format_of(total_seconds: nat) -> Seq<char> {
    duration_text(hours_of(total_seconds), minutes_of(total_seconds))
}

/// The displayed minutes are at most 60, and are 60 exactly for a duration
/// in the last minute of an hour whose seconds round up.
pub proof fn lemma_minutes_range(total_seconds: nat)
    ensures
        minutes_of(total_seconds) <= 60,
        minutes_of(total_seconds) == 60 <==> floor_minutes_of(total_seconds) == 59 && rounds_up(
            total_seconds,
        ),
{
}

/// The displayed time differs from the duration by at most half a minute:
/// it is the duration rounded to the nearest minute, thirty seconds rounding
/// down.
pub proof fn lemma_rounds_to_nearest_minute(total_seconds: nat)
    ensures
        60 * hours_of(total_seconds) + minutes_of(total_seconds) == carried_minutes_total(
            total_seconds,
        ),
        total_seconds - 30 <= 60 * carried_minutes_total(total_seconds) <= total_seconds + 29,
{
    let minutes = total_seconds / 60;
    assert(minutes / 60 == total_seconds / 3600) by (nonlinear_arith)
        requires
            minutes == total_seconds / 60,
    ;
    assert(minutes == 60 * (minutes / 60) + minutes % 60) by (nonlinear_arith);
    assert(total_seconds == 60 * minutes + total_seconds % 60) by (nonlinear_arith)
        requires
            minutes == total_seconds / 60,
    ;
}

/// Rounds a duration to hours and minutes, the minutes to the nearest one.
/// The minutes are not carried: they read 60 where the rounding reaches the
/// next hour.
pub fn round_duration(total_seconds: u128) -> (parts: RoundedDuration)
    ensures
        parts == rounded(total_seconds as nat),
        parts.hours == hours_of(total_seconds as nat),
        parts.minutes == minutes_of(total_seconds as nat),
{
    let hours = total_seconds / 3600;
    let mut minutes = ((total_seconds / 60) % 60) as u8;
    if total_seconds % 60 > 30 {
        minutes += 1;
    }
    RoundedDuration { hours, minutes }
}

/// Rounds a duration to hours and minutes and carries a full hour of
/// minutes into the hours, so that the minutes stay below 60.
pub fn round_duration_carrying(total_seconds: u128) -> (parts: RoundedDuration)
    ensures
        parts.minutes < 60,
        60 * parts.hours + parts.minutes == carried_minutes_total(total_seconds as nat),
{
    let mut minutes_total = total_seconds / 60;
    if total_seconds % 60 > 30 {
        minutes_total += 1;
    }
    RoundedDuration { hours: minutes_total / 60, minutes: (minutes_total % 60) as u8 }
}

impl RoundedDuration {
    /// The sentence that displays this duration.
    pub fn text(&self) -> (text: String)
        ensures
            text@ == duration_text(self.hours as nat, self.minutes as nat),
    {
        let mut text = "Total time: ".to_owned();
        push_decimal(&mut text, self.hours);
        text.append(" hours and ");
        push_decimal(&mut text, self.minutes as u128);
        text.append(" minutes");
        text
    }
}

/// The sentence for a duration of `total_seconds`, rounded as
/// `round_duration` does.
pub fn format_duration(total_seconds: u128) -> (text: String)
    ensures
        text@ == format_of(total_seconds as nat),
{
    round_duration(total_seconds).text()
}

} // verus!
