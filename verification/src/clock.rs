//! The instant of a run and its renderings.

use vstd::prelude::*;
use crate::text::text_view;

verus! {

/// An instant: whole seconds since the Unix epoch, and the nanoseconds past them.
#[derive(Debug, Clone, Copy, PartialEq, Eq, Structural)]
pub struct Instant {
    pub seconds: i64,
    pub nanoseconds: u32,
}

/// How many seconds west of Greenwich the local rendering lies.
pub const LOCAL_OFFSET_WEST: i32 = 21_600;

/// The RFC 3339 text, with its offset, that `chrono` writes for the instant
/// `seconds` and `nanoseconds` seen `west_seconds` west of Greenwich; `None`
/// where `chrono` has no such offset or no such date.
pub uninterp spec fn rfc3339_at(seconds: int, nanoseconds: int, west_seconds: int) -> Option<
    Seq<char>,
>;

/// Reads the clock with `chrono::Utc::now` and hands the instant over as
/// `timestamp` and `timestamp_subsec_nanos` give it. Nothing is promised of
/// the instant. `chrono` panics where the system clock stands before the Unix
/// epoch.
#[verifier::external_body]
pub(crate) fn current_instant() -> Instant {
    let now = chrono::Utc::now();
    Instant { seconds: now.timestamp(), nanoseconds: now.timestamp_subsec_nanos() }
}

/// Renders `instant` with `chrono`: `DateTime::from_timestamp` builds the
/// date, `FixedOffset::west_opt` the offset, `with_timezone` moves the one to
/// the other and `to_rfc3339` writes it. The text depends on the arguments
/// alone and is the one that `rfc3339_at` names; `west_opt` has no offset of a
/// day or more.
#[verifier::external_body]
pub(crate) fn render_rfc3339(instant: Instant, west_seconds: i32) -> (text: Option<String>)
    ensures
        text_view(text) == rfc3339_at(
            instant.seconds as int,
            instant.nanoseconds as int,
            west_seconds as int,
        ),
        text is Some ==> -86_400 < west_seconds < 86_400,
{
    let offset = chrono::FixedOffset::west_opt(west_seconds)?;
    let utc = chrono::DateTime::from_timestamp(instant.seconds, instant.nanoseconds)?;
    Some(utc.with_timezone(&offset).to_rfc3339())
}

} // verus!
