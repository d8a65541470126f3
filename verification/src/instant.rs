//! Instants of time, counted in whole seconds since the Unix epoch.
//!
//! The calendar work (which day a second falls on, how a day is written) is
//! chrono's. An instant is held here as its number of seconds, which is all
//! that the rest of the library reads of it.

use chrono::DateTime;
use vstd::prelude::*;

verus! {

/// The first second on chrono's calendar: the one that begins the year
/// -262143, which chrono has as `DateTime::<Utc>::MIN_UTC`.
pub const EARLIEST_SECONDS: i64 = -8_334_601_228_800;

/// The last second on chrono's calendar: the one that ends the year
/// 262142, which chrono has as `DateTime::<Utc>::MAX_UTC`.
pub const LATEST_SECONDS: i64 = 8_210_266_876_799;

/// Whether an instant `seconds` after the epoch is one that chrono can hold.
pub open spec fn representable(seconds: i64) -> bool {
    EARLIEST_SECONDS <= seconds <= LATEST_SECONDS
}

/// The text that chrono writes for the instant `seconds` after the epoch, in
/// UTC, under the pattern `%D %l:%M %p`: month, day and two-digit year
/// separated by slashes, then the hour on a twelve-hour clock, the minute,
/// and `AM` or `PM`.
pub uninterp spec fn short_time_text(seconds: i64) -> Seq<char>;

/// Whether `c` is one of the ten digits.
pub open spec fn is_digit(c: char) -> bool {
    '0' <= c <= '9'
}

/// The shape of a time in short form, `mm/dd/yy hh:mm AM`: seventeen
/// characters; month, day and year in two digits each, with slashes
/// between; the hour in two places, the first blank below ten; the minute
/// in two digits after a colon; and `AM` or `PM`.
pub open spec fn short_form(text: Seq<char>) -> bool {
    &&& text.len() == 17
    &&& is_digit(text[0]) && is_digit(text[1]) && text[2] == '/'
    &&& is_digit(text[3]) && is_digit(text[4]) && text[5] == '/'
    &&& is_digit(text[6]) && is_digit(text[7]) && text[8] == ' '
    &&& (text[9] == ' ' || text[9] == '1') && is_digit(text[10]) && text[11] == ':'
    &&& is_digit(text[12]) && is_digit(text[13]) && text[14] == ' '
    &&& (text[15] == 'A' || text[15] == 'P') && text[16] == 'M'
}

/// Asks `chrono::DateTime::from_timestamp` whether it has an instant for
/// `seconds` (with no nanoseconds).
///
/// Trusted: chrono has an instant for exactly the seconds from its earliest
/// to its latest; outside them the day is beyond its smallest or its
/// largest year and it returns `None`.
#[verifier::external_body]
fn chrono_has_instant(seconds: i64) -> (known: bool)
    ensures
        known == representable(seconds),
{
    DateTime::from_timestamp(seconds, 0).is_some()
}

/// Has `chrono::DateTime::format` write the UTC instant `seconds` after the
/// epoch under the pattern `%D %l:%M %p`.
///
/// Trusted: there is a text exactly when chrono has the instant; the text
/// depends on `seconds` alone; and it has the shape that chrono documents
/// for `%D` (`%m/%d/%y`), `%l` (hour from 1 to 12, padded with a blank),
/// `%M` (minute in two digits) and `%p` (`AM` or `PM`).
#[verifier::external_body]
fn chrono_short_time(seconds: i64) -> (text: Option<String>)
    ensures
        text is Some <==> representable(seconds),
        text matches Some(t) ==> t@ == short_time_text(seconds) && short_form(t@),
{
    match DateTime::from_timestamp(seconds, 0) {
        Some(instant) => Some(instant.format("%D %l:%M %p").to_string()),
        None => None,
    }
}

/// An instant of time in UTC, to the second.
///
/// Every value is an instant that chrono can hold, so writing it out cannot
/// fail.
#[derive(Clone, Copy, Debug, PartialEq, Eq, Structural)]
pub struct Timestamp {
    seconds: i64,
}

impl View for Timestamp {
    type V = i64;

    /// The number of seconds between the epoch and this instant; negative
    /// before the epoch.
    closed spec fn view(&self) -> i64 {
        self.seconds
    }
}

impl Timestamp {
    #[verifier::type_invariant]
    spec fn on_calendar(self) -> bool {
        representable(self.seconds)
    }

    /// The instant `seconds` after the epoch (before it, if negative), or
    /// nothing if chrono has no such instant. Zero and negative counts are
    /// instants like any other.
    pub fn from_seconds(seconds: i64) -> (instant: Option<Timestamp>)
        ensures
            instant is Some <==> representable(seconds),
            instant matches Some(t) ==> t@ == seconds,
    {
        if chrono_has_instant(seconds) {
            Some(Timestamp { seconds })
        } else {
            None
        }
    }

    /// The number of seconds between the epoch and this instant.
    pub fn seconds(&self) -> (seconds: i64)
        ensures
            seconds == self@,
            representable(seconds),
    {
        proof {
            use_type_invariant(self);
        }
        self.seconds
    }

    /// This instant in the short form `mm/dd/yy hh:mm AM`, in UTC and in the
    /// same words whatever the user's locale.
    pub fn short_text(&self) -> (text: String)
        ensures
            text@ == short_time_text(self@),
            short_form(text@),
    {
        proof {
            use_type_invariant(self);
        }
        chrono_short_time(self.seconds).unwrap()
    }
}

} // verus!
