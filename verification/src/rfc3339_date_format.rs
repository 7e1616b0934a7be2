//! Instants written as RFC 3339 says.

use chrono::DateTime;
use vstd::prelude::*;
use crate::timestamp::Timestamp;

verus! {

/// A text that was to hold an instant and does not.
#[derive(Clone, Copy, Debug, PartialEq, Eq, Structural)]
pub struct MalformedDate;

/// The seconds and nanoseconds of the instant that a text stands for, where
/// `chrono` reads it as RFC 3339.
pub uninterp spec fn parsed(text: Seq<char>) -> Option<(i64, u32)>;

/// What `chrono` writes for the instant with the given seconds and
/// nanoseconds, where it can hold that instant.
pub uninterp spec fn written(secs: i64, nanos: u32) -> Option<Seq<char>>;

/// `DateTime::parse_from_rfc3339`, with its error dropped, and of the
/// instant that comes back what `timestamp` and `timestamp_subsec_nanos`
/// give: the result depends on the text alone.
#[verifier::external_body]
fn parse(text: &str) -> (r: Option<Timestamp>)
    ensures
        r == match parsed(text@) {
            Some((secs, nanos)) => Some((Timestamp { secs, nanos })),
            None => None,
        },
{
    match DateTime::parse_from_rfc3339(text) {
        Ok(date) => Some(Timestamp { secs: date.timestamp(), nanos: date.timestamp_subsec_nanos() }),
        Err(_) => None,
    }
}

/// `DateTime::from_timestamp`, and `DateTime::to_rfc3339` on the instant
/// that it gives: the result depends on the seconds and nanoseconds alone,
/// and is nothing where `chrono` cannot hold the instant.
#[verifier::external_body]
fn write(date: &Timestamp) -> (r: Option<String>)
    ensures
        match r {
            Some(text) => written(date.secs, date.nanos) == Some(text@),
            None => written(date.secs, date.nanos) is None,
        },
{
    match DateTime::from_timestamp(date.secs, date.nanos) {
        Some(instant) => Some(instant.to_rfc3339()),
        None => None,
    }
}

/// The text of an instant that is present and can be written.
pub fn serialize(date: &Option<Timestamp>) -> (text: Option<String>)
    ensures
        match text {
            Some(t) => *date matches Some(d) && written(d.secs, d.nanos) == Some(t@),
            None => *date matches Some(d) ==> written(d.secs, d.nanos) is None,
        },
{
    match date {
        Some(d) => write(d),
        None => None,
    }
}

/// What reading an instant gives for the text `text`, from which `instant`
/// was read: no instant where there is no text, and a failure where there
/// is a text and no instant was read from it.
pub open spec fn reading(text: Option<Seq<char>>, instant: Option<(i64, u32)>) -> Result<
    Option<Timestamp>,
    MalformedDate,
> {
    match text {
        None => Ok(None),
        Some(_) => match instant {
            Some((secs, nanos)) => Ok(Some((Timestamp { secs, nanos }))),
            None => Err(MalformedDate),
        },
    }
}

/// Reads an instant.  No text gives no instant; a text that does not hold
/// an instant is a failure.
pub fn deserialize(text: Option<&str>) -> (date: Result<Option<Timestamp>, MalformedDate>)
    ensures
        date == match text {
            Some(t) => reading(Some(t@), parsed(t@)),
            None => reading(None, None),
        },
{
    match text {
        None => Ok(None),
        Some(t) => match parse(t) {
            Some(instant) => Ok(Some(instant)),
            None => Err(MalformedDate),
        },
    }
}

} // verus!
