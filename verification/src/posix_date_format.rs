//! Instants written as whole seconds since 1970-01-01T00:00:00Z.

use vstd::prelude::*;
use crate::timestamp::Timestamp;

verus! {

/// The seconds of an instant that is present; a part of a second is left
/// out.
pub fn serialize(date: &Option<Timestamp>) -> (seconds: Option<i64>)
    ensures
        seconds == match *date {
            Some(t) => Some(t.secs),
            None => None,
        },
{
    match date {
        Some(t) => Some(t.secs),
        None => None,
    }
}

/// The instant at the start of the second that was read; none where no
/// number was read.
pub fn deserialize(seconds: Option<i64>) -> (date: Option<Timestamp>)
    ensures
        date == match seconds {
            Some(secs) => Some((Timestamp { secs, nanos: 0 })),
            None => None,
        },
{
    match seconds {
        Some(secs) => Some(Timestamp::from_secs(secs)),
        None => None,
    }
}

} // verus!
