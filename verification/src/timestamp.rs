//! Instants on the UTC time line.

use std::cmp::Ordering;
use vstd::prelude::*;
use vstd::std_specs::cmp::PartialOrdSpecImpl;

verus! {

/// An instant: whole seconds since 1970-01-01T00:00:00Z, and the nanoseconds
/// that have passed within that second.  Instants are ordered by the seconds
/// first and by the nanoseconds second.
#[derive(Clone, Copy, Debug, PartialEq, Eq, Structural, Hash, Ord)]
pub struct Timestamp {
    pub secs: i64,
    pub nanos: u32,
}

impl Timestamp {
    /// `self` is not later than `other`.
    pub open spec fn at_or_before(self, other: Timestamp) -> bool {
        self.secs < other.secs || (self.secs == other.secs && self.nanos <= other.nanos)
    }

    /// How `self` stands to `other` on the time line.
    pub open spec fn compared(self, other: Timestamp) -> Ordering {
        if self == other {
            Ordering::Equal
        } else if self.at_or_before(other) {
            Ordering::Less
        } else {
            Ordering::Greater
        }
    }

    /// The later of two instants.
    pub open spec fn later_spec(self, other: Timestamp) -> Timestamp {
        if self.at_or_before(other) {
            other
        } else {
            self
        }
    }

    /// The instant at the start of the second `secs`.
    pub fn from_secs(secs: i64) -> (t: Timestamp)
        ensures
            t == (Timestamp { secs, nanos: 0 }),
    {
        Timestamp { secs, nanos: 0 }
    }

    /// The later of two instants.
    #[verifier::when_used_as_spec(later_spec)]
    pub fn later(self, other: Timestamp) -> (t: Timestamp)
        ensures
            t == self.later_spec(other),
    {
        if self.secs < other.secs || (self.secs == other.secs && self.nanos <= other.nanos) {
            other
        } else {
            self
        }
    }
}

impl PartialOrd for Timestamp {
    fn partial_cmp(&self, other: &Timestamp) -> (r: Option<Ordering>) {
        if self.secs < other.secs {
            Some(Ordering::Less)
        } else if self.secs > other.secs {
            Some(Ordering::Greater)
        } else if self.nanos < other.nanos {
            Some(Ordering::Less)
        } else if self.nanos > other.nanos {
            Some(Ordering::Greater)
        } else {
            Some(Ordering::Equal)
        }
    }
}

impl PartialOrdSpecImpl for Timestamp {
    open spec fn obeys_partial_cmp_spec() -> bool {
        true
    }

    open spec fn partial_cmp_spec(&self, other: &Timestamp) -> Option<Ordering> {
        Some(self.compared(*other))
    }
}

/// The later of the instants that are present, if any is.
pub open spec fn latest_spec(a: Option<Timestamp>, b: Option<Timestamp>) -> Option<Timestamp> {
    match (a, b) {
        (None, None) => None,
        (Some(t), None) => Some(t),
        (None, Some(t)) => Some(t),
        (Some(t), Some(u)) => Some(t.later_spec(u)),
    }
}

/// The later of the instants that are present, if any is.
#[verifier::when_used_as_spec(latest_spec)]
pub fn latest(a: Option<Timestamp>, b: Option<Timestamp>) -> (r: Option<Timestamp>)
    ensures
        r == latest_spec(a, b),
{
    match (a, b) {
        (None, None) => None,
        (Some(t), None) => Some(t),
        (None, Some(t)) => Some(t),
        (Some(t), Some(u)) => Some(t.later(u)),
    }
}

} // verus!
