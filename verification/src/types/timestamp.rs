//! Points in time.

use vstd::prelude::*;

verus! {

/// A point in time: milliseconds since the Unix epoch.
#[derive(Debug, Clone, Copy, PartialEq, Eq, Structural)]
pub struct Timestamp {
    pub millis: i64,
}

impl Timestamp {
    /// The milliseconds since the epoch.
    pub fn as_i64(&self) -> (r: i64)
        ensures
            r == self.millis,
    {
        self.millis
    }
}

impl From<i64> for Timestamp {
    fn from(millis: i64) -> (r: Timestamp) {
        Timestamp { millis }
    }
}

impl vstd::std_specs::convert::FromSpecImpl<i64> for Timestamp {
    open spec fn obeys_from_spec() -> bool {
        true
    }

    open spec fn from_spec(millis: i64) -> Timestamp {
        Timestamp { millis }
    }
}

impl From<Timestamp> for i64 {
    fn from(t: Timestamp) -> (r: i64) {
        t.millis
    }
}

impl vstd::std_specs::convert::FromSpecImpl<Timestamp> for i64 {
    open spec fn obeys_from_spec() -> bool {
        true
    }

    open spec fn from_spec(t: Timestamp) -> i64 {
        t.millis
    }
}

} // verus!
