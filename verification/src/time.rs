//! Timestamps and the time window of a listing request.

use vstd::prelude::*;

verus! {

/// Milliseconds since the Unix epoch, UTC.
#[derive(Clone, Copy, Debug, PartialEq, Eq, Structural)]
pub struct Timestamp {
    pub unix_utc_ms: i64,
}

/// The window of time that a listing covers.
#[derive(Clone, Copy, Debug, PartialEq, Eq, Structural)]
pub enum TimeSpan {
    /// Items strictly older than the timestamp, newest first.
    Before(Timestamp),
    /// Items strictly newer than the timestamp, oldest first.
    After(Timestamp),
}

impl TimeSpan {
    /// Whether the window is walked from new to old.
    pub fn is_before(&self) -> (r: bool)
        ensures
            r == (*self is Before),
    {
        match self {
            TimeSpan::Before(_) => true,
            TimeSpan::After(_) => false,
        }
    }

    /// The timestamp that bounds the window.
    pub fn timestamp(&self) -> (t: Timestamp)
        ensures
            *self matches TimeSpan::Before(b) ==> t == b,
            *self matches TimeSpan::After(a) ==> t == a,
    {
        match self {
            TimeSpan::Before(b) => *b,
            TimeSpan::After(a) => *a,
        }
    }
}

} // verus!
