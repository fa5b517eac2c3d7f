//! Instants used to stamp records.

use vstd::prelude::*;

verus! {

/// An instant, as nanoseconds since the Unix epoch (UTC).
#[derive(Debug, Clone, Copy, PartialEq, Eq, Structural)]
pub struct Timestamp {
    pub unix_nanos: i128,
}

impl Timestamp {
    pub open spec fn le(self, other: Timestamp) -> bool {
        self.unix_nanos <= other.unix_nanos
    }
}

/// Calls `time::OffsetDateTime::now_utc` and returns the instant in
/// nanoseconds since the epoch. The value depends on the clock, so nothing
/// is stated about it.
#[verifier::external_body]
pub(crate) fn now_utc() -> (r: Timestamp) {
    Timestamp { unix_nanos: time::OffsetDateTime::now_utc().unix_timestamp_nanos() }
}

} // verus!
