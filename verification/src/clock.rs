//! Wall-clock time as seconds and nanoseconds since the Unix epoch.

use vstd::prelude::*;

verus! {

/// A point in time (what `std::time::SystemTime` holds), as the time
/// elapsed since the Unix epoch.
#[derive(Clone, Copy, Debug, PartialEq, Eq)]
pub struct Timestamp {
    pub secs_since_epoch: u64,
    pub nanos_since_epoch: u32,
}

/// `SystemTime::now().duration_since(UNIX_EPOCH)`; a clock set before the
/// epoch reads as the epoch.  Nothing is known of the time but that the
/// nanoseconds stay below one second, as `Duration` keeps them.
#[verifier::external_body]
pub(crate) fn now() -> (t: Timestamp)
    ensures
        t.nanos_since_epoch < 1_000_000_000,
{
    let d = std::time::SystemTime::now()
        .duration_since(std::time::UNIX_EPOCH)
        .unwrap_or_default();
    Timestamp { secs_since_epoch: d.as_secs(), nanos_since_epoch: d.subsec_nanos() }
}

} // verus!
