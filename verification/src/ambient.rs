//! What a search reads from its surroundings: the clock and the cancellation
//! flag. Nothing is known of either value before it is read.

use std::sync::atomic::{AtomicBool, Ordering};
use std::time::{Duration, Instant};
use vstd::prelude::*;

verus! {

/// `std::time::Instant`, a reading of the monotonic clock.
#[verifier::external_type_specification]
#[verifier::external_body]
pub struct ExInstant(Instant);

/// `Instant::elapsed`: the time since the instant was taken. It depends on the
/// clock, so nothing is promised of it.
pub assume_specification[ Instant::elapsed ](instant: &Instant) -> Duration;

/// `Duration::as_secs`: the whole seconds of a duration. The duration itself
/// is opaque here, so nothing is said of the number.
pub assume_specification[ Duration::as_secs ](duration: &Duration) -> u64;

/// Whole seconds since `started`.
pub(crate) fn elapsed_seconds(started: &Instant) -> u64 {
    let elapsed = started.elapsed();
    elapsed.as_secs()
}

/// Whether the process-wide flag still says to go on. Whoever shuts the worker
/// down stores `false` in it, once.
pub(crate) fn still_running(running: &AtomicBool) -> bool {
    running.load(Ordering::SeqCst)
}

} // verus!
