//! The monotonic clock.

use std::time::{Duration, Instant};
use vstd::prelude::*;

verus! {

/// `std::time::Instant`: a moment on the monotonic clock. Nothing inside
/// it is visible here.
#[verifier::external_type_specification]
#[verifier::external_body]
pub struct ExInstant(std::time::Instant);

/// `Instant::now`: the present moment. Nothing is claimed of it.
pub assume_specification[ Instant::now ]() -> Instant;

/// `Instant::duration_since`: the time from `earlier` to `later`, which is
/// zero where `earlier` is the later one. Nothing is claimed of it.
pub assume_specification[ Instant::duration_since ](later: &Instant, earlier: Instant) -> Duration;

/// `Duration::as_secs`: the whole seconds of a duration. Nothing is claimed
/// of it.
pub assume_specification[ Duration::as_secs ](duration: &Duration) -> u64;

} // verus!
