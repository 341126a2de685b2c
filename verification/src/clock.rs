//! The search's view of wall-clock time: an opaque start instant and
//! the milliseconds elapsed since it.

use vstd::prelude::*;

verus! {

#[verifier::external_type_specification]
#[verifier::external_body]
pub struct ExInstant(std::time::Instant);

/// Relies on std::time::Instant::elapsed for the time since `start`,
/// read once per poll; nothing is assumed of the clock's pace.
#[verifier::external_body]
pub fn elapsed_millis(start: &std::time::Instant) -> u64 {
    start.elapsed().as_millis() as u64
}

} // verus!
