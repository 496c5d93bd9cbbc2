//! The one source of randomness of the engine.

use rand::Rng;
use vstd::prelude::*;

verus! {

/// Calls `rand::Rng::gen_range` on `rand::thread_rng()` with the half-open
/// range `low..high`. Trusted: the drawn value lies in the range. Which value
/// it is depends on the generator's state, so nothing more is claimed. The
/// outside function panics on an empty range, which `requires` leaves out.
#[verifier::external_body]
pub(crate) fn draw_between(low: u64, high: u64) -> (drawn: u64)
    requires
        low < high,
    ensures
        low <= drawn < high,
{
    rand::thread_rng().gen_range(low..high)
}

} // verus!
