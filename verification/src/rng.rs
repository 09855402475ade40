use rand::Rng;
use vstd::prelude::*;

verus! {

/// Draws a sampling target below `total`.
///
/// Relies on rand::Rng::gen_range over `0..total`: it returns a random
/// value in the given range and panics only when the range is empty.
/// Nothing more is assumed of the draw: every caller is verified for
/// every value below `total`.
#[verifier::external_body]
pub(crate) fn draw_target(total: u64) -> (r: u64)
    requires
        total >= 1,
    ensures
        r < total,
{
    rand::thread_rng().gen_range(0..total)
}

} // verus!
