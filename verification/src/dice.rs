//! The source of chance. Nothing is known of a draw but its range.

use rand::Rng;
use vstd::prelude::*;

verus! {

/// Draws an integer with `rand::Rng::gen_range` on the generator that
/// `rand::thread_rng` hands out. Not proved: the draw lies in `low .. high`,
/// `low` included and `high` excluded, as that method documents. The method
/// panics when `low >= high`, so such bounds are not admitted. Which number
/// of the range comes out is left open: two draws from one range may differ.
#[verifier::external_body]
pub(crate) fn gen_range(low: i32, high: i32) -> (r: i32)
    requires
        low < high,
    ensures
        low <= r < high,
{
    rand::thread_rng().gen_range(low, high)
}

} // verus!
