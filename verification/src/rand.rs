//! Random integers.
use vstd::prelude::*;
use rand::Rng;

verus! {

/// Draws an integer from `low..=high` with `Rng::gen_range` of the crate
/// `rand`, on the generator of the current thread. The contract claims only
/// that the result lies in the range, which is what the documentation
/// promises of every outcome; `gen_range` panics on an empty range, which
/// the precondition rules out.
#[verifier::external_body]
fn uniform_i32(low: i32, high: i32) -> (r: i32)
    requires
        low <= high,
    ensures
        low <= r <= high,
{
    rand::thread_rng().gen_range(low..=high)
}

/// A random integer between `min` and `max`, both included. Where `min`
/// exceeds `max`, the result lies above `max` and not above `min`.
pub fn rand_i32_range(min: i32, max: i32) -> (r: i32)
    ensures
        min <= max ==> min <= r <= max,
        min > max ==> max < r <= min,
{
    if min <= max {
        uniform_i32(min, max)
    } else {
        uniform_i32(max + 1, min)
    }
}

} // verus!
