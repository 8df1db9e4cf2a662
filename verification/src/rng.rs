//! Random draws.

use vstd::prelude::*;
use rand::Rng;

verus! {

/// A random integer from `i` up to, but not including, `j`.
///
/// Calls `rand::Rng::gen_range` on the thread's generator with the range
/// `i..j`. That function panics on an empty range, which `requires` rules
/// out; of what it returns it is claimed only that it lies in the range,
/// which holds of every draw.
#[verifier::external_body]
pub fn random_int(i: u32, j: u32) -> (r: u32)
    requires
        i < j,
    ensures
        i <= r < j,
{
    let mut rng = rand::thread_rng();
    rng.gen_range(i..j)
}

/// Chooses one of the three axes at random: the axis of a number drawn below 3.
pub fn random_axis() -> (axis: usize)
    ensures
        axis < 3,
{
    let drawn: u32 = random_int(0, 3);
    axis_of_draw(drawn)
}

/// The axis that a drawn number stands for: the axis of the same number.
pub fn axis_of_draw(drawn: u32) -> (axis: usize)
    requires
        drawn < 3,
    ensures
        axis == drawn,
{
    if drawn == 0 {
        0
    } else if drawn == 1 {
        1
    } else {
        2
    }
}

} // verus!
