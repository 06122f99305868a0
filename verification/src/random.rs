//! Random draws, through `rand` (see `outside::random_in`).

use vstd::prelude::*;
use crate::outside::random_in;

verus! {

/// A number drawn at random from `start..end`.
pub fn u32_in(start: u32, end: u32) -> (r: u32)
    requires
        start < end,
    ensures
        start <= r < end,
{
    let v = random_in(start as u64, (end - 1) as u64);
    v as u32
}

/// A coin flip drawn at random: whether a draw from `0..=1` gave 1.
pub fn coin() -> (r: bool) {
    random_in(0, 1) == 1
}

} // verus!
