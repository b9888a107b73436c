//! The random first generation.

use vstd::prelude::*;
use crate::grid::{Cell, Grid};
use crate::life::cell_of;

verus! {

/// Alive cells in the first generation: a uniform `u32` below this value,
/// about 15 % of 2^32, makes a cell alive.
pub const LIVE_THRESHOLD: u32 = 644_245_094;

/// Relies on `rand::random`, which draws a value from the thread-local
/// generator: nothing is promised of the value, and it may differ on every
/// call.
pub assume_specification<T>[ rand::random::<T> ]() -> (r: T)
    where
        rand::distributions::Standard: rand::distributions::Distribution<T>,
;

/// Sets cell `i` alive exactly when `samples[i]` is below `threshold`.
pub fn seed_from_samples(grid: &mut Grid, samples: &Vec<u32>, threshold: u32)
    requires
        old(grid).wf(),
        samples@.len() == old(grid).cells@.len(),
    ensures
        final(grid).wf(),
        final(grid).width == old(grid).width,
        final(grid).height == old(grid).height,
        forall|i: int|
            0 <= i < final(grid).cells@.len() ==> #[trigger] final(grid).cells@[i] == cell_of(
                samples@[i] < threshold,
            ),
{
    let total = grid.cells.len();
    let mut i: usize = 0;
    while i < total
        invariant
            grid.wf(),
            grid.width == old(grid).width,
            grid.height == old(grid).height,
            total == grid.cells@.len(),
            samples@.len() == total,
            i <= total,
            forall|j: int| 0 <= j < i ==> #[trigger] grid.cells@[j] == cell_of(samples@[j] < threshold),
        decreases total - i,
    {
        let cell = if samples[i] < threshold { Cell::Alive } else { Cell::Dead };
        grid.cells.set(i, cell);
        i = i + 1;
    }
}

/// Draws one uniform `u32` per cell and makes each cell alive when its draw
/// is below `LIVE_THRESHOLD`, independently of the others.
pub fn initialize_random(grid: &mut Grid)
    requires
        old(grid).wf(),
    ensures
        final(grid).wf(),
        final(grid).width == old(grid).width,
        final(grid).height == old(grid).height,
{
    let total = grid.cells.len();
    let mut samples: Vec<u32> = Vec::with_capacity(total);
    let mut i: usize = 0;
    while i < total
        invariant
            i <= total,
            samples@.len() == i,
        decreases total - i,
    {
        samples.push(rand::random::<u32>());
        i = i + 1;
    }
    seed_from_samples(grid, &samples, LIVE_THRESHOLD);
}

} // verus!
