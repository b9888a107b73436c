//! The transition rule: every cell of the next generation is computed from
//! the previous generation alone.

use vstd::prelude::*;
use vstd::arithmetic::div_mod::{
    lemma_fundamental_div_mod,
    lemma_fundamental_div_mod_converse,
    lemma_multiply_divide_lt,
};
use crate::grid::{Cell, Grid, count_live_neighbors};

verus! {

/// Whether a cell is alive in the next generation, from its state and its
/// number of alive neighbours: a live cell survives with 2 or 3, a dead one
/// is born with exactly 3.
pub open spec fn next_alive(alive: bool, n: nat) -> bool {
    if alive {
        n == 2 || n == 3
    } else {
        n == 3
    }
}

pub open spec fn cell_of(alive: bool) -> Cell {
    if alive {
        Cell::Alive
    } else {
        Cell::Dead
    }
}

impl Grid {
    /// Whether `(x, y)` is alive in the next generation.
    pub open spec fn next_alive_at(&self, x: int, y: int) -> bool {
        next_alive(self.alive(x, y), self.live_neighbors(x, y))
    }

    /// The cells of the next generation, row by row.
    pub open spec fn next_cells(&self) -> Seq<Cell> {
        Seq::new(
            (self.width * self.height) as nat,
            |i: int| cell_of(self.next_alive_at(i % self.width as int, i / self.width as int)),
        )
    }
}

/// Position `y * w + x` has column `x` and row `y`.
pub proof fn lemma_index_coords(w: int, x: int, y: int)
    requires
        0 <= x < w,
    ensures
        (y * w + x) % w == x,
        (y * w + x) / w == y,
{
    lemma_fundamental_div_mod_converse(y * w + x, w, y, x);
}

/// A position in `0..w * h` has its column below `w`, its row below `h`,
/// and is the index of that column and row.
pub proof fn lemma_coords_of_index(w: int, h: int, i: int)
    requires
        w > 0,
        0 <= i < w * h,
    ensures
        0 <= i % w < w,
        0 <= i / w < h,
        (i / w) * w + i % w == i,
{
    lemma_fundamental_div_mod(i, w);
    lemma_multiply_divide_lt(i, w, h);
    assert((i / w) * w == w * (i / w)) by (nonlinear_arith);
    assert(0 <= i / w) by (nonlinear_arith)
        requires
            0 <= i,
            w > 0,
    ;
}

/// The next state of one cell, from its state and its number of alive
/// neighbours.
pub fn next_state(cell: Cell, live_neighbors: u8) -> (r: Cell)
    ensures
        r == cell_of(next_alive(cell == Cell::Alive, live_neighbors as nat)),
{
    let alive = cell == Cell::Alive;
    if alive && live_neighbors < 2 {
        Cell::Dead
    } else if alive && (live_neighbors == 2 || live_neighbors == 3) {
        Cell::Alive
    } else if alive && live_neighbors > 3 {
        Cell::Dead
    } else if !alive && live_neighbors == 3 {
        Cell::Alive
    } else {
        cell
    }
}

/// The next generation of `grid`, computed into a fresh buffer so that every
/// cell is read from the previous generation.
pub fn step(grid: &Grid) -> (r: Grid)
    requires
        grid.wf(),
    ensures
        r.wf(),
        r.width == grid.width,
        r.height == grid.height,
        r.cells@ == grid.next_cells(),
{
    let total = grid.cells.len();
    let mut next: Vec<Cell> = Vec::with_capacity(total);
    let mut i: usize = 0;
    while i < total
        invariant
            grid.wf(),
            total == grid.cells@.len(),
            i <= total,
            next@ == grid.next_cells().take(i as int),
        decreases total - i,
    {
        let x = i % grid.width;
        let y = i / grid.width;
        proof { lemma_coords_of_index(grid.width as int, grid.height as int, i as int); }
        let n = count_live_neighbors(grid, x, y);
        next.push(next_state(grid.cells[i], n));
        assert(next@ =~= grid.next_cells().take(i + 1));
        i = i + 1;
    }
    assert(next@ =~= grid.next_cells());
    Grid { width: grid.width, height: grid.height, cells: next }
}

/// Advances `grid` by one generation.
pub fn update_game(grid: &mut Grid)
    requires
        old(grid).wf(),
    ensures
        final(grid).wf(),
        final(grid).width == old(grid).width,
        final(grid).height == old(grid).height,
        final(grid).cells@ == old(grid).next_cells(),
        forall|x: int, y: int|
            0 <= x < old(grid).width && 0 <= y < old(grid).height ==>
            #[trigger] final(grid).alive(x, y) == old(grid).next_alive_at(x, y),
{
    let next = step(grid);
    proof {
        assert forall|x: int, y: int|
            0 <= x < old(grid).width && 0 <= y < old(grid).height implies
            #[trigger] next.alive(x, y) == old(grid).next_alive_at(x, y) by {
            lemma_index_coords(next.width as int, x, y);
            crate::grid::lemma_index_in_range(&next, x, y);
        }
    }
    *grid = next;
}

} // verus!
