//! Properties of the transition rule, stated over the grid model.

use vstd::prelude::*;
use vstd::arithmetic::div_mod::lemma_fundamental_div_mod_converse;
use crate::grid::{Cell, Grid, wrap, lemma_index_in_range};
use crate::life::lemma_index_coords;

verus! {

/// Birth: a dead cell is alive in the next generation exactly when it has
/// three alive neighbours; otherwise it stays dead.
pub proof fn lemma_dead_cell_rule(g: &Grid, x: int, y: int)
    requires
        g.wf(),
        0 <= x < g.width,
        0 <= y < g.height,
        !g.alive(x, y),
    ensures
        (g.next_cells()[g.index_of(x, y)] == Cell::Alive) == (g.live_neighbors(x, y) == 3),
{
    lemma_index_in_range(g, x, y);
    lemma_index_coords(g.width as int, x, y);
}

/// Survival: an alive cell stays alive with two or three alive neighbours,
/// and dies with fewer than two or more than three.
pub proof fn lemma_alive_cell_rule(g: &Grid, x: int, y: int)
    requires
        g.wf(),
        0 <= x < g.width,
        0 <= y < g.height,
        g.alive(x, y),
    ensures
        (g.next_cells()[g.index_of(x, y)] == Cell::Alive) == (2 <= g.live_neighbors(x, y) <= 3),
        g.live_neighbors(x, y) < 2 ==> g.next_cells()[g.index_of(x, y)] == Cell::Dead,
        g.live_neighbors(x, y) > 3 ==> g.next_cells()[g.index_of(x, y)] == Cell::Dead,
{
    lemma_index_in_range(g, x, y);
    lemma_index_coords(g.width as int, x, y);
}

/// Toroidal wrap: the diagonal neighbour up and to the left of `(0, 0)` is
/// the opposite corner `(width - 1, height - 1)`, and it is counted.
pub proof fn lemma_corner_wraps(g: &Grid)
    requires
        g.wf(),
    ensures
        wrap(0 - 1, g.width as int) == g.width - 1,
        wrap(0 - 1, g.height as int) == g.height - 1,
        g.alive(g.width - 1, g.height - 1) ==> g.live_neighbors(0, 0) >= 1,
{
    lemma_fundamental_div_mod_converse(-1, g.width as int, -1, g.width - 1);
    lemma_fundamental_div_mod_converse(-1, g.height as int, -1, g.height - 1);
}

/// Determinism: grids with the same dimensions and cells have the same next
/// generation.
pub proof fn lemma_step_deterministic(a: &Grid, b: &Grid)
    requires
        a.wf(),
        b.width == a.width,
        b.height == a.height,
        b.cells@ == a.cells@,
    ensures
        a.next_cells() == b.next_cells(),
{
    assert(a.next_cells() =~= b.next_cells());
}

} // verus!
