//! The grid of cells, its toroidal adjacency and the neighbour count.

use vstd::prelude::*;
use vstd::arithmetic::div_mod::lemma_fundamental_div_mod_converse;

verus! {

/// The state of one cell.
#[derive(Clone, Copy, Debug, PartialEq, Eq, Structural)]
pub enum Cell {
    Dead,
    Alive,
}

/// A `width` × `height` grid stored row by row: cell `(x, y)` is
/// `cells[y * width + x]`. Coordinates wrap around at both edges.
pub struct Grid {
    pub width: usize,
    pub height: usize,
    pub cells: Vec<Cell>,
}

/// `a` taken modulo `n`, always in `0..n` for a positive `n`.
pub open spec fn wrap(a: int, n: int) -> int {
    a % n
}

impl Grid {
    /// Both dimensions are positive and there is exactly one cell per position.
    pub open spec fn wf(&self) -> bool {
        &&& self.width > 0
        &&& self.height > 0
        &&& self.cells@.len() == self.width * self.height
    }

    pub open spec fn index_of(&self, x: int, y: int) -> int {
        y * self.width + x
    }

    /// Whether the cell at `(x, y)` is alive; `x`, `y` are taken in range.
    pub open spec fn alive(&self, x: int, y: int) -> bool {
        self.cells@[self.index_of(x, y)] == Cell::Alive
    }

    /// 1 when the cell at offset `(dx, dy)` from `(x, y)`, wrapped around the
    /// torus, is alive, else 0.
    pub open spec fn alive_at_offset(&self, x: int, y: int, dx: int, dy: int) -> nat {
        if self.alive(wrap(x + dx, self.width as int), wrap(y + dy, self.height as int)) {
            1
        } else {
            0
        }
    }

    /// The number of alive cells among the eight around `(x, y)` on the torus.
    pub open spec fn live_neighbors(&self, x: int, y: int) -> nat {
        self.alive_at_offset(x, y, -1, -1) + self.alive_at_offset(x, y, 0, -1)
            + self.alive_at_offset(x, y, 1, -1) + self.alive_at_offset(x, y, -1, 0)
            + self.alive_at_offset(x, y, 1, 0) + self.alive_at_offset(x, y, -1, 1)
            + self.alive_at_offset(x, y, 0, 1) + self.alive_at_offset(x, y, 1, 1)
    }

    /// The alive cells among the first `k` positions of the 3 × 3 window
    /// centred on `(x, y)`, read row by row, the centre (position 4) left out.
    pub open spec fn live_in_window(&self, x: int, y: int, k: int) -> nat
        decreases k,
    {
        if k <= 0 {
            0
        } else {
            let p = k - 1;
            self.live_in_window(x, y, p) + if p == 4 {
                0
            } else {
                self.alive_at_offset(x, y, p % 3 - 1, p / 3 - 1)
            }
        }
    }
}

/// The whole window but its centre is exactly the eight neighbours.
pub proof fn lemma_window_is_neighbors(g: &Grid, x: int, y: int)
    ensures
        g.live_in_window(x, y, 9) == g.live_neighbors(x, y),
{
    reveal_with_fuel(Grid::live_in_window, 10);
}

/// The coordinate `c + d - 1` wrapped into `0..n`, for `d` in `0..3`.
fn wrapped(c: usize, d: usize, n: usize) -> (r: usize)
    requires
        c < n,
        d < 3,
    ensures
        r == wrap(c + d - 1, n as int),
        r < n,
{
    if d == 0 {
        if c == 0 {
            proof { lemma_fundamental_div_mod_converse(-1, n as int, -1, n - 1); }
            n - 1
        } else {
            proof { lemma_fundamental_div_mod_converse(c - 1, n as int, 0, c - 1); }
            c - 1
        }
    } else if d == 1 {
        proof { lemma_fundamental_div_mod_converse(c as int, n as int, 0, c as int); }
        c
    } else if c + 1 == n {
        proof { lemma_fundamental_div_mod_converse(n as int, n as int, 1, 0); }
        0
    } else {
        proof { lemma_fundamental_div_mod_converse(c + 1, n as int, 0, c + 1); }
        c + 1
    }
}

/// The index of `(x, y)` lies among the cells.
pub proof fn lemma_index_in_range(g: &Grid, x: int, y: int)
    requires
        g.wf(),
        0 <= x < g.width,
        0 <= y < g.height,
    ensures
        0 <= g.index_of(x, y) < g.cells@.len(),
{
    assert(y * g.width + x < g.width * g.height) by (nonlinear_arith)
        requires
            0 <= x < g.width,
            0 <= y < g.height,
    ;
    assert(0 <= y * g.width) by (nonlinear_arith)
        requires
            0 <= y,
    ;
}

impl Grid {
    /// The position of `(x, y)` in `cells`.
    pub fn index(&self, x: usize, y: usize) -> (r: usize)
        requires
            self.wf(),
            x < self.width,
            y < self.height,
        ensures
            r == self.index_of(x as int, y as int),
            r < self.cells@.len(),
    {
        let total = self.cells.len();
        proof { lemma_index_in_range(self, x as int, y as int); }
        assert(y * self.width <= total) by (nonlinear_arith)
            requires
                y < self.height,
                total == self.width * self.height,
        ;
        y * self.width + x
    }
}

impl Grid {
    /// A `width` × `height` grid of dead cells.
    pub fn new(width: usize, height: usize) -> (r: Grid)
        requires
            width > 0,
            height > 0,
            width * height <= usize::MAX,
        ensures
            r.wf(),
            r.width == width,
            r.height == height,
            forall|i: int| 0 <= i < r.cells@.len() ==> #[trigger] r.cells@[i] == Cell::Dead,
    {
        let total = width * height;
        let mut cells: Vec<Cell> = Vec::with_capacity(total);
        let mut i: usize = 0;
        while i < total
            invariant
                i <= total,
                cells@.len() == i,
                forall|j: int| 0 <= j < i ==> #[trigger] cells@[j] == Cell::Dead,
            decreases total - i,
        {
            cells.push(Cell::Dead);
            i = i + 1;
        }
        Grid { width, height, cells }
    }

    /// A grid made of the given cells, row by row, when there is one per
    /// position and both dimensions are positive; `None` otherwise.
    pub fn from_cells(width: usize, height: usize, cells: Vec<Cell>) -> (r: Option<Grid>)
        ensures
            r.is_some() == (width > 0 && height > 0 && cells@.len() == width * height),
            r.is_some() ==> {
                &&& r.unwrap().width == width
                &&& r.unwrap().height == height
                &&& r.unwrap().cells@ == cells@
            },
    {
        if width == 0 || height == 0 {
            return None;
        }
        let total = cells.len();
        if total % width != 0 || total / width != height {
            proof {
                if cells@.len() == width * height {
                    crate::life::lemma_index_coords(width as int, 0, height as int);
                }
            }
            return None;
        }
        proof { vstd::arithmetic::div_mod::lemma_fundamental_div_mod(total as int, width as int); }
        assert(width * (total / width) == width * height);
        Some(Grid { width, height, cells })
    }

    /// The cell at `(x, y)`.
    pub fn get(&self, x: usize, y: usize) -> (r: Cell)
        requires
            self.wf(),
            x < self.width,
            y < self.height,
        ensures
            r == self.cells@[self.index_of(x as int, y as int)],
            (r == Cell::Alive) == self.alive(x as int, y as int),
    {
        self.cells[self.index(x, y)]
    }

    /// Sets the cell at `(x, y)` and leaves every other cell as it was.
    pub fn set(&mut self, x: usize, y: usize, cell: Cell)
        requires
            old(self).wf(),
            x < old(self).width,
            y < old(self).height,
        ensures
            final(self).wf(),
            final(self).width == old(self).width,
            final(self).height == old(self).height,
            final(self).cells@ == old(self).cells@.update(old(self).index_of(x as int, y as int), cell),
    {
        let i = self.index(x, y);
        self.cells.set(i, cell);
    }
}

/// Counts the alive cells among the eight neighbours of `(x, y)`, wrapping
/// around both edges. On a grid one cell wide (or high) the neighbours to
/// the left and right (above and below) are the cell itself, and it is
/// counted once for each of them.
pub fn count_live_neighbors(grid: &Grid, x: usize, y: usize) -> (r: u8)
    requires
        grid.wf(),
        x < grid.width,
        y < grid.height,
    ensures
        r == grid.live_neighbors(x as int, y as int),
        r <= 8,
{
    let mut count: u8 = 0;
    let mut p: usize = 0;
    while p < 9
        invariant
            grid.wf(),
            x < grid.width,
            y < grid.height,
            p <= 9,
            count == grid.live_in_window(x as int, y as int, p as int),
            count <= p,
        decreases 9 - p,
    {
        if p != 4 {
            let nx = wrapped(x, p % 3, grid.width);
            let ny = wrapped(y, p / 3, grid.height);
            if grid.cells[grid.index(nx, ny)] == Cell::Alive {
                count = count + 1;
            }
        }
        p = p + 1;
    }
    proof { lemma_window_is_neighbors(grid, x as int, y as int); }
    count
}

} // verus!
