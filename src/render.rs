//! Painting the grid into a pixel buffer, one square block per cell.

use vstd::prelude::*;
use vstd::arithmetic::div_mod::{lemma_fundamental_div_mod, lemma_multiply_divide_lt};
use vstd::arithmetic::div_mod::lemma_fundamental_div_mod_converse;
use crate::grid::{Cell, Grid};
use crate::life::lemma_index_coords;

verus! {

/// The colour of an alive cell (0xRRGGBB).
pub const ALIVE_COLOR: u32 = 0x13F1ED;

/// The colour of a dead cell (0xRRGGBB).
pub const DEAD_COLOR: u32 = 0xFFC0CB;

pub open spec fn color_of(c: Cell) -> u32 {
    match c {
        Cell::Alive => ALIVE_COLOR,
        Cell::Dead => DEAD_COLOR,
    }
}

/// The colour that paints a cell.
pub fn cell_color(c: Cell) -> (r: u32)
    ensures
        r == color_of(c),
{
    match c {
        Cell::Alive => ALIVE_COLOR,
        Cell::Dead => DEAD_COLOR,
    }
}

impl Grid {
    /// The colour of pixel `i` of a buffer `display_width` pixels wide in
    /// which every cell is a `cell_size` × `cell_size` block.
    pub open spec fn pixel_color(&self, i: int, display_width: int, cell_size: int) -> u32 {
        color_of(self.cells@[self.index_of((i % display_width) / cell_size, (i / display_width) / cell_size)])
    }
}

/// Splits pixel `i` into the cell that covers it, which lies on the grid.
proof fn lemma_pixel_cell(w: int, h: int, cs: int, i: int)
    requires
        w > 0,
        h > 0,
        cs > 0,
        0 <= i < (w * cs) * (h * cs),
    ensures
        0 <= (i % (w * cs)) / cs < w,
        0 <= (i / (w * cs)) / cs < h,
{
    let dw = w * cs;
    assert(dw > 0) by (nonlinear_arith)
        requires
            dw == w * cs,
            w > 0,
            cs > 0,
    ;
    lemma_fundamental_div_mod(i, dw);
    lemma_multiply_divide_lt(i, dw, h * cs);
    assert(i % dw < cs * w) by (nonlinear_arith)
        requires
            i % dw < dw,
            dw == w * cs,
    ;
    lemma_multiply_divide_lt(i % dw, cs, w);
    assert(i / dw < cs * h) by (nonlinear_arith)
        requires
            i / dw < h * cs,
    ;
    lemma_multiply_divide_lt(i / dw, cs, h);
    assert(0 <= i / dw) by (nonlinear_arith)
        requires
            0 <= i,
            dw > 0,
    ;
    assert(0 <= (i / dw) / cs) by (nonlinear_arith)
        requires
            0 <= i / dw,
            cs > 0,
    ;
    assert(0 <= (i % dw) / cs) by (nonlinear_arith)
        requires
            0 <= i % dw,
            cs > 0,
    ;
}

/// Repaints every pixel of `display_buffer`, a buffer `display_width`
/// pixels wide, with the colour of the cell whose `cell_size` ×
/// `cell_size` block covers it.
pub fn render(grid: &Grid, display_buffer: &mut Vec<u32>, display_width: usize, cell_size: usize)
    requires
        grid.wf(),
        cell_size > 0,
        display_width == grid.width * cell_size,
        old(display_buffer)@.len() == display_width * (grid.height * cell_size),
    ensures
        final(display_buffer)@.len() == old(display_buffer)@.len(),
        forall|i: int|
            0 <= i < final(display_buffer)@.len() ==> #[trigger] final(display_buffer)@[i]
                == grid.pixel_color(i, display_width as int, cell_size as int),
{
    let total = display_buffer.len();
    let mut i: usize = 0;
    while i < total
        invariant
            grid.wf(),
            cell_size > 0,
            display_width == grid.width * cell_size,
            total == display_buffer@.len(),
            total == display_width * (grid.height * cell_size),
            i <= total,
            forall|j: int|
                0 <= j < i ==> #[trigger] display_buffer@[j]
                    == grid.pixel_color(j, display_width as int, cell_size as int),
        decreases total - i,
    {
        proof {
            lemma_pixel_cell(grid.width as int, grid.height as int, cell_size as int, i as int);
        }
        let x = (i % display_width) / cell_size;
        let y = (i / display_width) / cell_size;
        let color = cell_color(grid.cells[grid.index(x, y)]);
        display_buffer.set(i, color);
        i = i + 1;
    }
}

/// Each cell owns a `cell_size` × `cell_size` block: the pixel at column
/// `x * cell_size + dx` and row `y * cell_size + dy` lies in the buffer and
/// has the colour of cell `(x, y)`.
pub proof fn lemma_cell_block(g: &Grid, cell_size: int, x: int, y: int, dx: int, dy: int)
    requires
        g.wf(),
        cell_size > 0,
        0 <= x < g.width,
        0 <= y < g.height,
        0 <= dx < cell_size,
        0 <= dy < cell_size,
    ensures
        ({
            let dw = g.width * cell_size;
            let i = (y * cell_size + dy) * dw + (x * cell_size + dx);
            &&& 0 <= i < dw * (g.height * cell_size)
            &&& g.pixel_color(i, dw, cell_size) == color_of(g.cells@[g.index_of(x, y)])
        }),
{
    let dw = g.width * cell_size;
    let px = x * cell_size + dx;
    let py = y * cell_size + dy;
    assert(0 <= px < dw && 0 <= py < g.height * cell_size) by (nonlinear_arith)
        requires
            dw == g.width * cell_size,
            px == x * cell_size + dx,
            py == y * cell_size + dy,
            0 <= x < g.width,
            0 <= y < g.height,
            0 <= dx < cell_size,
            0 <= dy < cell_size,
    ;
    lemma_index_coords(dw, px, py);
    lemma_fundamental_div_mod_converse(px, cell_size, x, dx);
    lemma_fundamental_div_mod_converse(py, cell_size, y, dy);
    assert(0 <= py * dw + px < dw * (g.height * cell_size)) by (nonlinear_arith)
        requires
            0 <= px < dw,
            0 <= py < g.height * cell_size,
    ;
}

} // verus!
