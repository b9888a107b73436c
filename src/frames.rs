//! Animation frames: the grid point-sampled at a stride, as palette indices.

use vstd::prelude::*;
use vstd::arithmetic::div_mod::lemma_fundamental_div_mod;
use crate::grid::{Cell, Grid};
use crate::life::{lemma_coords_of_index, lemma_index_coords};
use crate::render::{ALIVE_COLOR, DEAD_COLOR};

verus! {

/// Display delay of every frame, in hundredths of a second.
pub const FRAME_DELAY: u16 = 5;

/// Palette index of a dead cell.
pub const DEAD_INDEX: u8 = 0;

/// Palette index of an alive cell.
pub const ALIVE_INDEX: u8 = 1;

pub open spec fn palette_index(alive: bool) -> u8 {
    if alive {
        ALIVE_INDEX
    } else {
        DEAD_INDEX
    }
}

impl Grid {
    /// Width of the grid sampled every `scale` cells.
    pub open spec fn sampled_width(&self, scale: int) -> int {
        self.width as int / scale
    }

    /// Height of the grid sampled every `scale` cells.
    pub open spec fn sampled_height(&self, scale: int) -> int {
        self.height as int / scale
    }

    /// Palette index of sample `i` (row by row): the top-left cell of the
    /// `scale` × `scale` block that it stands for.
    pub open spec fn sample(&self, i: int, scale: int) -> u8 {
        let w = self.sampled_width(scale);
        palette_index(self.alive((i % w) * scale, (i / w) * scale))
    }
}

/// The samples of a grid at stride `scale` fit in the grid.
proof fn lemma_sampled_bounds(w: int, h: int, s: int)
    requires
        w > 0,
        h > 0,
        s > 0,
    ensures
        (w / s) * s <= w,
        (h / s) * s <= h,
        0 <= (w / s) * (h / s) <= w * h,
{
    lemma_fundamental_div_mod(w, s);
    lemma_fundamental_div_mod(h, s);
    assert((w / s) * s <= w) by (nonlinear_arith)
        requires
            w == s * (w / s) + w % s,
            w % s >= 0,
    ;
    assert((h / s) * s <= h) by (nonlinear_arith)
        requires
            h == s * (h / s) + h % s,
            h % s >= 0,
    ;
    assert(0 <= w / s <= w && 0 <= h / s <= h) by (nonlinear_arith)
        requires
            (w / s) * s <= w,
            (h / s) * s <= h,
            s > 0,
            w > 0,
            h > 0,
    ;
    assert(0 <= (w / s) * (h / s) <= w * h) by (nonlinear_arith)
        requires
            0 <= w / s <= w,
            0 <= h / s <= h,
    ;
}

/// Point-samples `grid` at stride `scale`: the result has
/// `(width / scale) × (height / scale)` entries, row by row, each the palette
/// index of the top-left cell of its `scale` × `scale` block.
pub fn downsample(grid: &Grid, scale: usize) -> (r: Vec<u8>)
    requires
        grid.wf(),
        scale > 0,
    ensures
        r@.len() == grid.sampled_width(scale as int) * grid.sampled_height(scale as int),
        forall|i: int| 0 <= i < r@.len() ==> #[trigger] r@[i] == grid.sample(i, scale as int),
{
    let out_w = grid.width / scale;
    let out_h = grid.height / scale;
    let cells_len = grid.cells.len();
    proof { lemma_sampled_bounds(grid.width as int, grid.height as int, scale as int); }
    let total = out_w * out_h;
    let mut out: Vec<u8> = Vec::with_capacity(total);
    let mut i: usize = 0;
    while i < total
        invariant
            grid.wf(),
            scale > 0,
            out_w == grid.width / scale,
            out_h == grid.height / scale,
            out_w * scale <= grid.width,
            out_h * scale <= grid.height,
            total == out_w * out_h,
            i <= total,
            out@.len() == i,
            forall|j: int| 0 <= j < i ==> #[trigger] out@[j] == grid.sample(j, scale as int),
        decreases total - i,
    {
        assert(out_w > 0) by (nonlinear_arith)
            requires
                i < total,
                total == out_w * out_h,
        ;
        proof { lemma_coords_of_index(out_w as int, out_h as int, i as int); }
        let x = i % out_w;
        let y = i / out_w;
        assert(x * scale < grid.width && y * scale < grid.height) by (nonlinear_arith)
            requires
                x < out_w,
                y < out_h,
                out_w * scale <= grid.width,
                out_h * scale <= grid.height,
                scale > 0,
        ;
        let cell = grid.cells[grid.index(x * scale, y * scale)];
        out.push(if cell == Cell::Alive { ALIVE_INDEX } else { DEAD_INDEX });
        i = i + 1;
    }
    out
}

/// The red, green and blue bytes of a colour written 0xRRGGBB.
pub open spec fn rgb(c: u32) -> Seq<u8> {
    seq![(c / 0x10000 % 0x100) as u8, (c / 0x100 % 0x100) as u8, (c % 0x100) as u8]
}

/// Appends the red, green and blue bytes of `c` to `out`.
fn push_rgb(out: &mut Vec<u8>, c: u32)
    ensures
        final(out)@ == old(out)@ + rgb(c),
{
    out.push((c / 0x10000 % 0x100) as u8);
    out.push((c / 0x100 % 0x100) as u8);
    out.push((c % 0x100) as u8);
    assert(final(out)@ =~= old(out)@ + rgb(c));
}

/// The two palette entries of every frame, as red, green, blue bytes: the
/// dead colour at `DEAD_INDEX`, then the alive colour at `ALIVE_INDEX`.
pub fn frame_palette() -> (r: Vec<u8>)
    ensures
        r@ == rgb(DEAD_COLOR) + rgb(ALIVE_COLOR),
        r@ == seq![0xFFu8, 0xC0u8, 0xCBu8, 0x13u8, 0xF1u8, 0xEDu8],
{
    let mut out: Vec<u8> = Vec::with_capacity(6);
    push_rgb(&mut out, DEAD_COLOR);
    push_rgb(&mut out, ALIVE_COLOR);
    assert(out@ == rgb(DEAD_COLOR) + rgb(ALIVE_COLOR));
    assert(out@ =~= seq![0xFFu8, 0xC0u8, 0xCBu8, 0x13u8, 0xF1u8, 0xEDu8]);
    out
}

/// Nearest-neighbour sampling: the entry at column `x` and row `y` of the
/// sampled bitmap is the palette index of cell `(x * scale, y * scale)`,
/// the top-left cell of its block.
pub proof fn lemma_sample_at(g: &Grid, scale: int, x: int, y: int)
    requires
        g.wf(),
        scale > 0,
        0 <= x < g.sampled_width(scale),
        0 <= y < g.sampled_height(scale),
    ensures
        0 <= y * g.sampled_width(scale) + x < g.sampled_width(scale) * g.sampled_height(scale),
        g.sample(y * g.sampled_width(scale) + x, scale) == palette_index(g.alive(x * scale, y * scale)),
{
    let w = g.sampled_width(scale);
    let h = g.sampled_height(scale);
    lemma_index_coords(w, x, y);
    assert(0 <= y * w + x < w * h) by (nonlinear_arith)
        requires
            0 <= x < w,
            0 <= y < h,
    ;
}

} // verus!
