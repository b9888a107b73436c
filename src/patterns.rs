//! Two known patterns on the torus, the block (a still life) and the blinker
//! (period two). Both are grids whose alive cells are a set of columns
//! crossed with a set of rows, where a neighbour count is a product of two
//! one-dimensional counts.

use vstd::prelude::*;
use vstd::arithmetic::div_mod::lemma_fundamental_div_mod_converse;
use crate::grid::{Grid, wrap};
use crate::life::{lemma_coords_of_index, lemma_index_coords};
use crate::laws::lemma_step_deterministic;

verus! {

pub open spec fn indicator(b: bool) -> int {
    if b {
        1
    } else {
        0
    }
}

/// How many of the coordinates `c - 1`, `c`, `c + 1`, wrapped modulo `n`,
/// satisfy `p`.
pub open spec fn window_count(p: spec_fn(int) -> bool, c: int, n: int) -> int {
    indicator(p(wrap(c - 1, n))) + indicator(p(wrap(c, n))) + indicator(p(wrap(c + 1, n)))
}

/// `c` is `start` or the coordinate after it, modulo `n`.
pub open spec fn in_pair(c: int, start: int, n: int) -> bool {
    c == start || c == wrap(start + 1, n)
}

/// The grid's alive cells are exactly the `(x, y)` with `px(x)` and `py(y)`.
pub open spec fn is_product(g: &Grid, px: spec_fn(int) -> bool, py: spec_fn(int) -> bool) -> bool {
    forall|x: int, y: int|
        0 <= x < g.width && 0 <= y < g.height ==> #[trigger] g.alive(x, y) == (px(x) && py(y))
}

/// `c - 1`, `c` and `c + 1` modulo `n`, for `c` in `0..n`.
proof fn lemma_wrap_neighbors(c: int, n: int)
    requires
        0 <= c < n,
    ensures
        wrap(c, n) == c,
        wrap(c - 1, n) == if c == 0 { n - 1 } else { c - 1 },
        wrap(c + 1, n) == if c + 1 == n { 0 } else { c + 1 },
{
    lemma_fundamental_div_mod_converse(c, n, 0, c);
    if c == 0 {
        lemma_fundamental_div_mod_converse(c - 1, n, -1, n - 1);
    } else {
        lemma_fundamental_div_mod_converse(c - 1, n, 0, c - 1);
    }
    if c + 1 == n {
        lemma_fundamental_div_mod_converse(c + 1, n, 1, 0);
    } else {
        lemma_fundamental_div_mod_converse(c + 1, n, 0, c + 1);
    }
}

/// On a product grid the neighbour count is the product of the two window
/// counts, less the cell itself.
pub proof fn lemma_product_neighbors(
    g: &Grid,
    px: spec_fn(int) -> bool,
    py: spec_fn(int) -> bool,
    x: int,
    y: int,
)
    requires
        g.wf(),
        is_product(g, px, py),
        0 <= x < g.width,
        0 <= y < g.height,
    ensures
        g.live_neighbors(x, y) == window_count(px, x, g.width as int) * window_count(py, y, g.height as int)
            - indicator(g.alive(x, y)),
{
    let w = g.width as int;
    let h = g.height as int;
    lemma_wrap_neighbors(x, w);
    lemma_wrap_neighbors(y, h);
    let a0 = indicator(px(wrap(x - 1, w)));
    let a1 = indicator(px(wrap(x, w)));
    let a2 = indicator(px(wrap(x + 1, w)));
    let b0 = indicator(py(wrap(y - 1, h)));
    let b1 = indicator(py(wrap(y, h)));
    let b2 = indicator(py(wrap(y + 1, h)));
    assert(g.alive_at_offset(x, y, -1, -1) == a0 * b0);
    assert(g.alive_at_offset(x, y, 0, -1) == a1 * b0);
    assert(g.alive_at_offset(x, y, 1, -1) == a2 * b0);
    assert(g.alive_at_offset(x, y, -1, 0) == a0 * b1);
    assert(g.alive_at_offset(x, y, 1, 0) == a2 * b1);
    assert(g.alive_at_offset(x, y, -1, 1) == a0 * b2);
    assert(g.alive_at_offset(x, y, 0, 1) == a1 * b2);
    assert(g.alive_at_offset(x, y, 1, 1) == a2 * b2);
    assert(indicator(g.alive(x, y)) == a1 * b1);
    assert((a0 + a1 + a2) * (b0 + b1 + b2) - a1 * b1 == a0 * b0 + a1 * b0 + a2 * b0 + a0 * b1
        + a2 * b1 + a0 * b2 + a1 * b2 + a2 * b2) by (nonlinear_arith);
}

/// On a line of at least four, the window around a coordinate of a pair
/// holds both of the pair; around any other coordinate, at most one.
pub proof fn lemma_pair_window(start: int, c: int, n: int)
    requires
        n >= 4,
        0 <= start < n,
        0 <= c < n,
    ensures
        in_pair(c, start, n) ==> window_count(|i: int| in_pair(i, start, n), c, n) == 2,
        !in_pair(c, start, n) ==> window_count(|i: int| in_pair(i, start, n), c, n) <= 1,
{
    lemma_wrap_neighbors(c, n);
    lemma_wrap_neighbors(start, n);
}

/// The next generation of `a` is the cells of `b` when, cell by cell, the
/// next state in `a` is the state in `b`.
proof fn lemma_next_is(a: &Grid, b: &Grid)
    requires
        a.wf(),
        b.wf(),
        b.width == a.width,
        b.height == a.height,
        forall|x: int, y: int|
            0 <= x < a.width && 0 <= y < a.height ==> #[trigger] a.next_alive_at(x, y) == b.alive(x, y),
    ensures
        a.next_cells() == b.cells@,
{
    assert forall|i: int| 0 <= i < b.cells@.len() implies #[trigger] a.next_cells()[i] == b.cells@[i] by {
        lemma_coords_of_index(a.width as int, a.height as int, i);
        let x = i % a.width as int;
        let y = i / a.width as int;
        assert(a.next_alive_at(x, y) == b.alive(x, y));
        assert(b.index_of(x, y) == i);
    }
    assert(a.next_cells() =~= b.cells@);
}

/// A grid whose cells are the next generation of `g` is alive exactly where
/// `g`'s next generation is.
proof fn lemma_alive_in_next(g: &Grid, h: &Grid, x: int, y: int)
    requires
        g.wf(),
        h.width == g.width,
        h.height == g.height,
        h.cells@ == g.next_cells(),
        0 <= x < g.width,
        0 <= y < g.height,
    ensures
        h.alive(x, y) == g.next_alive_at(x, y),
{
    lemma_index_coords(g.width as int, x, y);
    crate::grid::lemma_index_in_range(g, x, y);
}

/// A block, two by two alive cells (wrapping around the edges) with every
/// other cell dead, on a grid of at least four by four, is a still life: its
/// next generation is the grid itself.
pub proof fn lemma_block_is_stable(g: &Grid, bx: int, by: int)
    requires
        g.wf(),
        g.width >= 4,
        g.height >= 4,
        0 <= bx < g.width,
        0 <= by < g.height,
        forall|x: int, y: int|
            0 <= x < g.width && 0 <= y < g.height ==> #[trigger] g.alive(x, y) == (in_pair(
                x,
                bx,
                g.width as int,
            ) && in_pair(y, by, g.height as int)),
    ensures
        g.next_cells() == g.cells@,
{
    let w = g.width as int;
    let h = g.height as int;
    let px = |i: int| in_pair(i, bx, w);
    let py = |i: int| in_pair(i, by, h);
    assert(is_product(g, px, py));
    assert forall|x: int, y: int|
        0 <= x < g.width && 0 <= y < g.height implies #[trigger] g.next_alive_at(x, y) == g.alive(x, y) by {
        lemma_product_neighbors(g, px, py, x, y);
        lemma_pair_window(bx, x, w);
        lemma_pair_window(by, y, h);
        let cx = window_count(px, x, w);
        let cy = window_count(py, y, h);
        if g.alive(x, y) {
            assert(cx * cy == 4);
        } else {
            assert(cx * cy <= 2) by (nonlinear_arith)
                requires
                    0 <= cx <= 2,
                    0 <= cy <= 2,
                    cx <= 1 || cy <= 1,
            ;
        }
    }
    lemma_next_is(g, g);
}

/// Two generations of a block are the block again.
pub proof fn lemma_block_stable_twice(g: &Grid, h: &Grid, bx: int, by: int)
    requires
        g.wf(),
        g.width >= 4,
        g.height >= 4,
        0 <= bx < g.width,
        0 <= by < g.height,
        forall|x: int, y: int|
            0 <= x < g.width && 0 <= y < g.height ==> #[trigger] g.alive(x, y) == (in_pair(
                x,
                bx,
                g.width as int,
            ) && in_pair(y, by, g.height as int)),
        h.width == g.width,
        h.height == g.height,
        h.cells@ == g.next_cells(),
    ensures
        h.next_cells() == g.cells@,
{
    lemma_block_is_stable(g, bx, by);
    lemma_step_deterministic(g, h);
}

/// `c` is `mid` or one of the two coordinates beside it, modulo `n`.
pub open spec fn in_triple(c: int, mid: int, n: int) -> bool {
    c == wrap(mid - 1, n) || c == mid || c == wrap(mid + 1, n)
}

/// On a line of at least five, the window around `c` holds all three of a
/// triple exactly when `c` is its middle, two when `c` is one of its ends.
pub proof fn lemma_triple_window(mid: int, c: int, n: int)
    requires
        n >= 5,
        0 <= mid < n,
        0 <= c < n,
    ensures
        0 <= window_count(|i: int| in_triple(i, mid, n), c, n) <= 3,
        (window_count(|i: int| in_triple(i, mid, n), c, n) == 3) == (c == mid),
        in_triple(c, mid, n) && c != mid ==> window_count(|i: int| in_triple(i, mid, n), c, n) == 2,
{
    lemma_wrap_neighbors(c, n);
    lemma_wrap_neighbors(mid, n);
}

/// On a line of at least three, the window around `c` holds the single
/// coordinate `s` exactly when `c` is `s` or beside it.
pub proof fn lemma_single_window(s: int, c: int, n: int)
    requires
        n >= 3,
        0 <= s < n,
        0 <= c < n,
    ensures
        window_count(|i: int| i == s, c, n) == indicator(in_triple(c, s, n)),
{
    lemma_wrap_neighbors(c, n);
    lemma_wrap_neighbors(s, n);
}

/// A horizontal line of three, on a grid of at least five by five, turns
/// into the vertical line of three through its middle.
pub proof fn lemma_horizontal_line_turns(g: &Grid, bx: int, by: int)
    requires
        g.wf(),
        g.width >= 5,
        g.height >= 5,
        0 <= bx < g.width,
        0 <= by < g.height,
        is_product(g, |i: int| in_triple(i, bx, g.width as int), |j: int| j == by),
    ensures
        forall|x: int, y: int|
            0 <= x < g.width && 0 <= y < g.height ==> #[trigger] g.next_alive_at(x, y) == (x == bx
                && in_triple(y, by, g.height as int)),
{
    let w = g.width as int;
    let h = g.height as int;
    let px = |i: int| in_triple(i, bx, w);
    let py = |j: int| j == by;
    assert forall|x: int, y: int| 0 <= x < g.width && 0 <= y < g.height implies #[trigger] g.next_alive_at(
        x,
        y,
    ) == (x == bx && in_triple(y, by, h)) by {
        lemma_product_neighbors(g, px, py, x, y);
        lemma_triple_window(bx, x, w);
        lemma_single_window(by, y, h);
        lemma_wrap_neighbors(bx, w);
    }
}

/// A vertical line of three, on a grid of at least five by five, turns into
/// the horizontal line of three through its middle.
pub proof fn lemma_vertical_line_turns(g: &Grid, bx: int, by: int)
    requires
        g.wf(),
        g.width >= 5,
        g.height >= 5,
        0 <= bx < g.width,
        0 <= by < g.height,
        is_product(g, |i: int| i == bx, |j: int| in_triple(j, by, g.height as int)),
    ensures
        forall|x: int, y: int|
            0 <= x < g.width && 0 <= y < g.height ==> #[trigger] g.next_alive_at(x, y) == (in_triple(
                x,
                bx,
                g.width as int,
            ) && y == by),
{
    let w = g.width as int;
    let h = g.height as int;
    let px = |i: int| i == bx;
    let py = |j: int| in_triple(j, by, h);
    assert forall|x: int, y: int| 0 <= x < g.width && 0 <= y < g.height implies #[trigger] g.next_alive_at(
        x,
        y,
    ) == (in_triple(x, bx, w) && y == by) by {
        lemma_product_neighbors(g, px, py, x, y);
        lemma_single_window(bx, x, w);
        lemma_triple_window(by, y, h);
        lemma_wrap_neighbors(by, h);
    }
}

/// A blinker, a line of three alive cells (wrapping around the edges) with
/// every other cell dead, on a grid of at least five by five, has period
/// two: its next generation differs from it, and the generation after that
/// is the grid again.
pub proof fn lemma_blinker_period_two(g: &Grid, h: &Grid, bx: int, by: int)
    requires
        g.wf(),
        g.width >= 5,
        g.height >= 5,
        0 <= bx < g.width,
        0 <= by < g.height,
        forall|x: int, y: int|
            0 <= x < g.width && 0 <= y < g.height ==> #[trigger] g.alive(x, y) == (in_triple(
                x,
                bx,
                g.width as int,
            ) && y == by),
        h.wf(),
        h.width == g.width,
        h.height == g.height,
        h.cells@ == g.next_cells(),
    ensures
        g.next_cells() != g.cells@,
        h.next_cells() == g.cells@,
{
    let w = g.width as int;
    let hh = g.height as int;
    assert(is_product(g, |i: int| in_triple(i, bx, w), |j: int| j == by));
    lemma_horizontal_line_turns(g, bx, by);
    assert forall|x: int, y: int| 0 <= x < h.width && 0 <= y < h.height implies #[trigger] h.alive(x, y)
        == ((|i: int| i == bx)(x) && (|j: int| in_triple(j, by, hh))(y)) by {
        lemma_alive_in_next(g, h, x, y);
    }
    assert(is_product(h, |i: int| i == bx, |j: int| in_triple(j, by, hh)));
    lemma_vertical_line_turns(h, bx, by);
    lemma_next_is(h, g);

    lemma_wrap_neighbors(bx, w);
    let x1 = wrap(bx + 1, w);
    assert(g.alive(x1, by));
    assert(!g.next_alive_at(x1, by));
    lemma_index_coords(w, x1, by);
    crate::grid::lemma_index_in_range(g, x1, by);
    assert(g.next_cells()[g.index_of(x1, by)] != g.cells@[g.index_of(x1, by)]);
}

} // verus!
