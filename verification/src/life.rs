//! The transition rule: toroidal neighbour counting and the step from one
//! generation to the next.

use vstd::prelude::*;
use vstd::arithmetic::div_mod::lemma_fundamental_div_mod;
use vstd::arithmetic::div_mod::lemma_fundamental_div_mod_converse;
use vstd::arithmetic::div_mod::lemma_mod_bound;
use crate::arith::lemma_index_in_range;
use crate::arith::lemma_index_split;
use crate::framebuffer::Framebuffer;
use crate::framebuffer::Grid;

verus! {

/// Colour of a dead cell.
pub const COLOR_FONDO: u32 = 0x000000;

/// Colour given to every cell that is born.
pub const COLOR_CUADRO: u32 = 0xFFFFFF;

/// The coordinate `a` folded onto `[0, n)`, so that `-1` lands on `n - 1`
/// and `n` lands on `0`.
pub open spec fn wrap(a: int, n: int) -> int {
    a % n
}

/// What a cell holding `cell` becomes when `n` of its neighbours are alive:
/// a live cell keeps its colour with two or three live neighbours and dies
/// otherwise; a dead cell is born with exactly three.
pub open spec fn next_cell(cell: u32, n: int) -> u32 {
    if cell != 0 {
        if n == 2 || n == 3 {
            cell
        } else {
            0
        }
    } else {
        if n == 3 {
            COLOR_CUADRO
        } else {
            0
        }
    }
}

impl Grid {
    /// `1` if the cell one step `(dx, dy)` away from `(x, y)` on the torus
    /// is alive, else `0`.
    pub open spec fn neighbor(self, x: int, y: int, dx: int, dy: int) -> int {
        if self.alive(wrap(x + dx, self.width as int), wrap(y + dy, self.height as int)) {
            1
        } else {
            0
        }
    }

    /// The number of live cells among the eight cells around `(x, y)`.
    pub open spec fn neighbors(self, x: int, y: int) -> int {
        self.neighbor(x, y, -1, -1) + self.neighbor(x, y, -1, 0) + self.neighbor(x, y, -1, 1)
            + self.neighbor(x, y, 0, -1) + self.neighbor(x, y, 0, 1) + self.neighbor(x, y, 1, -1)
            + self.neighbor(x, y, 1, 0) + self.neighbor(x, y, 1, 1)
    }

    /// The following generation: every cell is replaced by what the rule
    /// makes of it and of its neighbours in this grid.
    pub open spec fn next(self) -> Grid {
        Grid {
            cells: Seq::new(
                self.cells.len(),
                |i: int|
                    next_cell(
                        self.cells[i],
                        self.neighbors(i % (self.width as int), i / (self.width as int)),
                    ),
            ),
            ..self
        }
    }
}

/// The coordinate one step `d` away from `c` on a ring of `n` cells.
pub fn wrap_offset(c: usize, d: i8, n: usize) -> (r: usize)
    requires
        n > 0,
        -1 <= d <= 1,
    ensures
        r == wrap(c + d, n as int),
        r < n,
{
    let m: usize = c % n;
    proof {
        lemma_fundamental_div_mod(c as int, n as int);
        lemma_mod_bound(c as int, n as int);
    }
    let ghost q: int = c as int / n as int;
    if d == 0 {
        m
    } else if d > 0 {
        if m == n - 1 {
            proof {
                assert(n * (q + 1) == n * q + n) by (nonlinear_arith);
                lemma_fundamental_div_mod_converse(c + 1, n as int, q + 1, 0);
            }
            0
        } else {
            proof {
                lemma_fundamental_div_mod_converse(c + 1, n as int, q, m + 1);
            }
            m + 1
        }
    } else {
        if m == 0 {
            proof {
                assert(n * (q - 1) == n * q - n) by (nonlinear_arith);
                lemma_fundamental_div_mod_converse(c - 1, n as int, q - 1, n - 1);
            }
            n - 1
        } else {
            proof {
                lemma_fundamental_div_mod_converse(c - 1, n as int, q, m - 1);
            }
            m - 1
        }
    }
}

/// `1` if the neighbour of `(x, y)` in direction `(dx, dy)` is alive, else `0`.
fn live_neighbor(framebuffer: &Framebuffer, x: usize, y: usize, dx: i8, dy: i8) -> (n: u8)
    requires
        framebuffer.wf(),
        framebuffer.width > 0,
        framebuffer.height > 0,
        -1 <= dx <= 1,
        -1 <= dy <= 1,
    ensures
        n == framebuffer@.neighbor(x as int, y as int, dx as int, dy as int),
        n <= 1,
{
    let nx: usize = wrap_offset(x, dx, framebuffer.width);
    let ny: usize = wrap_offset(y, dy, framebuffer.height);
    if framebuffer.is_point_set(nx, ny) {
        1
    } else {
        0
    }
}

/// Counts the live cells among the eight neighbours of `(x, y)`, where the
/// left edge of the grid touches the right edge and the top touches the
/// bottom.
pub fn count_neighbors(framebuffer: &Framebuffer, x: usize, y: usize) -> (count: u8)
    requires
        framebuffer.wf(),
        framebuffer.width > 0,
        framebuffer.height > 0,
    ensures
        count == framebuffer@.neighbors(x as int, y as int),
        count <= 8,
{
    let mut count: u8 = 0;
    count += live_neighbor(framebuffer, x, y, -1, -1);
    count += live_neighbor(framebuffer, x, y, -1, 0);
    count += live_neighbor(framebuffer, x, y, -1, 1);
    count += live_neighbor(framebuffer, x, y, 0, -1);
    count += live_neighbor(framebuffer, x, y, 0, 1);
    count += live_neighbor(framebuffer, x, y, 1, -1);
    count += live_neighbor(framebuffer, x, y, 1, 0);
    count += live_neighbor(framebuffer, x, y, 1, 1);
    count
}

/// Computes the next generation into a fresh grid. Every neighbour count is
/// taken from `framebuffer`, which is left as it was.
pub fn update(framebuffer: &Framebuffer) -> (next: Framebuffer)
    requires
        framebuffer.wf(),
    ensures
        next.wf(),
        next@ == framebuffer@.next(),
{
    let width: usize = framebuffer.width;
    let height: usize = framebuffer.height;
    assert(framebuffer.buffer.len() == framebuffer.buffer@.len());
    let mut new_framebuffer = Framebuffer::new(width, height);
    let ghost target = framebuffer@.next();
    let mut y: usize = 0;
    while y < height
        invariant
            framebuffer.wf(),
            width == framebuffer.width,
            height == framebuffer.height,
            target == framebuffer@.next(),
            y <= height,
            new_framebuffer.wf(),
            new_framebuffer.width == width,
            new_framebuffer.height == height,
            forall|i: int| 0 <= i < y * width ==> new_framebuffer.buffer@[i] == target.cells[i],
            forall|i: int| y * width <= i < width * height ==> new_framebuffer.buffer@[i] == 0u32,
        decreases height - y,
    {
        let mut x: usize = 0;
        while x < width
            invariant
                framebuffer.wf(),
                width == framebuffer.width,
                height == framebuffer.height,
                target == framebuffer@.next(),
                y < height,
                x <= width,
                new_framebuffer.wf(),
                new_framebuffer.width == width,
                new_framebuffer.height == height,
                forall|i: int|
                    0 <= i < y * width + x ==> new_framebuffer.buffer@[i] == target.cells[i],
                forall|i: int|
                    y * width + x <= i < width * height ==> new_framebuffer.buffer@[i] == 0u32,
            decreases width - x,
        {
            proof {
                framebuffer.lemma_index(x, y);
                lemma_index_split(x as int, y as int, width as int);
            }
            let ghost before = new_framebuffer.buffer@;
            let neighbors: u8 = count_neighbors(framebuffer, x, y);
            if framebuffer.is_point_set(x, y) {
                if neighbors == 2 || neighbors == 3 {
                    new_framebuffer.point(x, y, framebuffer.buffer[y * width + x]);
                }
            } else {
                if neighbors == 3 {
                    new_framebuffer.point(x, y, COLOR_CUADRO);
                }
            }
            assert(new_framebuffer.buffer@[y * width + x] == target.cells[y * width + x]);
            assert(forall|i: int|
                0 <= i < width * height && i != y * width + x
                    ==> new_framebuffer.buffer@[i] == before[i]);
            x += 1;
        }
        assert((y + 1) * width == y * width + width) by (nonlinear_arith);
        y += 1;
    }
    assert(height * width == width * height) by (nonlinear_arith);
    assert(new_framebuffer.buffer@ =~= target.cells);
    new_framebuffer
}

/// Each cell of the next generation is what the rule makes of the same cell
/// and its neighbour count in this generation; the dimensions stay.
pub proof fn lemma_next_cell(g: Grid, x: int, y: int)
    requires
        g.wf(),
        g.in_bounds(x, y),
    ensures
        g.next().wf(),
        g.next().width == g.width,
        g.next().height == g.height,
        g.next().cell(x, y) == next_cell(g.cell(x, y), g.neighbors(x, y)),
{
    lemma_index_in_range(x, y, g.width as int, g.height as int);
    lemma_index_split(x, y, g.width as int);
}

/// Birth: a dead cell with exactly three live neighbours is alive in the
/// next generation and has the birth colour; with any other count it stays
/// dead.
pub proof fn law_birth(g: Grid, x: int, y: int)
    requires
        g.wf(),
        g.in_bounds(x, y),
        !g.alive(x, y),
    ensures
        g.neighbors(x, y) == 3 ==> g.next().cell(x, y) == COLOR_CUADRO && g.next().alive(x, y),
        g.neighbors(x, y) != 3 ==> !g.next().alive(x, y),
{
    lemma_next_cell(g, x, y);
}

/// Survival: a live cell with two or three live neighbours keeps its colour
/// in the next generation; with any other count it dies.
pub proof fn law_survival(g: Grid, x: int, y: int)
    requires
        g.wf(),
        g.in_bounds(x, y),
        g.alive(x, y),
    ensures
        g.neighbors(x, y) == 2 || g.neighbors(x, y) == 3 ==> g.next().cell(x, y) == g.cell(x, y),
        !(g.neighbors(x, y) == 2 || g.neighbors(x, y) == 3) ==> !g.next().alive(x, y),
{
    lemma_next_cell(g, x, y);
}

/// A live cell is counted by the cell it neighbours: whoever is one step
/// `(dx, dy)` away from a live cell `(x, y)` finds it one step back, across
/// the edges too, and so counts at least one live neighbour.
pub proof fn law_neighbor_symmetric(g: Grid, x: int, y: int, dx: int, dy: int)
    requires
        g.wf(),
        g.in_bounds(x, y),
        g.alive(x, y),
        -1 <= dx <= 1,
        -1 <= dy <= 1,
        dx != 0 || dy != 0,
    ensures
        g.in_bounds(wrap(x + dx, g.width as int), wrap(y + dy, g.height as int)),
        g.neighbor(wrap(x + dx, g.width as int), wrap(y + dy, g.height as int), -dx, -dy) == 1,
        g.neighbors(wrap(x + dx, g.width as int), wrap(y + dy, g.height as int)) >= 1,
{
    lemma_wrap_back(x, dx, g.width as int);
    lemma_wrap_back(y, dy, g.height as int);
}

/// Stepping `d` along a ring of `n` cells and then `-d` returns to the start.
pub proof fn lemma_wrap_back(c: int, d: int, n: int)
    requires
        0 <= c < n,
    ensures
        0 <= wrap(c + d, n) < n,
        wrap(wrap(c + d, n) - d, n) == c,
{
    lemma_mod_bound(c + d, n);
    lemma_fundamental_div_mod(c + d, n);
    let q = (c + d) / n;
    let m = (c + d) % n;
    assert(n * (-q) == -(n * q)) by (nonlinear_arith);
    lemma_fundamental_div_mod_converse(m - d, n, -q, c);
}

/// One step along a ring of `n` cells from a cell of the ring: the
/// coordinate moves by `d` and re-enters at the far end when it leaves.
pub proof fn lemma_wrap_step(c: int, d: int, n: int)
    requires
        0 <= c < n,
        -1 <= d <= 1,
    ensures
        wrap(c + d, n) == if c + d < 0 {
            c + d + n
        } else if c + d >= n {
            c + d - n
        } else {
            c + d
        },
{
    if c + d < 0 {
        assert(n * (-1) == -n) by (nonlinear_arith);
        lemma_fundamental_div_mod_converse(c + d, n, -1, c + d + n);
    } else if c + d >= n {
        assert(n * 1 == n) by (nonlinear_arith);
        lemma_fundamental_div_mod_converse(c + d, n, 1, c + d - n);
    } else {
        assert(n * 0 == 0) by (nonlinear_arith);
        lemma_fundamental_div_mod_converse(c + d, n, 0, c + d);
    }
}

/// Wraparound at the corners: a live cell at `(0, 0)` is a neighbour of the
/// last cell of the first row, of the last cell of the first column, and of
/// the cell in the opposite corner.
pub proof fn law_corner_wraparound(g: Grid)
    requires
        g.wf(),
        g.width > 0,
        g.height > 0,
        g.alive(0, 0),
    ensures
        g.neighbor(g.width - 1, g.height - 1, 1, 1) == 1,
        g.neighbor(g.width - 1, 0, 1, 0) == 1,
        g.neighbor(0, g.height - 1, 0, 1) == 1,
        g.neighbors(g.width - 1, g.height - 1) >= 1,
        g.neighbors(g.width - 1, 0) >= 1,
        g.neighbors(0, g.height - 1) >= 1,
{
    let w = g.width as int;
    let h = g.height as int;
    assert(w % w == 0 && h % h == 0) by (nonlinear_arith)
        requires
            w > 0,
            h > 0,
    ;
    assert(0int % w == 0 && 0int % h == 0) by (nonlinear_arith)
        requires
            w > 0,
            h > 0,
    ;
}

} // verus!
