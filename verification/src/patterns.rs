//! Seeding: well-known shapes stamped onto a grid, and the repeating tile
//! that fills a whole grid with them.

use vstd::prelude::*;
use crate::arith::lemma_index_cell;
use crate::arith::lemma_index_in_range;
use crate::arith::lemma_index_split;
use crate::framebuffer::Framebuffer;
use crate::framebuffer::Grid;
use crate::shapes::block;
use crate::shapes::block_cells;
use crate::shapes::beehive;
use crate::shapes::beehive_cells;
use crate::shapes::loaf;
use crate::shapes::loaf_cells;
use crate::shapes::boat;
use crate::shapes::boat_cells;
use crate::shapes::tub;
use crate::shapes::tub_cells;
use crate::shapes::blinker;
use crate::shapes::blinker_cells;
use crate::shapes::toad;
use crate::shapes::toad_cells;
use crate::shapes::beacon;
use crate::shapes::beacon_cells;
use crate::shapes::pulsar;
use crate::shapes::pulsar_cells;
use crate::shapes::pentadecathlon;
use crate::shapes::pentadecathlon_cells;
use crate::shapes::glider;
use crate::shapes::glider_cells;
use crate::shapes::lwss;
use crate::shapes::lwss_cells;
use crate::shapes::mwss;
use crate::shapes::mwss_cells;
use crate::shapes::hwss;
use crate::shapes::hwss_cells;
use crate::shapes::fits;

verus! {

/// Colour of the shapes that never change.
pub const COLOR_STILL_LIFE: u32 = 0x00FF00;

/// Colour of the shapes that repeat in place.
pub const COLOR_OSCILLATOR: u32 = 0xFFFF00;

/// Colour of the shapes that travel.
pub const COLOR_SPACESHIP: u32 = 0xFF00FF;

/// Side of the square tile that seeding repeats across the grid.
pub const TILE: usize = 30;

/// The offset `cell`, moved by the anchor `(ox, oy)`, lands on `(x, y)`.
pub open spec fn lands_on(cell: (usize, usize), ox: int, oy: int, x: int, y: int) -> bool {
    cell.0 + ox == x && cell.1 + oy == y
}

/// Some offset of `pattern`, anchored at `(ox, oy)`, lands on `(x, y)`.
pub open spec fn covers(pattern: Seq<(usize, usize)>, ox: int, oy: int, x: int, y: int) -> bool {
    exists|k: int| 0 <= k < pattern.len() && lands_on(#[trigger] pattern[k], ox, oy, x, y)
}

impl Grid {
    /// The grid after `pattern` is stamped at the anchor `(ox, oy)`: every
    /// cell that the pattern covers holds `color`, every other cell is as
    /// before. Offsets that fall outside the grid are clipped.
    pub open spec fn stamped(self, pattern: Seq<(usize, usize)>, ox: int, oy: int, color: u32) -> Grid {
        Grid {
            cells: Seq::new(
                self.cells.len(),
                |i: int|
                    if covers(pattern, ox, oy, i % (self.width as int), i / (self.width as int)) {
                        color
                    } else {
                        self.cells[i]
                    },
            ),
            ..self
        }
    }
}

/// Cell by cell, a stamp writes its colour where the pattern lands and
/// leaves the rest alone.
pub proof fn lemma_stamped_cell(
    g: Grid,
    pattern: Seq<(usize, usize)>,
    ox: int,
    oy: int,
    color: u32,
    x: int,
    y: int,
)
    requires
        g.wf(),
        g.in_bounds(x, y),
    ensures
        g.stamped(pattern, ox, oy, color).wf(),
        g.stamped(pattern, ox, oy, color).cell(x, y) == if covers(pattern, ox, oy, x, y) {
            color
        } else {
            g.cell(x, y)
        },
{
    lemma_index_in_range(x, y, g.width as int, g.height as int);
    lemma_index_split(x, y, g.width as int);
}

/// Stamping nothing changes nothing.
proof fn lemma_stamped_empty(g: Grid, ox: int, oy: int, color: u32)
    ensures
        g.stamped(Seq::empty(), ox, oy, color) == g,
{
    assert(g.stamped(Seq::empty(), ox, oy, color).cells =~= g.cells);
}

/// Stamping the first `k + 1` offsets is stamping the first `k` and then
/// writing the one that follows.
proof fn lemma_stamped_step(
    g: Grid,
    pattern: Seq<(usize, usize)>,
    k: int,
    ox: int,
    oy: int,
    color: u32,
)
    requires
        g.wf(),
        0 <= k < pattern.len(),
    ensures
        g.stamped(pattern.take(k + 1), ox, oy, color) == g.stamped(pattern.take(k), ox, oy, color).set(
            pattern[k].0 + ox,
            pattern[k].1 + oy,
            color,
        ),
{
    let w = g.width as int;
    let h = g.height as int;
    let px = pattern[k].0 + ox;
    let py = pattern[k].1 + oy;
    let before = g.stamped(pattern.take(k), ox, oy, color);
    let after = g.stamped(pattern.take(k + 1), ox, oy, color);
    let written = before.set(px, py, color);
    if before.in_bounds(px, py) {
        lemma_index_in_range(px, py, w, h);
        lemma_index_split(px, py, w);
    }
    assert forall|i: int| 0 <= i < g.cells.len() implies after.cells[i] == written.cells[i] by {
        lemma_index_cell(i, w, h);
        let x = i % w;
        let y = i / w;
        if covers(pattern.take(k + 1), ox, oy, x, y) {
            let j = choose|j: int|
                0 <= j < pattern.take(k + 1).len() && lands_on(
                    #[trigger] pattern.take(k + 1)[j],
                    ox,
                    oy,
                    x,
                    y,
                );
            if j < k {
                assert(lands_on(pattern.take(k)[j], ox, oy, x, y));
            }
        }
        if covers(pattern.take(k), ox, oy, x, y) {
            let j = choose|j: int|
                0 <= j < pattern.take(k).len() && lands_on(
                    #[trigger] pattern.take(k)[j],
                    ox,
                    oy,
                    x,
                    y,
                );
            assert(lands_on(pattern.take(k + 1)[j], ox, oy, x, y));
        }
        if x == px && y == py {
            assert(lands_on(pattern.take(k + 1)[k], ox, oy, x, y));
        }
    }
    assert(after.cells =~= written.cells);
}

/// Stamps `pattern` onto the grid with its anchor at `(x_offset, y_offset)`,
/// writing `color` at every offset that lands inside the grid.
pub fn add_pattern(
    framebuffer: &mut Framebuffer,
    pattern: &[(usize, usize)],
    x_offset: usize,
    y_offset: usize,
    color: u32,
)
    requires
        old(framebuffer).wf(),
    ensures
        final(framebuffer).wf(),
        final(framebuffer)@ == old(framebuffer)@.stamped(
            pattern@,
            x_offset as int,
            y_offset as int,
            color,
        ),
{
    let ghost start = framebuffer@;
    proof {
        lemma_stamped_empty(start, x_offset as int, y_offset as int, color);
        assert(pattern@.take(0) =~= Seq::empty());
    }
    let mut k: usize = 0;
    while k < pattern.len()
        invariant
            k <= pattern.len(),
            start.wf(),
            framebuffer.wf(),
            framebuffer@ == start.stamped(pattern@.take(k as int), x_offset as int, y_offset as int, color),
        decreases pattern.len() - k,
    {
        let (x, y) = pattern[k];
        proof {
            lemma_stamped_step(start, pattern@, k as int, x_offset as int, y_offset as int, color);
        }
        match x.checked_add(x_offset) {
            Some(px) => match y.checked_add(y_offset) {
                Some(py) => framebuffer.point(px, py, color),
                None => {},
            },
            None => {},
        }
        k += 1;
    }
    assert(pattern@.take(k as int) =~= pattern@);
}

/// The tile that seeding repeats: four still lifes in the first row, four
/// oscillators and spaceships in the rows below, each at its own place in a
/// square of side [`TILE`]. Where two shapes meet, the later one shows.
pub open spec fn seed_tile() -> Grid {
    Grid::dead(TILE as nat, TILE as nat)
        .stamped(block_cells(), 0, 0, COLOR_STILL_LIFE)
        .stamped(beehive_cells(), 7, 0, COLOR_STILL_LIFE)
        .stamped(loaf_cells(), 14, 0, COLOR_STILL_LIFE)
        .stamped(boat_cells(), 21, 0, COLOR_STILL_LIFE)
        .stamped(tub_cells(), 0, 7, COLOR_STILL_LIFE)
        .stamped(blinker_cells(), 7, 7, COLOR_OSCILLATOR)
        .stamped(toad_cells(), 14, 7, COLOR_OSCILLATOR)
        .stamped(beacon_cells(), 21, 7, COLOR_OSCILLATOR)
        .stamped(pulsar_cells(), 0, 14, COLOR_OSCILLATOR)
        .stamped(pentadecathlon_cells(), 7, 14, COLOR_OSCILLATOR)
        .stamped(glider_cells(), 14, 14, COLOR_SPACESHIP)
        .stamped(lwss_cells(), 21, 14, COLOR_SPACESHIP)
        .stamped(mwss_cells(), 0, 21, COLOR_SPACESHIP)
        .stamped(hwss_cells(), 7, 21, COLOR_SPACESHIP)
}

/// What seeding leaves at `(x, y)` of a grid that was `g` before: the
/// colour that the tile has there, or the old value where the tile is empty.
pub open spec fn seeded_cell(g: Grid, x: int, y: int) -> u32 {
    let c = seed_tile().cell(x % (TILE as int), y % (TILE as int));
    if c != 0 {
        c
    } else {
        g.cell(x, y)
    }
}

/// What one copy of the tile `t`, laid with its corner at `(i, j)`, leaves
/// at `(x, y)` of a grid that was `g` before.
pub open spec fn tiled_cell(g: Grid, t: Grid, i: int, j: int, x: int, y: int) -> u32 {
    if i <= x < i + TILE && j <= y < j + TILE && t.cell(x - i, y - j) != 0 {
        t.cell(x - i, y - j)
    } else {
        g.cell(x, y)
    }
}

impl Grid {
    /// The grid after every shape of the tile is stamped with the tile's
    /// corner at `(i, j)`.
    pub open spec fn tile_stamped(self, i: int, j: int) -> Grid {
        self
            .stamped(block_cells(), i, j, COLOR_STILL_LIFE)
            .stamped(beehive_cells(), i + 7, j, COLOR_STILL_LIFE)
            .stamped(loaf_cells(), i + 14, j, COLOR_STILL_LIFE)
            .stamped(boat_cells(), i + 21, j, COLOR_STILL_LIFE)
            .stamped(tub_cells(), i, j + 7, COLOR_STILL_LIFE)
            .stamped(blinker_cells(), i + 7, j + 7, COLOR_OSCILLATOR)
            .stamped(toad_cells(), i + 14, j + 7, COLOR_OSCILLATOR)
            .stamped(beacon_cells(), i + 21, j + 7, COLOR_OSCILLATOR)
            .stamped(pulsar_cells(), i, j + 14, COLOR_OSCILLATOR)
            .stamped(pentadecathlon_cells(), i + 7, j + 14, COLOR_OSCILLATOR)
            .stamped(glider_cells(), i + 14, j + 14, COLOR_SPACESHIP)
            .stamped(lwss_cells(), i + 21, j + 14, COLOR_SPACESHIP)
            .stamped(mwss_cells(), i, j + 21, COLOR_SPACESHIP)
            .stamped(hwss_cells(), i + 7, j + 21, COLOR_SPACESHIP)
    }

    /// The grid after seeding: the tile repeated from the origin in both
    /// directions, clipped at the far edges, over whatever was there.
    pub open spec fn seeded(self) -> Grid {
        Grid {
            cells: Seq::new(
                self.cells.len(),
                |k: int|
                    {
                        let c = seed_tile().cell(
                            (k % (self.width as int)) % (TILE as int),
                            (k / (self.width as int)) % (TILE as int),
                        );
                        if c != 0 {
                            c
                        } else {
                            self.cells[k]
                        }
                    },
            ),
            ..self
        }
    }
}

/// Cell by cell, seeding overlays the grid with the tile repeated from the
/// origin.
pub proof fn lemma_seeded_cell(g: Grid, x: int, y: int)
    requires
        g.wf(),
        g.in_bounds(x, y),
    ensures
        g.seeded().wf(),
        g.seeded().cell(x, y) == seeded_cell(g, x, y),
{
    lemma_index_in_range(x, y, g.width as int, g.height as int);
    lemma_index_split(x, y, g.width as int);
}

/// Every shape of the tile lies inside the tile.
pub proof fn lemma_shapes_fit()
    ensures
        fits(block_cells(), 0, 0, TILE as int),
        fits(beehive_cells(), 7, 0, TILE as int),
        fits(loaf_cells(), 14, 0, TILE as int),
        fits(boat_cells(), 21, 0, TILE as int),
        fits(tub_cells(), 0, 7, TILE as int),
        fits(blinker_cells(), 7, 7, TILE as int),
        fits(toad_cells(), 14, 7, TILE as int),
        fits(beacon_cells(), 21, 7, TILE as int),
        fits(pulsar_cells(), 0, 14, TILE as int),
        fits(pentadecathlon_cells(), 7, 14, TILE as int),
        fits(glider_cells(), 14, 14, TILE as int),
        fits(lwss_cells(), 21, 14, TILE as int),
        fits(mwss_cells(), 0, 21, TILE as int),
        fits(hwss_cells(), 7, 21, TILE as int),
{
}

/// Stamping one shape on a grid and on the tile keeps the grid equal, at
/// `(x, y)`, to the first grid overlaid with the tile.
proof fn lemma_layer(
    g0: Grid,
    g: Grid,
    t: Grid,
    pattern: Seq<(usize, usize)>,
    a: int,
    b: int,
    color: u32,
    i: int,
    j: int,
    x: int,
    y: int,
)
    requires
        g.wf(),
        t.wf(),
        t.width == TILE,
        t.height == TILE,
        g.in_bounds(x, y),
        fits(pattern, a, b, TILE as int),
        0 <= a,
        0 <= b,
        color != 0,
        g.cell(x, y) == tiled_cell(g0, t, i, j, x, y),
    ensures
        g.stamped(pattern, i + a, j + b, color).wf(),
        t.stamped(pattern, a, b, color).wf(),
        g.stamped(pattern, i + a, j + b, color).cell(x, y) == tiled_cell(
            g0,
            t.stamped(pattern, a, b, color),
            i,
            j,
            x,
            y,
        ),
{
    lemma_stamped_cell(g, pattern, i + a, j + b, color, x, y);
    if covers(pattern, i + a, j + b, x, y) {
        let k = choose|k: int|
            0 <= k < pattern.len() && lands_on(#[trigger] pattern[k], i + a, j + b, x, y);
        assert(lands_on(pattern[k], a, b, x - i, y - j));
        lemma_stamped_cell(t, pattern, a, b, color, x - i, y - j);
    } else if i <= x < i + TILE && j <= y < j + TILE {
        lemma_stamped_cell(t, pattern, a, b, color, x - i, y - j);
        if covers(pattern, a, b, x - i, y - j) {
            let k = choose|k: int|
                0 <= k < pattern.len() && lands_on(#[trigger] pattern[k], a, b, x - i, y - j);
            assert(lands_on(pattern[k], i + a, j + b, x, y));
        }
    }
}

/// Cell by cell, stamping a whole tile with its corner at `(i, j)` overlays
/// the grid with [`seed_tile`] there.
pub proof fn lemma_tile_stamped_cell(g0: Grid, i: int, j: int, x: int, y: int)
    requires
        g0.wf(),
        g0.in_bounds(x, y),
    ensures
        g0.tile_stamped(i, j).wf(),
        g0.tile_stamped(i, j).width == g0.width,
        g0.tile_stamped(i, j).height == g0.height,
        g0.tile_stamped(i, j).cell(x, y) == tiled_cell(g0, seed_tile(), i, j, x, y),
{
    lemma_shapes_fit();
    let t0 = Grid::dead(TILE as nat, TILE as nat);
    if i <= x < i + TILE && j <= y < j + TILE {
        lemma_index_in_range(x - i, y - j, TILE as int, TILE as int);
    }
    lemma_layer(g0, g0, t0, block_cells(), 0, 0, COLOR_STILL_LIFE, i, j, x, y);
    let g1 = g0.stamped(block_cells(), i, j, COLOR_STILL_LIFE);
    let t1 = t0.stamped(block_cells(), 0, 0, COLOR_STILL_LIFE);
    lemma_layer(g0, g1, t1, beehive_cells(), 7, 0, COLOR_STILL_LIFE, i, j, x, y);
    let g2 = g1.stamped(beehive_cells(), i + 7, j, COLOR_STILL_LIFE);
    let t2 = t1.stamped(beehive_cells(), 7, 0, COLOR_STILL_LIFE);
    lemma_layer(g0, g2, t2, loaf_cells(), 14, 0, COLOR_STILL_LIFE, i, j, x, y);
    let g3 = g2.stamped(loaf_cells(), i + 14, j, COLOR_STILL_LIFE);
    let t3 = t2.stamped(loaf_cells(), 14, 0, COLOR_STILL_LIFE);
    lemma_layer(g0, g3, t3, boat_cells(), 21, 0, COLOR_STILL_LIFE, i, j, x, y);
    let g4 = g3.stamped(boat_cells(), i + 21, j, COLOR_STILL_LIFE);
    let t4 = t3.stamped(boat_cells(), 21, 0, COLOR_STILL_LIFE);
    lemma_layer(g0, g4, t4, tub_cells(), 0, 7, COLOR_STILL_LIFE, i, j, x, y);
    let g5 = g4.stamped(tub_cells(), i, j + 7, COLOR_STILL_LIFE);
    let t5 = t4.stamped(tub_cells(), 0, 7, COLOR_STILL_LIFE);
    lemma_layer(g0, g5, t5, blinker_cells(), 7, 7, COLOR_OSCILLATOR, i, j, x, y);
    let g6 = g5.stamped(blinker_cells(), i + 7, j + 7, COLOR_OSCILLATOR);
    let t6 = t5.stamped(blinker_cells(), 7, 7, COLOR_OSCILLATOR);
    lemma_layer(g0, g6, t6, toad_cells(), 14, 7, COLOR_OSCILLATOR, i, j, x, y);
    let g7 = g6.stamped(toad_cells(), i + 14, j + 7, COLOR_OSCILLATOR);
    let t7 = t6.stamped(toad_cells(), 14, 7, COLOR_OSCILLATOR);
    lemma_layer(g0, g7, t7, beacon_cells(), 21, 7, COLOR_OSCILLATOR, i, j, x, y);
    let g8 = g7.stamped(beacon_cells(), i + 21, j + 7, COLOR_OSCILLATOR);
    let t8 = t7.stamped(beacon_cells(), 21, 7, COLOR_OSCILLATOR);
    lemma_layer(g0, g8, t8, pulsar_cells(), 0, 14, COLOR_OSCILLATOR, i, j, x, y);
    let g9 = g8.stamped(pulsar_cells(), i, j + 14, COLOR_OSCILLATOR);
    let t9 = t8.stamped(pulsar_cells(), 0, 14, COLOR_OSCILLATOR);
    lemma_layer(g0, g9, t9, pentadecathlon_cells(), 7, 14, COLOR_OSCILLATOR, i, j, x, y);
    let g10 = g9.stamped(pentadecathlon_cells(), i + 7, j + 14, COLOR_OSCILLATOR);
    let t10 = t9.stamped(pentadecathlon_cells(), 7, 14, COLOR_OSCILLATOR);
    lemma_layer(g0, g10, t10, glider_cells(), 14, 14, COLOR_SPACESHIP, i, j, x, y);
    let g11 = g10.stamped(glider_cells(), i + 14, j + 14, COLOR_SPACESHIP);
    let t11 = t10.stamped(glider_cells(), 14, 14, COLOR_SPACESHIP);
    lemma_layer(g0, g11, t11, lwss_cells(), 21, 14, COLOR_SPACESHIP, i, j, x, y);
    let g12 = g11.stamped(lwss_cells(), i + 21, j + 14, COLOR_SPACESHIP);
    let t12 = t11.stamped(lwss_cells(), 21, 14, COLOR_SPACESHIP);
    lemma_layer(g0, g12, t12, mwss_cells(), 0, 21, COLOR_SPACESHIP, i, j, x, y);
    let g13 = g12.stamped(mwss_cells(), i, j + 21, COLOR_SPACESHIP);
    let t13 = t12.stamped(mwss_cells(), 0, 21, COLOR_SPACESHIP);
    lemma_layer(g0, g13, t13, hwss_cells(), 7, 21, COLOR_SPACESHIP, i, j, x, y);
    let g14 = g13.stamped(hwss_cells(), i + 7, j + 21, COLOR_SPACESHIP);
    let t14 = t13.stamped(hwss_cells(), 7, 21, COLOR_SPACESHIP);
    assert(g14 == g0.tile_stamped(i, j));
    assert(t14 == seed_tile());
}

/// Stamps every shape of the tile, with the tile's corner at `(i, j)`.
pub fn stamp_tile(framebuffer: &mut Framebuffer, i: usize, j: usize)
    requires
        old(framebuffer).wf(),
        i + TILE <= usize::MAX,
        j + TILE <= usize::MAX,
    ensures
        final(framebuffer).wf(),
        final(framebuffer)@ == old(framebuffer)@.tile_stamped(i as int, j as int),
{
    add_pattern(framebuffer, block().as_slice(), i, j, COLOR_STILL_LIFE);
    add_pattern(framebuffer, beehive().as_slice(), i + 7, j, COLOR_STILL_LIFE);
    add_pattern(framebuffer, loaf().as_slice(), i + 14, j, COLOR_STILL_LIFE);
    add_pattern(framebuffer, boat().as_slice(), i + 21, j, COLOR_STILL_LIFE);
    add_pattern(framebuffer, tub().as_slice(), i, j + 7, COLOR_STILL_LIFE);
    add_pattern(framebuffer, blinker().as_slice(), i + 7, j + 7, COLOR_OSCILLATOR);
    add_pattern(framebuffer, toad().as_slice(), i + 14, j + 7, COLOR_OSCILLATOR);
    add_pattern(framebuffer, beacon().as_slice(), i + 21, j + 7, COLOR_OSCILLATOR);
    add_pattern(framebuffer, pulsar().as_slice(), i, j + 14, COLOR_OSCILLATOR);
    add_pattern(framebuffer, pentadecathlon().as_slice(), i + 7, j + 14, COLOR_OSCILLATOR);
    add_pattern(framebuffer, glider().as_slice(), i + 14, j + 14, COLOR_SPACESHIP);
    add_pattern(framebuffer, lwss().as_slice(), i + 21, j + 14, COLOR_SPACESHIP);
    add_pattern(framebuffer, mwss().as_slice(), i, j + 21, COLOR_SPACESHIP);
    add_pattern(framebuffer, hwss().as_slice(), i + 7, j + 21, COLOR_SPACESHIP);
}

/// What `(x, y)` holds when seeding is about to lay the tile at `(i, j)`:
/// the columns of tiles before `i` are seeded, and in the column at `i` the
/// tiles above `j`; the rest of the grid is still as `g` was.
pub open spec fn partly_seeded_cell(g: Grid, i: int, j: int, x: int, y: int) -> u32 {
    if x < i || (x < i + TILE && y < j) {
        seeded_cell(g, x, y)
    } else {
        g.cell(x, y)
    }
}

/// Laying the tile at `(i, j)` moves seeding one tile further.
proof fn lemma_seed_step(start: Grid, before: Grid, i: int, j: int, x: int, y: int)
    requires
        start.wf(),
        before.wf(),
        before.width == start.width,
        before.height == start.height,
        start.in_bounds(x, y),
        0 <= i,
        0 <= j,
        i % (TILE as int) == 0,
        j % (TILE as int) == 0,
        before.cell(x, y) == partly_seeded_cell(start, i, j, x, y),
    ensures
        before.tile_stamped(i, j).cell(x, y) == partly_seeded_cell(start, i, j + TILE, x, y),
{
    lemma_tile_stamped_cell(before, i, j, x, y);
    let c = before.tile_stamped(i, j).cell(x, y);
    assert(c == tiled_cell(before, seed_tile(), i, j, x, y));
    if i <= x < i + TILE && j <= y < j + TILE {
        assert(x % (TILE as int) == x - i);
        assert(y % (TILE as int) == y - j);
    }
}

/// Fills the grid with copies of the seeding tile, laid side by side from
/// the origin and clipped at the far edges. Cells that the tile leaves empty
/// keep what they held.
pub fn initialize_pattern(framebuffer: &mut Framebuffer)
    requires
        old(framebuffer).wf(),
        old(framebuffer).width + TILE <= usize::MAX,
        old(framebuffer).height + TILE <= usize::MAX,
    ensures
        final(framebuffer).wf(),
        final(framebuffer)@ == old(framebuffer)@.seeded(),
{
    let ghost start = framebuffer@;
    let width: usize = framebuffer.width;
    let height: usize = framebuffer.height;
    let mut i: usize = 0;
    while i < width
        invariant
            start.wf(),
            framebuffer.wf(),
            framebuffer.width == width,
            framebuffer.height == height,
            start.width == width,
            start.height == height,
            width + TILE <= usize::MAX,
            height + TILE <= usize::MAX,
            i % TILE == 0,
            i < width + TILE,
            forall|x: int, y: int|
                start.in_bounds(x, y) ==> #[trigger] framebuffer@.cell(x, y) == partly_seeded_cell(
                    start,
                    i as int,
                    0,
                    x,
                    y,
                ),
        decreases width + TILE - i,
    {
        let mut j: usize = 0;
        while j < height
            invariant
                start.wf(),
                framebuffer.wf(),
                framebuffer.width == width,
                framebuffer.height == height,
                start.width == width,
                start.height == height,
                width + TILE <= usize::MAX,
                height + TILE <= usize::MAX,
                i % TILE == 0,
                j % TILE == 0,
                i < width,
                j < height + TILE,
                forall|x: int, y: int|
                    start.in_bounds(x, y) ==> #[trigger] framebuffer@.cell(x, y)
                        == partly_seeded_cell(start, i as int, j as int, x, y),
            decreases height + TILE - j,
        {
            let ghost before = framebuffer@;
            stamp_tile(framebuffer, i, j);
            proof {
                let after = framebuffer@;
                assert forall|x: int, y: int| start.in_bounds(x, y) implies #[trigger] after.cell(x, y)
                    == partly_seeded_cell(start, i as int, j + TILE, x, y) by {
                    assert(before.cell(x, y) == partly_seeded_cell(start, i as int, j as int, x, y));
                    lemma_seed_step(start, before, i as int, j as int, x, y);
                }
            }
            j += TILE;
        }
        i += TILE;
    }
    proof {
        assert forall|k: int| 0 <= k < start.cells.len() implies framebuffer.buffer@[k]
            == start.seeded().cells[k] by {
            lemma_index_cell(k, width as int, height as int);
            let x = k % (width as int);
            let y = k / (width as int);
            assert(framebuffer@.cell(x, y) == partly_seeded_cell(start, i as int, 0, x, y));
        }
        assert(framebuffer.buffer@ =~= start.seeded().cells);
    }
}

} // verus!
