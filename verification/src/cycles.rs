//! Two shapes whose fate under the rule is known for every grid that is
//! large enough: the block, which never changes, and the blinker, which
//! turns by a quarter with every generation.

use vstd::prelude::*;
use crate::arith::lemma_index_cell;
use crate::framebuffer::Grid;
use crate::life::lemma_next_cell;
use crate::life::lemma_wrap_step;
use crate::life::wrap;
use crate::life::COLOR_CUADRO;

verus! {

impl Grid {
    /// The live cells of the grid are exactly the two by two block whose
    /// first corner is `(a, b)`; the block may reach across the edges.
    pub open spec fn is_block(self, a: int, b: int) -> bool {
        forall|x: int, y: int|
            self.in_bounds(x, y) ==> (#[trigger] self.alive(x, y) <==> (x == a || x == wrap(
                a + 1,
                self.width as int,
            )) && (y == b || y == wrap(b + 1, self.height as int)))
    }
}

/// Everything that the proofs below need to know about the eight
/// neighbours of an in-bounds cell: where each wrapped step lands.
proof fn lemma_steps(g: Grid, x: int, y: int)
    requires
        g.wf(),
        g.in_bounds(x, y),
    ensures
        g.in_bounds(wrap(x - 1, g.width as int), wrap(y - 1, g.height as int)),
        g.in_bounds(wrap(x + 1, g.width as int), wrap(y + 1, g.height as int)),
        wrap(x + 0, g.width as int) == x,
        wrap(y + 0, g.height as int) == y,
        wrap(x - 1, g.width as int) == if x == 0 {
            g.width - 1
        } else {
            x - 1
        },
        wrap(x + 1, g.width as int) == if x == g.width - 1 {
            0
        } else {
            x + 1
        },
        wrap(y - 1, g.height as int) == if y == 0 {
            g.height - 1
        } else {
            y - 1
        },
        wrap(y + 1, g.height as int) == if y == g.height - 1 {
            0
        } else {
            y + 1
        },
{
    lemma_wrap_step(x, -1, g.width as int);
    lemma_wrap_step(x, 0, g.width as int);
    lemma_wrap_step(x, 1, g.width as int);
    lemma_wrap_step(y, -1, g.height as int);
    lemma_wrap_step(y, 0, g.height as int);
    lemma_wrap_step(y, 1, g.height as int);
}

/// Still life: a grid at least four cells wide and high whose only live
/// cells form a two by two block is its own next generation, colours
/// included.
pub proof fn law_block_is_still(g: Grid, a: int, b: int)
    requires
        g.wf(),
        g.width >= 4,
        g.height >= 4,
        g.in_bounds(a, b),
        g.is_block(a, b),
    ensures
        g.next() == g,
{
    lemma_steps(g, a, b);
    assert forall|i: int| 0 <= i < g.cells.len() implies g.next().cells[i] == g.cells[i] by {
        lemma_index_cell(i, g.width as int, g.height as int);
        let x = i % (g.width as int);
        let y = i / (g.width as int);
        lemma_steps(g, x, y);
        lemma_next_cell(g, x, y);
        assert(g.cell(x, y) == g.cells[i]);
        assert(g.alive(x, y) <==> g.cell(x, y) != 0);
    }
    assert(g.next().cells =~= g.cells);
}

impl Grid {
    /// The live cells of the grid are exactly three in a row, centred at
    /// `(a, b)`: the centre holds `mid`, its left and right neighbours on
    /// the torus hold `end`.
    pub open spec fn is_row_of_three(self, a: int, b: int, mid: u32, end: u32) -> bool {
        forall|x: int, y: int|
            self.in_bounds(x, y) ==> #[trigger] self.cell(x, y) == if x == a && y == b {
                mid
            } else if y == b && (x == wrap(a - 1, self.width as int) || x == wrap(
                a + 1,
                self.width as int,
            )) {
                end
            } else {
                0
            }
    }

    /// The live cells of the grid are exactly three in a column, centred at
    /// `(a, b)`: the centre holds `mid`, its upper and lower neighbours on
    /// the torus hold `end`.
    pub open spec fn is_column_of_three(self, a: int, b: int, mid: u32, end: u32) -> bool {
        forall|x: int, y: int|
            self.in_bounds(x, y) ==> #[trigger] self.cell(x, y) == if x == a && y == b {
                mid
            } else if x == a && (y == wrap(b - 1, self.height as int) || y == wrap(
                b + 1,
                self.height as int,
            )) {
                end
            } else {
                0
            }
    }
}

/// A row of three becomes a column of three about the same centre: the
/// centre survives with its colour, the ends die, and the cells above and
/// below the centre are born.
pub proof fn lemma_row_turns(g: Grid, a: int, b: int, mid: u32, end: u32)
    requires
        g.wf(),
        g.width >= 4,
        g.height >= 3,
        g.in_bounds(a, b),
        mid != 0,
        end != 0,
        g.is_row_of_three(a, b, mid, end),
    ensures
        g.next().wf(),
        g.next().width == g.width,
        g.next().height == g.height,
        g.next().is_column_of_three(a, b, mid, COLOR_CUADRO),
{
    lemma_steps(g, a, b);
    lemma_next_cell(g, a, b);
    let n = g.next();
    assert forall|x: int, y: int| n.in_bounds(x, y) implies #[trigger] n.cell(x, y) == if x == a
        && y == b {
        mid
    } else if x == a && (y == wrap(b - 1, n.height as int) || y == wrap(b + 1, n.height as int)) {
        COLOR_CUADRO
    } else {
        0
    } by {
        lemma_steps(g, x, y);
        lemma_next_cell(g, x, y);
    }
}

/// A column of three becomes a row of three about the same centre: the
/// centre survives with its colour, the ends die, and the cells left and
/// right of the centre are born.
pub proof fn lemma_column_turns(g: Grid, a: int, b: int, mid: u32, end: u32)
    requires
        g.wf(),
        g.width >= 3,
        g.height >= 4,
        g.in_bounds(a, b),
        mid != 0,
        end != 0,
        g.is_column_of_three(a, b, mid, end),
    ensures
        g.next().wf(),
        g.next().width == g.width,
        g.next().height == g.height,
        g.next().is_row_of_three(a, b, mid, COLOR_CUADRO),
{
    lemma_steps(g, a, b);
    lemma_next_cell(g, a, b);
    let n = g.next();
    assert forall|x: int, y: int| n.in_bounds(x, y) implies #[trigger] n.cell(x, y) == if x == a
        && y == b {
        mid
    } else if y == b && (x == wrap(a - 1, n.width as int) || x == wrap(a + 1, n.width as int)) {
        COLOR_CUADRO
    } else {
        0
    } by {
        lemma_steps(g, x, y);
        lemma_next_cell(g, x, y);
    }
}

/// Two grids of one size that hold the same row of three are equal.
proof fn lemma_row_of_three_unique(g: Grid, k: Grid, a: int, b: int, mid: u32, end: u32)
    requires
        g.wf(),
        k.wf(),
        g.width == k.width,
        g.height == k.height,
        g.is_row_of_three(a, b, mid, end),
        k.is_row_of_three(a, b, mid, end),
    ensures
        g == k,
{
    assert forall|i: int| 0 <= i < g.cells.len() implies g.cells[i] == k.cells[i] by {
        lemma_index_cell(i, g.width as int, g.height as int);
        let x = i % (g.width as int);
        let y = i / (g.width as int);
        assert(g.cell(x, y) == g.cells[i]);
        assert(k.cell(x, y) == k.cells[i]);
    }
    assert(g.cells =~= k.cells);
}

/// Oscillator: in a grid at least four cells wide and high, a row of three
/// whose ends hold the birth colour is a column after one generation, which
/// is another grid, and the very same row again after two.
pub proof fn law_blinker_period_two(g: Grid, a: int, b: int, mid: u32)
    requires
        g.wf(),
        g.width >= 4,
        g.height >= 4,
        g.in_bounds(a, b),
        mid != 0,
        g.is_row_of_three(a, b, mid, COLOR_CUADRO),
    ensures
        g.next().is_column_of_three(a, b, mid, COLOR_CUADRO),
        g.next() != g,
        g.next().next() == g,
{
    lemma_row_turns(g, a, b, mid, COLOR_CUADRO);
    lemma_column_turns(g.next(), a, b, mid, COLOR_CUADRO);
    lemma_row_of_three_unique(g.next().next(), g, a, b, mid, COLOR_CUADRO);
    lemma_steps(g, a, b);
    let x = wrap(a + 1, g.width as int);
    assert(g.cell(x, b) == COLOR_CUADRO);
    assert(g.next().cell(x, b) == 0);
}

} // verus!
