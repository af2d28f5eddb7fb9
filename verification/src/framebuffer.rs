//! The pixel grid: an owned rectangle of packed colours.

use vstd::prelude::*;
use crate::arith::lemma_index_in_range;

verus! {

/// The mathematical content of a framebuffer: its dimensions and its
/// cells in row-major order.
pub struct Grid {
    pub width: nat,
    pub height: nat,
    pub cells: Seq<u32>,
}

impl Grid {
    /// The grid holds exactly one value per cell.
    pub open spec fn wf(self) -> bool {
        self.cells.len() == self.width * self.height
    }

    /// `(x, y)` names a cell of the grid.
    pub open spec fn in_bounds(self, x: int, y: int) -> bool {
        0 <= x < self.width && 0 <= y < self.height
    }

    /// Row-major position of the cell `(x, y)`.
    pub open spec fn index(self, x: int, y: int) -> int {
        y * self.width + x
    }

    /// The value stored at `(x, y)`; outside the grid every cell reads as `0`.
    pub open spec fn cell(self, x: int, y: int) -> u32 {
        if self.in_bounds(x, y) {
            self.cells[self.index(x, y)]
        } else {
            0
        }
    }

    /// A cell is alive when it holds a nonzero colour.
    pub open spec fn alive(self, x: int, y: int) -> bool {
        self.cell(x, y) != 0
    }

    /// The grid after writing `color` at `(x, y)`; a write outside the grid
    /// changes nothing.
    pub open spec fn set(self, x: int, y: int, color: u32) -> Grid {
        if self.in_bounds(x, y) {
            Grid { cells: self.cells.update(self.index(x, y), color), ..self }
        } else {
            self
        }
    }

    /// The grid of the given size with every cell dead.
    pub open spec fn dead(width: nat, height: nat) -> Grid {
        Grid { width, height, cells: Seq::new(width * height, |i: int| 0u32) }
    }

    /// The same grid with every cell dead.
    pub open spec fn cleared(self) -> Grid {
        Grid { cells: Seq::new(self.cells.len(), |i: int| 0u32), ..self }
    }
}

/// A rectangle of cells, one packed colour each, stored row by row. A cell
/// holding `0` is dead; any other value is a live cell of that colour.
pub struct Framebuffer {
    pub width: usize,
    pub height: usize,
    pub buffer: Vec<u32>,
}

impl View for Framebuffer {
    type V = Grid;

    open spec fn view(&self) -> Grid {
        Grid { width: self.width as nat, height: self.height as nat, cells: self.buffer@ }
    }
}

impl Framebuffer {
    /// The buffer holds exactly `width * height` cells.
    pub open spec fn wf(&self) -> bool {
        self@.wf()
    }

    /// The row-major index of an in-bounds cell lies inside the buffer, and
    /// so does every partial result of computing it.
    pub proof fn lemma_index(&self, x: usize, y: usize)
        requires
            self.wf(),
            x < self.width,
            y < self.height,
        ensures
            0 <= y * self.width <= y * self.width + x < self.buffer.len() <= usize::MAX,
            self.width * self.height == self.buffer.len(),
            self@.index(x as int, y as int) == y * self.width + x,
    {
        lemma_index_in_range(x as int, y as int, self.width as int, self.height as int);
        assert(self.buffer.len() == self.buffer@.len());
    }

    /// A grid of the given size with every cell dead.
    pub fn new(width: usize, height: usize) -> (fb: Self)
        requires
            width * height <= usize::MAX,
        ensures
            fb.wf(),
            fb@ == Grid::dead(width as nat, height as nat),
    {
        let fb = Self { width, height, buffer: vec![0u32; width * height] };
        assert(fb.buffer@ =~= Grid::dead(width as nat, height as nat).cells);
        fb
    }

    /// Stores `color` at `(x, y)`. Coordinates outside the grid are ignored.
    pub fn point(&mut self, x: usize, y: usize, color: u32)
        requires
            old(self).wf(),
        ensures
            final(self).wf(),
            final(self)@ == old(self)@.set(x as int, y as int, color),
            !old(self)@.in_bounds(x as int, y as int) ==> *final(self) == *old(self),
    {
        if x < self.width && y < self.height {
            proof {
                self.lemma_index(x, y);
            }
            let i: usize = y * self.width + x;
            self.buffer.set(i, color);
        }
    }

    /// Whether the cell at `(x, y)` is alive. Coordinates outside the grid
    /// are never alive.
    pub fn is_point_set(&self, x: usize, y: usize) -> (alive: bool)
        requires
            self.wf(),
        ensures
            alive == self@.alive(x as int, y as int),
            !self@.in_bounds(x as int, y as int) ==> !alive,
    {
        if x < self.width && y < self.height {
            proof {
                self.lemma_index(x, y);
            }
            self.buffer[y * self.width + x] != 0
        } else {
            false
        }
    }

    /// The raw colour stored at `(x, y)`, or `0` outside the grid.
    pub fn get(&self, x: usize, y: usize) -> (color: u32)
        requires
            self.wf(),
        ensures
            color == self@.cell(x as int, y as int),
    {
        if x < self.width && y < self.height {
            proof {
                self.lemma_index(x, y);
            }
            self.buffer[y * self.width + x]
        } else {
            0
        }
    }

    /// Kills every cell.
    pub fn clear(&mut self)
        ensures
            final(self)@ == old(self)@.cleared(),
            old(self).wf() ==> final(self).wf(),
    {
        let n: usize = self.buffer.len();
        let mut i: usize = 0;
        while i < n
            invariant
                i <= n,
                n == self.buffer.len(),
                self.width == old(self).width,
                self.height == old(self).height,
                self.buffer.len() == old(self).buffer.len(),
                forall|k: int| 0 <= k < i ==> self.buffer@[k] == 0u32,
            decreases n - i,
        {
            self.buffer.set(i, 0);
            i += 1;
        }
        assert(self.buffer@ =~= old(self)@.cleared().cells);
    }
}

} // verus!
