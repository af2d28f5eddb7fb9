//! Magnifying a grid into the pixel surface that a window shows.

use vstd::prelude::*;
use crate::arith::lemma_index_in_range;
use crate::arith::lemma_index_split;
use crate::framebuffer::Framebuffer;
use crate::framebuffer::Grid;
use crate::life::COLOR_FONDO;

verus! {

impl Grid {
    /// The colour that the cell `(x, y)` shows: its own when alive, the
    /// background's when dead.
    pub open spec fn shown(self, x: int, y: int) -> u32 {
        if self.alive(x, y) {
            self.cell(x, y)
        } else {
            COLOR_FONDO
        }
    }

    /// The pixel surface, row by row, in which every cell of the grid is a
    /// square of `scale` by `scale` pixels of the cell's colour.
    pub open spec fn magnified(self, scale: nat) -> Seq<u32> {
        let pixel_width = (self.width * scale) as int;
        let pixel_height = (self.height * scale) as int;
        Seq::new(
            (pixel_width * pixel_height) as nat,
            |p: int| self.shown((p % pixel_width) / (scale as int), (p / pixel_width) / (scale as int)),
        )
    }
}

/// The pixel `(dx, dy)` inside the square of the cell `(x, y)` stands, in
/// the magnified surface, at row `y * scale + dy` and column
/// `x * scale + dx`, and shows that cell.
pub proof fn lemma_magnified_pixel(g: Grid, scale: nat, x: int, y: int, dx: int, dy: int)
    requires
        g.wf(),
        g.in_bounds(x, y),
        0 <= dx < scale,
        0 <= dy < scale,
    ensures
        0 <= (y * scale + dy) * (g.width * scale) + (x * scale + dx) < g.magnified(scale).len(),
        g.magnified(scale)[(y * scale + dy) * (g.width * scale) + (x * scale + dx)] == g.shown(x, y),
{
    let s = scale as int;
    let pw = (g.width * scale) as int;
    let ph = (g.height * scale) as int;
    let px = x * s + dx;
    let py = y * s + dy;
    lemma_index_in_range(dx, x, s, g.width as int);
    lemma_index_in_range(dy, y, s, g.height as int);
    assert(s * g.width == g.width * s) by (nonlinear_arith);
    assert(s * g.height == g.height * s) by (nonlinear_arith);
    lemma_index_in_range(px, py, pw, ph);
    lemma_index_split(px, py, pw);
    lemma_index_split(dx, x, s);
    lemma_index_split(dy, y, s);
}

/// Renders the grid at `cell_size` pixels per cell: the result holds
/// `width * cell_size` pixels per row and `height * cell_size` rows.
pub fn magnify(framebuffer: &Framebuffer, cell_size: usize) -> (pixels: Vec<u32>)
    requires
        framebuffer.wf(),
        framebuffer.width * cell_size <= usize::MAX,
        framebuffer.height * cell_size <= usize::MAX,
        (framebuffer.width * cell_size) * (framebuffer.height * cell_size) <= usize::MAX,
    ensures
        pixels@ == framebuffer@.magnified(cell_size as nat),
{
    let pixel_width: usize = framebuffer.width * cell_size;
    let pixel_height: usize = framebuffer.height * cell_size;
    let ghost target = framebuffer@.magnified(cell_size as nat);
    let mut pixels: Vec<u32> = Vec::with_capacity(pixel_width * pixel_height);
    let mut py: usize = 0;
    while py < pixel_height
        invariant
            framebuffer.wf(),
            pixel_width == framebuffer.width * cell_size,
            pixel_height == framebuffer.height * cell_size,
            pixel_width * pixel_height <= usize::MAX,
            target == framebuffer@.magnified(cell_size as nat),
            py <= pixel_height,
            pixels@.len() == py * pixel_width,
            forall|p: int| 0 <= p < pixels@.len() ==> pixels@[p] == target[p],
        decreases pixel_height - py,
    {
        let mut px: usize = 0;
        while px < pixel_width
            invariant
                framebuffer.wf(),
                pixel_width == framebuffer.width * cell_size,
                pixel_height == framebuffer.height * cell_size,
                pixel_width * pixel_height <= usize::MAX,
                target == framebuffer@.magnified(cell_size as nat),
                py < pixel_height,
                px <= pixel_width,
                pixels@.len() == py * pixel_width + px,
                forall|p: int| 0 <= p < pixels@.len() ==> pixels@[p] == target[p],
            decreases pixel_width - px,
        {
            proof {
                lemma_index_in_range(px as int, py as int, pixel_width as int, pixel_height as int);
                lemma_index_split(px as int, py as int, pixel_width as int);
                assert(cell_size > 0) by (nonlinear_arith)
                    requires
                        px < framebuffer.width * cell_size,
                ;
            }
            let color: u32 = framebuffer.get(px / cell_size, py / cell_size);
            pixels.push(color);
            px += 1;
        }
        assert((py + 1) * pixel_width == py * pixel_width + pixel_width) by (nonlinear_arith);
        py += 1;
    }
    assert(pixel_height * pixel_width == pixel_width * pixel_height) by (nonlinear_arith);
    assert(pixels@ =~= target);
    pixels
}

} // verus!
