//! Conway's Game of Life on a torus.
//!
//! A `Framebuffer` is a rectangular buffer of packed colours in which `0`
//! means a dead cell and any other value a live cell of that colour. The
//! `life` module counts neighbours across the wrapped edges and derives
//! the next generation; `cycles` proves what becomes of a block and of a
//! blinker; `shapes` lists the well-known shapes and `patterns` seeds a
//! grid with a repeating tile of them; `display` magnifies a grid into a
//! pixel surface.

pub mod arith;
pub mod framebuffer;
pub mod life;
pub mod cycles;
pub mod patterns;
pub mod shapes;
pub mod display;
