//! The shapes that seeding knows, each a list of offsets from its anchor.

use vstd::prelude::*;

verus! {

/// Every offset of `pattern`, moved by `(ox, oy)`, stays inside a square
/// of the given side.
pub open spec fn fits(pattern: Seq<(usize, usize)>, ox: int, oy: int, side: int) -> bool {
    forall|k: int|
        0 <= k < pattern.len() ==> ox + (#[trigger] pattern[k]).0 < side && oy + pattern[k].1 < side
}

/// The block: a two by two square.
pub open spec fn block_cells() -> Seq<(usize, usize)> {
    seq![
        (0, 0), (1, 0), (0, 1), (1, 1),
    ]
}

/// The offsets of [`block_cells`] as a vector.
pub fn block() -> (cells: Vec<(usize, usize)>)
    ensures
        cells@ == block_cells(),
{
    let cells: Vec<(usize, usize)> = vec![
        (0, 0), (1, 0), (0, 1), (1, 1),
    ];
    assert(cells@ =~= block_cells());
    cells
}

/// The beehive: a hexagon of six cells.
pub open spec fn beehive_cells() -> Seq<(usize, usize)> {
    seq![
        (0, 1), (1, 0), (2, 0), (3, 1), (1, 2), (2, 2),
    ]
}

/// The offsets of [`beehive_cells`] as a vector.
pub fn beehive() -> (cells: Vec<(usize, usize)>)
    ensures
        cells@ == beehive_cells(),
{
    let cells: Vec<(usize, usize)> = vec![
        (0, 1), (1, 0), (2, 0), (3, 1), (1, 2), (2, 2),
    ];
    assert(cells@ =~= beehive_cells());
    cells
}

/// The loaf.
pub open spec fn loaf_cells() -> Seq<(usize, usize)> {
    seq![
        (2, 0), (3, 1), (3, 2), (1, 1), (0, 2), (1, 3), (2, 3),
    ]
}

/// The offsets of [`loaf_cells`] as a vector.
pub fn loaf() -> (cells: Vec<(usize, usize)>)
    ensures
        cells@ == loaf_cells(),
{
    let cells: Vec<(usize, usize)> = vec![
        (2, 0), (3, 1), (3, 2), (1, 1), (0, 2), (1, 3), (2, 3),
    ];
    assert(cells@ =~= loaf_cells());
    cells
}

/// The boat.
pub open spec fn boat_cells() -> Seq<(usize, usize)> {
    seq![
        (0, 0), (1, 0), (0, 1), (2, 1), (1, 2),
    ]
}

/// The offsets of [`boat_cells`] as a vector.
pub fn boat() -> (cells: Vec<(usize, usize)>)
    ensures
        cells@ == boat_cells(),
{
    let cells: Vec<(usize, usize)> = vec![
        (0, 0), (1, 0), (0, 1), (2, 1), (1, 2),
    ];
    assert(cells@ =~= boat_cells());
    cells
}

/// The tub: a diamond of four cells.
pub open spec fn tub_cells() -> Seq<(usize, usize)> {
    seq![
        (1, 0), (0, 1), (2, 1), (1, 2),
    ]
}

/// The offsets of [`tub_cells`] as a vector.
pub fn tub() -> (cells: Vec<(usize, usize)>)
    ensures
        cells@ == tub_cells(),
{
    let cells: Vec<(usize, usize)> = vec![
        (1, 0), (0, 1), (2, 1), (1, 2),
    ];
    assert(cells@ =~= tub_cells());
    cells
}

/// The blinker: three cells in a row, of period two.
pub open spec fn blinker_cells() -> Seq<(usize, usize)> {
    seq![
        (0, 0), (1, 0), (2, 0),
    ]
}

/// The offsets of [`blinker_cells`] as a vector.
pub fn blinker() -> (cells: Vec<(usize, usize)>)
    ensures
        cells@ == blinker_cells(),
{
    let cells: Vec<(usize, usize)> = vec![
        (0, 0), (1, 0), (2, 0),
    ];
    assert(cells@ =~= blinker_cells());
    cells
}

/// The toad, of period two.
pub open spec fn toad_cells() -> Seq<(usize, usize)> {
    seq![
        (1, 0), (2, 0), (3, 0), (0, 1), (1, 1), (2, 1),
    ]
}

/// The offsets of [`toad_cells`] as a vector.
pub fn toad() -> (cells: Vec<(usize, usize)>)
    ensures
        cells@ == toad_cells(),
{
    let cells: Vec<(usize, usize)> = vec![
        (1, 0), (2, 0), (3, 0), (0, 1), (1, 1), (2, 1),
    ];
    assert(cells@ =~= toad_cells());
    cells
}

/// The beacon: two blocks corner to corner, of period two.
pub open spec fn beacon_cells() -> Seq<(usize, usize)> {
    seq![
        (0, 0), (1, 0), (0, 1), (1, 1), (2, 2), (3, 2), (2, 3), (3, 3),
    ]
}

/// The offsets of [`beacon_cells`] as a vector.
pub fn beacon() -> (cells: Vec<(usize, usize)>)
    ensures
        cells@ == beacon_cells(),
{
    let cells: Vec<(usize, usize)> = vec![
        (0, 0), (1, 0), (0, 1), (1, 1), (2, 2), (3, 2), (2, 3), (3, 3),
    ];
    assert(cells@ =~= beacon_cells());
    cells
}

/// The pulsar, of period three.
pub open spec fn pulsar_cells() -> Seq<(usize, usize)> {
    seq![
        (2, 0), (3, 0), (4, 0), (8, 0), (9, 0), (10, 0),
        (0, 2), (5, 2), (7, 2), (12, 2), (0, 3), (5, 3),
        (7, 3), (12, 3), (0, 4), (5, 4), (7, 4), (12, 4),
        (2, 5), (3, 5), (4, 5), (8, 5), (9, 5), (10, 5),
        (2, 7), (3, 7), (4, 7), (8, 7), (9, 7), (10, 7),
        (0, 8), (5, 8), (7, 8), (12, 8), (0, 9), (5, 9),
        (7, 9), (12, 9), (0, 10), (5, 10), (7, 10), (12, 10),
        (2, 12), (3, 12), (4, 12), (8, 12), (9, 12), (10, 12),
    ]
}

/// The offsets of [`pulsar_cells`] as a vector.
pub fn pulsar() -> (cells: Vec<(usize, usize)>)
    ensures
        cells@ == pulsar_cells(),
{
    let cells: Vec<(usize, usize)> = vec![
        (2, 0), (3, 0), (4, 0), (8, 0), (9, 0), (10, 0),
        (0, 2), (5, 2), (7, 2), (12, 2), (0, 3), (5, 3),
        (7, 3), (12, 3), (0, 4), (5, 4), (7, 4), (12, 4),
        (2, 5), (3, 5), (4, 5), (8, 5), (9, 5), (10, 5),
        (2, 7), (3, 7), (4, 7), (8, 7), (9, 7), (10, 7),
        (0, 8), (5, 8), (7, 8), (12, 8), (0, 9), (5, 9),
        (7, 9), (12, 9), (0, 10), (5, 10), (7, 10), (12, 10),
        (2, 12), (3, 12), (4, 12), (8, 12), (9, 12), (10, 12),
    ];
    assert(cells@ =~= pulsar_cells());
    cells
}

/// The shape seeded in the pentadecathlon's place.
pub open spec fn pentadecathlon_cells() -> Seq<(usize, usize)> {
    seq![
        (0, 0), (1, 0), (2, 0), (3, 1), (3, 2), (2, 3), (1, 3),
        (0, 3), (2, 4), (1, 4), (0, 4), (3, 5), (3, 6), (2, 7),
        (1, 7), (0, 7), (1, 8), (2, 8), (3, 9), (0, 9),
    ]
}

/// The offsets of [`pentadecathlon_cells`] as a vector.
pub fn pentadecathlon() -> (cells: Vec<(usize, usize)>)
    ensures
        cells@ == pentadecathlon_cells(),
{
    let cells: Vec<(usize, usize)> = vec![
        (0, 0), (1, 0), (2, 0), (3, 1), (3, 2), (2, 3), (1, 3),
        (0, 3), (2, 4), (1, 4), (0, 4), (3, 5), (3, 6), (2, 7),
        (1, 7), (0, 7), (1, 8), (2, 8), (3, 9), (0, 9),
    ];
    assert(cells@ =~= pentadecathlon_cells());
    cells
}

/// The glider.
pub open spec fn glider_cells() -> Seq<(usize, usize)> {
    seq![
        (1, 0), (2, 1), (0, 2), (1, 2), (2, 2),
    ]
}

/// The offsets of [`glider_cells`] as a vector.
pub fn glider() -> (cells: Vec<(usize, usize)>)
    ensures
        cells@ == glider_cells(),
{
    let cells: Vec<(usize, usize)> = vec![
        (1, 0), (2, 1), (0, 2), (1, 2), (2, 2),
    ];
    assert(cells@ =~= glider_cells());
    cells
}

/// The shape seeded as the light-weight spaceship.
pub open spec fn lwss_cells() -> Seq<(usize, usize)> {
    seq![
        (0, 0), (1, 0), (2, 0), (3, 0), (4, 1), (0, 1), (0, 2), (3, 2), (1, 3),
    ]
}

/// The offsets of [`lwss_cells`] as a vector.
pub fn lwss() -> (cells: Vec<(usize, usize)>)
    ensures
        cells@ == lwss_cells(),
{
    let cells: Vec<(usize, usize)> = vec![
        (0, 0), (1, 0), (2, 0), (3, 0), (4, 1), (0, 1), (0, 2), (3, 2), (1, 3),
    ];
    assert(cells@ =~= lwss_cells());
    cells
}

/// The shape seeded as the middle-weight spaceship.
pub open spec fn mwss_cells() -> Seq<(usize, usize)> {
    seq![
        (0, 0), (1, 0), (2, 0), (3, 0), (4, 0), (5, 1), (0, 1), (0, 2), (4, 3), (1, 4),
    ]
}

/// The offsets of [`mwss_cells`] as a vector.
pub fn mwss() -> (cells: Vec<(usize, usize)>)
    ensures
        cells@ == mwss_cells(),
{
    let cells: Vec<(usize, usize)> = vec![
        (0, 0), (1, 0), (2, 0), (3, 0), (4, 0), (5, 1), (0, 1), (0, 2), (4, 3), (1, 4),
    ];
    assert(cells@ =~= mwss_cells());
    cells
}

/// The shape seeded as the heavy-weight spaceship.
pub open spec fn hwss_cells() -> Seq<(usize, usize)> {
    seq![
        (0, 0), (1, 0), (2, 0), (3, 0), (4, 0), (5, 0), (5, 1), (0, 1), (0, 2),
        (4, 3), (1, 4), (2, 4), (3, 4), (4, 4), (5, 4), (6, 4), (0, 3),
    ]
}

/// The offsets of [`hwss_cells`] as a vector.
pub fn hwss() -> (cells: Vec<(usize, usize)>)
    ensures
        cells@ == hwss_cells(),
{
    let cells: Vec<(usize, usize)> = vec![
        (0, 0), (1, 0), (2, 0), (3, 0), (4, 0), (5, 0), (5, 1), (0, 1), (0, 2),
        (4, 3), (1, 4), (2, 4), (3, 4), (4, 4), (5, 4), (6, 4), (0, 3),
    ];
    assert(cells@ =~= hwss_cells());
    cells
}

} // verus!
