//! Conversion between row-major tile indices and `Coord` addresses.
use vstd::prelude::*;
use crate::basic_types::Coord;

verus! {

/// The coordinate a row-major index denotes on a grid `size.x` wide.
pub open spec fn index_to_coord_spec(grid_index: int, size: Coord) -> Coord {
    Coord { x: (grid_index % (size.x as int)) as usize, y: (grid_index / (size.x as int)) as usize }
}

/// The row-major index of a coordinate on a grid `size.x` wide.
pub open spec fn coord_to_index_spec(coord: Coord, size: Coord) -> int {
    coord.y * size.x + coord.x
}

/// Split a row-major index into its column (`x`) and row (`y`).
pub fn index_to_coord(grid_index: usize, size: Coord) -> (r: Coord)
    requires
        size.x >= 1,
    ensures
        r == index_to_coord_spec(grid_index as int, size),
{
    Coord { x: grid_index % size.x, y: grid_index / size.x }
}

/// Pack a coordinate into its row-major index.
pub fn coord_to_index(coord: Coord, size: Coord) -> (r: usize)
    requires
        coord.y * size.x + coord.x <= usize::MAX,
    ensures
        r == coord_to_index_spec(coord, size),
{
    coord.y * size.x + coord.x
}

/// Round trip: for every coordinate whose column is inside the grid's width,
/// packing it into an index and splitting it again yields the same
/// coordinate. The row need not be inside the grid for this to hold.
pub proof fn lemma_index_coord_round_trip(coord: Coord, size: Coord)
    requires
        size.x >= 1,
        coord.x < size.x,
    ensures
        index_to_coord_spec(coord_to_index_spec(coord, size), size) == coord,
{
    let w = size.x as int;
    let x = coord.x as int;
    let y = coord.y as int;
    assert((y * w + x) % w == x && (y * w + x) / w == y) by (nonlinear_arith)
        requires
            w >= 1,
            0 <= x < w,
            0 <= y,
    ;
}

} // verus!
