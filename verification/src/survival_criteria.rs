//! Pluggable survival predicates over grid coordinates and tile state.
use vstd::prelude::*;
use crate::basic_types::Coord;
use crate::combined_types::World;
use crate::index_functions;
use crate::index_functions::index_to_coord_spec;
use vstd::arithmetic::div_mod::lemma_fundamental_div_mod;

verus! {

/// Which cells count as surviving at a generation boundary.
///
/// Fractional parameters are in ten-thousandths of the grid extent
/// (1000 = 10%), mirroring the other fixed-point fractions of the library.
#[derive(Debug, Clone, Copy, PartialEq, Eq, Structural)]
pub enum SurvivalCriteria {
    /// Rows within the given fraction from the top.
    TopPart(u32),
    /// Rows within the given fraction from the bottom.
    BottomPart(u32),
    /// Cells within the given fraction of any edge.
    Border(u32),
    /// Tiles with no pheromone at all.
    NoPheromones,
    /// Tiles with a pheromone level of at least 10.
    RequirePheromones,
    /// Cells strictly within the given Euclidean radius of a point.
    Center(Coord, u32),
}

impl SurvivalCriteria {
    /// Fractions never exceed the whole, and a centre point stays within
    /// the coordinate range a grid can hold.
    pub open spec fn valid(self) -> bool {
        match self {
            SurvivalCriteria::TopPart(pct) => pct <= 10000,
            SurvivalCriteria::BottomPart(pct) => pct <= 10000,
            SurvivalCriteria::Border(pct) => pct <= 10000,
            SurvivalCriteria::Center(center, _) => center.x <= 0xFFFF_FFFFusize && center.y
                <= 0xFFFF_FFFFusize,
            _ => true,
        }
    }
}

/// The number of leading rows (or columns) a fraction of an extent covers.
pub open spec fn fraction_of(extent: int, pct: u32) -> int {
    extent * pct / 10000
}

/// Rows strictly above the fraction line survive.
pub open spec fn survive_top_spec(world: World, pct: u32, coord: Coord) -> bool {
    coord.y < fraction_of(world.grid.size.y as int, pct)
}

/// Rows strictly below the mirrored fraction line survive.
pub open spec fn survive_bottom_spec(world: World, pct: u32, coord: Coord) -> bool {
    coord.y > world.grid.size.y - fraction_of(world.grid.size.y as int, pct)
}

/// Cells within the fraction of any of the four edges survive.
pub open spec fn survive_border_spec(world: World, pct: u32, coord: Coord) -> bool {
    let wt = fraction_of(world.grid.size.x as int, pct);
    let ht = fraction_of(world.grid.size.y as int, pct);
    ||| coord.x <= wt
    ||| coord.y <= ht
    ||| coord.x >= world.grid.size.x - wt
    ||| coord.y >= world.grid.size.y - ht
}

/// Tiles with no pheromone survive.
pub open spec fn survive_no_pheromones_spec(world: World, grid_index: int) -> bool {
    world.grid.tiles@[grid_index].pheromone_level == 0
}

/// Tiles with a pheromone level of at least 10 survive.
pub open spec fn survive_pheromones_spec(world: World, grid_index: int) -> bool {
    world.grid.tiles@[grid_index].pheromone_level >= 10
}

/// Tiles strictly within the Euclidean radius of the centre survive.
pub open spec fn in_center_spec(world: World, grid_index: int, center: Coord, radius: u32) -> bool {
    let c = index_to_coord_spec(grid_index, world.grid.size);
    (c.x - center.x) * (c.x - center.x) + (c.y - center.y) * (c.y - center.y) < radius * radius
}

/// Whether the criterion keeps the tile at `grid_index`.
pub open spec fn match_criteria_spec(world: World, criteria: SurvivalCriteria, grid_index: int) -> bool {
    let coord = index_to_coord_spec(grid_index, world.grid.size);
    match criteria {
        SurvivalCriteria::Center(center, radius) => in_center_spec(world, grid_index, center, radius),
        SurvivalCriteria::NoPheromones => survive_no_pheromones_spec(world, grid_index),
        SurvivalCriteria::TopPart(pct) => survive_top_spec(world, pct, coord),
        SurvivalCriteria::Border(pct) => survive_border_spec(world, pct, coord),
        SurvivalCriteria::BottomPart(pct) => survive_bottom_spec(world, pct, coord),
        SurvivalCriteria::RequirePheromones => survive_pheromones_spec(world, grid_index),
    }
}

/// The rows or columns a fraction covers, computed exactly.
fn fraction_len(extent: usize, pct: u32) -> (r: usize)
    requires
        extent <= 0xFFFF_FFFFusize,
        pct <= 10000,
    ensures
        r == fraction_of(extent as int, pct),
        r <= extent,
{
    proof {
        assert(extent * pct <= extent * 10000 && extent * pct / 10000 <= extent && 0 <= extent * pct)
            by (nonlinear_arith)
            requires
                0 <= extent,
                0 <= pct <= 10000,
        ;
    }
    ((extent as u64) * (pct as u64) / 10000) as usize
}

/// Does the coordinate's row lie in the surviving top fraction?
pub fn survive_top(world: &World, pct: u32, coord: Coord) -> (r: bool)
    requires
        world.grid.wf(),
        pct <= 10000,
    ensures
        r == survive_top_spec(*world, pct, coord),
{
    let max_survive_y = fraction_len(world.grid.size.y, pct);
    coord.y < max_survive_y
}

/// Does the coordinate's row lie in the surviving bottom fraction?
pub fn survive_bottom(world: &World, pct: u32, coord: Coord) -> (r: bool)
    requires
        world.grid.wf(),
        pct <= 10000,
    ensures
        r == survive_bottom_spec(*world, pct, coord),
{
    let min_survive_y = world.grid.size.y - fraction_len(world.grid.size.y, pct);
    coord.y > min_survive_y
}

/// Does the coordinate lie within the surviving border band?
pub fn survive_border(world: &World, pct: u32, coord: Coord) -> (r: bool)
    requires
        world.grid.wf(),
        pct <= 10000,
    ensures
        r == survive_border_spec(*world, pct, coord),
{
    let w = fraction_len(world.grid.size.x, pct);
    let h = fraction_len(world.grid.size.y, pct);
    coord.x <= w || coord.y <= h || coord.x >= world.grid.size.x - w || coord.y
        >= world.grid.size.y - h
}

/// Is the tile free of pheromone?
pub fn survive_no_pheromones(world: &World, grid_index: usize) -> (r: bool)
    requires
        world.grid.wf(),
        grid_index < world.grid.tiles@.len(),
    ensures
        r == survive_no_pheromones_spec(*world, grid_index as int),
{
    world.grid.tiles[grid_index].pheromone_level == 0
}

/// Does the tile hold at least 10 pheromone?
pub fn survive_pheromones(world: &World, grid_index: usize) -> (r: bool)
    requires
        world.grid.wf(),
        grid_index < world.grid.tiles@.len(),
    ensures
        r == survive_pheromones_spec(*world, grid_index as int),
{
    world.grid.tiles[grid_index].pheromone_level >= 10
}

/// Is the tile strictly within the Euclidean radius of the centre point?
pub fn in_center(world: &World, grid_index: usize, center: Coord, radius: u32) -> (r: bool)
    requires
        world.grid.wf(),
        grid_index < world.grid.tiles@.len(),
        center.x <= 0xFFFF_FFFFusize,
        center.y <= 0xFFFF_FFFFusize,
    ensures
        r == in_center_spec(*world, grid_index as int, center, radius),
{
    let w = world.grid.size.x;
    let h = world.grid.size.y;
    let indiv_coord = index_functions::index_to_coord(grid_index, world.grid.size);
    proof {
        assert(indiv_coord.y < h) by (nonlinear_arith)
            requires
                w >= 1,
                h >= 1,
                indiv_coord.y == grid_index as int / w as int,
                grid_index < w * h,
        ;
    }
    let x = (indiv_coord.x as i128) - (center.x as i128);
    let y = (indiv_coord.y as i128) - (center.y as i128);
    proof {
        assert(x * x + y * y <= 0x80000000000000000000000000000000int - 1 && 0 <= x * x && 0 <= y
            * y && (radius as i128) * (radius as i128) <= 0x80000000000000000000000000000000int - 1)
            by (nonlinear_arith)
            requires
                -0x1_0000_0000 <= x <= 0x1_0000_0000,
                -0x1_0000_0000 <= y <= 0x1_0000_0000,
                0 <= radius <= 0x1_0000_0000,
        ;
    }
    x * x + y * y < (radius as i128) * (radius as i128)
}

/// Whether the criterion keeps the tile at `grid_index`.
pub fn match_criteria(world: &World, criteria: SurvivalCriteria, grid_index: usize) -> (r: bool)
    requires
        world.grid.wf(),
        criteria.valid(),
        grid_index < world.grid.tiles@.len(),
    ensures
        r == match_criteria_spec(*world, criteria, grid_index as int),
{
    let coord = index_functions::index_to_coord(grid_index, world.grid.size);
    match criteria {
        SurvivalCriteria::Center(center, radius) => in_center(world, grid_index, center, radius),
        SurvivalCriteria::NoPheromones => survive_no_pheromones(world, grid_index),
        SurvivalCriteria::TopPart(pct) => survive_top(world, pct, coord),
        SurvivalCriteria::Border(pct) => survive_border(world, pct, coord),
        SurvivalCriteria::BottomPart(pct) => survive_bottom(world, pct, coord),
        SurvivalCriteria::RequirePheromones => survive_pheromones(world, grid_index),
    }
}

/// The slot indices, in increasing order, of the first `n` individuals whose
/// tiles the criterion keeps.
pub open spec fn surviving_prefix(world: World, criteria: SurvivalCriteria, n: int) -> Seq<usize>
    decreases n,
{
    if n <= 0 {
        Seq::empty()
    } else {
        let s = surviving_prefix(world, criteria, n - 1);
        if match_criteria_spec(world, criteria, world.individuals@[n - 1].grid_index as int) {
            s.push((n - 1) as usize)
        } else {
            s
        }
    }
}

/// The surviving slot indices of the whole population.
pub open spec fn surviving_indexes_spec(world: World, criteria: SurvivalCriteria) -> Seq<usize> {
    surviving_prefix(world, criteria, world.individuals@.len() as int)
}

/// Every listed index is a live slot whose tile the criterion keeps, each
/// appears once in increasing order, and every kept slot is listed.
pub proof fn lemma_surviving_prefix_members(world: World, criteria: SurvivalCriteria, n: int)
    requires
        0 <= n <= world.individuals@.len(),
        n <= usize::MAX,
    ensures
        surviving_prefix(world, criteria, n).len() <= n,
        forall|j: int|
            0 <= j < surviving_prefix(world, criteria, n).len() ==> {
                let e = #[trigger] surviving_prefix(world, criteria, n)[j];
                &&& e < n
                &&& match_criteria_spec(world, criteria, world.individuals@[e as int].grid_index as int)
            },
        forall|j: int, k: int|
            0 <= j < k < surviving_prefix(world, criteria, n).len() ==> surviving_prefix(
                world,
                criteria,
                n,
            )[j] < surviving_prefix(world, criteria, n)[k],
        forall|i: int|
            0 <= i < n && match_criteria_spec(
                world,
                criteria,
                (#[trigger] world.individuals@[i]).grid_index as int,
            ) ==> surviving_prefix(world, criteria, n).contains(i as usize),
    decreases n,
{
    if n > 0 {
        lemma_surviving_prefix_members(world, criteria, n - 1);
        let prev = surviving_prefix(world, criteria, n - 1);
        let cur = surviving_prefix(world, criteria, n);
        assert forall|j: int| 0 <= j < cur.len() implies {
            let e = #[trigger] cur[j];
            &&& e < n
            &&& match_criteria_spec(world, criteria, world.individuals@[e as int].grid_index as int)
        } by {
            if j < prev.len() {
                assert(cur[j] == prev[j]);
            }
        }
        assert forall|j: int, k: int| 0 <= j < k < cur.len() implies cur[j] < cur[k] by {
            if k < prev.len() {
                assert(cur[j] == prev[j] && cur[k] == prev[k]);
            } else {
                assert(cur[j] == prev[j] && prev[j] < n - 1);
            }
        }
        assert forall|i: int|
            0 <= i < n && match_criteria_spec(
                world,
                criteria,
                (#[trigger] world.individuals@[i]).grid_index as int,
            ) implies cur.contains(i as usize) by {
            if i < n - 1 {
                let j = choose|j: int| 0 <= j < prev.len() && prev[j] == i as usize;
                assert(cur[j] == i as usize);
            } else {
                assert(cur[cur.len() - 1] == i as usize);
            }
        }
    }
}

/// The matching slot indices of all living individuals, in slot order;
/// possibly empty.
pub fn surviving_indexes(world: &World, criteria: SurvivalCriteria) -> (r: Vec<usize>)
    requires
        world.wf(),
        criteria.valid(),
    ensures
        r@ == surviving_indexes_spec(*world, criteria),
{
    let mut res: Vec<usize> = Vec::new();
    let n = world.individuals.len();
    let mut i: usize = 0;
    while i < n
        invariant
            i <= n,
            n == world.individuals@.len(),
            world.wf(),
            criteria.valid(),
            res@ == surviving_prefix(*world, criteria, i as int),
        decreases n - i,
    {
        if match_criteria(world, criteria, world.individuals[i].grid_index) {
            res.push(i);
        }
        i = i + 1;
    }
    res
}

/// The cells the criterion keeps, column by column (all rows of the first
/// column, then the second), independent of occupancy. Indexed by the flat
/// position `k`, with column `k / height` and row `k % height`.
pub open spec fn survive_cells_prefix(world: World, criteria: SurvivalCriteria, k: int) -> Seq<
    Coord,
>
    decreases k,
{
    if k <= 0 {
        Seq::empty()
    } else {
        let s = survive_cells_prefix(world, criteria, k - 1);
        let h = world.grid.size.y as int;
        let coord = Coord { x: ((k - 1) / h) as usize, y: ((k - 1) % h) as usize };
        if match_criteria_spec(
            world,
            criteria,
            index_functions::coord_to_index_spec(coord, world.grid.size),
        ) {
            s.push(coord)
        } else {
            s
        }
    }
}

/// All surviving cells of the grid, for visualisation.
pub open spec fn survive_cells_spec(world: World, criteria: SurvivalCriteria) -> Seq<Coord> {
    survive_cells_prefix(world, criteria, world.grid.tiles@.len() as int)
}

/// Enumerate the coordinates the criterion keeps, independent of occupancy.
/// Visualisation only: not meant for the per-step hot path.
pub fn survive_cells(world: &World, criteria: SurvivalCriteria) -> (r: Vec<Coord>)
    requires
        world.grid.wf(),
        criteria.valid(),
    ensures
        r@ == survive_cells_spec(*world, criteria),
{
    let mut res: Vec<Coord> = Vec::new();
    let w = world.grid.size.x;
    let h = world.grid.size.y;
    let n = world.grid.tiles.len();
    let mut k: usize = 0;
    while k < n
        invariant
            k <= n,
            n == world.grid.tiles@.len(),
            world.grid.wf(),
            w == world.grid.size.x,
            h == world.grid.size.y,
            criteria.valid(),
            res@ == survive_cells_prefix(*world, criteria, k as int),
        decreases n - k,
    {
        let x = k / h;
        let y = k % h;
        proof {
            assert(x < w) by (nonlinear_arith)
                requires
                    w >= 1,
                    h >= 1,
                    x == k as int / h as int,
                    k < w * h,
            ;
            assert(y * w + x < w * h && y * w + x <= usize::MAX) by (nonlinear_arith)
                requires
                    0 <= x < w,
                    0 <= y < h,
                    w * h <= usize::MAX,
                    w * h == n,
            ;
        }
        let coord = Coord { x, y };
        let grid_index = index_functions::coord_to_index(coord, world.grid.size);
        if match_criteria(world, criteria, grid_index) {
            res.push(coord);
        }
        k = k + 1;
    }
    res
}

} // verus!
