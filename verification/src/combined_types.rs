//! The world: the tile field plus the individuals living on it.
//!
//! Invariant: every occupied tile's recorded occupant matches that
//! individual's `grid_index`, and no two individuals share a tile.
use vstd::prelude::*;
use crate::basic_types::{Coord, Dir, Individual, SimError};
use crate::grid::{Grid, GridTile};

verus! {

/// The direction's neighbour of a tile index, as an unbounded integer.
pub open spec fn dir_target_spec(index: int, size: Coord, dir: Dir) -> int {
    match dir {
        Dir::Up => index - size.x,
        Dir::Down => index + size.x,
        Dir::Left => index - 1,
        Dir::Right => index + 1,
    }
}

/// Whether stepping from `index` in `dir` stays on the grid (no wraparound).
pub open spec fn dir_in_bounds_spec(index: int, size: Coord, dir: Dir) -> bool {
    match dir {
        Dir::Up => index >= size.x,
        Dir::Down => index + size.x < size.x * size.y,
        Dir::Left => index % (size.x as int) != 0,
        Dir::Right => index % (size.x as int) != size.x - 1,
    }
}

/// An in-bounds step from an in-bounds tile lands on an in-bounds tile.
pub proof fn lemma_dir_target_in_bounds(index: int, size: Coord, dir: Dir)
    requires
        size.x >= 1,
        size.y >= 1,
        0 <= index < size.x * size.y,
        dir_in_bounds_spec(index, size, dir),
    ensures
        0 <= dir_target_spec(index, size, dir) < size.x * size.y,
{
    let w = size.x as int;
    let h = size.y as int;
    match dir {
        Dir::Up => {},
        Dir::Down => {},
        Dir::Left => {
            assert(index >= 1) by {
                assert(0int % w == 0);
            }
        },
        Dir::Right => {
            assert(index + 1 < w * h) by (nonlinear_arith)
                requires
                    w >= 1,
                    h >= 1,
                    0 <= index < w * h,
                    index % w != w - 1,
            ;
        },
    }
}

pub struct World {
    pub grid: Grid,
    pub individuals: Vec<Individual>,
}

/// How a world after a move attempt relates to the world before it.
///
/// A move outward past an edge or into an occupied tile is a no-op; a legal
/// move updates the individual's `grid_index` and both tiles' occupancy
/// together, leaving pheromones and everyone else untouched.
pub open spec fn move_result(pre: World, post: World, indiv_index: int, dir: Dir) -> bool {
    let from = pre.individuals@[indiv_index].grid_index as int;
    let to = dir_target_spec(from, pre.grid.size, dir);
    &&& post.grid.size == pre.grid.size
    &&& post.grid.tiles@.len() == pre.grid.tiles@.len()
    &&& post.individuals@.len() == pre.individuals@.len()
    &&& if !pre.is_dir_empty_spec(from, dir) {
        &&& post.individuals@ == pre.individuals@
        &&& post.grid.tiles@ == pre.grid.tiles@
    } else {
        &&& post.individuals@[indiv_index].grid_index == to
        &&& post.individuals@[indiv_index].genome == pre.individuals@[indiv_index].genome
        &&& post.individuals@[indiv_index].index == pre.individuals@[indiv_index].index
        &&& post.individuals@[indiv_index].forward == pre.individuals@[indiv_index].forward
        &&& forall|i: int|
            0 <= i < pre.individuals@.len() && i != indiv_index ==> post.individuals@[i]
                == pre.individuals@[i]
        &&& post.grid.tiles@[from].individual_index is None
        &&& post.grid.tiles@[from].pheromone_level == pre.grid.tiles@[from].pheromone_level
        &&& post.grid.tiles@[to].individual_index == Some(indiv_index as usize)
        &&& post.grid.tiles@[to].pheromone_level == pre.grid.tiles@[to].pheromone_level
        &&& forall|t: int|
            0 <= t < pre.grid.tiles@.len() && t != from && t != to ==> post.grid.tiles@[t]
                == pre.grid.tiles@[t]
    }
}

/// Write access to one individual slot.
pub(crate) fn individual_at_mut(v: &mut Vec<Individual>, i: usize) -> (r: &mut Individual)
    requires
        i < old(v)@.len(),
    ensures
        *r == old(v)@[i as int],
        final(v)@ == old(v)@.update(i as int, *final(r)),
{
    &mut v[i]
}

impl World {
    /// Well-formedness: a well-formed grid, slot indices matching vector
    /// order, and occupancy agreeing with positions in both directions.
    pub open spec fn wf(self) -> bool {
        &&& self.grid.wf()
        &&& forall|i: int|
            0 <= i < self.individuals@.len() ==> {
                &&& (#[trigger] self.individuals@[i]).index == i
                &&& self.individuals@[i].grid_index < self.grid.tiles@.len()
                &&& self.grid.tiles@[self.individuals@[i].grid_index as int].individual_index
                    == Some(i as usize)
            }
        &&& forall|t: int|
            0 <= t < self.grid.tiles@.len() ==> ((#[trigger] self.grid.tiles@[t]).individual_index
                matches Some(j) ==> j < self.individuals@.len() && self.individuals@[
                j as int
            ].grid_index == t)
    }

    /// Whether the tile in direction `dir` of `index` is on the grid and
    /// unoccupied.
    pub open spec fn is_dir_empty_spec(self, index: int, dir: Dir) -> bool {
        dir_in_bounds_spec(index, self.grid.size, dir) && self.grid.tiles@[dir_target_spec(
            index,
            self.grid.size,
            dir,
        )].is_empty_spec()
    }

    /// An empty world on a fresh grid.
    pub fn new(size: Coord) -> (r: World)
        requires
            1 <= size.x <= 0xFFFF_FFFFusize,
            1 <= size.y <= 0xFFFF_FFFFusize,
            size.x * size.y <= usize::MAX,
        ensures
            r.wf(),
            r.grid.size == size,
            r.individuals@.len() == 0,
            forall|t: int|
                0 <= t < r.grid.tiles@.len() ==> r.grid.tiles@[t] == GridTile::empty_spec(),
    {
        World { grid: Grid::new(size), individuals: Vec::new() }
    }

    /// False at grid edges (no wraparound) and on occupied target tiles.
    pub fn is_dir_empty(&self, grid_index: usize, dir: Dir) -> (r: bool)
        requires
            self.grid.wf(),
            grid_index < self.grid.tiles@.len(),
        ensures
            r == self.is_dir_empty_spec(grid_index as int, dir),
    {
        let w = self.grid.size.x;
        let len = self.grid.tiles.len();
        match dir {
            Dir::Up => {
                if grid_index < w {
                    return false;
                }
                self.grid.tiles[grid_index - w].is_empty()
            },
            Dir::Down => {
                if w >= len - grid_index {
                    return false;
                }
                self.grid.tiles[grid_index + w].is_empty()
            },
            Dir::Left => {
                if grid_index % w == 0 {
                    return false;
                }
                proof {
                    assert(grid_index >= 1) by {
                        assert(0int % (w as int) == 0);
                    }
                }
                self.grid.tiles[grid_index - 1].is_empty()
            },
            Dir::Right => {
                if grid_index % w == w - 1 {
                    return false;
                }
                proof {
                    lemma_dir_target_in_bounds(grid_index as int, self.grid.size, dir);
                }
                self.grid.tiles[grid_index + 1].is_empty()
            },
        }
    }

    /// Move one individual one tile in `dir`.
    ///
    /// A move outward past an edge or into an occupied tile is a no-op. A
    /// legal move updates the individual's `grid_index` and both tiles'
    /// occupancy together, leaving pheromones and everyone else untouched.
    pub fn move_indiv_dir(&mut self, indiv_index: usize, dir: Dir)
        requires
            old(self).wf(),
            indiv_index < old(self).individuals@.len(),
        ensures
            final(self).wf(),
            move_result(*old(self), *final(self), indiv_index as int, dir),
    {
        let old_index = self.individuals[indiv_index].grid_index;
        if !self.is_dir_empty(old_index, dir) {
            return ;
        }
        let w = self.grid.size.x;
        let len = self.grid.tiles.len();
        proof {
            lemma_dir_target_in_bounds(old_index as int, self.grid.size, dir);
        }
        let new_index = match dir {
            Dir::Right => old_index + 1,
            Dir::Left => old_index - 1,
            Dir::Up => old_index - w,
            Dir::Down => old_index + w,
        };
        {
            let ind = individual_at_mut(&mut self.individuals, indiv_index);
            ind.grid_index = new_index;
        }
        let from_tile = self.grid.tiles[old_index];
        self.grid.tiles.set(
            old_index,
            GridTile { individual_index: None, pheromone_level: from_tile.pheromone_level },
        );
        let to_tile = self.grid.tiles[new_index];
        self.grid.tiles.set(
            new_index,
            GridTile {
                individual_index: Some(indiv_index),
                pheromone_level: to_tile.pheromone_level,
            },
        );
    }

    /// Append one individual, assigning it the next slot index and marking
    /// its start tile occupied; the caller guarantees the tile is free.
    pub fn add_individual(&mut self, indiv: Individual) -> (r: usize)
        requires
            old(self).wf(),
            indiv.grid_index < old(self).grid.tiles@.len(),
            old(self).grid.tiles@[indiv.grid_index as int].is_empty_spec(),
        ensures
            final(self).wf(),
            r == old(self).individuals@.len(),
            final(self).grid.size == old(self).grid.size,
            final(self).individuals@.len() == old(self).individuals@.len() + 1,
            forall|i: int|
                0 <= i < old(self).individuals@.len() ==> final(self).individuals@[i] == old(self).individuals@[i],
            final(self).individuals@[r as int].genome == indiv.genome,
            final(self).individuals@[r as int].grid_index == indiv.grid_index,
            final(self).individuals@[r as int].forward == indiv.forward,
            final(self).individuals@[r as int].index == r,
            final(self).grid.tiles@ == old(self).grid.tiles@.update(
                indiv.grid_index as int,
                GridTile {
                    individual_index: Some(r),
                    pheromone_level: old(self).grid.tiles@[indiv.grid_index as int].pheromone_level,
                },
            ),
    {
        let index = self.individuals.len();
        let mut indiv = indiv;
        indiv.index = index;
        let tile = self.grid.tiles[indiv.grid_index];
        self.grid.tiles.set(
            indiv.grid_index,
            GridTile { individual_index: Some(index), pheromone_level: tile.pheromone_level },
        );
        self.individuals.push(indiv);
        assert(final(self).wf()) by {
            assert forall|i: int| 0 <= i < final(self).individuals@.len() implies {
                &&& (#[trigger] final(self).individuals@[i]).index == i
                &&& final(self).individuals@[i].grid_index < final(self).grid.tiles@.len()
                &&& final(self).grid.tiles@[final(self).individuals@[i].grid_index as int].individual_index
                    == Some(i as usize)
            } by {
                if i < old(self).individuals@.len() {
                    assert(old(self).individuals@[i].index == i);
                }
            }
        }
        index
    }

    /// Replace the population: clear the grid, re-derive slot indices from
    /// vector order, and place everyone, failing loudly on the first pair of
    /// individuals that collide on a start tile.
    ///
    /// Succeeds exactly when all supplied start tiles are pairwise distinct.
    pub fn reset(&mut self, indivs: Vec<Individual>) -> (r: Result<(), SimError>)
        requires
            old(self).grid.wf(),
            forall|i: int|
                0 <= i < indivs@.len() ==> (#[trigger] indivs@[i]).grid_index < old(self).grid.tiles@.len(),
        ensures
            final(self).grid.size == old(self).grid.size,
            final(self).grid.tiles@.len() == old(self).grid.tiles@.len(),
            (r is Ok) <==> (forall|i: int, j: int|
                0 <= i < j < indivs@.len() ==> (#[trigger] indivs@[i]).grid_index != (
                #[trigger] indivs@[j]).grid_index),
            r is Ok ==> {
                &&& final(self).wf()
                &&& final(self).individuals@.len() == indivs@.len()
                &&& forall|i: int|
                    0 <= i < indivs@.len() ==> {
                        &&& (#[trigger] final(self).individuals@[i]).index == i
                        &&& final(self).individuals@[i].grid_index == indivs@[i].grid_index
                        &&& final(self).individuals@[i].genome == indivs@[i].genome
                        &&& final(self).individuals@[i].forward == indivs@[i].forward
                    }
                &&& forall|t: int|
                    0 <= t < final(self).grid.tiles@.len() ==> (#[trigger] final(self).grid.tiles@[t]).pheromone_level == 0
            },
            r matches Err(e) ==> (e matches SimError::StartTileCollision {
                indiv_index,
                grid_index,
            } && indiv_index < indivs@.len() && indivs@[indiv_index as int].grid_index == grid_index
                && exists|j: int|
                0 <= j < indiv_index && (#[trigger] indivs@[j]).grid_index == grid_index),
    {
        self.grid.clear();
        self.individuals = indivs;
        let n = self.individuals.len();
        let mut i: usize = 0;
        while i < n
            invariant
                n == self.individuals@.len(),
                n == indivs@.len(),
                i <= n,
                self.grid.wf(),
                self.grid.size == old(self).grid.size,
                self.grid.tiles@.len() == old(self).grid.tiles@.len(),
                forall|k: int|
                    0 <= k < n ==> {
                        &&& (#[trigger] self.individuals@[k]).grid_index
                            < self.grid.tiles@.len()
                        &&& self.individuals@[k].grid_index == indivs@[k].grid_index
                        &&& self.individuals@[k].genome == indivs@[k].genome
                        &&& self.individuals@[k].forward == indivs@[k].forward
                    },
                forall|k: int| 0 <= k < i ==> (#[trigger] self.individuals@[k]).index == k,
                forall|k: int|
                    i <= k < n ==> (#[trigger] self.individuals@[k]).index == indivs@[k].index,
                forall|k: int|
                    0 <= k < i ==> self.grid.tiles@[(#[trigger] self.individuals@[k]).grid_index as int].individual_index
                        == Some(k as usize),
                forall|t: int|
                    0 <= t < self.grid.tiles@.len() ==> ((#[trigger] self.grid.tiles@[t]).individual_index
                        matches Some(j) ==> j < i && self.individuals@[j as int].grid_index == t),
                forall|t: int|
                    0 <= t < self.grid.tiles@.len() ==> (#[trigger] self.grid.tiles@[t]).pheromone_level
                        == 0,
            decreases n - i,
        {
            let g = {
                let ind = individual_at_mut(&mut self.individuals, i);
                ind.index = i;
                ind.grid_index
            };
            if !self.grid.tiles[g].is_empty() {
                proof {
                    let j = self.grid.tiles@[g as int].individual_index->0;
                    assert(self.individuals@[j as int].grid_index == g);
                    assert(indivs@[j as int].grid_index == g);
                    assert(indivs@[i as int].grid_index == g);
                    assert(exists|jj: int|
                        0 <= jj < i && (#[trigger] indivs@[jj]).grid_index == g);
                }
                return Err(SimError::StartTileCollision { indiv_index: i, grid_index: g });
            }
            self.grid.tiles.set(g, GridTile { individual_index: Some(i), pheromone_level: 0 });
            i = i + 1;
        }
        assert forall|a: int, b: int| 0 <= a < b < indivs@.len() implies (
        #[trigger] indivs@[a]).grid_index != (#[trigger] indivs@[b]).grid_index by {
            assert(self.grid.tiles@[self.individuals@[a].grid_index as int].individual_index
                == Some(a as usize));
            assert(self.grid.tiles@[self.individuals@[b].grid_index as int].individual_index
                == Some(b as usize));
        }
        Ok(())
    }
}

} // verus!
