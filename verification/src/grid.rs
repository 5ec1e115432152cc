//! The tile field: per-tile occupancy and pheromone level.
use vstd::prelude::*;
use crate::basic_types::Coord;

verus! {

/// One grid cell: the slot index of its occupant, if any, and a saturating
/// pheromone level.
#[derive(Debug, Clone, Copy, PartialEq, Eq)]
pub struct GridTile {
    pub individual_index: Option<usize>,
    pub pheromone_level: u8,
}

impl GridTile {
    /// An unoccupied tile with no pheromone.
    pub open spec fn empty_spec() -> GridTile {
        GridTile { individual_index: None, pheromone_level: 0 }
    }

    /// Whether the tile has no occupant.
    pub open spec fn is_empty_spec(self) -> bool {
        self.individual_index is None
    }

    pub fn is_empty(&self) -> (r: bool)
        ensures
            r == self.is_empty_spec(),
    {
        self.individual_index.is_none()
    }
}

/// A pheromone level after a saturating increment.
pub open spec fn inc_level(level: u8, inc: u8) -> u8 {
    if level + inc > 255 {
        255u8
    } else {
        (level + inc) as u8
    }
}

/// A pheromone level after a flooring decrement.
pub open spec fn dec_level(level: u8, dec: u8) -> u8 {
    if level - dec < 0 {
        0u8
    } else {
        (level - dec) as u8
    }
}

/// A pheromone level after `n` saturating increments of `inc`.
pub open spec fn inc_level_n(level: u8, inc: u8, n: nat) -> u8
    decreases n,
{
    if n == 0 {
        level
    } else {
        inc_level(inc_level_n(level, inc, (n - 1) as nat), inc)
    }
}

/// A pheromone level after `n` flooring decrements of `dec`.
pub open spec fn dec_level_n(level: u8, dec: u8, n: nat) -> u8
    decreases n,
{
    if n == 0 {
        level
    } else {
        dec_level(dec_level_n(level, dec, (n - 1) as nat), dec)
    }
}

/// Closed form of repeated saturating increments: the level climbs linearly
/// and then sticks at 255.
pub proof fn lemma_inc_level_n(level: u8, inc: u8, n: nat)
    ensures
        inc_level_n(level, inc, n) == if level + n * inc > 255 {
            255u8
        } else {
            (level + n * inc) as u8
        },
    decreases n,
{
    if n == 0 {
        assert(n * inc == 0);
    } else {
        lemma_inc_level_n(level, inc, (n - 1) as nat);
        assert((n - 1) * inc + inc == n * inc) by (nonlinear_arith);
    }
}

/// Closed form of repeated flooring decrements: the level falls linearly and
/// then sticks at 0.
pub proof fn lemma_dec_level_n(level: u8, dec: u8, n: nat)
    ensures
        dec_level_n(level, dec, n) == if level - n * dec < 0 {
            0u8
        } else {
            (level - n * dec) as u8
        },
    decreases n,
{
    if n == 0 {
        assert(n * dec == 0);
    } else {
        lemma_dec_level_n(level, dec, (n - 1) as nat);
        assert((n - 1) * dec + dec == n * dec) by (nonlinear_arith);
    }
}

/// Any positive increment, repeated at least 255 times, saturates every
/// starting level at exactly 255.
pub proof fn lemma_pheromone_saturates(level: u8, inc: u8, n: nat)
    requires
        inc >= 1,
        n >= 255,
    ensures
        inc_level_n(level, inc, n) == 255,
{
    lemma_inc_level_n(level, inc, n);
    assert(n * inc >= n * 1) by (nonlinear_arith)
        requires
            inc >= 1,
            n >= 0,
    ;
}

/// Any positive decrement, repeated at least 255 times, floors every
/// starting level at exactly 0.
pub proof fn lemma_pheromone_floors(level: u8, dec: u8, n: nat)
    requires
        dec >= 1,
        n >= 255,
    ensures
        dec_level_n(level, dec, n) == 0,
{
    lemma_dec_level_n(level, dec, n);
    assert(n * dec >= n * 1) by (nonlinear_arith)
        requires
            dec >= 1,
            n >= 0,
    ;
}

/// The fixed-size tile field. Size is immutable after construction.
#[derive(Debug, Clone)]
pub struct Grid {
    pub tiles: Vec<GridTile>,
    pub size: Coord,
}

impl Grid {
    /// Well-formedness: positive bounded extents whose product is exactly
    /// the tile count.
    pub open spec fn wf(self) -> bool {
        &&& 1 <= self.size.x <= 0xFFFF_FFFFusize
        &&& 1 <= self.size.y <= 0xFFFF_FFFFusize
        &&& self.tiles@.len() == self.size.x * self.size.y
    }

    /// Allocate `size.x * size.y` empty tiles.
    pub fn new(size: Coord) -> (r: Grid)
        requires
            1 <= size.x <= 0xFFFF_FFFFusize,
            1 <= size.y <= 0xFFFF_FFFFusize,
            size.x * size.y <= usize::MAX,
        ensures
            r.wf(),
            r.size == size,
            forall|t: int|
                0 <= t < r.tiles@.len() ==> r.tiles@[t] == GridTile::empty_spec(),
    {
        let n = size.x * size.y;
        let mut tiles: Vec<GridTile> = Vec::new();
        let mut i: usize = 0;
        while i < n
            invariant
                i <= n,
                tiles@.len() == i,
                forall|t: int| 0 <= t < i ==> tiles@[t] == GridTile::empty_spec(),
            decreases n - i,
        {
            tiles.push(GridTile { individual_index: None, pheromone_level: 0 });
            i = i + 1;
        }
        Grid { tiles, size }
    }

    /// Zero occupancy and pheromone on every tile.
    pub fn clear(&mut self)
        ensures
            final(self).size == old(self).size,
            final(self).tiles@.len() == old(self).tiles@.len(),
            forall|t: int|
                0 <= t < final(self).tiles@.len() ==> final(self).tiles@[t]
                    == GridTile::empty_spec(),
    {
        let n = self.tiles.len();
        let mut i: usize = 0;
        while i < n
            invariant
                i <= n,
                self.tiles@.len() == n,
                self.size == old(self).size,
                forall|t: int| 0 <= t < i ==> self.tiles@[t] == GridTile::empty_spec(),
            decreases n - i,
        {
            self.tiles.set(i, GridTile { individual_index: None, pheromone_level: 0 });
            i = i + 1;
        }
    }

    /// Saturating pheromone increment on one tile; nothing else changes.
    pub fn increment_pheromone(&mut self, index: usize, inc: u8)
        requires
            index < old(self).tiles@.len(),
        ensures
            final(self).size == old(self).size,
            final(self).tiles@.len() == old(self).tiles@.len(),
            final(self).tiles@[index as int].pheromone_level == inc_level(
                old(self).tiles@[index as int].pheromone_level,
                inc,
            ),
            final(self).tiles@[index as int].individual_index == old(self).tiles@[index as int].individual_index,
            forall|t: int|
                0 <= t < old(self).tiles@.len() && t != index ==> final(self).tiles@[t] == old(self).tiles@[t],
    {
        let tile = self.tiles[index];
        let level = tile.pheromone_level.saturating_add(inc);
        self.tiles.set(index, GridTile { individual_index: tile.individual_index, pheromone_level: level });
    }

    /// One decay tick: every tile loses one pheromone, flooring at zero;
    /// occupancy is untouched.
    pub fn decay_pheromones(&mut self)
        ensures
            final(self).size == old(self).size,
            final(self).tiles@.len() == old(self).tiles@.len(),
            forall|t: int|
                0 <= t < old(self).tiles@.len() ==> (#[trigger] final(self).tiles@[t]) == (GridTile {
                    individual_index: old(self).tiles@[t].individual_index,
                    pheromone_level: dec_level(old(self).tiles@[t].pheromone_level, 1),
                }),
    {
        let n = self.tiles.len();
        let mut i: usize = 0;
        while i < n
            invariant
                i <= n,
                self.tiles@.len() == n,
                n == old(self).tiles@.len(),
                self.size == old(self).size,
                forall|t: int|
                    0 <= t < i ==> (#[trigger] self.tiles@[t]) == (GridTile {
                        individual_index: old(self).tiles@[t].individual_index,
                        pheromone_level: dec_level(old(self).tiles@[t].pheromone_level, 1),
                    }),
                forall|t: int| i <= t < n ==> (#[trigger] self.tiles@[t]) == old(self).tiles@[t],
            decreases n - i,
        {
            let tile = self.tiles[i];
            self.tiles.set(
                i,
                GridTile {
                    individual_index: tile.individual_index,
                    pheromone_level: tile.pheromone_level.saturating_sub(1),
                },
            );
            i = i + 1;
        }
    }

    /// Flooring pheromone decrement on one tile; nothing else changes.
    pub fn decrement_pheromone(&mut self, index: usize, dec: u8)
        requires
            index < old(self).tiles@.len(),
        ensures
            final(self).size == old(self).size,
            final(self).tiles@.len() == old(self).tiles@.len(),
            final(self).tiles@[index as int].pheromone_level == dec_level(
                old(self).tiles@[index as int].pheromone_level,
                dec,
            ),
            final(self).tiles@[index as int].individual_index == old(self).tiles@[index as int].individual_index,
            forall|t: int|
                0 <= t < old(self).tiles@.len() && t != index ==> final(self).tiles@[t] == old(self).tiles@[t],
    {
        let tile = self.tiles[index];
        let level = tile.pheromone_level.saturating_sub(dec);
        self.tiles.set(index, GridTile { individual_index: tile.individual_index, pheromone_level: level });
    }
}

} // verus!
