//! Action handlers: translate one network activation into a world mutation.
use vstd::prelude::*;
use crate::basic_types::{Action, Activation, Coord, Dir};
use crate::combined_types::{move_result, World};
use crate::grid::{inc_level, GridTile};
use crate::index_functions;
use crate::index_functions::index_to_coord_spec;
use vstd::arithmetic::div_mod::lemma_fundamental_div_mod;

verus! {

/// A move or emission fires only when the signal strength clears this
/// threshold, 0.2 at scale.
pub const ACTION_THRESHOLD: i64 = 2000;

/// Pheromone emission reaches tiles within this Euclidean radius.
pub const PHEROMONE_RADIUS: usize = 5;

/// Per-step decay factor of the emission falloff, `exp(-1/12)` in
/// millionths: the emitted level at squared distance `d2` falls off as this
/// factor to the `d2`-th power.
pub const EMIT_FALLOFF: u64 = 920044;

/// The emission falloff factor at squared distance `d2`, in millionths,
/// rounding down at each squaring step.
pub open spec fn emit_falloff_pow(d2: nat) -> int
    decreases d2,
{
    if d2 == 0 {
        1000000
    } else {
        emit_falloff_pow((d2 - 1) as nat) * (EMIT_FALLOFF as int) / 1000000
    }
}

/// The pheromone level emitted onto a tile at squared distance `d2`: a base
/// of 10 scaled by the falloff, rounded to the nearest integer.
pub open spec fn emit_level(d2: nat) -> int {
    (10 * emit_falloff_pow(d2) + 500000) / 1000000
}

/// The falloff stays within [0, 1] and the emitted level within [0, 10].
pub proof fn lemma_emit_level_range(d2: nat)
    ensures
        0 <= emit_falloff_pow(d2) <= 1000000,
        0 <= emit_level(d2) <= 10,
    decreases d2,
{
    if d2 > 0 {
        lemma_emit_level_range((d2 - 1) as nat);
        let p = emit_falloff_pow((d2 - 1) as nat);
        assert(0 <= p * (EMIT_FALLOFF as int) <= 1000000 * 1000000) by (nonlinear_arith)
            requires
                0 <= p <= 1000000,
                0 <= EMIT_FALLOFF <= 1000000,
        ;
    }
}

/// Compute the emitted pheromone level at squared distance `d2`.
fn pheromone_level(d2: usize) -> (r: u8)
    ensures
        r == emit_level(d2 as nat),
        r <= 10,
{
    let mut p: u64 = 1000000;
    let mut k: usize = 0;
    while k < d2
        invariant
            k <= d2,
            p == emit_falloff_pow(k as nat),
            0 <= p <= 1000000,
        decreases d2 - k,
    {
        proof {
            lemma_emit_level_range((k + 1) as nat);
        }
        p = p * EMIT_FALLOFF / 1000000;
        k = k + 1;
    }
    proof {
        lemma_emit_level_range(d2 as nat);
    }
    ((10 * p + 500000) / 1000000) as u8
}

/// The squared Euclidean distance between a tile and a centre coordinate.
pub open spec fn emit_d2(t: int, center: Coord, size: Coord) -> int {
    let tc = index_to_coord_spec(t, size);
    (tc.x - center.x) * (tc.x - center.x) + (tc.y - center.y) * (tc.y - center.y)
}

/// A tile after an emission centred at `center`: within the emission radius
/// its pheromone is incremented by the falloff level, elsewhere it is
/// untouched; occupancy never changes.
pub open spec fn emitted_tile(old_tile: GridTile, d2: int) -> GridTile {
    if 0 <= d2 <= 25 {
        GridTile {
            individual_index: old_tile.individual_index,
            pheromone_level: inc_level(old_tile.pheromone_level, emit_level(d2 as nat) as u8),
        }
    } else {
        old_tile
    }
}

/// A coordinate difference of six or more puts the square beyond the
/// emission radius.
proof fn lemma_far_square(d: int)
    requires
        d <= -6 || d >= 6,
    ensures
        d * d >= 36,
{
    assert(d * d >= 36) by (nonlinear_arith)
        requires
            d <= -6 || d >= 6,
    ;
}

/// Increment pheromone in a disk of radius [`PHEROMONE_RADIUS`] around the
/// centre tile, by [`emit_level`] of the squared distance, saturating.
fn emit_pheromones(world: &mut World, center_index: usize)
    requires
        old(world).grid.wf(),
        center_index < old(world).grid.tiles@.len(),
    ensures
        final(world).grid.wf(),
        final(world).grid.size == old(world).grid.size,
        final(world).grid.tiles@.len() == old(world).grid.tiles@.len(),
        final(world).individuals@ == old(world).individuals@,
        forall|t: int|
            0 <= t < old(world).grid.tiles@.len() ==> final(world).grid.tiles@[t] == emitted_tile(
                old(world).grid.tiles@[t],
                emit_d2(t, index_to_coord_spec(center_index as int, old(world).grid.size), old(world).grid.size),
            ),
{
    let w = world.grid.size.x;
    let h = world.grid.size.y;
    let n_tiles = world.grid.tiles.len();
    let ghost size = world.grid.size;
    let center = index_functions::index_to_coord(center_index, world.grid.size);
    let cx = center.x;
    let cy = center.y;
    proof {
        assert(cx < w && cy < h) by (nonlinear_arith)
            requires
                w >= 1,
                h >= 1,
                cx == center_index as int % w as int,
                cy == center_index as int / w as int,
                center_index < w * h,
        ;
    }
    let x_lo = if cx >= PHEROMONE_RADIUS {
        cx - PHEROMONE_RADIUS
    } else {
        0
    };
    let x_hi = if w - 1 - cx >= PHEROMONE_RADIUS {
        cx + PHEROMONE_RADIUS
    } else {
        w - 1
    };
    let y_lo = if cy >= PHEROMONE_RADIUS {
        cy - PHEROMONE_RADIUS
    } else {
        0
    };
    let y_hi = if h - 1 - cy >= PHEROMONE_RADIUS {
        cy + PHEROMONE_RADIUS
    } else {
        h - 1
    };
    let x_end = x_hi + 1;
    let y_end = y_hi + 1;
    let mut x = x_lo;
    while x < x_end
        invariant
            old(world).grid.wf(),
            center == index_to_coord_spec(center_index as int, size),
            size == old(world).grid.size,
            w == size.x,
            h == size.y,
            cx == center.x && cx < w,
            cy == center.y && cy < h,
            x_lo <= x,
            x_lo == if cx >= 5 { cx - 5 } else { 0 },
            x_hi == if cx + 5 <= w - 1 { cx + 5 } else { w - 1 },
            y_lo == if cy >= 5 { cy - 5 } else { 0 },
            y_hi == if cy + 5 <= h - 1 { cy + 5 } else { h - 1 },
            x_hi < w,
            y_hi < h,
            x_end == x_hi + 1,
            y_end == y_hi + 1,
            x <= x_end,
            world.grid.size == size,
            world.grid.tiles@.len() == old(world).grid.tiles@.len(),
            n_tiles == old(world).grid.tiles@.len(),
            world.individuals@ == old(world).individuals@,
            forall|t: int|
                #![trigger index_to_coord_spec(t, size)]
                0 <= t < old(world).grid.tiles@.len() ==> {
                    let tc = index_to_coord_spec(t, size);
                    if x_lo <= tc.x < x && y_lo <= tc.y <= y_hi {
                        world.grid.tiles@[t] == emitted_tile(
                            old(world).grid.tiles@[t],
                            emit_d2(t, center, size),
                        )
                    } else {
                        world.grid.tiles@[t] == old(world).grid.tiles@[t]
                    }
                },
        decreases x_end - x,
    {
        let mut y = y_lo;
        while y < y_end
            invariant
                old(world).grid.wf(),
                center == index_to_coord_spec(center_index as int, size),
                size == old(world).grid.size,
                w == size.x,
                h == size.y,
                cx == center.x && cx < w,
                cy == center.y && cy < h,
                x_lo <= x <= x_hi,
                x_lo == if cx >= 5 { cx - 5 } else { 0 },
                x_hi == if cx + 5 <= w - 1 { cx + 5 } else { w - 1 },
                y_lo == if cy >= 5 { cy - 5 } else { 0 },
                y_hi == if cy + 5 <= h - 1 { cy + 5 } else { h - 1 },
                x_hi < w,
                y_hi < h,
                x_end == x_hi + 1,
                y_end == y_hi + 1,
                y_lo <= y <= y_end,
                world.grid.size == size,
                world.grid.tiles@.len() == old(world).grid.tiles@.len(),
                n_tiles == old(world).grid.tiles@.len(),
                world.individuals@ == old(world).individuals@,
                forall|t: int|
                    #![trigger index_to_coord_spec(t, size)]
                    0 <= t < old(world).grid.tiles@.len() ==> {
                        let tc = index_to_coord_spec(t, size);
                        if (x_lo <= tc.x < x && y_lo <= tc.y <= y_hi) || (tc.x == x && y_lo <= tc.y
                            < y) {
                            world.grid.tiles@[t] == emitted_tile(
                                old(world).grid.tiles@[t],
                                emit_d2(t, center, size),
                            )
                        } else {
                            world.grid.tiles@[t] == old(world).grid.tiles@[t]
                        }
                    },
            decreases y_end - y,
        {
            proof {
                assert(y * w + x < w * h && y * w + x <= usize::MAX) by (nonlinear_arith)
                    requires
                        0 <= x < w,
                        0 <= y < h,
                        w * h <= usize::MAX,
                        w * h == n_tiles,
                ;
            }
            let t = index_functions::coord_to_index(Coord { x, y }, world.grid.size);
            proof {
                index_functions::lemma_index_coord_round_trip(Coord { x, y }, size);
            }
            let dx: i64 = (x as i64) - (cx as i64);
            let dy: i64 = (y as i64) - (cy as i64);
            proof {
                assert(dx * dx == (x - cx) * (x - cx) && dy * dy == (y - cy) * (y - cy) && 0 <= dx
                    * dx <= 25 && 0 <= dy * dy <= 25) by (nonlinear_arith)
                    requires
                        -5 <= dx <= 5,
                        -5 <= dy <= 5,
                        dx == x - cx,
                        dy == y - cy,
                ;
            }
            let d2 = dx * dx + dy * dy;
            if d2 <= 25 {
                let level = pheromone_level(d2 as usize);
                world.grid.increment_pheromone(t, level);
            }
            proof {
                assert forall|u: int|
                    0 <= u < old(world).grid.tiles@.len() && u != t implies index_to_coord_spec(
                    u,
                    size,
                ) != (Coord { x, y }) by {
                    if index_to_coord_spec(u, size) == (Coord { x, y }) {
                        lemma_fundamental_div_mod(u, w as int);
                        let q = u / (w as int);
                        let r0 = u % (w as int);
                        assert(0 <= q < h) by (nonlinear_arith)
                            requires
                                w >= 1,
                                h >= 1,
                                0 <= u < w * h,
                                q == u / (w as int),
                        ;
                        assert(q == y && r0 == x);
                        assert((w as int) * q == y * w) by (nonlinear_arith)
                            requires
                                q == y,
                        ;
                        assert(u == y * w + x);
                    }
                }
            }
            y = y + 1;
        }
        x = x + 1;
    }
    proof {
        assert forall|t: int| 0 <= t < old(world).grid.tiles@.len() implies final(world).grid.tiles@[t] == emitted_tile(
            old(world).grid.tiles@[t],
            emit_d2(t, center, size),
        ) by {
            let tc = index_to_coord_spec(t, size);
            lemma_fundamental_div_mod(t, w as int);
            assert(0 <= tc.x < w);
            assert(0 <= tc.y < h) by {
                assert(tc.y == t / (w as int));
                assert(t < w * h);
                assert(t / (w as int) < h) by (nonlinear_arith)
                    requires
                        w >= 1,
                        h >= 1,
                        t < w * h,
                        t >= 0,
                ;
            }
            if !(x_lo <= tc.x <= x_hi && y_lo <= tc.y <= y_hi) {
                if tc.x < x_lo {
                    lemma_far_square(tc.x - cx);
                } else if tc.x > x_hi {
                    lemma_far_square(tc.x - cx);
                } else if tc.y < y_lo {
                    lemma_far_square(tc.y - cy);
                } else {
                    lemma_far_square(tc.y - cy);
                }
                assert((tc.x - cx) * (tc.x - cx) >= 0 && (tc.y - cy) * (tc.y - cy) >= 0)
                    by (nonlinear_arith);
                assert(emit_d2(t, center, size) >= 36);
            }
        }
    }
}

/// How the world after one applied activation relates to the world before
/// it. Moves fire only when the signal clears [`ACTION_THRESHOLD`]: forward
/// moves and emissions on a positive signal, axis moves on either sign with
/// the direction taken from it. The two extension-point actions are
/// explicit no-ops, as is every sub-threshold signal.
pub open spec fn action_result(pre: World, activation: Activation, post: World) -> bool {
    &&& post.grid.size == pre.grid.size
    &&& post.grid.tiles@.len() == pre.grid.tiles@.len()
    &&& post.individuals@.len() == pre.individuals@.len()
    &&& match activation.action {
            Action::MoveForward => {
                if activation.weight > ACTION_THRESHOLD {
                    move_result(
                        pre,
                        post,
                        activation.indiv_index as int,
                        pre.individuals@[activation.indiv_index as int].forward,
                    )
                } else {
                    post == pre
                }
            },
            Action::MoveX => {
                if activation.weight > ACTION_THRESHOLD {
                    move_result(pre, post, activation.indiv_index as int, Dir::Right)
                } else if activation.weight < -ACTION_THRESHOLD {
                    move_result(pre, post, activation.indiv_index as int, Dir::Left)
                } else {
                    post == pre
                }
            },
            Action::MoveY => {
                if activation.weight > ACTION_THRESHOLD {
                    move_result(pre, post, activation.indiv_index as int, Dir::Up)
                } else if activation.weight < -ACTION_THRESHOLD {
                    move_result(pre, post, activation.indiv_index as int, Dir::Down)
                } else {
                    post == pre
                }
            },
            Action::EmitPheromones => {
                if activation.weight > ACTION_THRESHOLD {
                    &&& post.individuals@ == pre.individuals@
                    &&& forall|t: int|
                        0 <= t < pre.grid.tiles@.len() ==> post.grid.tiles@[t]
                            == emitted_tile(
                            pre.grid.tiles@[t],
                            emit_d2(
                                t,
                                index_to_coord_spec(
                                    pre.individuals@[activation.indiv_index as int].grid_index as int,
                                    pre.grid.size,
                                ),
                                pre.grid.size,
                            ),
                        )
                } else {
                    post == pre
                }
            },
            Action::SetOscPeriod => post == pre,
            Action::SetResponsiveness => post == pre,
        }
}

/// Apply one activation to the world.
pub fn perform_action(activation: &Activation, world: &mut World)
    requires
        old(world).wf(),
        activation.indiv_index < old(world).individuals@.len(),
    ensures
        final(world).wf(),
        action_result(*old(world), *activation, *final(world)),
{
    match activation.action {
        Action::MoveForward => {
            if activation.weight <= ACTION_THRESHOLD {
                return ;
            }
            let dir = world.individuals[activation.indiv_index].forward;
            world.move_indiv_dir(activation.indiv_index, dir);
        },
        Action::MoveX => {
            if activation.weight > ACTION_THRESHOLD {
                world.move_indiv_dir(activation.indiv_index, Dir::Right);
            } else if activation.weight < -ACTION_THRESHOLD {
                world.move_indiv_dir(activation.indiv_index, Dir::Left);
            }
        },
        Action::MoveY => {
            if activation.weight > ACTION_THRESHOLD {
                world.move_indiv_dir(activation.indiv_index, Dir::Up);
            } else if activation.weight < -ACTION_THRESHOLD {
                world.move_indiv_dir(activation.indiv_index, Dir::Down);
            }
        },
        Action::EmitPheromones => {
            if activation.weight <= ACTION_THRESHOLD {
                return ;
            }
            let center = world.individuals[activation.indiv_index].grid_index;
            emit_pheromones(world, center);
            proof {
                assert forall|t: int| 0 <= t < world.grid.tiles@.len() implies (
                #[trigger] world.grid.tiles@[t]).individual_index == old(
                    world).grid.tiles@[t].individual_index by {
                    assert(world.grid.tiles@[t] == emitted_tile(
                        old(world).grid.tiles@[t],
                        emit_d2(
                            t,
                            index_to_coord_spec(center as int, old(world).grid.size),
                            old(world).grid.size,
                        ),
                    ));
                }
                assert(world.wf());
            }
        },
        Action::SetOscPeriod => {},
        Action::SetResponsiveness => {},
    }
}

} // verus!
