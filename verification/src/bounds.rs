//! What holds of every state that the game can reach, and why each move keeps it.

use crate::model::{
    fall_speed, fall_y, jump_speed, scroll_shift, sim_advance, sim_collides, sim_fresh,
    sim_game_over, sim_jump, sim_physics, sim_scroll, sim_start, Point, Sim, BASE_PACE, FLOOR_Y,
    GRAVITY, PACE_CAP, PIPES, PIPE_GAP, RECYCLE_X, SLOTS,
};
use crate::rng::lemma_chain_range;
use vstd::prelude::*;

verus! {

/// Bound on the bird's energy during a session: that of a boosted jump from
/// the middle of the playfield.
pub const ENERGY_MAX: i64 = 15_844_000_000;

/// No bird in a session is faster than this, up or down.
pub const SPEED_MAX: i64 = 162_124;

/// No bird is higher than this.
pub const BIRD_Y_MAX: i64 = 264_066_666;

/// Rightmost position of a pipe.
pub const PIPE_X_MAX: i64 = 1_100_000_000;

/// Lowest position of a pipe.
pub const PIPE_Y_MIN: i64 = -2_147_483_648_000_000;

/// Highest position of a pipe.
pub const PIPE_Y_MAX: i64 = 2_147_484_097_000_000;

/// Twice the sum of kinetic and potential energy per unit of mass. A physics
/// step leaves it unchanged, whatever its length.
pub open spec fn energy(y: int, speed: int) -> int {
    speed * speed - 2 * GRAVITY * y
}

/// Whether a pipe lies where pipes can lie.
pub open spec fn pipe_in_field(p: Point) -> bool {
    &&& RECYCLE_X < p.x <= PIPE_X_MAX
    &&& PIPE_Y_MIN <= p.y <= PIPE_Y_MAX
}

/// Whether two pipes can be the lower and the upper pipe of one slot.
pub open spec fn paired(lower: Point, upper: Point) -> bool {
    &&& upper.x == lower.x
    &&& upper.y == lower.y + PIPE_GAP
}

/// The invariant of the game: ten pipes in the field, paired slot by slot; a
/// score that can be stored; a bird above the floor and, during a session,
/// of bounded energy.
pub open spec fn sim_wf(s: Sim) -> bool {
    &&& s.pipes.len() == PIPES
    &&& s.score <= u32::MAX
    &&& s.bird_y >= FLOOR_Y
    &&& !s.over ==> energy(s.bird_y, s.speed) <= ENERGY_MAX
    &&& forall|i: int| 0 <= i < PIPES ==> pipe_in_field(#[trigger] s.pipes[i])
    &&& forall|i: int| 0 <= i < PIPES && i % 2 == 0 ==> paired(#[trigger] s.pipes[i], s.pipes[i + 1])
}

/// Bounded energy above the floor bounds speed and height.
pub proof fn lemma_energy_bounds(y: int, speed: int)
    requires
        y >= FLOOR_Y,
        energy(y, speed) <= ENERGY_MAX,
    ensures
        -SPEED_MAX <= speed <= SPEED_MAX,
        y <= BIRD_Y_MAX,
{
    assert(-162_124 <= speed <= 162_124) by (nonlinear_arith)
        requires
            speed * speed <= 26_284_000_000,
    ;
    assert(speed * speed >= 0) by (nonlinear_arith);
}

/// Free fall keeps the energy.
pub proof fn lemma_fall_keeps_energy(y: int, speed: int, d: int)
    ensures
        energy(fall_y(y, speed, d), fall_speed(speed, d)) == energy(y, speed),
{
    let v = speed - 30 * d;
    let h = y + speed * d + (-15) * d * d;
    assert(v * v + 60 * h == speed * speed + 60 * y) by (nonlinear_arith)
        requires
            v == speed - 30 * d,
            h == y + speed * d + (-15) * d * d,
    ;
}

/// A machine on which nothing has been played is in order.
pub proof fn lemma_fresh_wf()
    ensures
        sim_wf(sim_fresh()),
{
}

/// A session starts in order.
pub proof fn lemma_start_wf(seed: int)
    ensures
        sim_wf(sim_start(seed)),
{
    let s = sim_start(seed);
    assert forall|i: int| 0 <= i < PIPES implies pipe_in_field(#[trigger] s.pipes[i]) by {
        lemma_chain_range(seed, (i / 2) as nat);
    }
    assert forall|i: int| 0 <= i < PIPES && i % 2 == 0 implies paired(
        #[trigger] s.pipes[i],
        s.pipes[i + 1],
    ) by {
    }
}

/// A jump keeps the invariant.
pub proof fn lemma_jump_wf(s: Sim)
    requires
        sim_wf(s),
    ensures
        sim_wf(sim_jump(s)),
{
    let v = jump_speed(s.speed);
    assert(v * v <= 484_000_000) by (nonlinear_arith)
        requires
            v == 14_000 || v == 22_000,
    ;
}

/// A physics step keeps the invariant.
pub proof fn lemma_physics_wf(s: Sim, d: int)
    requires
        sim_wf(s),
    ensures
        sim_wf(sim_physics(s, d)),
{
    lemma_fall_keeps_energy(s.bird_y, s.speed, d);
}

/// A collision step keeps the invariant.
pub proof fn lemma_advance_wf(s: Sim, d: int, offsets: Seq<i32>)
    requires
        sim_wf(s),
        0 <= d,
        offsets.len() == SLOTS,
    ensures
        sim_wf(sim_advance(s, d, offsets)),
{
    if !s.over && !sim_collides(s) {
        let t = sim_scroll(s, d, offsets);
        let shift = scroll_shift(s.score, d);
        assert(shift >= 0) by (nonlinear_arith)
            requires
                shift == d * 2 * (BASE_PACE + if s.score < PACE_CAP {
                    s.score as int
                } else {
                    PACE_CAP as int
                }) * 1000,
                d >= 0,
        ;
        assert forall|i: int| 0 <= i < PIPES implies pipe_in_field(#[trigger] t.pipes[i]) by {
        }
        assert forall|i: int| 0 <= i < PIPES && i % 2 == 0 implies paired(
            #[trigger] t.pipes[i],
            t.pipes[i + 1],
        ) by {
        }
    }
}

/// The end of a session keeps the invariant.
pub proof fn lemma_game_over_wf(s: Sim)
    requires
        sim_wf(s),
    ensures
        sim_wf(sim_game_over(s)),
{
}

} // verus!
