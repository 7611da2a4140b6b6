//! The game as mathematics: one state, and a function for each move.
//!
//! Lengths are counted in millionths of a playfield unit, speeds in
//! thousandths of a unit per second and time in milliseconds. In these units
//! every formula of the game is exact integer arithmetic.

use crate::rng::chain;
use vstd::prelude::*;

verus! {

/// Millionths in one playfield unit.
pub const MICRO: i64 = 1_000_000;

/// Acceleration of the bird in units per second squared; in the scaled
/// units, the change of speed per millisecond.
pub const GRAVITY: i64 = -30;

/// Height below which the bird may not fall.
pub const FLOOR_Y: i64 = -174_000_000;

/// Half the height of the playfield; a jump is refused from there up.
pub const HALF_WINDOW_Y: i64 = 256_000_000;

/// A jump at a speed above this one is a boosted jump.
pub const BOOST_THRESHOLD: i64 = 7_000;

/// Speed after a plain jump.
pub const JUMP_SPEED: i64 = 14_000;

/// Speed after a boosted jump.
pub const BOOST_SPEED: i64 = 22_000;

/// Half the width of the bird's box.
pub const BIRD_HALF_WIDTH: i64 = 10_000_000;

/// Half the height of the bird's box.
pub const BIRD_HALF_HEIGHT: i64 = 16_000_000;

/// Half the width of a pipe's box.
pub const PIPE_HALF_WIDTH: i64 = 24_000_000;

/// Half the height of a pipe's box.
pub const PIPE_HALF_HEIGHT: i64 = 158_000_000;

/// Number of pipe slots; each holds a lower and an upper pipe.
pub const SLOTS: usize = 5;

/// Number of pipes.
pub const PIPES: usize = 10;

/// Horizontal position of the first slot at the start of a session.
pub const FIRST_PIPE_X: i64 = 300_000_000;

/// Horizontal distance between neighbouring slots at the start of a session.
pub const PIPE_SPACING: i64 = 200_000_000;

/// Height of an upper pipe above the lower pipe of its slot.
pub const PIPE_GAP: i64 = 450_000_000;

/// A pipe that has scrolled this far left moves back to the right edge.
pub const RECYCLE_X: i64 = -500_000_000;

/// The right edge, where a recycled pipe reappears.
pub const RESPAWN_X: i64 = 500_000_000;

/// Offset of every slot before the first session.
pub const IDLE_OFFSET: i32 = -100;

/// Scroll speed factor at score zero.
pub const BASE_PACE: i64 = 100;

/// The score stops adding to the scroll speed from here on.
pub const PACE_CAP: u32 = 100;

/// A position on the playfield.
pub struct Point {
    pub x: int,
    pub y: int,
}

/// Everything that a session's outcome depends on.
pub struct Sim {
    /// No session is running.
    pub over: bool,
    /// Height of the bird.
    pub bird_y: int,
    /// Vertical speed of the bird.
    pub speed: int,
    /// Points scored in this session.
    pub score: nat,
    /// The pipes in slot order, the lower pipe of a slot before the upper.
    pub pipes: Seq<Point>,
}

/// Horizontal position of pipe `i` at the start of a session.
pub open spec fn start_x(i: int) -> int {
    FIRST_PIPE_X + (i / 2) * PIPE_SPACING
}

/// Vertical position of pipe `i` in a slot whose offset is `offset` units.
pub open spec fn pipe_y(i: int, offset: int) -> int {
    offset * MICRO + (i % 2) * PIPE_GAP
}

/// The state of a machine on which no session has been started.
pub open spec fn sim_fresh() -> Sim {
    Sim {
        over: true,
        bird_y: 0,
        speed: 0,
        score: 0,
        pipes: Seq::new(
            PIPES as nat,
            |i: int| Point { x: start_x(i), y: pipe_y(i, IDLE_OFFSET as int) },
        ),
    }
}

/// The state at the start of a session. It depends on the seed alone.
pub open spec fn sim_start(seed: int) -> Sim {
    Sim {
        over: false,
        bird_y: 0,
        speed: 0,
        score: 0,
        pipes: Seq::new(
            PIPES as nat,
            |i: int| Point { x: start_x(i), y: pipe_y(i, chain(seed, (i / 2) as nat)) },
        ),
    }
}

/// The speed that a jump sets.
pub open spec fn jump_speed(speed: int) -> int {
    if speed > BOOST_THRESHOLD {
        BOOST_SPEED as int
    } else {
        JUMP_SPEED as int
    }
}

/// A jump: nothing once the session is over or from the upper half of the
/// playfield, else a new speed.
pub open spec fn sim_jump(s: Sim) -> Sim {
    if !s.over && s.bird_y < HALF_WINDOW_Y {
        Sim { speed: jump_speed(s.speed), ..s }
    } else {
        s
    }
}

/// Height after `d` milliseconds of free fall, before the floor is looked at.
pub open spec fn fall_y(y: int, speed: int, d: int) -> int {
    y + speed * d + (GRAVITY / 2) * d * d
}

/// Speed after `d` milliseconds of free fall.
pub open spec fn fall_speed(speed: int, d: int) -> int {
    speed + GRAVITY * d
}

/// A physics step of `d` milliseconds.
pub open spec fn sim_physics(s: Sim, d: int) -> Sim {
    if s.over {
        s
    } else if fall_y(s.bird_y, s.speed, d) < FLOOR_Y {
        Sim { over: true, bird_y: FLOOR_Y as int, speed: fall_speed(s.speed, d), ..s }
    } else {
        Sim { bird_y: fall_y(s.bird_y, s.speed, d), speed: fall_speed(s.speed, d), ..s }
    }
}

/// Whether the bird's box at height `bird_y` and the box of a pipe at `p`
/// share a point. Both boxes are closed: touching counts.
pub open spec fn overlaps(bird_y: int, p: Point) -> bool {
    &&& BIRD_HALF_WIDTH >= p.x - PIPE_HALF_WIDTH
    &&& p.x + PIPE_HALF_WIDTH >= -BIRD_HALF_WIDTH
    &&& bird_y + BIRD_HALF_HEIGHT >= p.y - PIPE_HALF_HEIGHT
    &&& p.y + PIPE_HALF_HEIGHT >= bird_y - BIRD_HALF_HEIGHT
}

/// Whether the bird touches one of the first `n` pipes.
pub open spec fn hits_before(bird_y: int, pipes: Seq<Point>, n: int) -> bool {
    exists|i: int| 0 <= i < n && i < pipes.len() && overlaps(bird_y, #[trigger] pipes[i])
}

/// Whether the bird touches any pipe.
pub open spec fn sim_collides(s: Sim) -> bool {
    hits_before(s.bird_y, s.pipes, s.pipes.len() as int)
}

/// How far the pipes scroll left in `d` milliseconds at the given score.
pub open spec fn scroll_shift(score: nat, d: int) -> int {
    let pace = BASE_PACE + if score < PACE_CAP { score as int } else { PACE_CAP as int };
    d * 2 * pace * 1000
}

/// Whether a pipe at `p` leaves the field when everything moves left by `shift`.
pub open spec fn recycles(p: Point, shift: int) -> bool {
    p.x - shift <= RECYCLE_X
}

/// Pipe `i` after a scroll by `shift`: moved left, or back at the right edge
/// at the height that its slot's new offset gives.
pub open spec fn scrolled(p: Point, i: int, shift: int, offsets: Seq<i32>) -> Point {
    if recycles(p, shift) {
        Point { x: RESPAWN_X as int, y: pipe_y(i, offsets[i / 2] as int) }
    } else {
        Point { x: p.x - shift, y: p.y }
    }
}

/// Number of lower pipes among the first `n` pipes that a scroll by `shift` recycles.
pub open spec fn levels(pipes: Seq<Point>, shift: int, n: nat) -> nat
    decreases n,
{
    if n == 0 {
        0
    } else {
        let i = (n - 1) as nat;
        levels(pipes, shift, i) + if i % 2 == 0 && i < pipes.len() && recycles(pipes[i as int], shift) {
            1nat
        } else {
            0nat
        }
    }
}

/// A score raised by `gain`, held at the largest score that can be stored.
pub open spec fn raised(score: nat, gain: nat) -> nat {
    if score + gain <= u32::MAX {
        score + gain
    } else {
        u32::MAX as nat
    }
}

/// Points that a collision step of `d` milliseconds brings when nothing is hit.
pub open spec fn sim_gain(s: Sim, d: int) -> nat {
    levels(s.pipes, scroll_shift(s.score, d), s.pipes.len())
}

/// The pipes after a scroll of `d` milliseconds.
pub open spec fn sim_scroll(s: Sim, d: int, offsets: Seq<i32>) -> Sim {
    let shift = scroll_shift(s.score, d);
    Sim {
        score: raised(s.score, sim_gain(s, d)),
        pipes: Seq::new(s.pipes.len(), |i: int| scrolled(s.pipes[i], i, shift, offsets)),
        ..s
    }
}

/// A collision step of `d` milliseconds: nothing once the session is over;
/// the end of the session if the bird touches a pipe, before anything moves;
/// else a scroll.
pub open spec fn sim_advance(s: Sim, d: int, offsets: Seq<i32>) -> Sim {
    if s.over {
        s
    } else if sim_collides(s) {
        Sim { over: true, ..s }
    } else {
        sim_scroll(s, d, offsets)
    }
}

/// Whether a collision step of `d` milliseconds scores.
pub open spec fn sim_levels_up(s: Sim, d: int) -> bool {
    !s.over && !sim_collides(s) && sim_gain(s, d) > 0
}

/// The end of the session.
pub open spec fn sim_game_over(s: Sim) -> Sim {
    Sim { over: true, ..s }
}

} // verus!
