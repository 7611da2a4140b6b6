//! The machine that plays, and logs what it plays.

use crate::bounds::{lemma_energy_bounds, pipe_in_field, BIRD_Y_MAX};
use crate::codec::{encode_spec, encode_trace};
use crate::delta::Delta;
use crate::machine::{
    lemma_end_wf, lemma_machine_follows_sim, lemma_machine_jump_wf, lemma_new_play_wf,
    lemma_new_wf, lemma_running_ready, lemma_tick_ready, lemma_tick_wf, logged, machine_advance,
    machine_apply_physics, machine_end, machine_game_over, machine_jump, machine_moved,
    machine_new, machine_new_play, machine_wf, ready_to_end, Machine,
};
use crate::model::{
    hits_before, levels, overlaps, scrolled, sim_advance, sim_collides, sim_fresh, sim_game_over,
    sim_jump, sim_levels_up, sim_physics, sim_start, Point, Sim, BASE_PACE, BIRD_HALF_HEIGHT, BIRD_HALF_WIDTH, BOOST_SPEED, BOOST_THRESHOLD,
    FIRST_PIPE_X, FLOOR_Y, GRAVITY, HALF_WINDOW_Y, IDLE_OFFSET, JUMP_SPEED, MICRO, PACE_CAP, PIPES,
    PIPE_GAP, PIPE_HALF_HEIGHT, PIPE_HALF_WIDTH, PIPE_SPACING, RECYCLE_X, RESPAWN_X, SLOTS,
};
use crate::rng::{chain, chain_offsets, lemma_chain_range};
use crate::trace::{copy_trace, TraceItem};
use vstd::prelude::*;

verus! {

/// A position as the machine stores it, in millionths of a playfield unit.
#[derive(Clone, Copy, Debug, PartialEq, Eq)]
pub struct Coord {
    pub x: i64,
    pub y: i64,
}

impl Coord {
    /// The position as a point of the model.
    pub open spec fn point(self) -> Point {
        Point { x: self.x as int, y: self.y as int }
    }
}

/// The bird: where it is and how fast it rises.
pub struct Bird {
    position: Coord,
    speed: i64,
}

impl Bird {
    /// Where the bird is.
    pub closed spec fn spec_position(self) -> Coord {
        self.position
    }

    /// How fast the bird rises, in thousandths of a unit per second.
    pub closed spec fn spec_speed(self) -> i64 {
        self.speed
    }

    /// A bird at rest at the origin.
    pub fn new() -> (bird: Bird)
        ensures
            bird.spec_position() == (Coord { x: 0, y: 0 }),
            bird.spec_speed() == 0,
    {
        Bird { speed: 0, position: Coord { x: 0, y: 0 } }
    }
}

struct Pipe {
    position: Coord,
}

/// The machine: a game, the log of its session and the best session so far.
pub struct FlazkyBird {
    prover_mode: bool,
    game_is_over: bool,
    bird: Bird,
    pipes: Vec<Pipe>,
    score: u32,
    high_score: u32,
    current_treacer: Vec<TraceItem>,
    high_score_treacer: Vec<TraceItem>,
}

impl View for FlazkyBird {
    type V = Machine;

    closed spec fn view(&self) -> Machine {
        Machine {
            sim: Sim {
                over: self.game_is_over,
                bird_y: self.bird.position.y as int,
                speed: self.bird.speed as int,
                score: self.score as nat,
                pipes: Seq::new(self.pipes@.len(), |i: int| self.pipes@[i].position.point()),
            },
            recording: !self.prover_mode,
            trace: self.current_treacer@,
            best_score: self.high_score as nat,
            best_trace: self.high_score_treacer@,
        }
    }
}

/// Whether the bird's box at height `bird_y` touches the box of a pipe at `pipe`.
fn touches(bird_y: i64, pipe: Coord) -> (hit: bool)
    requires
        FLOOR_Y <= bird_y <= BIRD_Y_MAX,
        pipe_in_field(pipe.point()),
    ensures
        hit == overlaps(bird_y as int, pipe.point()),
{
    BIRD_HALF_WIDTH >= pipe.x - PIPE_HALF_WIDTH && pipe.x + PIPE_HALF_WIDTH >= -BIRD_HALF_WIDTH
        && bird_y + BIRD_HALF_HEIGHT >= pipe.y - PIPE_HALF_HEIGHT && pipe.y + PIPE_HALF_HEIGHT
        >= bird_y - BIRD_HALF_HEIGHT
}

impl FlazkyBird {
    /// The horizontal position of the bird.
    pub closed spec fn bird_x(&self) -> int {
        self.bird.position.x as int
    }

    /// The invariant: that of the machine as mathematics, and a bird that
    /// has not left the vertical axis.
    pub open spec fn wf(&self) -> bool {
        &&& machine_wf(self@)
        &&& self.bird_x() == 0
    }

    /// A machine on which nothing has been played. In prover mode it keeps no log.
    pub fn new(prover_mode: bool) -> (game: FlazkyBird)
        ensures
            game.wf(),
            game@ == machine_new(!prover_mode),
    {
        let mut pipes: Vec<Pipe> = Vec::new();
        let mut x: i64 = FIRST_PIPE_X;
        let mut slot: usize = 0;
        while slot < SLOTS
            invariant
                slot <= SLOTS,
                x == FIRST_PIPE_X + slot * PIPE_SPACING,
                pipes@.len() == 2 * slot,
                forall|i: int|
                    0 <= i < pipes@.len() ==> (#[trigger] pipes@[i]).position.point()
                        == sim_fresh().pipes[i],
            decreases SLOTS - slot,
        {
            let y: i64 = (IDLE_OFFSET as i64) * MICRO;
            pipes.push(Pipe { position: Coord { x, y } });
            pipes.push(Pipe { position: Coord { x, y: y + PIPE_GAP } });
            x += PIPE_SPACING;
            slot += 1;
        }
        let game = FlazkyBird {
            prover_mode,
            game_is_over: true,
            bird: Bird::new(),
            pipes,
            score: 0,
            high_score: 0,
            current_treacer: Vec::new(),
            high_score_treacer: Vec::new(),
        };
        proof {
            assert(game@.sim.pipes =~= sim_fresh().pipes);
            lemma_new_wf(!prover_mode);
        }
        game
    }

    /// Starts a session: the bird at rest at the origin, no score, the slots
    /// at their first positions with offsets chained from the seed.
    pub fn new_play(&mut self, rand_seed: i32)
        requires
            old(self).wf(),
            old(self)@.sim.over,
        ensures
            final(self).wf(),
            final(self)@ == machine_new_play(old(self)@, rand_seed),
            final(self)@.sim == sim_start(rand_seed as int),
    {
        self.bird = Bird::new();
        let offsets = chain_offsets(rand_seed);
        let mut slot: usize = 0;
        while slot < SLOTS
            invariant
                slot <= SLOTS,
                self.pipes@.len() == PIPES,
                forall|k: int| 0 <= k < 5 ==> offsets[k] == chain(rand_seed as int, k as nat),
                forall|i: int|
                    0 <= i < 2 * slot ==> (#[trigger] self.pipes@[i]).position.point() == sim_start(
                        rand_seed as int,
                    ).pipes[i],
                self.prover_mode == old(self).prover_mode,
                self.high_score == old(self).high_score,
                self.current_treacer == old(self).current_treacer,
                self.high_score_treacer == old(self).high_score_treacer,
                self.bird.position == (Coord { x: 0, y: 0 }),
                self.bird.speed == 0,
            decreases SLOTS - slot,
        {
            let x: i64 = FIRST_PIPE_X + (slot as i64) * PIPE_SPACING;
            let y: i64 = (offsets[slot] as i64) * MICRO;
            proof {
                lemma_chain_range(rand_seed as int, slot as nat);
            }
            self.pipes[2 * slot] = Pipe { position: Coord { x, y } };
            self.pipes[2 * slot + 1] = Pipe { position: Coord { x, y: y + PIPE_GAP } };
            slot += 1;
        }
        self.score = 0;
        self.game_is_over = false;
        if !self.prover_mode {
            self.current_treacer = Vec::new();
            self.current_treacer.push(TraceItem::NewPlay(rand_seed));
        }
        proof {
            let after = machine_new_play(old(self)@, rand_seed);
            assert(self@.sim.pipes =~= after.sim.pipes);
            lemma_new_play_wf(old(self)@, rand_seed);
        }
    }

    /// Ends the session that `m` describes, which this machine is in but
    /// for the mark that the session is over.
    fn close(&mut self, Ghost(m): Ghost<Machine>)
        requires
            ready_to_end(m),
            old(self)@ == (Machine { sim: Sim { over: old(self)@.sim.over, ..m.sim }, ..m }),
            old(self).bird_x() == 0,
        ensures
            final(self).wf(),
            final(self)@ == machine_end(m),
    {
        self.game_is_over = true;
        if !self.prover_mode {
            self.current_treacer.push(TraceItem::GameOver);
        }
        if self.score > self.high_score {
            self.high_score = self.score;
            self.high_score_treacer = copy_trace(&self.current_treacer);
        }
        proof {
            lemma_end_wf(m);
        }
    }

    /// A physics step: the bird falls for the length of the step; below the
    /// floor it is put back on it and the session ends. No session, no step.
    /// Returns whether the session is over.
    pub fn apply_physics(&mut self, delta_seconds: Delta) -> (over: bool)
        requires
            old(self).wf(),
        ensures
            final(self).wf(),
            final(self)@ == machine_apply_physics(old(self)@, delta_seconds),
            final(self)@.sim == sim_physics(old(self)@.sim, delta_seconds.spec_millis() as int),
            over == final(self)@.sim.over,
    {
        proof {
            lemma_machine_follows_sim(self@, TraceItem::ApplyPhysics(delta_seconds));
        }
        if self.game_is_over {
            return true;
        }
        let d: i64 = delta_seconds.millis() as i64;
        let item = TraceItem::ApplyPhysics(delta_seconds);
        if !self.prover_mode {
            self.current_treacer.push(item);
        }
        let speed: i64 = self.bird.speed;
        let y: i64 = self.bird.position.y;
        proof {
            lemma_energy_bounds(y as int, speed as int);
            assert(-664_059_904_000 <= speed * d <= 664_059_904_000) by (nonlinear_arith)
                requires
                    -162_124 <= speed <= 162_124,
                    0 <= d <= 4_096_000,
            ;
            assert(0 <= d * d <= 16_777_216_000_000) by (nonlinear_arith)
                requires
                    0 <= d <= 4_096_000,
            ;
            assert((GRAVITY / 2) * d * d == -15 * (d * d)) by (nonlinear_arith);
        }
        let fallen: i64 = y + speed * d + (GRAVITY / 2) * d * d;
        self.bird.speed = speed + GRAVITY * d;
        if fallen < FLOOR_Y {
            self.bird.position.y = FLOOR_Y;
            self.game_is_over = true;
            proof {
                lemma_tick_ready(old(self)@, item);
            }
            let ghost moved = machine_moved(old(self)@, item);
            self.close(Ghost(moved));
            return true;
        }
        self.bird.position.y = fallen;
        proof {
            lemma_tick_wf(old(self)@, item);
        }
        false
    }

    /// A jump: below the middle of the playfield the bird takes the speed
    /// of a jump, or of a boosted jump if it is already rising fast. No
    /// session, no jump.
    pub fn jump(&mut self)
        requires
            old(self).wf(),
        ensures
            final(self).wf(),
            final(self)@ == machine_jump(old(self)@),
            final(self)@.sim == sim_jump(old(self)@.sim),
    {
        proof {
            lemma_machine_follows_sim(self@, TraceItem::Jump);
        }
        if self.game_is_over {
            return ;
        }
        if !self.prover_mode {
            self.current_treacer.push(TraceItem::Jump);
        }
        if self.bird.position.y < HALF_WINDOW_Y {
            if self.bird.speed > BOOST_THRESHOLD {
                self.bird.speed = BOOST_SPEED;
            } else {
                self.bird.speed = JUMP_SPEED;
            }
        }
        proof {
            lemma_machine_jump_wf(old(self)@);
        }
    }

    /// Where the bird is.
    pub fn bird_position(&self) -> (position: Coord)
        ensures
            position.x == self.bird_x(),
            position.y == self@.sim.bird_y,
    {
        Coord { x: self.bird.position.x, y: self.bird.position.y }
    }

    /// How fast the bird rises, in thousandths of a unit per second.
    pub fn bird_speed(&self) -> (speed: i64)
        ensures
            speed == self@.sim.speed,
    {
        self.bird.speed
    }

    /// Where the pipes are, in slot order, the lower pipe of a slot before the upper.
    pub fn get_pipe_positions(&self) -> (positions: Vec<Coord>)
        ensures
            positions@.len() == self@.sim.pipes.len(),
            forall|i: int|
                0 <= i < positions@.len() ==> (#[trigger] positions@[i]).point()
                    == self@.sim.pipes[i],
    {
        let mut positions: Vec<Coord> = Vec::new();
        let mut i: usize = 0;
        while i < self.pipes.len()
            invariant
                i <= self.pipes@.len(),
                positions@.len() == i,
                forall|j: int|
                    0 <= j < i ==> (#[trigger] positions@[j]).point() == self@.sim.pipes[j],
            decreases self.pipes@.len() - i,
        {
            let pipe = &self.pipes[i];
            positions.push(Coord { x: pipe.position.x, y: pipe.position.y });
            i += 1;
        }
        positions
    }

    /// A collision step: if the bird touches a pipe the session ends and
    /// nothing moves; else every pipe scrolls left, faster at a higher score,
    /// and each slot that leaves the field comes back at the right edge
    /// with its entry of `rng_offsets` as offset, for one point. No session,
    /// no step. Returns whether the session is over, and whether a point
    /// was scored.
    pub fn check_collision_and_move_pipes(
        &mut self,
        delta_seconds: Delta,
        rng_offsets: [i32; 5],
    ) -> (outcome: (bool, bool))
        requires
            old(self).wf(),
        ensures
            final(self).wf(),
            final(self)@ == machine_advance(old(self)@, delta_seconds, rng_offsets),
            final(self)@.sim == sim_advance(
                old(self)@.sim,
                delta_seconds.spec_millis() as int,
                rng_offsets@,
            ),
            outcome.0 == final(self)@.sim.over,
            outcome.1 == sim_levels_up(old(self)@.sim, delta_seconds.spec_millis() as int),
    {
        proof {
            lemma_machine_follows_sim(
                self@,
                TraceItem::CheckCollisionAndMovePipes(delta_seconds, rng_offsets),
            );
        }
        if self.game_is_over {
            return (true, false);
        }
        let d: i64 = delta_seconds.millis() as i64;
        let item = TraceItem::CheckCollisionAndMovePipes(delta_seconds, rng_offsets);
        if !self.prover_mode {
            self.current_treacer.push(item);
        }
        let ghost before = old(self)@.sim;
        let bird_y: i64 = self.bird.position.y;
        proof {
            lemma_energy_bounds(before.bird_y, before.speed);
        }
        let mut hit = false;
        let mut i: usize = 0;
        while i < PIPES && !hit
            invariant
                i <= PIPES,
                hit ==> i < PIPES && overlaps(before.bird_y, before.pipes[i as int]),
                self@.sim == before,
                before.pipes.len() == PIPES,
                forall|j: int| 0 <= j < PIPES ==> pipe_in_field(#[trigger] before.pipes[j]),
                FLOOR_Y <= bird_y <= BIRD_Y_MAX,
                bird_y == before.bird_y,
                !hits_before(before.bird_y, before.pipes, i as int),
            decreases PIPES - i + if hit { 0int } else { 1int },
        {
            assert(pipe_in_field(before.pipes[i as int]));
            if touches(bird_y, self.pipes[i].position) {
                hit = true;
            } else {
                i += 1;
            }
        }
        if hit {
            self.game_is_over = true;
            proof {
                lemma_tick_ready(old(self)@, item);
            }
            let ghost moved = machine_moved(old(self)@, item);
            self.close(Ghost(moved));
            return (true, false);
        }
        let pace: i64 = BASE_PACE + if self.score < PACE_CAP {
            self.score as i64
        } else {
            PACE_CAP as i64
        };
        assert(0 <= d * 2 * pace <= 1_638_400_000) by (nonlinear_arith)
            requires
                0 <= d <= 4_096_000,
                100 <= pace <= 200,
        ;
        let shift: i64 = d * 2 * pace * 1000;
        let mut gained: u32 = 0;
        let mut i: usize = 0;
        while i < PIPES
            invariant
                i <= PIPES,
                self.pipes@.len() == PIPES,
                before.pipes.len() == PIPES,
                forall|j: int| 0 <= j < PIPES ==> pipe_in_field(#[trigger] before.pipes[j]),
                0 <= shift <= 1_638_400_000_000,
                forall|j: int|
                    0 <= j < i ==> (#[trigger] self.pipes@[j]).position.point() == scrolled(
                        before.pipes[j],
                        j,
                        shift as int,
                        rng_offsets@,
                    ),
                forall|j: int|
                    i <= j < PIPES ==> (#[trigger] self.pipes@[j]).position.point()
                        == before.pipes[j],
                gained == levels(before.pipes, shift as int, i as nat),
                gained <= i,
                self.score == old(self).score,
                self.bird == old(self).bird,
                self.game_is_over == old(self).game_is_over,
                self.prover_mode == old(self).prover_mode,
                self.high_score == old(self).high_score,
                self.high_score_treacer == old(self).high_score_treacer,
                self.current_treacer@ == logged(old(self)@, item),
            decreases PIPES - i,
        {
            let x: i64 = self.pipes[i].position.x - shift;
            if x <= RECYCLE_X {
                let y: i64 = (rng_offsets[i / 2] as i64) * MICRO + ((i % 2) as i64) * PIPE_GAP;
                self.pipes[i] = Pipe { position: Coord { x: RESPAWN_X, y } };
                if i % 2 == 0 {
                    gained += 1;
                }
            } else {
                self.pipes[i].position.x = x;
            }
            i += 1;
        }
        self.score = if gained > u32::MAX - self.score {
            u32::MAX
        } else {
            self.score + gained
        };
        proof {
            let after = machine_advance(old(self)@, delta_seconds, rng_offsets);
            assert(self@.sim.pipes =~= after.sim.pipes);
            lemma_tick_wf(old(self)@, item);
        }
        (false, gained > 0)
    }

    /// The points scored in the session.
    pub fn score(&self) -> (score: u32)
        ensures
            score == self@.sim.score,
    {
        self.score
    }

    /// Whether no session is running.
    pub fn is_over(&self) -> (over: bool)
        ensures
            over == self@.sim.over,
    {
        self.game_is_over
    }

    /// Ends the session, if one is running: the end is logged, and a score
    /// above the best one becomes the best, together with its log.
    pub fn game_over(&mut self)
        requires
            old(self).wf(),
        ensures
            final(self).wf(),
            final(self)@ == machine_game_over(old(self)@),
            final(self)@.sim == sim_game_over(old(self)@.sim),
    {
        proof {
            lemma_machine_follows_sim(self@, TraceItem::GameOver);
        }
        if !self.game_is_over {
            proof {
                lemma_running_ready(self@);
            }
            self.close(Ghost(self@));
        }
    }

    /// Whether the machine logs its moves.
    pub fn is_recording(&self) -> (recording: bool)
        ensures
            recording == self@.recording,
    {
        !self.prover_mode
    }

    /// The log of the session that is running, or of the last one.
    pub fn get_trace(&self) -> (trace: Vec<TraceItem>)
        ensures
            trace@ == self@.trace,
    {
        copy_trace(&self.current_treacer)
    }

    /// The log of the session that reached the best score.
    pub fn get_high_score_treacer(&self) -> (trace: Vec<TraceItem>)
        ensures
            trace@ == self@.best_trace,
    {
        copy_trace(&self.high_score_treacer)
    }

    /// The bytes of the log to hand in after a session that reached a new
    /// best score: those of the best log, if no session is running and the
    /// score of the last one is the best score and not zero.
    pub fn new_high_score_trace(&self) -> (exported: Option<Vec<u8>>)
        ensures
            exported is Some <==> self@.sim.over && self@.sim.score == self@.best_score
                && self@.best_score > 0,
            exported matches Some(bytes) ==> bytes@ == encode_spec(self@.best_trace),
    {
        if self.game_is_over && self.score == self.high_score && self.high_score > 0 {
            Some(encode_trace(&self.high_score_treacer))
        } else {
            None
        }
    }

    /// The best score of all finished sessions.
    pub fn get_high_score(&self) -> (score: u32)
        ensures
            score == self@.best_score,
    {
        self.high_score
    }
}

} // verus!
