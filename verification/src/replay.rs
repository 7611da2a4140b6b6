//! Checking a finished trace and playing it again.

use crate::game::FlazkyBird;
use crate::model::{sim_advance, sim_game_over, sim_jump, sim_physics, sim_start, Sim};
use crate::trace::TraceItem;
use vstd::prelude::*;

verus! {

/// Why a trace is refused.
#[derive(Clone, Copy, Debug, PartialEq, Eq, Structural)]
pub enum TraceError {
    /// The trace is too short, does not start with a new play, does not end
    /// with a game over, or cannot be read.
    MalformedTrace,
    /// The trace goes on after the end of its session: a second step that
    /// reports the end, a second game over, or a second new play.
    IntegrityFailure,
}

/// The state that `item` leads to from `s`.
pub open spec fn sim_apply(s: Sim, item: TraceItem) -> Sim {
    match item {
        TraceItem::NewPlay(seed) => sim_start(seed as int),
        TraceItem::Jump => sim_jump(s),
        TraceItem::ApplyPhysics(delta) => sim_physics(s, delta.spec_millis() as int),
        TraceItem::CheckCollisionAndMovePipes(delta, offsets) => sim_advance(
            s,
            delta.spec_millis() as int,
            offsets@,
        ),
        TraceItem::GameOver => sim_game_over(s),
    }
}

/// Whether `item` is a physics step or a collision step.
pub open spec fn is_tick(item: TraceItem) -> bool {
    item is ApplyPhysics || item is CheckCollisionAndMovePipes
}

/// Whether `item` is a step that, made in state `s`, reports the end of the
/// session: because the session ends in it, or because it was over before.
pub open spec fn reports_end(s: Sim, item: TraceItem) -> bool {
    is_tick(item) && sim_apply(s, item).over
}

/// How far a replay has come.
pub struct Progress {
    /// The state of the game.
    pub sim: Sim,
    /// A step has reported the end of the session.
    pub collided: bool,
    /// A game over has been read.
    pub closed: bool,
}

/// The replay of one item after the first, or `None` where the item may
/// not follow what has been replayed.
pub open spec fn replay_step(p: Progress, item: TraceItem) -> Option<Progress> {
    let sim = sim_apply(p.sim, item);
    match item {
        TraceItem::NewPlay(_) => None,
        TraceItem::Jump => Some(Progress { sim, ..p }),
        TraceItem::GameOver => if p.closed {
            None
        } else {
            Some(Progress { sim, closed: true, ..p })
        },
        _ => if !sim.over {
            Some(Progress { sim, ..p })
        } else if p.collided {
            None
        } else {
            Some(Progress { sim, collided: true, ..p })
        },
    }
}

/// The replay of a whole trace from a machine on which nothing has been
/// played, or `None` where the trace does not start with a new play or an
/// item may not follow those before it.
pub open spec fn replay(items: Seq<TraceItem>) -> Option<Progress>
    decreases items.len(),
{
    if items.len() == 0 {
        None
    } else if items.len() == 1 {
        match items[0] {
            TraceItem::NewPlay(seed) => Some(
                Progress { sim: sim_start(seed as int), collided: false, closed: false },
            ),
            _ => None,
        }
    } else {
        match replay(items.drop_last()) {
            Some(p) => replay_step(p, items.last()),
            None => None,
        }
    }
}

/// Whether a trace has the shape of a finished session: more than two
/// items, a new play first and a game over last.
pub open spec fn well_shaped(items: Seq<TraceItem>) -> bool {
    &&& items.len() > 2
    &&& items[0] is NewPlay
    &&& items.last() is GameOver
}

/// What the check of a trace gives: the score that its replay ends with,
/// or why the trace is refused.
pub open spec fn verify_spec(items: Seq<TraceItem>) -> Result<nat, TraceError> {
    if !well_shaped(items) {
        Err(TraceError::MalformedTrace)
    } else {
        match replay(items) {
            Some(p) => Ok(p.sim.score),
            None => Err(TraceError::IntegrityFailure),
        }
    }
}

/// Replaying one more item is one more step.
pub proof fn lemma_replay_push(items: Seq<TraceItem>, item: TraceItem)
    requires
        items.len() > 0,
    ensures
        replay(items.push(item)) == match replay(items) {
            Some(p) => replay_step(p, item),
            None => None,
        },
{
    assert(items.push(item).drop_last() == items);
}

/// A trace that can be replayed starts with a new play.
pub proof fn lemma_replay_starts(items: Seq<TraceItem>)
    requires
        replay(items) is Some,
    ensures
        items.len() > 0,
        items[0] is NewPlay,
    decreases items.len(),
{
    if items.len() > 1 {
        lemma_replay_starts(items.drop_last());
    }
}

/// Once a replay has failed, it stays failed.
pub proof fn lemma_replay_stays_failed(items: Seq<TraceItem>, k: int)
    requires
        0 < k <= items.len(),
        replay(items.take(k)) is None,
    ensures
        replay(items) is None,
    decreases items.len() - k,
{
    if k < items.len() {
        assert(items.drop_last().take(k) == items.take(k));
        lemma_replay_stays_failed(items.drop_last(), k);
    } else {
        assert(items.take(k) == items);
    }
}

/// Whether a trace has the shape of a finished session.
pub fn check_shape(trace: &Vec<TraceItem>) -> (ok: bool)
    ensures
        ok == well_shaped(trace@),
{
    let n = trace.len();
    if n <= 2 {
        return false;
    }
    let starts = match trace[0] {
        TraceItem::NewPlay(_) => true,
        _ => false,
    };
    let ends = match trace[n - 1] {
        TraceItem::GameOver => true,
        _ => false,
    };
    starts && ends
}

/// Checks a finished trace and plays it again on a machine of its own.
/// Returns the score that the replay ends with. A trace without the shape
/// of a finished session is malformed, and nothing of it is replayed; one
/// that goes on after its end fails at the first item that does so.
pub fn verify_trace(trace: &Vec<TraceItem>) -> (checked: Result<u32, TraceError>)
    ensures
        match checked {
            Ok(score) => verify_spec(trace@) == Ok::<nat, TraceError>(score as nat),
            Err(e) => verify_spec(trace@) == Err::<nat, TraceError>(e),
        },
{
    if !check_shape(trace) {
        return Err(TraceError::MalformedTrace);
    }
    let n = trace.len();
    let mut game = FlazkyBird::new(true);
    let mut collided = false;
    let mut closed = false;
    if let TraceItem::NewPlay(seed) = trace[0] {
        game.new_play(seed);
    }
    let mut i: usize = 1;
    while i < n
        invariant
            1 <= i <= n,
            n == trace@.len(),
            well_shaped(trace@),
            game.wf(),
            replay(trace@.take(i as int)) == Some(Progress { sim: game@.sim, collided, closed }),
        decreases n - i,
    {
        let item = trace[i];
        proof {
            assert(trace@.take(i as int).push(item) == trace@.take(i + 1));
            lemma_replay_push(trace@.take(i as int), item);
            if replay(trace@.take(i + 1)) is None {
                lemma_replay_stays_failed(trace@, i + 1);
            }
        }
        match item {
            TraceItem::NewPlay(_) => {
                return Err(TraceError::IntegrityFailure);
            },
            TraceItem::Jump => {
                game.jump();
            },
            TraceItem::ApplyPhysics(delta_seconds) => {
                if game.apply_physics(delta_seconds) {
                    if collided {
                        return Err(TraceError::IntegrityFailure);
                    }
                    collided = true;
                }
            },
            TraceItem::CheckCollisionAndMovePipes(delta_seconds, rng_offsets) => {
                let (over, _) = game.check_collision_and_move_pipes(delta_seconds, rng_offsets);
                if over {
                    if collided {
                        return Err(TraceError::IntegrityFailure);
                    }
                    collided = true;
                }
            },
            TraceItem::GameOver => {
                if closed {
                    return Err(TraceError::IntegrityFailure);
                }
                closed = true;
                game.game_over();
            },
        }
        i += 1;
    }
    assert(trace@.take(n as int) == trace@);
    Ok(game.score())
}

} // verus!
