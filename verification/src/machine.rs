//! The machine as mathematics: the game, the log that it keeps while a
//! session is played, and the best session so far.

use crate::bounds::{
    lemma_advance_wf, lemma_fresh_wf, lemma_game_over_wf, lemma_jump_wf, lemma_physics_wf,
    lemma_start_wf, sim_wf,
};
use crate::delta::Delta;
use crate::model::{sim_fresh, sim_game_over, sim_jump, sim_start, Sim};
use crate::replay::{
    is_tick, lemma_replay_push, lemma_replay_starts, replay, sim_apply, verify_spec, TraceError,
};
use crate::trace::{trace_wf, TraceItem};
use vstd::prelude::*;

verus! {

/// The whole state of a machine.
pub struct Machine {
    /// The game.
    pub sim: Sim,
    /// Whether the machine logs its moves. One that replays does not.
    pub recording: bool,
    /// The log of the session that is running, or of the last one.
    pub trace: Seq<TraceItem>,
    /// The best score of all finished sessions.
    pub best_score: nat,
    /// The log of the session that reached the best score.
    pub best_trace: Seq<TraceItem>,
}

/// The log of `m` with `item` added, if `m` keeps a log.
pub open spec fn logged(m: Machine, item: TraceItem) -> Seq<TraceItem> {
    if m.recording {
        m.trace.push(item)
    } else {
        m.trace
    }
}

/// A new machine: no session, no log, no best score.
pub open spec fn machine_new(recording: bool) -> Machine {
    Machine {
        sim: sim_fresh(),
        recording,
        trace: Seq::empty(),
        best_score: 0,
        best_trace: Seq::empty(),
    }
}

/// The start of a session: a new game, and a new log that holds the start.
pub open spec fn machine_new_play(m: Machine, seed: i32) -> Machine {
    Machine {
        sim: sim_start(seed as int),
        trace: if m.recording {
            seq![TraceItem::NewPlay(seed)]
        } else {
            m.trace
        },
        ..m
    }
}

/// The end of a session: it is logged, and a score above the best one
/// becomes the best, together with the log that led to it.
pub open spec fn machine_end(m: Machine) -> Machine {
    let trace = logged(m, TraceItem::GameOver);
    let best = m.sim.score > m.best_score;
    Machine {
        sim: sim_game_over(m.sim),
        trace,
        best_score: if best {
            m.sim.score
        } else {
            m.best_score
        },
        best_trace: if best {
            trace
        } else {
            m.best_trace
        },
        ..m
    }
}

/// The end of the session on request: nothing if no session is running.
pub open spec fn machine_game_over(m: Machine) -> Machine {
    if m.sim.over {
        m
    } else {
        machine_end(m)
    }
}

/// A jump: nothing if no session is running, else logged and made.
pub open spec fn machine_jump(m: Machine) -> Machine {
    if m.sim.over {
        m
    } else {
        Machine { sim: sim_jump(m.sim), trace: logged(m, TraceItem::Jump), ..m }
    }
}

/// The machine after `item` has been logged and made.
pub open spec fn machine_moved(m: Machine, item: TraceItem) -> Machine {
    Machine { sim: sim_apply(m.sim, item), trace: logged(m, item), ..m }
}

/// A physics or collision step: nothing if no session is running, else
/// logged and made; if the session ends in it, that is its end.
pub open spec fn machine_tick(m: Machine, item: TraceItem) -> Machine {
    if m.sim.over {
        m
    } else if machine_moved(m, item).sim.over {
        machine_end(machine_moved(m, item))
    } else {
        machine_moved(m, item)
    }
}

/// A physics step.
pub open spec fn machine_apply_physics(m: Machine, delta: Delta) -> Machine {
    machine_tick(m, TraceItem::ApplyPhysics(delta))
}

/// A collision step.
pub open spec fn machine_advance(m: Machine, delta: Delta, offsets: [i32; 5]) -> Machine {
    machine_tick(m, TraceItem::CheckCollisionAndMovePipes(delta, offsets))
}

/// Whether the log of `m` replays to the game of `m`.
pub open spec fn faithful(m: Machine) -> bool {
    &&& replay(m.trace) matches Some(p)
    &&& p.sim == m.sim
    &&& p.closed == m.sim.over
    &&& p.collided ==> p.closed
    &&& m.sim.over ==> m.trace.last() is GameOver
}

/// Whether the log of the best session, if there has been one, is accepted
/// with the best score.
pub open spec fn best_kept(m: Machine) -> bool {
    m.recording && m.best_score > 0 ==> verify_spec(m.best_trace) == Ok::<nat, TraceError>(
        m.best_score,
    )
}

/// The invariant of the machine.
pub open spec fn machine_wf(m: Machine) -> bool {
    &&& sim_wf(m.sim)
    &&& m.best_score <= u32::MAX
    &&& trace_wf(m.trace)
    &&& trace_wf(m.best_trace)
    &&& !m.recording ==> m.trace.len() == 0
    &&& m.recording && !m.sim.over ==> m.trace.len() > 0
    &&& m.trace.len() > 0 ==> faithful(m)
    &&& best_kept(m)
}

/// What holds of a machine whose session is about to be ended: the
/// invariant, but for the log, which replays to the game without its end.
pub open spec fn ready_to_end(m: Machine) -> bool {
    &&& sim_wf(sim_game_over(m.sim))
    &&& m.best_score <= u32::MAX
    &&& trace_wf(m.trace)
    &&& trace_wf(m.best_trace)
    &&& !m.recording ==> m.trace.len() == 0
    &&& m.recording ==> {
        &&& replay(m.trace) matches Some(p)
        &&& p.sim == m.sim
        &&& !p.closed
        &&& p.collided ==> m.sim.over
    }
    &&& best_kept(m)
}

/// A new machine is in order.
pub proof fn lemma_new_wf(recording: bool)
    ensures
        machine_wf(machine_new(recording)),
{
    lemma_fresh_wf();
}

/// The start of a session keeps the invariant.
pub proof fn lemma_new_play_wf(m: Machine, seed: i32)
    requires
        machine_wf(m),
    ensures
        machine_wf(machine_new_play(m, seed)),
{
    lemma_start_wf(seed as int);
}

/// A running session of a machine in order can be ended.
pub proof fn lemma_running_ready(m: Machine)
    requires
        machine_wf(m),
        !m.sim.over,
    ensures
        ready_to_end(m),
{
    lemma_game_over_wf(m.sim);
}

/// The end of a session leaves the machine in order.
pub proof fn lemma_end_wf(m: Machine)
    requires
        ready_to_end(m),
    ensures
        machine_wf(machine_end(m)),
{
    if m.recording {
        lemma_replay_starts(m.trace);
        lemma_replay_push(m.trace, TraceItem::GameOver);
    }
}

/// A jump keeps the invariant.
pub proof fn lemma_machine_jump_wf(m: Machine)
    requires
        machine_wf(m),
    ensures
        machine_wf(machine_jump(m)),
{
    if !m.sim.over {
        lemma_jump_wf(m.sim);
        if m.recording {
            lemma_replay_push(m.trace, TraceItem::Jump);
        }
    }
}

/// A step that has been logged and made, and in which the session ended,
/// leaves a machine whose session can be ended.
pub proof fn lemma_tick_ready(m: Machine, item: TraceItem)
    requires
        machine_wf(m),
        !m.sim.over,
        is_tick(item),
        item.wf(),
        sim_apply(m.sim, item).over,
    ensures
        ready_to_end(machine_moved(m, item)),
{
    lemma_sim_tick_wf(m.sim, item);
    if m.recording {
        lemma_replay_push(m.trace, item);
    }
}

/// A step keeps the invariant of the game.
pub proof fn lemma_sim_tick_wf(s: Sim, item: TraceItem)
    requires
        sim_wf(s),
        is_tick(item),
    ensures
        sim_wf(sim_apply(s, item)),
{
    match item {
        TraceItem::ApplyPhysics(delta) => {
            lemma_physics_wf(s, delta.spec_millis() as int);
        },
        TraceItem::CheckCollisionAndMovePipes(delta, offsets) => {
            lemma_advance_wf(s, delta.spec_millis() as int, offsets@);
        },
        _ => {},
    }
}

/// A step keeps the invariant.
pub proof fn lemma_tick_wf(m: Machine, item: TraceItem)
    requires
        machine_wf(m),
        is_tick(item),
        item.wf(),
    ensures
        machine_wf(machine_tick(m, item)),
{
    if !m.sim.over {
        lemma_sim_tick_wf(m.sim, item);
        if sim_apply(m.sim, item).over {
            lemma_tick_ready(m, item);
            lemma_end_wf(machine_moved(m, item));
        } else if m.recording {
            lemma_replay_push(m.trace, item);
        }
    }
}

/// Whatever the machine logs, its game moves as the model says.
pub proof fn lemma_machine_follows_sim(m: Machine, item: TraceItem)
    ensures
        is_tick(item) ==> machine_tick(m, item).sim == sim_apply(m.sim, item),
        machine_jump(m).sim == sim_apply(m.sim, TraceItem::Jump),
        machine_game_over(m).sim == sim_apply(m.sim, TraceItem::GameOver),
        forall|seed: i32|
            (#[trigger] machine_new_play(m, seed)).sim == sim_apply(m.sim, TraceItem::NewPlay(seed)),
{
}

/// The end of the session on request keeps the invariant.
pub proof fn lemma_machine_game_over_wf(m: Machine)
    requires
        machine_wf(m),
    ensures
        machine_wf(machine_game_over(m)),
{
    if !m.sim.over {
        lemma_running_ready(m);
        lemma_end_wf(m);
    }
}

} // verus!
