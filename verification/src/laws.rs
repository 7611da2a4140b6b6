//! What holds of the library as a whole.

use crate::codec::{encode_spec, lemma_round_trip};
use crate::commitment::{execute_spec, nullifier_spec, record_layout, verify_bytes_spec};
use crate::machine::{
    lemma_machine_follows_sim, lemma_machine_game_over_wf, lemma_machine_jump_wf,
    lemma_new_play_wf, lemma_new_wf, lemma_tick_wf, machine_game_over, machine_jump, machine_new,
    machine_new_play, machine_tick, machine_wf, Machine,
};
use crate::model::{fall_y, sim_physics, sim_start, Sim, FLOOR_Y};
use crate::replay::{
    is_tick, lemma_replay_push, lemma_replay_starts, lemma_replay_stays_failed, replay, reports_end,
    sim_apply, verify_spec, well_shaped, TraceError,
};
use crate::trace::{trace_wf, TraceItem};
use vstd::prelude::*;

verus! {

/// The machine after one call, which `item` stands for.
pub open spec fn machine_step(m: Machine, item: TraceItem) -> Machine {
    match item {
        TraceItem::NewPlay(seed) => machine_new_play(m, seed),
        TraceItem::Jump => machine_jump(m),
        TraceItem::GameOver => machine_game_over(m),
        _ => machine_tick(m, item),
    }
}

/// The machine after a run of calls, made in order.
pub open spec fn machine_run(m: Machine, moves: Seq<TraceItem>) -> Machine
    decreases moves.len(),
{
    if moves.len() == 0 {
        m
    } else {
        machine_step(machine_run(m, moves.drop_last()), moves.last())
    }
}

/// The game after moves made in order, log or no log.
pub open spec fn sim_run(s: Sim, moves: Seq<TraceItem>) -> Sim
    decreases moves.len(),
{
    if moves.len() == 0 {
        s
    } else {
        sim_apply(sim_run(s, moves.drop_last()), moves.last())
    }
}

/// The game of a machine goes its way whatever the machine logs.
pub proof fn lemma_run_follows_sim(m: Machine, moves: Seq<TraceItem>)
    ensures
        machine_run(m, moves).sim == sim_run(m.sim, moves),
    decreases moves.len(),
{
    if moves.len() > 0 {
        lemma_run_follows_sim(m, moves.drop_last());
        lemma_machine_follows_sim(machine_run(m, moves.drop_last()), moves.last());
    }
}

/// Determinism: two machines, whatever they were used for before and
/// whether they log or not, that start a session with the same seed and are
/// then called in the same way end with the same game: the same bird, the
/// same pipes, the same score.
pub proof fn law_determinism(a: Machine, b: Machine, seed: i32, moves: Seq<TraceItem>)
    ensures
        machine_run(machine_new_play(a, seed), moves).sim == machine_run(
            machine_new_play(b, seed),
            moves,
        ).sim,
        machine_run(machine_new_play(a, seed), moves).sim == sim_run(sim_start(seed as int), moves),
{
    lemma_run_follows_sim(machine_new_play(a, seed), moves);
    lemma_run_follows_sim(machine_new_play(b, seed), moves);
}

/// A run of calls keeps the invariant of the machine.
pub proof fn lemma_run_wf(m: Machine, moves: Seq<TraceItem>)
    requires
        machine_wf(m),
        trace_wf(moves),
    ensures
        machine_wf(machine_run(m, moves)),
    decreases moves.len(),
{
    if moves.len() > 0 {
        let before = machine_run(m, moves.drop_last());
        lemma_run_wf(m, moves.drop_last());
        match moves.last() {
            TraceItem::NewPlay(seed) => {
                lemma_new_play_wf(before, seed);
            },
            TraceItem::Jump => {
                lemma_machine_jump_wf(before);
            },
            TraceItem::GameOver => {
                lemma_machine_game_over_wf(before);
            },
            _ => {
                lemma_tick_wf(before, moves.last());
            },
        }
    }
}

/// A run of calls leaves a logging machine logging.
pub proof fn lemma_run_keeps_recording(m: Machine, moves: Seq<TraceItem>)
    ensures
        machine_run(m, moves).recording == m.recording,
    decreases moves.len(),
{
    if moves.len() > 0 {
        lemma_run_keeps_recording(m, moves.drop_last());
    }
}

/// Record and replay agree, for a machine in order: the log of a finished
/// session with more than two items is accepted with the score of the
/// session, as a trace and as the bytes of that trace.
pub proof fn law_finished_log_verifies(m: Machine)
    requires
        machine_wf(m),
        m.recording,
        m.sim.over,
        m.trace.len() > 2,
    ensures
        verify_spec(m.trace) == Ok::<nat, TraceError>(m.sim.score),
        verify_bytes_spec(encode_spec(m.trace)) == Ok::<nat, TraceError>(m.sim.score),
{
    lemma_replay_starts(m.trace);
    lemma_round_trip(m.trace);
}

/// A session that a step ends is always accepted: on a logging machine in
/// order with a session running, after a step in which the session ends
/// the log has more than two items and is accepted with the score of the
/// session.
pub proof fn law_ended_by_step_verifies(m: Machine, item: TraceItem)
    requires
        machine_wf(m),
        m.recording,
        !m.sim.over,
        is_tick(item),
        item.wf(),
        machine_tick(m, item).sim.over,
    ensures
        machine_tick(m, item).trace.len() > 2,
        verify_spec(machine_tick(m, item).trace) == Ok::<nat, TraceError>(
            machine_tick(m, item).sim.score,
        ),
{
    lemma_tick_wf(m, item);
    law_finished_log_verifies(machine_tick(m, item));
}

/// Record and replay agree: take a new logging machine, call it in any
/// way, and stop when no session is running. If the log has more than two
/// items, so if anything was done between the start and the end of the
/// last session, it is accepted with the score that this session ended
/// with; and the bytes of the log, for any player, give the record of that
/// score.
pub proof fn law_record_replay(moves: Seq<TraceItem>, player: Seq<u8>)
    requires
        trace_wf(moves),
    ensures
        ({
            let end = machine_run(machine_new(true), moves);
            end.sim.over && end.trace.len() > 2 ==> {
                &&& verify_spec(end.trace) == Ok::<nat, TraceError>(end.sim.score)
                &&& execute_spec(encode_spec(end.trace), player) == Ok::<Seq<u8>, TraceError>(
                    record_layout(
                        player,
                        end.sim.score as u32,
                        nullifier_spec(encode_spec(end.trace)),
                    ),
                )
            }
        }),
{
    let start = machine_new(true);
    let end = machine_run(start, moves);
    lemma_new_wf(true);
    lemma_run_wf(start, moves);
    lemma_run_keeps_recording(start, moves);
    if end.sim.over && end.trace.len() > 2 {
        law_finished_log_verifies(end);
    }
}

/// However a new logging machine is called, the log that it keeps of its
/// best session is accepted, with the best score.
pub proof fn law_best_trace_verifies(moves: Seq<TraceItem>)
    requires
        trace_wf(moves),
    ensures
        ({
            let end = machine_run(machine_new(true), moves);
            end.best_score > 0 ==> verify_spec(end.best_trace) == Ok::<nat, TraceError>(
                end.best_score,
            )
        }),
{
    let start = machine_new(true);
    lemma_new_wf(true);
    lemma_run_wf(start, moves);
    lemma_run_keeps_recording(start, moves);
}

/// What a logging machine in order hands in after a new best score is
/// accepted: the bytes of its best log give, for any player, the record
/// of the best score.
pub proof fn law_best_trace_commits(m: Machine, player: Seq<u8>)
    requires
        machine_wf(m),
        m.recording,
        m.best_score > 0,
    ensures
        execute_spec(encode_spec(m.best_trace), player) == Ok::<Seq<u8>, TraceError>(
            record_layout(player, m.best_score as u32, nullifier_spec(encode_spec(m.best_trace))),
        ),
{
    lemma_round_trip(m.best_trace);
}

/// Structural rejection: a trace is malformed exactly if it has two items
/// or fewer, or does not start with a new play, or does not end with a game
/// over.
pub proof fn law_structural_rejection(items: Seq<TraceItem>)
    ensures
        items.len() <= 2 ==> verify_spec(items) == Err::<nat, TraceError>(
            TraceError::MalformedTrace,
        ),
        items.len() > 0 && !(items[0] is NewPlay) ==> verify_spec(items) == Err::<nat, TraceError>(
            TraceError::MalformedTrace,
        ),
        items.len() > 0 && !(items.last() is GameOver) ==> verify_spec(items) == Err::<
            nat,
            TraceError,
        >(TraceError::MalformedTrace),
        verify_spec(items) == Err::<nat, TraceError>(TraceError::MalformedTrace) <==> (items.len()
            <= 2 || !(items[0] is NewPlay) || !(items.last() is GameOver)),
{
}

/// A replay that has seen a step report the end does not forget it.
pub proof fn lemma_collided_stays(items: Seq<TraceItem>, i: int, k: int)
    requires
        0 < i <= k <= items.len(),
        replay(items.take(i)) matches Some(p) && p.collided,
    ensures
        replay(items.take(k)) matches Some(q) ==> q.collided,
    decreases k - i,
{
    if i < k {
        lemma_collided_stays(items, i, k - 1);
        assert(items.take(k - 1).push(items[k - 1]) == items.take(k));
        lemma_replay_push(items.take(k - 1), items[k - 1]);
    }
}

/// Single collision: if two steps of a trace both report the end of the
/// session when their turn comes in the replay, the replay fails at the
/// second of them at the latest, and the trace is refused for integrity.
pub proof fn law_single_collision(items: Seq<TraceItem>, i: int, j: int)
    requires
        well_shaped(items),
        0 < i < j < items.len(),
        replay(items.take(i)) matches Some(p) ==> reports_end(p.sim, items[i]),
        replay(items.take(j)) matches Some(q) ==> reports_end(q.sim, items[j]),
    ensures
        replay(items.take(j + 1)) is None,
        verify_spec(items) == Err::<nat, TraceError>(TraceError::IntegrityFailure),
{
    assert(items.take(i).push(items[i]) == items.take(i + 1));
    lemma_replay_push(items.take(i), items[i]);
    assert(items.take(j).push(items[j]) == items.take(j + 1));
    lemma_replay_push(items.take(j), items[j]);
    if replay(items.take(i + 1)) is Some {
        lemma_collided_stays(items, i + 1, j);
    } else {
        assert(items.take(j + 1).take(i + 1) == items.take(i + 1));
        lemma_replay_stays_failed(items.take(j + 1), i + 1);
    }
    lemma_replay_stays_failed(items, j + 1);
}

/// The game after physics steps of the given lengths, made in order.
pub open spec fn sim_fall(s: Sim, steps: Seq<int>) -> Sim
    decreases steps.len(),
{
    if steps.len() == 0 {
        s
    } else {
        sim_physics(sim_fall(s, steps.drop_last()), steps.last())
    }
}

/// Floor clamp: no physics step, and no number of them, takes a bird
/// that is not below the floor below it; a step ends the session exactly if
/// the bird would fall below the floor in it; and once the session is over,
/// physics steps change nothing, so the mark is set once.
pub proof fn law_floor_clamp(s: Sim, d: int, steps: Seq<int>)
    requires
        s.bird_y >= FLOOR_Y,
    ensures
        sim_physics(s, d).bird_y >= FLOOR_Y,
        sim_physics(s, d).over <==> s.over || fall_y(s.bird_y, s.speed, d) < FLOOR_Y,
        sim_fall(s, steps).bird_y >= FLOOR_Y,
        s.over ==> sim_fall(s, steps) == s,
    decreases steps.len(),
{
    if steps.len() > 0 {
        law_floor_clamp(s, d, steps.drop_last());
    }
}

/// Commitment stability: the same bytes have the same nullifier, and,
/// for the same player, the same committed bytes or the same refusal.
pub proof fn law_commitment_stable(a: Seq<u8>, b: Seq<u8>, player: Seq<u8>)
    requires
        a.len() == b.len(),
        forall|i: int| 0 <= i < a.len() ==> a[i] == b[i],
    ensures
        nullifier_spec(a) == nullifier_spec(b),
        execute_spec(a, player) == execute_spec(b, player),
{
    assert(a =~= b);
}

} // verus!
