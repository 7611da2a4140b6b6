use flazky_bird_lib::{chain_offsets, Bird, Coord, Delta, FlazkyBird, TraceItem};

const UNIT: i64 = 1_000_000;

fn step(seconds: f32) -> Delta {
    Delta::from_bits(seconds.to_bits()).unwrap()
}

fn xs(game: &FlazkyBird) -> Vec<i64> {
    game.get_pipe_positions().iter().map(|p| p.x).collect()
}

fn ys(game: &FlazkyBird) -> Vec<i64> {
    game.get_pipe_positions().iter().map(|p| p.y).collect()
}

#[test]
fn bird_starts_at_rest() {
    let _bird: Bird = Bird::new();
    let game = FlazkyBird::new(false);
    assert_eq!(game.bird_position(), Coord { x: 0, y: 0 });
    assert_eq!(game.bird_speed(), 0);
}

#[test]
fn new_machine_is_idle() {
    for prover_mode in [false, true] {
        let game = FlazkyBird::new(prover_mode);
        assert!(game.is_over());
        assert_eq!(game.is_recording(), !prover_mode);
        assert_eq!(game.score(), 0);
        assert_eq!(game.get_high_score(), 0);
        assert!(game.get_trace().is_empty());
        assert!(game.get_high_score_treacer().is_empty());
        assert_eq!(
            xs(&game),
            [300, 300, 500, 500, 700, 700, 900, 900, 1100, 1100].map(|x| x * UNIT)
        );
        assert_eq!(
            ys(&game),
            [-100, 350, -100, 350, -100, 350, -100, 350, -100, 350].map(|y| y * UNIT)
        );
    }
}

#[test]
fn idle_machine_ignores_moves() {
    let mut game = FlazkyBird::new(false);
    game.jump();
    assert!(game.apply_physics(step(0.03)));
    assert_eq!(game.check_collision_and_move_pipes(step(0.03), [0; 5]), (true, false));
    game.game_over();
    assert_eq!(game.bird_position(), Coord { x: 0, y: 0 });
    assert_eq!(game.bird_speed(), 0);
    assert_eq!(xs(&game)[0], 300 * UNIT);
    assert!(game.get_trace().is_empty());
    assert!(game.is_over());
}

#[test]
fn new_play_places_the_pipes() {
    let mut game = FlazkyBird::new(false);
    game.new_play(42);
    assert!(!game.is_over());
    assert_eq!(game.score(), 0);
    assert_eq!(game.bird_position(), Coord { x: 0, y: 0 });
    assert_eq!(
        xs(&game),
        [300, 300, 500, 500, 700, 700, 900, 900, 1100, 1100].map(|x| x * UNIT)
    );
    assert_eq!(
        ys(&game),
        [-285, 165, -75, 375, -225, 225, -300, 150, -210, 240].map(|y| y * UNIT)
    );
    assert_eq!(game.get_trace(), vec![TraceItem::NewPlay(42)]);
}

#[test]
fn slots_stay_paired() {
    let mut game = FlazkyBird::new(false);
    game.new_play(7);
    let mut offsets = chain_offsets(7);
    for _ in 0..400 {
        offsets = chain_offsets(offsets[4]);
        game.check_collision_and_move_pipes(step(0.03), offsets);
        let pipes = game.get_pipe_positions();
        assert_eq!(pipes.len(), 10);
        for slot in 0..5 {
            assert_eq!(pipes[2 * slot].x, pipes[2 * slot + 1].x);
            assert_eq!(pipes[2 * slot].y + 450 * UNIT, pipes[2 * slot + 1].y);
        }
    }
}

#[test]
fn free_fall_then_jump() {
    let mut game = FlazkyBird::new(false);
    game.new_play(42);
    let mut last = game.bird_position().y;
    assert_eq!(last, 0);
    for tick in 1..=5i64 {
        assert!(!game.apply_physics(step(0.03)));
        let y = game.bird_position().y;
        assert!(y < last);
        assert_eq!(y, -13_500 * tick * tick);
        assert_eq!(game.bird_speed(), -900 * tick);
        last = y;
    }
    assert_eq!(last, -337_500);
    game.jump();
    assert_eq!(game.bird_speed(), 14_000);
    assert!(!game.apply_physics(step(0.03)));
    assert!(game.bird_position().y > last);
    assert_eq!(game.bird_position().y, last + 14_000 * 30 - 15 * 30 * 30);
    assert_eq!(game.bird_speed(), 14_000 - 900);
}

#[test]
fn physics_formula_is_exact() {
    let mut game = FlazkyBird::new(true);
    game.new_play(1);
    game.jump();
    assert!(!game.apply_physics(step(0.5)));
    assert_eq!(game.bird_position().y, 14_000 * 500 - 15 * 500 * 500);
    assert_eq!(game.bird_position().y, 3_250_000);
    assert_eq!(game.bird_speed(), 14_000 - 30 * 500);
    assert!(!game.apply_physics(step(0.0)));
    assert_eq!(game.bird_position().y, 3_250_000);
    assert_eq!(game.bird_speed(), -1_000);
}

#[test]
fn jump_is_boosted_above_the_threshold() {
    let mut game = FlazkyBird::new(true);
    game.new_play(1);
    game.jump();
    assert_eq!(game.bird_speed(), 14_000);
    game.jump();
    assert_eq!(game.bird_speed(), 22_000);
    game.jump();
    assert_eq!(game.bird_speed(), 22_000);
    assert!(!game.apply_physics(step(0.5)));
    assert_eq!(game.bird_speed(), 7_000);
    game.jump();
    assert_eq!(game.bird_speed(), 14_000);
    assert!(!game.apply_physics(step(0.233)));
    assert_eq!(game.bird_speed(), 7_010);
    game.jump();
    assert_eq!(game.bird_speed(), 22_000);
}

#[test]
fn jump_is_refused_in_the_upper_half() {
    let mut game = FlazkyBird::new(true);
    game.new_play(1);
    let mut jumps = 0;
    while game.bird_position().y < 256 * UNIT {
        game.jump();
        assert_eq!(game.bird_speed(), 14_000);
        assert!(!game.apply_physics(step(0.7)));
        assert_eq!(game.bird_speed(), -7_000);
        jumps += 1;
        assert_eq!(game.bird_position().y, 2_450_000 * jumps);
    }
    assert_eq!(jumps, 105);
    assert_eq!(game.bird_position().y, 257_250_000);
    game.jump();
    assert_eq!(game.bird_speed(), -7_000);
    assert!(!game.apply_physics(step(0.2)));
    assert_eq!(game.bird_position().y, 255_250_000);
    game.jump();
    assert_eq!(game.bird_speed(), 14_000);
}

#[test]
fn floor_ends_the_session_once() {
    let mut game = FlazkyBird::new(false);
    game.new_play(42);
    assert!(!game.apply_physics(step(3.4)));
    assert_eq!(game.bird_position().y, -173_400_000);
    assert!(!game.is_over());
    assert!(game.apply_physics(step(0.01)));
    assert!(game.is_over());
    assert_eq!(game.bird_position().y, -174 * UNIT);
    let speed = game.bird_speed();
    assert_eq!(speed, -30 * 3410);
    let trace = game.get_trace();
    assert_eq!(trace.len(), 4);
    assert_eq!(trace[3], TraceItem::GameOver);
    for _ in 0..10 {
        assert!(game.apply_physics(step(1.0)));
        assert!(game.is_over());
        assert_eq!(game.bird_position().y, -174 * UNIT);
        assert_eq!(game.bird_speed(), speed);
        assert_eq!(game.get_trace(), trace);
    }
}

#[test]
fn long_step_is_clamped_at_the_floor() {
    let mut game = FlazkyBird::new(true);
    game.new_play(3);
    assert!(game.apply_physics(step(4095.0)));
    assert_eq!(game.bird_position(), Coord { x: 0, y: -174 * UNIT });
    assert_eq!(game.bird_speed(), -30 * 4_095_000);
}

#[test]
fn pipes_scroll_with_the_score() {
    let mut game = FlazkyBird::new(false);
    game.new_play(7);
    assert_eq!(game.check_collision_and_move_pipes(step(0.03), [0; 5]), (false, false));
    assert_eq!(
        xs(&game),
        [294, 294, 494, 494, 694, 694, 894, 894, 1094, 1094].map(|x| x * UNIT)
    );
    assert_eq!(ys(&game)[0], -225 * UNIT);
    assert_eq!(
        game.check_collision_and_move_pipes(step(3.97), [-100, -110, -120, -130, -140]),
        (false, true)
    );
    assert_eq!(game.score(), 1);
    assert_eq!(
        xs(&game),
        [500, 500, -300, -300, -100, -100, 100, 100, 300, 300].map(|x| x * UNIT)
    );
    assert_eq!(
        ys(&game),
        [-100, 350, -300, 150, -210, 240, -165, 285, -270, 180].map(|y| y * UNIT)
    );
    assert_eq!(game.check_collision_and_move_pipes(step(0.5), [0; 5]), (false, false));
    assert_eq!(
        xs(&game),
        [399, 399, -401, -401, -201, -201, -1, -1, 199, 199].map(|x| x * UNIT)
    );
}

#[test]
fn pace_stops_growing_at_a_hundred_points() {
    let mut game = FlazkyBird::new(true);
    game.new_play(7);
    let safe = [-225; 5];
    while game.score() < 105 {
        let before = game.score();
        let (over, _) = game.check_collision_and_move_pipes(step(4.0), safe);
        assert!(!over);
        assert!(game.score() > before);
    }
    let x0 = xs(&game);
    game.check_collision_and_move_pipes(step(0.001), safe);
    let x1 = xs(&game);
    let moved: Vec<i64> = x0.iter().zip(&x1).map(|(a, b)| a - b).filter(|d| *d > 0).collect();
    assert!(!moved.is_empty());
    assert!(moved.iter().all(|d| *d == 2 * 200 * 1000));
}

#[test]
fn a_long_step_recycles_every_slot() {
    let mut game = FlazkyBird::new(true);
    game.new_play(7);
    assert_eq!(
        game.check_collision_and_move_pipes(step(100.0), [1, 2, 3, 4, 5]),
        (false, true)
    );
    assert_eq!(game.score(), 5);
    assert_eq!(xs(&game), [500 * UNIT; 10]);
    assert_eq!(
        ys(&game),
        [1, 451, 2, 452, 3, 453, 4, 454, 5, 455].map(|y| y * UNIT)
    );
}

#[test]
fn extreme_offsets_fit() {
    let mut game = FlazkyBird::new(true);
    game.new_play(7);
    game.check_collision_and_move_pipes(step(100.0), [i32::MAX, i32::MIN, 0, -1, 1]);
    let y = ys(&game);
    assert_eq!(y[0], i64::from(i32::MAX) * UNIT);
    assert_eq!(y[1], i64::from(i32::MAX) * UNIT + 450 * UNIT);
    assert_eq!(y[2], i64::from(i32::MIN) * UNIT);
    assert_eq!(y[3], i64::from(i32::MIN) * UNIT + 450 * UNIT);
}

#[test]
fn collision_is_checked_before_the_pipes_move() {
    let mut game = FlazkyBird::new(false);
    game.new_play(42);
    // The upper pipe of the first slot hangs down to the bird's height.
    assert_eq!(game.check_collision_and_move_pipes(step(1.4), [0; 5]), (false, false));
    assert_eq!(xs(&game)[0], 20 * UNIT);
    let before = game.get_pipe_positions();
    assert_eq!(game.check_collision_and_move_pipes(step(1.0), [0; 5]), (true, false));
    assert!(game.is_over());
    assert_eq!(game.get_pipe_positions(), before);
    assert_eq!(game.score(), 0);
    assert_eq!(game.check_collision_and_move_pipes(step(1.0), [0; 5]), (true, false));
    assert_eq!(game.get_pipe_positions(), before);
}

#[test]
fn boxes_that_touch_collide() {
    // Horizontally: the boxes touch when the pipe is 34 units away.
    let mut game = FlazkyBird::new(true);
    game.new_play(42);
    game.check_collision_and_move_pipes(step(1.33), [0; 5]);
    assert_eq!(xs(&game)[0], 34 * UNIT);
    assert_eq!(game.check_collision_and_move_pipes(step(0.0), [0; 5]), (true, false));

    let mut game = FlazkyBird::new(true);
    game.new_play(42);
    game.check_collision_and_move_pipes(step(1.325), [0; 5]);
    assert_eq!(xs(&game)[0], 35 * UNIT);
    assert_eq!(game.check_collision_and_move_pipes(step(0.0), [0; 5]), (false, false));
}

#[test]
fn bird_passes_through_a_gap() {
    let mut game = FlazkyBird::new(true);
    game.new_play(7);
    // First slot: lower pipe up to -67, upper pipe down to 67.
    game.check_collision_and_move_pipes(step(1.5), [0; 5]);
    assert_eq!(xs(&game)[0], 0);
    assert_eq!(game.check_collision_and_move_pipes(step(0.0), [0; 5]), (false, false));
    assert!(!game.is_over());
    // Second slot: upper pipe down to -8.
    game.check_collision_and_move_pipes(step(1.0), [0; 5]);
    assert_eq!(xs(&game)[2], 0);
    assert_eq!(game.check_collision_and_move_pipes(step(0.0), [0; 5]), (true, false));
}

#[test]
fn game_over_keeps_the_best_session() {
    let mut game = FlazkyBird::new(false);
    game.new_play(7);
    assert_eq!(game.check_collision_and_move_pipes(step(4.0), [-225; 5]), (false, true));
    assert_eq!(game.check_collision_and_move_pipes(step(1.0), [-225; 5]), (false, true));
    assert_eq!(game.score(), 2);
    game.game_over();
    assert!(game.is_over());
    assert_eq!(game.get_high_score(), 2);
    let best = game.get_high_score_treacer();
    assert_eq!(best, game.get_trace());
    assert_eq!(best.len(), 4);
    game.game_over();
    assert_eq!(game.get_trace(), best);

    game.new_play(7);
    assert_eq!(game.get_trace(), vec![TraceItem::NewPlay(7)]);
    assert_eq!(game.check_collision_and_move_pipes(step(4.0), [-225; 5]), (false, true));
    game.game_over();
    assert_eq!(game.score(), 1);
    assert_eq!(game.get_high_score(), 2);
    assert_eq!(game.get_high_score_treacer(), best);

    game.new_play(9);
    for _ in 0..3 {
        game.check_collision_and_move_pipes(step(4.0), [-225; 5]);
    }
    assert!(game.apply_physics(step(10.0)));
    assert!(game.score() > 2);
    assert_eq!(game.get_high_score(), game.score());
    assert_eq!(game.get_high_score_treacer(), game.get_trace());
}

#[test]
fn new_best_score_hands_out_its_trace() {
    let mut game = FlazkyBird::new(false);
    assert_eq!(game.new_high_score_trace(), None);
    game.new_play(7);
    assert_eq!(game.check_collision_and_move_pipes(step(4.0), [-225; 5]), (false, true));
    assert_eq!(game.new_high_score_trace(), None);
    assert!(game.apply_physics(step(10.0)));
    let bytes = game.new_high_score_trace().unwrap();
    assert_eq!(bytes, flazky_bird_lib::encode_trace(&game.get_high_score_treacer()));
    assert_eq!(bytes.len(), 36);

    // A session that does not reach the best score hands out nothing.
    game.new_play(7);
    assert!(game.apply_physics(step(10.0)));
    assert_eq!(game.score(), 0);
    assert_eq!(game.new_high_score_trace(), None);

    // One that only equals it hands out the best trace, which is the older one.
    game.new_play(8);
    assert_eq!(game.check_collision_and_move_pipes(step(4.0), [-225; 5]), (false, true));
    game.game_over();
    assert_eq!(game.score(), 1);
    assert_eq!(game.new_high_score_trace(), Some(bytes));
}

#[test]
fn prover_mode_keeps_no_log() {
    let mut game = FlazkyBird::new(true);
    game.new_play(7);
    game.jump();
    game.check_collision_and_move_pipes(step(4.0), [-225; 5]);
    game.apply_physics(step(10.0));
    assert!(game.is_over());
    assert_eq!(game.score(), 1);
    assert_eq!(game.get_high_score(), 1);
    assert!(game.get_trace().is_empty());
    assert!(game.get_high_score_treacer().is_empty());
}

#[test]
fn log_holds_each_move_with_its_inputs() {
    let mut game = FlazkyBird::new(false);
    game.new_play(-5);
    game.jump();
    game.apply_physics(step(0.03));
    game.check_collision_and_move_pipes(step(0.031), [1, -2, 3, -4, 5]);
    game.game_over();
    game.jump();
    game.apply_physics(step(0.03));
    assert_eq!(
        game.get_trace(),
        vec![
            TraceItem::NewPlay(-5),
            TraceItem::Jump,
            TraceItem::ApplyPhysics(step(0.03)),
            TraceItem::CheckCollisionAndMovePipes(step(0.031), [1, -2, 3, -4, 5]),
            TraceItem::GameOver,
        ]
    );
}

#[test]
fn same_seed_and_moves_give_the_same_game() {
    let mut first = FlazkyBird::new(false);
    let mut second = FlazkyBird::new(true);
    second.new_play(99);
    second.check_collision_and_move_pipes(step(7.0), [5; 5]);
    second.apply_physics(step(20.0));
    assert!(second.is_over());

    first.new_play(1234);
    second.new_play(1234);
    let mut offsets = chain_offsets(1234);
    for tick in 0..2000 {
        if first.is_over() {
            break;
        }
        if tick % 11 == 0 {
            first.jump();
            second.jump();
        }
        assert_eq!(first.apply_physics(step(0.03)), second.apply_physics(step(0.03)));
        offsets = chain_offsets(offsets[4]);
        assert_eq!(
            first.check_collision_and_move_pipes(step(0.03), offsets),
            second.check_collision_and_move_pipes(step(0.03), offsets)
        );
        assert_eq!(first.bird_position(), second.bird_position());
        assert_eq!(first.bird_speed(), second.bird_speed());
        assert_eq!(first.get_pipe_positions(), second.get_pipe_positions());
        assert_eq!(first.score(), second.score());
        assert_eq!(first.is_over(), second.is_over());
    }
    assert!(first.is_over());
}
