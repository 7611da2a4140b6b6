use flazky_bird_lib::{chain_offsets, verify_trace, Action, Delta, FlazkyBird, TraceError, TraceItem};

fn step(seconds: f32) -> Delta {
    Delta::from_bits(seconds.to_bits()).unwrap()
}

fn tick(seconds: f32) -> TraceItem {
    TraceItem::CheckCollisionAndMovePipes(step(seconds), [-225; 5])
}

fn fall(seconds: f32) -> TraceItem {
    TraceItem::ApplyPhysics(step(seconds))
}

#[test]
fn action_of_each_item() {
    assert_eq!(TraceItem::NewPlay(1).action(), Action::NewPlay);
    assert_eq!(TraceItem::Jump.action(), Action::Jump);
    assert_eq!(fall(0.03).action(), Action::ApplyPhysics);
    assert_eq!(tick(0.03).action(), Action::CheckCollisionAndMovePipes);
    assert_eq!(TraceItem::GameOver.action(), Action::GameOver);
}

#[test]
fn short_traces_are_malformed() {
    assert_eq!(verify_trace(&vec![]), Err(TraceError::MalformedTrace));
    assert_eq!(verify_trace(&vec![TraceItem::NewPlay(7)]), Err(TraceError::MalformedTrace));
    assert_eq!(
        verify_trace(&vec![TraceItem::NewPlay(7), TraceItem::GameOver]),
        Err(TraceError::MalformedTrace)
    );
    assert_eq!(
        verify_trace(&vec![TraceItem::NewPlay(7), TraceItem::Jump, TraceItem::GameOver]),
        Ok(0)
    );
}

#[test]
fn trace_must_start_with_a_new_play() {
    assert_eq!(
        verify_trace(&vec![TraceItem::Jump, TraceItem::Jump, TraceItem::GameOver]),
        Err(TraceError::MalformedTrace)
    );
    assert_eq!(
        verify_trace(&vec![TraceItem::GameOver, TraceItem::NewPlay(7), TraceItem::GameOver]),
        Err(TraceError::MalformedTrace)
    );
    assert_eq!(
        verify_trace(&vec![fall(0.03), TraceItem::NewPlay(7), TraceItem::Jump, TraceItem::GameOver]),
        Err(TraceError::MalformedTrace)
    );
}

#[test]
fn trace_must_end_with_a_game_over() {
    assert_eq!(
        verify_trace(&vec![TraceItem::NewPlay(7), TraceItem::Jump, TraceItem::Jump]),
        Err(TraceError::MalformedTrace)
    );
    assert_eq!(
        verify_trace(&vec![TraceItem::NewPlay(7), TraceItem::GameOver, fall(0.03)]),
        Err(TraceError::MalformedTrace)
    );
    assert_eq!(
        verify_trace(&vec![TraceItem::NewPlay(7), fall(10.0), TraceItem::NewPlay(7)]),
        Err(TraceError::MalformedTrace)
    );
}

#[test]
fn shape_is_checked_before_anything_is_replayed() {
    // Two steps that report the end, but no game over at the end.
    assert_eq!(
        verify_trace(&vec![TraceItem::NewPlay(7), fall(10.0), fall(10.0)]),
        Err(TraceError::MalformedTrace)
    );
}

#[test]
fn replay_gives_the_score() {
    assert_eq!(
        verify_trace(&vec![TraceItem::NewPlay(7), tick(4.0), fall(10.0), TraceItem::GameOver]),
        Ok(1)
    );
    assert_eq!(
        verify_trace(&vec![
            TraceItem::NewPlay(7),
            tick(4.0),
            tick(1.0),
            TraceItem::Jump,
            tick(1.0),
            TraceItem::GameOver
        ]),
        Ok(3)
    );
    assert_eq!(
        verify_trace(&vec![
            TraceItem::NewPlay(7),
            TraceItem::CheckCollisionAndMovePipes(step(100.0), [0; 5]),
            TraceItem::GameOver
        ]),
        Ok(5)
    );
}

#[test]
fn second_collision_is_an_integrity_failure() {
    // With seed 42 the bird meets the first upper pipe at its own height.
    let collide = vec![
        TraceItem::NewPlay(42),
        tick(1.4),
        tick(0.03),
        tick(0.03),
        TraceItem::GameOver,
    ];
    assert_eq!(verify_trace(&collide[..3].iter().copied().chain([TraceItem::GameOver]).collect()), Ok(0));
    assert_eq!(verify_trace(&collide), Err(TraceError::IntegrityFailure));
}

#[test]
fn step_after_the_end_is_an_integrity_failure() {
    assert_eq!(
        verify_trace(&vec![TraceItem::NewPlay(7), fall(10.0), fall(0.03), TraceItem::GameOver]),
        Err(TraceError::IntegrityFailure)
    );
    assert_eq!(
        verify_trace(&vec![TraceItem::NewPlay(7), fall(10.0), tick(0.03), TraceItem::GameOver]),
        Err(TraceError::IntegrityFailure)
    );
    assert_eq!(
        verify_trace(&vec![TraceItem::NewPlay(7), fall(10.0), TraceItem::Jump, TraceItem::GameOver]),
        Ok(0)
    );
}

#[test]
fn second_game_over_is_an_integrity_failure() {
    assert_eq!(
        verify_trace(&vec![
            TraceItem::NewPlay(7),
            TraceItem::Jump,
            TraceItem::GameOver,
            TraceItem::GameOver
        ]),
        Err(TraceError::IntegrityFailure)
    );
    assert_eq!(
        verify_trace(&vec![
            TraceItem::NewPlay(7),
            fall(10.0),
            TraceItem::GameOver,
            TraceItem::Jump,
            TraceItem::GameOver
        ]),
        Err(TraceError::IntegrityFailure)
    );
}

#[test]
fn second_new_play_is_an_integrity_failure() {
    assert_eq!(
        verify_trace(&vec![
            TraceItem::NewPlay(7),
            tick(4.0),
            TraceItem::NewPlay(7),
            TraceItem::GameOver
        ]),
        Err(TraceError::IntegrityFailure)
    );
    assert_eq!(
        verify_trace(&vec![
            TraceItem::NewPlay(7),
            fall(10.0),
            TraceItem::GameOver,
            TraceItem::NewPlay(7),
            tick(4.0),
            TraceItem::GameOver
        ]),
        Err(TraceError::IntegrityFailure)
    );
}

#[test]
fn game_over_item_ends_the_replayed_session() {
    // After the game over the step reports the end: that is the one report allowed.
    assert_eq!(
        verify_trace(&vec![
            TraceItem::NewPlay(7),
            tick(4.0),
            TraceItem::GameOver,
            tick(4.0),
            TraceItem::Jump,
            TraceItem::GameOver
        ]),
        Err(TraceError::IntegrityFailure)
    );
}

#[test]
fn recorded_session_replays_to_its_score() {
    let mut game = FlazkyBird::new(false);
    game.new_play(7);
    assert_eq!(game.check_collision_and_move_pipes(step(4.0), [-225; 5]), (false, true));
    assert!(game.apply_physics(step(10.0)));
    assert_eq!(game.score(), 1);
    assert_eq!(
        game.get_trace(),
        vec![TraceItem::NewPlay(7), tick(4.0), fall(10.0), TraceItem::GameOver]
    );
    assert_eq!(verify_trace(&game.get_trace()), Ok(1));
    assert_eq!(verify_trace(&game.get_high_score_treacer()), Ok(1));
}

#[test]
fn piloted_sessions_replay_to_their_scores() {
    let mut game = FlazkyBird::new(false);
    let mut best = 0;
    for seed in 0..40 {
        game.new_play(seed);
        let mut offsets = chain_offsets(seed);
        let mut ticks = 0;
        while !game.is_over() && ticks < 5000 {
            ticks += 1;
            let pipes = game.get_pipe_positions();
            let next = (0..5)
                .map(|slot| pipes[2 * slot])
                .filter(|p| p.x > -34_000_000)
                .min_by_key(|p| p.x)
                .unwrap();
            let target = next.y + 215_000_000;
            if game.bird_position().y < target && game.bird_speed() < 3_000 {
                game.jump();
            }
            if game.apply_physics(step(0.03)) {
                break;
            }
            offsets = chain_offsets(offsets[4] + seed);
            game.check_collision_and_move_pipes(step(0.03), offsets);
        }
        if !game.is_over() {
            game.game_over();
        }
        let trace = game.get_trace();
        assert!(trace.len() > 2);
        assert_eq!(verify_trace(&trace), Ok(game.score()));
        best = best.max(game.score());
        assert_eq!(game.get_high_score(), best);
        if best > 0 {
            assert_eq!(verify_trace(&game.get_high_score_treacer()), Ok(best));
        }
    }
    assert!(best > 0);
}
