use flazky_bird_lib::{decode_trace, encode_trace, verify_trace, Delta, FlazkyBird, TraceError, TraceItem};

fn step(seconds: f32) -> Delta {
    Delta::from_bits(seconds.to_bits()).unwrap()
}

fn sample() -> Vec<TraceItem> {
    vec![
        TraceItem::NewPlay(-5),
        TraceItem::Jump,
        TraceItem::ApplyPhysics(step(0.03)),
        TraceItem::CheckCollisionAndMovePipes(step(0.031), [1, -2, 3, -4, 5]),
        TraceItem::GameOver,
    ]
}

fn sample_bytes() -> Vec<u8> {
    vec![
        0x00, 0xfb, 0xff, 0xff, 0xff, // new play, seed -5
        0x01, // jump
        0x02, 0x8f, 0xc2, 0xf5, 0x3c, // physics step, 0.03
        0x03, 0xb6, 0xf3, 0xfd, 0x3c, // collision step, 0.031
        0x01, 0x00, 0x00, 0x00, 0xfe, 0xff, 0xff, 0xff, 0x03, 0x00, 0x00, 0x00, 0xfc, 0xff, 0xff,
        0xff, 0x05, 0x00, 0x00, 0x00, // offsets 1, -2, 3, -4, 5
        0x04, // game over
    ]
}

#[test]
fn encode_writes_the_wire_format() {
    assert_eq!(encode_trace(&sample()), sample_bytes());
    assert_eq!(encode_trace(&vec![]), Vec::<u8>::new());
}

#[test]
fn encode_agrees_with_std_on_numbers() {
    for seed in [0, 1, -1, 255, 256, -256, 65_536, i32::MAX, i32::MIN, 0x1234_5678] {
        let mut expected = vec![0u8];
        expected.extend_from_slice(&seed.to_le_bytes());
        assert_eq!(encode_trace(&vec![TraceItem::NewPlay(seed)]), expected);
        assert_eq!(decode_trace(&expected), Ok(vec![TraceItem::NewPlay(seed)]));
    }
    for seconds in [0.0f32, 0.03, 1.0, 4095.0] {
        let mut expected = vec![2u8];
        expected.extend_from_slice(&seconds.to_le_bytes());
        assert_eq!(encode_trace(&vec![TraceItem::ApplyPhysics(step(seconds))]), expected);
    }
}

#[test]
fn decode_reads_the_wire_format() {
    assert_eq!(decode_trace(&sample_bytes()), Ok(sample()));
    assert_eq!(decode_trace(&[]), Ok(vec![]));
    assert_eq!(decode_trace(&[1, 4, 1]), Ok(vec![TraceItem::Jump, TraceItem::GameOver, TraceItem::Jump]));
}

#[test]
fn decode_refuses_an_unknown_tag() {
    assert_eq!(decode_trace(&[5]), Err(TraceError::MalformedTrace));
    assert_eq!(decode_trace(&[1, 0xff]), Err(TraceError::MalformedTrace));
    let mut bytes = sample_bytes();
    bytes[5] = 9;
    assert_eq!(decode_trace(&bytes), Err(TraceError::MalformedTrace));
}

#[test]
fn decode_refuses_a_payload_cut_short() {
    let bytes = sample_bytes();
    for cut in [1, 2, 4, 7, 10, 12, 15, 20, 35] {
        assert_eq!(decode_trace(&bytes[..cut]), Err(TraceError::MalformedTrace), "cut at {cut}");
    }
    for cut in [0, 5, 6, 11, 36, 37] {
        assert!(decode_trace(&bytes[..cut]).is_ok(), "cut at {cut}");
    }
}

#[test]
fn decode_refuses_what_is_no_time_step() {
    for seconds in [-0.03f32, f32::NAN, f32::INFINITY, 4096.0, -0.0] {
        let mut bytes = vec![2u8];
        bytes.extend_from_slice(&seconds.to_le_bytes());
        assert_eq!(decode_trace(&bytes), Err(TraceError::MalformedTrace));
        let mut bytes = vec![3u8];
        bytes.extend_from_slice(&seconds.to_le_bytes());
        bytes.extend_from_slice(&[0; 20]);
        assert_eq!(decode_trace(&bytes), Err(TraceError::MalformedTrace));
    }
}

#[test]
fn decode_undoes_encode() {
    let mut game = FlazkyBird::new(false);
    game.new_play(123_456);
    let mut ticks = 0u32;
    while !game.is_over() {
        ticks += 1;
        if ticks % 9 == 0 {
            game.jump();
        }
        game.apply_physics(step(0.03 + (ticks % 7) as f32 * 0.001));
        let o = ticks as i32;
        game.check_collision_and_move_pipes(step(0.03), [o, -o, o * 1000, i32::MIN + o, i32::MAX - o]);
    }
    let trace = game.get_trace();
    assert!(trace.len() > 10);
    let bytes = encode_trace(&trace);
    assert_eq!(decode_trace(&bytes), Ok(trace.clone()));
    assert_eq!(verify_trace(&decode_trace(&bytes).unwrap()), Ok(game.score()));
}
